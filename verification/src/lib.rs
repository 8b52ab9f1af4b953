//! Recipe loading, template inheritance, lifecycle state and layout planning
//! for terminal visual-effect notifications.

pub mod geometry;
pub mod types;
pub mod state;
pub mod manager;
pub mod json;
pub mod layout;
pub mod text;
pub mod template;
pub mod theme;
pub mod config;
pub mod color;
pub mod inspector;
pub mod recipe;
pub mod recipes;
pub mod chrome;
pub mod refs;
pub mod registry;
pub mod grid;
pub mod frame;
pub mod stage;
