[package]
name = "tui_vfx_recipes"
version = "0.1.0"
edition = "2021"
publish = false

[dependencies]
mixed-signals = "=0.2.2"
ratatui = "=0.30.2"
serde = { version = "=1.0.229", features = ["derive"] }
serde_json = "=1.0.154"
thiserror = "=2.0.21"
tui-vfx-compositor = "=0.2.6"
tui-vfx-content = "=0.2.6"
tui-vfx-core = "=0.2.6"
tui-vfx-geometry = "=0.2.6"
tui-vfx-style = "=0.2.6"
tui-vfx-types = "=0.2.6"
