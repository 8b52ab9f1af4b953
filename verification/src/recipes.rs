//! Recipe metadata, exported snippets, the recipe traits, and interaction settings.

use vstd::prelude::*;
use vstd::string::StringExecFns;
use crate::color::ModifierFlags;

verus! {

/// Identity of a recipe.
#[derive(Debug, Clone, PartialEq, Eq)]
pub struct RecipeMeta {
    pub id: String,
    pub title: String,
    pub description: String,
}

impl RecipeMeta {
    /// Metadata from string constants (built-in recipes).
    pub fn from_static(id: &'static str, title: &'static str, description: &'static str) -> (m: RecipeMeta)
        ensures
            m.id@ == id@,
            m.title@ == title@,
            m.description@ == description@,
    {
        RecipeMeta { id: String::from_str(id), title: String::from_str(title), description: String::from_str(description) }
    }

    /// A copy of this metadata.
    pub fn copy(&self) -> (m: RecipeMeta)
        ensures
            m == *self,
    {
        RecipeMeta { id: self.id.clone(), title: self.title.clone(), description: self.description.clone() }
    }

    /// Metadata from owned strings (loaded recipes).
    pub fn from_owned(id: String, title: String, description: String) -> (m: RecipeMeta)
        ensures
            m.id == id,
            m.title == title,
            m.description == description,
    {
        RecipeMeta { id, title, description }
    }
}

/// A Rust snippet that rebuilds a recipe's output.
#[derive(Debug, Clone, PartialEq, Eq)]
pub struct RustSnippet {
    /// One `use ...;` line each.
    pub uses: Vec<String>,
    /// The snippet body.
    pub body: String,
}

/// A reusable, configurable preset.
pub trait Recipe {
    type Config;
    type Output;

    /// The recipe's identity.
    fn meta(&self) -> RecipeMeta;

    /// Builds the recipe's output from a configuration.
    fn build(&self, cfg: &Self::Config) -> Self::Output;
}

/// A recipe that can export a Rust snippet for a configuration.
pub trait RecipeExport: Recipe {
    fn export_rust(&self, cfg: &Self::Config) -> RustSnippet;
}

/// How interaction states combine.
#[derive(Debug, Clone, Copy, PartialEq, Eq, Structural)]
pub enum StateCompositionMode {
    /// States stack (hover and focus both show).
    Layered,
    /// Only the highest-priority state shows.
    Exclusive,
    /// States blend by priority.
    Blended,
}

impl Default for StateCompositionMode {
    fn default() -> (r: StateCompositionMode)
        ensures
            r == StateCompositionMode::Layered,
    {
        StateCompositionMode::Layered
    }
}

/// The upper-case form of a string, as `str::to_uppercase` gives it.
pub uninterp spec fn uppercase(s: Seq<char>) -> Seq<char>;

/// `str::to_uppercase`: the string with every character in upper case, by
/// Unicode's rules. Only the name of the result is claimed.
#[verifier::external_body]
fn to_upper(s: &String) -> (r: String)
    ensures
        r@ == uppercase(s@),
{
    s.to_uppercase()
}

/// The flags with the one an upper-case modifier name stands for set;
/// unknown names leave them unchanged.
pub open spec fn flag_named(f: ModifierFlags, s: Seq<char>) -> ModifierFlags {
    if s == "BOLD"@ {
        ModifierFlags { bold: true, ..f }
    } else if s == "ITALIC"@ {
        ModifierFlags { italic: true, ..f }
    } else if s == "UNDERLINE"@ || s == "UNDERLINED"@ {
        ModifierFlags { underline: true, ..f }
    } else if s == "DIM"@ {
        ModifierFlags { dim: true, ..f }
    } else if s == "REVERSE"@ || s == "REVERSED"@ {
        ModifierFlags { reverse: true, ..f }
    } else if s == "STRIKETHROUGH"@ || s == "CROSSED_OUT"@ {
        ModifierFlags { strikethrough: true, ..f }
    } else if s == "SLOW_BLINK"@ {
        ModifierFlags { slow_blink: true, ..f }
    } else if s == "RAPID_BLINK"@ {
        ModifierFlags { rapid_blink: true, ..f }
    } else if s == "HIDDEN"@ {
        ModifierFlags { hidden: true, ..f }
    } else {
        f
    }
}

/// The flags the first `k` names turn on.
pub open spec fn flags_named(ss: Seq<String>, k: int) -> ModifierFlags
    decreases k,
{
    if k <= 0 {
        crate::color::no_flags()
    } else {
        flag_named(flags_named(ss, k - 1), uppercase(ss[k - 1]@))
    }
}

fn is(s: &String, lit: &str) -> (r: bool)
    ensures
        r == (s@ == lit@),
{
    let l = String::from_str(lit);
    *s == l
}

/// The modifiers named in `strings` (any letter case; unknown names are
/// ignored), or `None` when there are no names at all.
pub fn strings_to_modifiers(strings: &Vec<String>) -> (r: Option<ModifierFlags>)
    ensures
        strings@.len() == 0 ==> r is None,
        strings@.len() > 0 ==> r == Some(flags_named(strings@, strings@.len() as int)),
{
    if strings.len() == 0 {
        return None;
    }
    let mut f = ModifierFlags {
        bold: false,
        italic: false,
        underline: false,
        dim: false,
        reverse: false,
        strikethrough: false,
        slow_blink: false,
        rapid_blink: false,
        hidden: false,
    };
    let mut i: usize = 0;
    while i < strings.len()
        invariant
            i <= strings.len(),
            f == flags_named(strings@, i as int),
        decreases strings.len() - i,
    {
        let u = to_upper(&strings[i]);
        if is(&u, "BOLD") {
            f.bold = true;
        } else if is(&u, "ITALIC") {
            f.italic = true;
        } else if is(&u, "UNDERLINE") || is(&u, "UNDERLINED") {
            f.underline = true;
        } else if is(&u, "DIM") {
            f.dim = true;
        } else if is(&u, "REVERSE") || is(&u, "REVERSED") {
            f.reverse = true;
        } else if is(&u, "STRIKETHROUGH") || is(&u, "CROSSED_OUT") {
            f.strikethrough = true;
        } else if is(&u, "SLOW_BLINK") {
            f.slow_blink = true;
        } else if is(&u, "RAPID_BLINK") {
            f.rapid_blink = true;
        } else if is(&u, "HIDDEN") {
            f.hidden = true;
        }
        i = i + 1;
    }
    Some(f)
}

} // verus!
