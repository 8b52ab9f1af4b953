//! Recipes: phases, errors, metadata, and the checks made on a recipe
//! document before its definition is read.

use vstd::prelude::*;
use vstd::string::StrSliceExecFns;
use vstd::string::StringExecFns;
use crate::json::{JsonValue, JValue, obj_view, json_text, json_wf, parse_json_text};
use crate::text::{dec, push_decimal, input_snippet, snippet};
use crate::template::{TemplateResolutionError, circular_text, path_error_text};
use crate::inspector::{debug_text, quoted};

verus! {

/// A phase of a recipe's effects.
#[derive(Debug, Clone, Copy, PartialEq, Eq, Structural)]
pub enum Phase {
    Enter,
    Dwell,
    Exit,
}

impl Phase {
    /// The phase name in lower case.
    pub fn as_str(&self) -> (r: &'static str)
        ensures
            r@ == (match self {
                Phase::Enter => "enter"@,
                Phase::Dwell => "dwell"@,
                Phase::Exit => "exit"@,
            }),
    {
        match self {
            Phase::Enter => "enter",
            Phase::Dwell => "dwell",
            Phase::Exit => "exit",
        }
    }
}

/// What can go wrong with a recipe.
#[derive(Debug, Clone)]
pub enum RecipeError {
    /// A file could not be read.
    IoError(String),
    /// The JSON or its structure is invalid.
    ParseError(String),
    /// The recipe is structurally valid but breaks a rule.
    ValidationError(String),
    /// Template resolution failed.
    TemplateError(String),
}

impl RecipeError {
    /// The error message: a kind prefix and the detail.
    pub fn message(&self) -> (r: String)
        ensures
            r@ == (match self {
                RecipeError::IoError(m) => "I/O error: "@ + m@,
                RecipeError::ParseError(m) => "Parse error: "@ + m@,
                RecipeError::ValidationError(m) => "Validation error: "@ + m@,
                RecipeError::TemplateError(m) => "Template error: "@ + m@,
            }),
    {
        let (prefix, m) = match self {
            RecipeError::IoError(m) => ("I/O error: ", m),
            RecipeError::ParseError(m) => ("Parse error: ", m),
            RecipeError::ValidationError(m) => ("Validation error: ", m),
            RecipeError::TemplateError(m) => ("Template error: ", m),
        };
        let mut s = String::from_str(prefix);
        s.append(m.as_str());
        s
    }
}

/// What can go wrong loading a plain config.
#[derive(Debug, Clone)]
pub enum ConfigLoadError {
    IoError(String),
    ParseError(String),
}

impl ConfigLoadError {
    /// The error message: a kind prefix and the detail.
    pub fn message(&self) -> (r: String)
        ensures
            r@ == (match self {
                ConfigLoadError::IoError(m) => "I/O error: "@ + m@,
                ConfigLoadError::ParseError(m) => "Parse error: "@ + m@,
            }),
    {
        let (prefix, m) = match self {
            ConfigLoadError::IoError(m) => ("I/O error: ", m),
            ConfigLoadError::ParseError(m) => ("Parse error: ", m),
        };
        let mut s = String::from_str(prefix);
        s.append(m.as_str());
        s
    }
}

/// Whether a character is an ASCII digit.
pub open spec fn is_digit(c: char) -> bool {
    48 <= c as int <= 57
}

/// The value of a string of decimal digits.
pub open spec fn digits_value(s: Seq<char>) -> int
    decreases s.len(),
{
    if s.len() == 0 {
        0
    } else {
        digits_value(s.drop_last()) * 10 + (s.last() as int - 48)
    }
}

/// The unsigned integer a JSON number's text denotes: non-empty decimal
/// digits whose value fits in a `u64`. Other numbers (negative, fractional,
/// exponent forms, too large) have none.
pub open spec fn spec_number_u64(s: Seq<char>) -> Option<u64> {
    if s.len() > 0 && (forall|i: int| 0 <= i < s.len() ==> is_digit(#[trigger] s[i])) && digits_value(s) <= u64::MAX {
        Some(digits_value(s) as u64)
    } else {
        None
    }
}

proof fn lemma_digits_value_nonneg(s: Seq<char>)
    requires
        forall|i: int| 0 <= i < s.len() ==> is_digit(#[trigger] s[i]),
    ensures
        digits_value(s) >= 0,
    decreases s.len(),
{
    if s.len() > 0 {
        lemma_digits_value_nonneg(s.drop_last());
    }
}

proof fn lemma_digits_value_grows(s: Seq<char>, i: int)
    requires
        0 <= i <= s.len(),
        forall|k: int| 0 <= k < s.len() ==> is_digit(#[trigger] s[k]),
    ensures
        digits_value(s.take(i)) <= digits_value(s),
    decreases s.len() - i,
{
    if i < s.len() {
        lemma_digits_value_grows(s, i + 1);
        assert(s.take(i + 1).drop_last() =~= s.take(i));
        assert(forall|k: int| 0 <= k < s.take(i).len() ==> is_digit(#[trigger] s.take(i)[k]));
        lemma_digits_value_nonneg(s.take(i));
    } else {
        assert(s.take(i) =~= s);
    }
}

/// Reads the unsigned integer a JSON number's text denotes.
pub fn number_as_u64(text: &String) -> (r: Option<u64>)
    ensures
        r == spec_number_u64(text@),
{
    let t = text.as_str();
    let n = t.unicode_len();
    if n == 0 {
        return None;
    }
    let mut v: u64 = 0;
    let mut i: usize = 0;
    while i < n
        invariant
            t@ == text@,
            n == text@.len(),
            0 < n,
            i <= n,
            forall|k: int| 0 <= k < i ==> is_digit(#[trigger] text@[k]),
            v == digits_value(text@.take(i as int)),
        decreases n - i,
    {
        let c = t.get_char(i);
        if !('0' <= c && c <= '9') {
            proof {
                assert(!is_digit(text@[i as int]));
            }
            return None;
        }
        let d = (c as u32 - '0' as u32) as u64;
        proof {
            assert(text@.take(i + 1).drop_last() =~= text@.take(i as int));
            assert(text@.take(i + 1).last() == c);
        }
        let next = match v.checked_mul(10) {
            Some(m) => m.checked_add(d),
            None => None,
        };
        match next {
            Some(s) => {
                v = s;
            },
            None => {
                proof {
                    assert(digits_value(text@.take(i + 1)) > u64::MAX);
                    if forall|k: int| 0 <= k < text@.len() ==> is_digit(#[trigger] text@[k]) {
                        lemma_digits_value_grows(text@, i + 1);
                    }
                }
                return None;
            },
        }
        i = i + 1;
    }
    proof {
        assert(text@.take(n as int) =~= text@);
    }
    Some(v)
}


/// A field of an object document, if present.
pub open spec fn field(doc: JValue, key: Seq<char>) -> Option<JValue> {
    match doc {
        JValue::Object(m) => if m.contains_key(key) {
            Some(m[key])
        } else {
            None
        },
        _ => None,
    }
}

/// A field's value as an unsigned integer, if it is one.
pub open spec fn field_u64(doc: JValue, key: Seq<char>) -> Option<u64> {
    match field(doc, key) {
        Some(JValue::Number(t)) => spec_number_u64(t),
        _ => None,
    }
}

/// A field's value as a string, if it is one.
pub open spec fn field_str(doc: JValue, key: Seq<char>) -> Option<Seq<char>> {
    match field(doc, key) {
        Some(JValue::Str(t)) => Some(t),
        _ => None,
    }
}

/// Reads an unsigned integer field.
pub fn get_u64(doc: &JsonValue, key: &str) -> (r: Option<u64>)
    ensures
        r == field_u64(doc.jv(), key@),
{
    match doc.get_lit(key) {
        Some(v) => match v {
            JsonValue::Number(t) => number_as_u64(t),
            _ => None,
        },
        None => None,
    }
}

/// Reads a string field.
pub fn get_str(doc: &JsonValue, key: &str) -> (r: Option<String>)
    ensures
        match r {
            Some(s) => field_str(doc.jv(), key@) == Some(s@),
            None => field_str(doc.jv(), key@) is None,
        },
{
    match doc.get_lit(key) {
        Some(v) => match v.as_str() {
            Some(s) => Some(s.clone()),
            None => None,
        },
        None => None,
    }
}

/// Checks a recipe document's `schema_version`: it must be an unsigned
/// integer of at least 2.
pub fn check_schema_version(doc: &JsonValue) -> (r: Result<u64, RecipeError>)
    ensures
        match field_u64(doc.jv(), "schema_version"@) {
            None => r matches Err(RecipeError::ParseError(m))
                && m@ == "Missing or invalid 'schema_version' field. Recipes require schema_version >= 2"@,
            Some(v) => if v >= 2 {
                r matches Ok(x) && x == v
            } else {
                r matches Err(RecipeError::ParseError(m))
                    && m@ == "Invalid schema_version="@ + dec(v as nat) + ". Recipes require schema_version >= 2."@
            },
        },
{
    match get_u64(doc, "schema_version") {
        None => Err(RecipeError::ParseError(String::from_str(
            "Missing or invalid 'schema_version' field. Recipes require schema_version >= 2",
        ))),
        Some(v) => {
            if v < 2 {
                let mut m = String::from_str("Invalid schema_version=");
                push_decimal(&mut m, v);
                m.append(". Recipes require schema_version >= 2.");
                Err(RecipeError::ParseError(m))
            } else {
                Ok(v)
            }
        },
    }
}

/// What a recipe document says about itself before it is parsed: its id
/// and title (`"<unknown>"` when missing) and its schema version (1 when missing).
pub fn recipe_hints(doc: &JsonValue) -> (r: (String, String, u64))
    ensures
        r.0@ == (match field_str(doc.jv(), "id"@) {
            Some(s) => s,
            None => "<unknown>"@,
        }),
        r.1@ == (match field_str(doc.jv(), "title"@) {
            Some(s) => s,
            None => "<unknown>"@,
        }),
        r.2 == (match field_u64(doc.jv(), "schema_version"@) {
            Some(v) => v,
            None => 1,
        }),
{
    let id = match get_str(doc, "id") {
        Some(s) => s,
        None => String::from_str("<unknown>"),
    };
    let title = match get_str(doc, "title") {
        Some(s) => s,
        None => String::from_str("<unknown>"),
    };
    let v = match get_u64(doc, "schema_version") {
        Some(v) => v,
        None => 1,
    };
    (id, title, v)
}

/// What the schema-version check gives for a document: the version, or the
/// error message.
pub open spec fn schema_outcome(doc: JValue) -> Result<u64, Seq<char>> {
    match field_u64(doc, "schema_version"@) {
        None => Err("Missing or invalid 'schema_version' field. Recipes require schema_version >= 2"@),
        Some(v) => if v >= 2 {
            Ok(v)
        } else {
            Err("Invalid schema_version="@ + dec(v as nat) + ". Recipes require schema_version >= 2."@)
        },
    }
}

/// The message for text that is not JSON: what was being read, the
/// reader's error, and the input as echoed.
pub open spec fn json_failure_message(what: Seq<char>, err: Seq<char>, text: Seq<char>) -> Seq<char> {
    what + ": "@ + err + ". Input: "@ + input_snippet(text)
}

fn json_failure(what: &str, err: &String, text: &str) -> (m: String)
    ensures
        m@ == json_failure_message(what@, err@, text@),
{
    let mut m = String::from_str(what);
    m.append(": ");
    m.append(err.as_str());
    m.append(". Input: ");
    let sn = snippet(text);
    m.append(sn.as_str());
    proof {
        reveal_strlit(": ");
        reveal_strlit(". Input: ");
    }
    m
}

/// Reads a recipe document from JSON text and checks its schema version.
///
/// Returns the document and its version; a `ParseError` when the text is
/// not JSON (with the reader's message and the input echoed) or the version
/// is missing or below 2.
pub fn parse_recipe_text(text: &str) -> (r: Result<(JsonValue, u64), RecipeError>)
    ensures
        match json_text(text@) {
            Err(e) => r matches Err(RecipeError::ParseError(m)) && m@ == json_failure_message(
                "Failed to parse JSON"@,
                e,
                text@,
            ),
            Ok(d) => match schema_outcome(d) {
                Ok(v) => r matches Ok((doc, x)) && doc.jv() == d && json_wf(doc) && x == v,
                Err(m) => r matches Err(RecipeError::ParseError(t)) && t@ == m,
            },
        },
{
    match parse_json_text(text) {
        Err(e) => {
            let m = json_failure("Failed to parse JSON", &e, text);
            proof {
                reveal_strlit("Failed to parse JSON");
            }
            Err(RecipeError::ParseError(m))
        },
        Ok(doc) => match check_schema_version(&doc) {
            Ok(v) => Ok((doc, v)),
            Err(e) => Err(e),
        },
    }
}

/// A document's id or title as a hint for messages, `"<unknown>"` when absent.
pub open spec fn hint_text(doc: JValue, key: Seq<char>) -> Seq<char> {
    match field_str(doc, key) {
        Some(t) => t,
        None => "<unknown>"@,
    }
}

/// A document's schema version as a hint, 1 when absent.
pub open spec fn hint_version(doc: JValue) -> u64 {
    match field_u64(doc, "schema_version"@) {
        Some(v) => v,
        None => 1,
    }
}

/// The refusal of a recipe in the retired first schema.
pub open spec fn v1_message(id: Seq<char>, title: Seq<char>) -> Seq<char> {
    "V1 recipes are deprecated. Recipe id="@ + id + " title="@ + title
        + " uses schema_version=1. Use ratatui_notifications::recipes::json_recipe_dyn() for V1 compatibility."@
}

/// Reads a recipe document for a dynamic recipe from JSON text.
///
/// Returns the document with its id and title hints; an error message when
/// the text is not JSON, or when its schema version, taken as 32 bits, is 0.
pub fn parse_dyn_recipe_text(text: &str) -> (r: Result<(JsonValue, String, String), String>)
    ensures
        match json_text(text@) {
            Err(e) => r matches Err(m) && m@ == json_failure_message("Failed to parse JSON recipe"@, e, text@),
            Ok(d) => if (hint_version(d) as u32) >= 1 {
                r matches Ok((doc, id, title)) && doc.jv() == d && json_wf(doc) && id@ == hint_text(d, "id"@)
                    && title@ == hint_text(d, "title"@)
            } else {
                r matches Err(m) && m@ == v1_message(hint_text(d, "id"@), hint_text(d, "title"@))
            },
        },
{
    match parse_json_text(text) {
        Err(e) => {
            let m = json_failure("Failed to parse JSON recipe", &e, text);
            proof {
                reveal_strlit("Failed to parse JSON recipe");
            }
            Err(m)
        },
        Ok(doc) => {
            let (id, title, v) = recipe_hints(&doc);
            if (v as u32) >= 1 {
                Ok((doc, id, title))
            } else {
                let mut m = String::from_str("V1 recipes are deprecated. Recipe id=");
                m.append(id.as_str());
                m.append(" title=");
                m.append(title.as_str());
                m.append(
                    " uses schema_version=1. Use ratatui_notifications::recipes::json_recipe_dyn() for V1 compatibility.",
                );
                proof {
                    reveal_strlit("V1 recipes are deprecated. Recipe id=");
                    reveal_strlit(" title=");
                }
                Err(m)
            }
        },
    }
}

/// The recipe error that loading a recipe file reports for a failed
/// template resolution.
pub fn recipe_error_of(e: TemplateResolutionError) -> (r: RecipeError)
    ensures
        match e {
            TemplateResolutionError::IoError { path, message } => r matches RecipeError::IoError(m) && m@
                == "Failed to read recipe at "@ + debug_text(path@) + ": "@ + message@,
            TemplateResolutionError::CircularReference(c) => r matches RecipeError::TemplateError(m) && m@
                == "Circular template reference: "@ + circular_text(c),
            TemplateResolutionError::PathError(p) => r matches RecipeError::TemplateError(m) && m@
                == "Template path error: "@ + path_error_text(p),
            TemplateResolutionError::MaxDepthExceeded => r matches RecipeError::TemplateError(m) && m@
                == "Template inheritance depth exceeded maximum"@,
            TemplateResolutionError::InvalidJson { path, message } => r matches RecipeError::ParseError(m) && m@
                == "Invalid JSON in "@ + debug_text(path@) + ": "@ + message@,
        },
{
    match e {
        TemplateResolutionError::IoError { path, message } => {
            let mut m = String::from_str("Failed to read recipe at ");
            let q = quoted(&path);
            m.append(q.as_str());
            m.append(": ");
            m.append(message.as_str());
            RecipeError::IoError(m)
        },
        TemplateResolutionError::CircularReference(c) => {
            let mut m = String::from_str("Circular template reference: ");
            let t = c.message();
            m.append(t.as_str());
            RecipeError::TemplateError(m)
        },
        TemplateResolutionError::PathError(p) => {
            let mut m = String::from_str("Template path error: ");
            let t = p.message();
            m.append(t.as_str());
            RecipeError::TemplateError(m)
        },
        TemplateResolutionError::MaxDepthExceeded => RecipeError::TemplateError(
            String::from_str("Template inheritance depth exceeded maximum"),
        ),
        TemplateResolutionError::InvalidJson { path, message } => {
            let mut m = String::from_str("Invalid JSON in ");
            let q = quoted(&path);
            m.append(q.as_str());
            m.append(": ");
            m.append(message.as_str());
            RecipeError::ParseError(m)
        },
    }
}

} // verus!
