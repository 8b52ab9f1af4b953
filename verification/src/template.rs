//! Template inheritance: a recipe names a base template in its `"extends"`
//! field; the template is resolved (within the project root), loaded, resolved
//! in turn, and deep-merged under the recipe.
//!
//! Reading files and canonicalising paths are done by the caller: the walk
//! below says which file to read or which reference to resolve next, and is
//! told what came back.

use vstd::prelude::*;
use vstd::multiset::Multiset;
use vstd::string::StrSliceExecFns;
use vstd::string::StringExecFns;
use crate::json::{json_text, parse_json_text, 
    JsonValue, JValue, json_wf, spec_merge, extends_key, deep_merge_json, obj_view, keys_unique,
    entries_wf, find_last_key, lemma_obj_view_remove, lemma_obj_view_absent,
    lemma_entries_wf_after_remove,
};
use crate::text::{lex_sorted, sort_strings};
use crate::inspector::{debug_text, quoted};

verus! {

/// Deepest template nesting followed before giving up.
pub const MAX_TEMPLATE_DEPTH: usize = 10;

/// Why a template reference could not be resolved to a file.
#[derive(Debug, Clone)]
pub enum TemplatePathError {
    /// The template resolved to a file outside the project root.
    PathTraversal { template: String, resolved: String, project_root: String },
    /// The template file does not exist.
    TemplateNotFound { path: String },
    /// The recipe path has no parent directory.
    InvalidRecipePath(String),
    /// The project root could not be canonicalised.
    InvalidProjectRoot(String),
}

/// A template chain that comes back to a file already on it.
#[derive(Debug, Clone)]
pub struct CircularReferenceError {
    /// The files seen so far, sorted, then the file that closed the cycle.
    pub chain: Vec<String>,
}

/// Why template resolution failed.
#[derive(Debug, Clone)]
pub enum TemplateResolutionError {
    CircularReference(CircularReferenceError),
    PathError(TemplatePathError),
    /// A file could not be read.
    IoError { path: String, message: String },
    /// A file did not hold valid JSON.
    InvalidJson { path: String, message: String },
    /// The chain of templates is deeper than `MAX_TEMPLATE_DEPTH`.
    MaxDepthExceeded,
}

/// The parent directory of a path, as `std::path::Path::parent` gives it on
/// the platform the crate is built for.
pub uninterp spec fn path_parent(p: Seq<char>) -> Option<Seq<char>>;

/// A path adjoined to a base, as `std::path::Path::join` gives it on the
/// platform the crate is built for.
pub uninterp spec fn path_join(base: Seq<char>, rel: Seq<char>) -> Seq<char>;

/// Whether `base` is a whole-component prefix of `p`, as
/// `std::path::Path::starts_with` says on the platform the crate is built for.
pub uninterp spec fn path_starts_with(p: Seq<char>, base: Seq<char>) -> bool;

/// Whether two paths are equal as `std::path::Path` compares them (by their
/// components) on the platform the crate is built for.
pub uninterp spec fn same_path(a: Seq<char>, b: Seq<char>) -> bool;

/// `std::path::Path`'s `==`: whether the two paths have the same components.
/// Claimed: the result is `same_path` of the two; as `Path` is `Eq`, it is
/// symmetric and a text is always the same path as itself.
#[verifier::external_body]
fn path_eq(a: &String, b: &String) -> (r: bool)
    ensures
        r == same_path(a@, b@),
        r == same_path(b@, a@),
        a@ == b@ ==> r,
{
    std::path::Path::new(a.as_str()) == std::path::Path::new(b.as_str())
}

/// `std::path::Path::parent`: the path without its final component, or
/// `None` for a root or empty path. Nothing more about the result is claimed.
#[verifier::external_body]
fn parent_of(p: &String) -> (r: Option<String>)
    ensures
        match r {
            Some(q) => path_parent(p@) == Some(q@),
            None => path_parent(p@) is None,
        },
{
    match std::path::Path::new(p.as_str()).parent() {
        Some(q) => Some(q.to_string_lossy().into_owned()),
        None => None,
    }
}

/// `std::path::Path::join`: `rel` adjoined to `base`. Only the name of the
/// result is claimed.
#[verifier::external_body]
fn join_path(base: &String, rel: &str) -> (r: String)
    ensures
        r@ == path_join(base@, rel@),
{
    std::path::Path::new(base.as_str()).join(rel).to_string_lossy().into_owned()
}

/// `std::path::Path::starts_with`: whether `base` is a prefix of `p` by whole
/// components. Only the name of the result is claimed.
#[verifier::external_body]
fn path_has_prefix(p: &String, base: &String) -> (r: bool)
    ensures
        r == path_starts_with(p@, base@),
{
    std::path::Path::new(p.as_str()).starts_with(std::path::Path::new(base.as_str()))
}

/// The path a template reference points at, before canonicalisation: a
/// reference starting with `/` is taken from the project root (without that
/// `/`); any other reference from the recipe's directory.
pub open spec fn spec_template_candidate(project_root: Seq<char>, recipe_path: Seq<char>, template_ref: Seq<char>) -> Option<Seq<char>> {
    if template_ref.len() > 0 && template_ref[0] == '/' {
        Some(path_join(project_root, template_ref.drop_first()))
    } else {
        match path_parent(recipe_path) {
            Some(dir) => Some(path_join(dir, template_ref)),
            None => None,
        }
    }
}

/// Builds the path a template reference points at.
pub fn template_candidate(project_root: &String, recipe_path: &String, template_ref: &String) -> (r: Result<String, TemplatePathError>)
    ensures
        match spec_template_candidate(project_root@, recipe_path@, template_ref@) {
            Some(c) => r matches Ok(s) && s@ == c,
            None => r matches Err(TemplatePathError::InvalidRecipePath(p)) && p@ == recipe_path@,
        },
{
    let t = template_ref.as_str();
    let n = t.unicode_len();
    if n > 0 && t.get_char(0) == '/' {
        let stripped = t.substring_char(1, n);
        proof {
            assert(stripped@ =~= template_ref@.drop_first());
        }
        Ok(join_path(project_root, stripped))
    } else {
        match parent_of(recipe_path) {
            Some(dir) => Ok(join_path(&dir, t)),
            None => Err(TemplatePathError::InvalidRecipePath(recipe_path.clone())),
        }
    }
}

/// Resolves a template reference to its file, refusing any file outside the project root.
///
/// `canonical_template` is the canonical form of the candidate path
/// (`None` when it does not exist) and `canonical_root` that of the project
/// root (`None` when it cannot be canonicalised). In order: a recipe without
/// a parent directory gives `InvalidRecipePath`; a missing template
/// `TemplateNotFound` with the candidate path; a bad root
/// `InvalidProjectRoot`; a template outside the root `PathTraversal`;
/// otherwise the canonical template path.
pub fn resolve_template_path(
    project_root: &String,
    recipe_path: &String,
    template_ref: &String,
    canonical_template: Option<String>,
    canonical_root: Option<String>,
) -> (r: Result<String, TemplatePathError>)
    ensures
        match spec_template_candidate(project_root@, recipe_path@, template_ref@) {
            None => r matches Err(TemplatePathError::InvalidRecipePath(p)) && p@ == recipe_path@,
            Some(c) => match (canonical_template, canonical_root) {
                (None, _) => r matches Err(TemplatePathError::TemplateNotFound { path }) && path@ == c,
                (Some(t), None) => r matches Err(TemplatePathError::InvalidProjectRoot(p)) && p@ == project_root@,
                (Some(t), Some(root)) => if path_starts_with(t@, root@) {
                    r matches Ok(s) && s@ == t@
                } else {
                    r matches Err(TemplatePathError::PathTraversal { template, resolved, project_root: pr })
                        && template@ == template_ref@ && resolved@ == t@ && pr@ == root@
                },
            },
        },
{
    let candidate = match template_candidate(project_root, recipe_path, template_ref) {
        Ok(c) => c,
        Err(e) => {
            return Err(e);
        },
    };
    let t = match canonical_template {
        Some(t) => t,
        None => {
            return Err(TemplatePathError::TemplateNotFound { path: candidate });
        },
    };
    let root = match canonical_root {
        Some(root) => root,
        None => {
            return Err(TemplatePathError::InvalidProjectRoot(project_root.clone()));
        },
    };
    if !path_has_prefix(&t, &root) {
        return Err(TemplatePathError::PathTraversal { template: template_ref.clone(), resolved: t, project_root: root });
    }
    Ok(t)
}

/// The views of some strings.
pub open spec fn views(s: Seq<String>) -> Seq<Seq<char>> {
    s.map_values(|x: String| x@)
}

/// A path equal to `s` (the same text, or the same path as `Path` compares
/// them) occurs among the strings.
pub open spec fn mentions(v: Seq<String>, s: Seq<char>) -> bool {
    exists|i: int| 0 <= i < v.len() && (v[i]@ == s || same_path(v[i]@, s))
}

/// The text `s` occurs among the strings.
pub open spec fn listed(v: Seq<String>, s: Seq<char>) -> bool {
    exists|i: int| 0 <= i < v.len() && v[i]@ == s
}

/// Whether a path equal to `s` occurs among `v`.
fn contains_path(v: &Vec<String>, s: &String) -> (r: bool)
    ensures
        r == mentions(v@, s@),
{
    let mut i: usize = 0;
    while i < v.len()
        invariant
            i <= v.len(),
            forall|j: int| 0 <= j < i ==> !(v@[j]@ == s@ || same_path(v@[j]@, s@)),
        decreases v.len() - i,
    {
        if path_eq(&v[i], s) {
            return true;
        }
        i = i + 1;
    }
    false
}

/// Refuses `recipe_path` when it was already visited on this resolution chain.
///
/// The error's chain holds the visited paths in sorted order followed by
/// `recipe_path`.
pub fn validate_no_circular_ref(recipe_path: &String, visited: &Vec<String>) -> (r: Result<(), CircularReferenceError>)
    ensures
        r is Ok <==> !mentions(visited@, recipe_path@),
        r matches Err(e) ==> {
            &&& e.chain@.len() == visited@.len() + 1
            &&& e.chain@.last() == *recipe_path
            &&& e.chain@.drop_last().to_multiset() == visited@.to_multiset()
            &&& lex_sorted(e.chain@.drop_last())
        },
{
    if contains_path(visited, recipe_path) {
        let mut copy: Vec<String> = Vec::new();
        let mut i: usize = 0;
        while i < visited.len()
            invariant
                i <= visited.len(),
                copy@ == visited@.take(i as int),
            decreases visited.len() - i,
        {
            copy.push(visited[i].clone());
            i = i + 1;
            proof {
                assert(copy@ =~= visited@.take(i as int));
            }
        }
        proof {
            assert(visited@.take(visited.len() as int) =~= visited@);
        }
        let mut chain = sort_strings(copy);
        let ghost sorted = chain@;
        chain.push(recipe_path.clone());
        proof {
            broadcast use vstd::seq_lib::group_to_multiset_ensures;
            assert(chain@.drop_last() =~= sorted);
            assert(sorted.len() == sorted.to_multiset().len());
            assert(visited@.len() == visited@.to_multiset().len());
        }
        Err(CircularReferenceError { chain })
    } else {
        Ok(())
    }
}

/// The text of `parts` with `sep` between consecutive parts.
pub open spec fn join_with(parts: Seq<Seq<char>>, sep: Seq<char>) -> Seq<char>
    decreases parts.len(),
{
    if parts.len() == 0 {
        Seq::empty()
    } else if parts.len() == 1 {
        parts[0]
    } else {
        join_with(parts.drop_last(), sep) + sep + parts.last()
    }
}

/// The chain as text, paths separated by arrows.
pub fn format_chain(chain: &Vec<String>) -> (r: String)
    ensures
        r@ == join_with(views(chain@), " → "@),
{
    let mut out = String::new();
    let mut i: usize = 0;
    while i < chain.len()
        invariant
            i <= chain.len(),
            out@ == join_with(views(chain@.take(i as int)), " → "@),
        decreases chain.len() - i,
    {
        if i > 0 {
            out.append(" → ");
        }
        out.append(chain[i].as_str());
        proof {
            assert(views(chain@.take(i + 1)).drop_last() =~= views(chain@.take(i as int)));
            assert(views(chain@.take(i + 1)).last() == chain@[i as int]@);
            if i == 0 {
                assert(views(chain@.take(0)) =~= Seq::<Seq<char>>::empty());
            }
        }
        i = i + 1;
    }
    proof {
        assert(chain@.take(chain.len() as int) =~= chain@);
    }
    out
}

/// The message of a circular-reference error.
pub open spec fn circular_text(c: CircularReferenceError) -> Seq<char> {
    "Circular template reference detected\n  Chain: "@ + join_with(views(c.chain@), " → "@)
        + "\n\nSuggestion: Check the 'extends' fields in these recipes to break the cycle."@
}

/// The message of a template path error; paths are shown as `Debug` writes them.
pub open spec fn path_error_text(e: TemplatePathError) -> Seq<char> {
    match e {
        TemplatePathError::PathTraversal { template, resolved, project_root } => "Path traversal attempt detected\n  Template reference: "@
            + template@ + "\n  Resolved to: "@ + debug_text(resolved@) + "\n  Project root: "@ + debug_text(
            project_root@,
        ) + "\n\nSecurity policy: Templates must reside within the project root directory."@,
        TemplatePathError::TemplateNotFound { path } => "Template not found: "@ + debug_text(path@)
            + "\n\nEnsure the template file exists and the path is correct."@,
        TemplatePathError::InvalidRecipePath(p) => "Invalid recipe path: "@ + debug_text(p@),
        TemplatePathError::InvalidProjectRoot(p) => "Invalid project root: "@ + debug_text(p@),
    }
}

/// The message of a template resolution error.
pub open spec fn resolution_error_text(e: TemplateResolutionError) -> Seq<char> {
    match e {
        TemplateResolutionError::CircularReference(c) => "Circular template reference: "@ + circular_text(c),
        TemplateResolutionError::PathError(p) => "Template path error: "@ + path_error_text(p),
        TemplateResolutionError::IoError { path, message } => "Failed to read template file "@ + path@ + ": "@
            + message@,
        TemplateResolutionError::InvalidJson { path, message } => "Invalid JSON in "@ + path@ + ": "@ + message@,
        TemplateResolutionError::MaxDepthExceeded => "Maximum template inheritance depth (10) exceeded\n  This usually indicates a circular reference that was not caught."@,
    }
}

impl TemplatePathError {
    /// The error message.
    pub fn message(&self) -> (r: String)
        ensures
            r@ == path_error_text(*self),
    {
        match self {
            TemplatePathError::PathTraversal { template, resolved, project_root } => {
                let mut s = String::from_str("Path traversal attempt detected\n  Template reference: ");
                s.append(template.as_str());
                s.append("\n  Resolved to: ");
                let q = quoted(resolved);
                s.append(q.as_str());
                s.append("\n  Project root: ");
                let q = quoted(project_root);
                s.append(q.as_str());
                s.append("\n\nSecurity policy: Templates must reside within the project root directory.");
                s
            },
            TemplatePathError::TemplateNotFound { path } => {
                let mut s = String::from_str("Template not found: ");
                let q = quoted(path);
                s.append(q.as_str());
                s.append("\n\nEnsure the template file exists and the path is correct.");
                s
            },
            TemplatePathError::InvalidRecipePath(p) => {
                let mut s = String::from_str("Invalid recipe path: ");
                let q = quoted(p);
                s.append(q.as_str());
                s
            },
            TemplatePathError::InvalidProjectRoot(p) => {
                let mut s = String::from_str("Invalid project root: ");
                let q = quoted(p);
                s.append(q.as_str());
                s
            },
        }
    }
}

impl TemplateResolutionError {
    /// The error message.
    pub fn message(&self) -> (r: String)
        ensures
            r@ == resolution_error_text(*self),
    {
        match self {
            TemplateResolutionError::CircularReference(c) => {
                let mut s = String::from_str("Circular template reference: ");
                let m = c.message();
                s.append(m.as_str());
                s
            },
            TemplateResolutionError::PathError(p) => {
                let mut s = String::from_str("Template path error: ");
                let m = p.message();
                s.append(m.as_str());
                s
            },
            TemplateResolutionError::IoError { path, message } => {
                let mut s = String::from_str("Failed to read template file ");
                s.append(path.as_str());
                s.append(": ");
                s.append(message.as_str());
                s
            },
            TemplateResolutionError::InvalidJson { path, message } => {
                let mut s = String::from_str("Invalid JSON in ");
                s.append(path.as_str());
                s.append(": ");
                s.append(message.as_str());
                s
            },
            TemplateResolutionError::MaxDepthExceeded => String::from_str(
                "Maximum template inheritance depth (10) exceeded\n  This usually indicates a circular reference that was not caught.",
            ),
        }
    }
}

impl CircularReferenceError {
    /// The error message.
    pub fn message(&self) -> (r: String)
        ensures
            r@ == circular_text(*self),
    {
        let mut s = String::from_str("Circular template reference detected\n  Chain: ");
        let c = format_chain(&self.chain);
        s.append(c.as_str());
        s.append("\n\nSuggestion: Check the 'extends' fields in these recipes to break the cycle.");
        s
    }
}

/// A document with its `"extends"` field removed (objects only).
pub open spec fn strip_extends(v: JValue) -> JValue {
    match v {
        JValue::Object(m) => JValue::Object(m.remove(extends_key())),
        _ => v,
    }
}

/// The fully resolved document of a chain: `docs[0]` is the recipe,
/// `docs[i + 1]` the template that `docs[i]` extends. Each document is merged
/// over the resolution of its template, and `"extends"` is removed.
pub open spec fn spec_resolve_chain(docs: Seq<JValue>) -> JValue
    decreases docs.len(),
{
    if docs.len() <= 1 {
        strip_extends(docs[0])
    } else {
        strip_extends(spec_merge(spec_resolve_chain(docs.drop_first()), docs[0]))
    }
}

/// The template a document names: its `"extends"` field when that is a non-empty string.
pub open spec fn spec_extends_ref(v: JValue) -> Option<Seq<char>> {
    match v {
        JValue::Object(m) => if m.contains_key(extends_key()) && m[extends_key()] is Str
            && m[extends_key()]->Str_0.len() > 0 {
            Some(m[extends_key()]->Str_0)
        } else {
            None
        },
        _ => None,
    }
}

/// Removes the `"extends"` field of an object.
pub fn strip_extends_field(v: JsonValue) -> (r: JsonValue)
    requires
        json_wf(v),
    ensures
        json_wf(r),
        r.jv() == strip_extends(v.jv()),
{
    match v {
        JsonValue::Object(entries) => {
            let mut entries = entries;
            let key = String::from_str("extends");
            proof {
                reveal_strlit("extends");
            }
            match find_last_key(&entries, &key) {
                Some(j) => {
                    let ghost before = entries@;
                    let _removed = entries.remove(j);
                    proof {
                        lemma_obj_view_remove(before, j as int);
                        lemma_entries_wf_after_remove(before, j as int);
                    }
                },
                None => {
                    proof {
                        lemma_obj_view_absent(entries@, key@);
                        assert(obj_view(entries@).remove(extends_key()) =~= obj_view(entries@));
                    }
                },
            }
            JsonValue::Object(entries)
        },
        other => other,
    }
}

/// The template a document names, if any.
pub fn extends_ref(doc: &JsonValue) -> (r: Option<String>)
    ensures
        match r {
            Some(s) => spec_extends_ref(doc.jv()) == Some(s@),
            None => spec_extends_ref(doc.jv()) is None,
        },
{
    proof {
        reveal_strlit("extends");
    }
    match doc.get_lit("extends") {
        Some(v) => match v.as_str() {
            Some(s) => {
                if s.as_str().unicode_len() > 0 {
                    Some(s.clone())
                } else {
                    None
                }
            },
            None => None,
        },
        None => None,
    }
}

/// The values of the documents.
pub open spec fn doc_views(docs: Seq<JsonValue>) -> Seq<JValue> {
    docs.map_values(|d: JsonValue| d.jv())
}

/// All documents are well-formed.
pub open spec fn docs_wf(docs: Seq<JsonValue>) -> bool {
    forall|i: int| 0 <= i < docs.len() ==> json_wf(#[trigger] docs[i])
}

/// Merges a loaded chain (recipe first, deepest template last) into one document.
pub fn merge_chain(docs: Vec<JsonValue>) -> (r: JsonValue)
    requires
        docs.len() >= 1,
        docs_wf(docs@),
    ensures
        json_wf(r),
        r.jv() == spec_resolve_chain(doc_views(docs@)),
{
    let ghost all = docs@;
    let mut docs = docs;
    let last = docs.pop().unwrap();
    let mut acc = strip_extends_field(last);
    proof {
        assert(doc_views(all).skip(all.len() - 1) =~= seq![last.jv()]);
    }
    while docs.len() > 0
        invariant
            docs@ == all.take(docs@.len() as int),
            docs@.len() < all.len(),
            docs_wf(all),
            json_wf(acc),
            acc.jv() == spec_resolve_chain(doc_views(all).skip(docs@.len() as int)),
        decreases docs@.len(),
    {
        let ghost k = docs@.len() as int;
        let d = docs.pop().unwrap();
        proof {
            assert(d == all[k - 1]);
            assert(docs@ =~= all.take(k - 1));
            let tail = doc_views(all).skip(k - 1);
            assert(tail.drop_first() =~= doc_views(all).skip(k));
            assert(tail[0] == d.jv());
        }
        let merged = deep_merge_json(acc, d);
        acc = strip_extends_field(merged);
    }
    proof {
        assert(doc_views(all).skip(0) =~= doc_views(all));
    }
    acc
}

/// What the caller should do next while resolving a recipe.
#[derive(Debug)]
pub enum WalkStep {
    /// Read this file, then call `on_loaded` with its text.
    Load(String),
    /// Resolve `template_ref` from `recipe_path` to a file, then call `on_resolved`.
    Resolve { recipe_path: String, template_ref: String },
    /// Resolution finished with this document.
    Done(JsonValue),
    /// Resolution failed.
    Failed(TemplateResolutionError),
}

/// The step reports a cycle closed by `path`, with the visited files sorted before it.
pub open spec fn fails_circular(step: WalkStep, path: String, visited: Seq<String>) -> bool {
    match step {
        WalkStep::Failed(TemplateResolutionError::CircularReference(e)) => {
            &&& e.chain@.len() == visited.len() + 1
            &&& e.chain@.last() == path
            &&& e.chain@.drop_last().to_multiset() == visited.to_multiset()
            &&& lex_sorted(e.chain@.drop_last())
        },
        _ => false,
    }
}

/// A recipe resolution in progress.
pub struct TemplateWalk {
    /// Files entered so far on this chain.
    pub visited: Vec<String>,
    /// Documents loaded so far, recipe first.
    pub docs: Vec<JsonValue>,
    /// The file being loaded.
    pub current: String,
    /// Depth of `current` in the chain.
    pub depth: usize,
}

impl TemplateWalk {
    /// The walk is consistent: every loaded document is well-formed, there
    /// is one per level above the current one, and the file being loaded is visited.
    pub open spec fn wf(&self) -> bool {
        &&& docs_wf(self.docs@)
        &&& self.docs@.len() == self.depth
        &&& self.depth <= MAX_TEMPLATE_DEPTH
        &&& listed(self.visited@, self.current@)
    }

    /// The current file is loaded and names a template still to be resolved.
    pub open spec fn awaiting_template(&self) -> bool {
        &&& docs_wf(self.docs@)
        &&& self.docs@.len() == self.depth + 1
        &&& self.depth <= MAX_TEMPLATE_DEPTH
    }

    /// Enters `path` at `depth`: too deep gives `MaxDepthExceeded`, a path
    /// already visited a circular-reference error; otherwise the path is
    /// marked visited and the caller is asked to load it.
    fn enter(&mut self, path: String, depth: usize) -> (step: WalkStep)
        requires
            docs_wf(old(self).docs@),
            old(self).docs@.len() == depth,
        ensures
            depth > MAX_TEMPLATE_DEPTH ==> step matches WalkStep::Failed(TemplateResolutionError::MaxDepthExceeded),
            depth <= MAX_TEMPLATE_DEPTH && mentions(old(self).visited@, path@) ==> fails_circular(
                step,
                path,
                old(self).visited@,
            ),
            depth <= MAX_TEMPLATE_DEPTH && !mentions(old(self).visited@, path@) ==> {
                &&& step matches WalkStep::Load(p) && p@ == path@
                &&& final(self).visited@ == old(self).visited@.push(path)
                &&& final(self).current == path
                &&& final(self).depth == depth
                &&& final(self).docs == old(self).docs
                &&& final(self).wf()
            },
    {
        if depth > MAX_TEMPLATE_DEPTH {
            return WalkStep::Failed(TemplateResolutionError::MaxDepthExceeded);
        }
        match validate_no_circular_ref(&path, &self.visited) {
            Err(e) => WalkStep::Failed(TemplateResolutionError::CircularReference(e)),
            Ok(()) => {
                self.visited.push(path.clone());
                self.current = path;
                self.depth = depth;
                proof {
                    assert(self.visited@.last() == self.current);
                    assert(self.visited@[self.visited@.len() - 1]@ == self.current@);
                }
                WalkStep::Load(self.current.clone())
            },
        }
    }

    /// Starts resolving the recipe at `recipe_path`, with the files already
    /// visited by an enclosing resolution.
    pub fn begin(recipe_path: String, visited: Vec<String>) -> (r: (TemplateWalk, WalkStep))
        ensures
            mentions(visited@, recipe_path@) ==> fails_circular(r.1, recipe_path, visited@),
            !mentions(visited@, recipe_path@) ==> {
                &&& r.1 matches WalkStep::Load(p) && p@ == recipe_path@
                &&& r.0.wf()
                &&& r.0.visited@ == visited@.push(recipe_path)
                &&& r.0.docs@.len() == 0
            },
    {
        let mut w = TemplateWalk { visited, docs: Vec::new(), current: String::new(), depth: 0 };
        let step = w.enter(recipe_path, 0);
        (w, step)
    }

    /// Takes the text read from the current file and reads it as JSON: a
    /// text that is not JSON fails the walk with `InvalidJson` for the current
    /// file and the reader's message. Otherwise, when the document names a
    /// template, asks for that reference to be resolved; when it does not,
    /// merges the whole chain and finishes.
    pub fn on_loaded(&mut self, text: &str) -> (step: WalkStep)
        requires
            old(self).wf(),
        ensures
            final(self).visited == old(self).visited,
            final(self).current == old(self).current,
            final(self).depth == old(self).depth,
            match json_text(text@) {
                Err(e) => {
                    &&& step matches WalkStep::Failed(TemplateResolutionError::InvalidJson { path, message })
                        && path@ == old(self).current@ && message@ == e
                    &&& final(self).docs == old(self).docs
                },
                Ok(d) => match spec_extends_ref(d) {
                    Some(t) => {
                        &&& step matches WalkStep::Resolve { recipe_path, template_ref }
                            && recipe_path@ == old(self).current@ && template_ref@ == t
                        &&& final(self).docs@.len() == old(self).docs@.len() + 1
                        &&& final(self).docs@.drop_last() == old(self).docs@
                        &&& final(self).docs@.last().jv() == d
                        &&& final(self).awaiting_template()
                    },
                    None => {
                        &&& step matches WalkStep::Done(r) && json_wf(r)
                            && r.jv() == spec_resolve_chain(doc_views(old(self).docs@).push(d))
                        &&& final(self).docs@.len() == 0
                    },
                },
            },
    {
        match parse_json_text(text) {
            Err(e) => WalkStep::Failed(TemplateResolutionError::InvalidJson { path: self.current.clone(), message: e }),
            Ok(doc) => {
                let ghost old_docs = self.docs@;
                let step = self.take_document(doc);
                proof {
                    assert(doc_views(old_docs.push(doc)) =~= doc_views(old_docs).push(doc.jv()));
                    if spec_extends_ref(doc.jv()) is Some {
                        assert(self.docs@.drop_last() =~= old_docs);
                    }
                }
                step
            },
        }
    }

    /// Takes the document loaded for the current file. When it names a
    /// template, asks for that reference to be resolved; otherwise merges
    /// the whole chain and finishes.
    fn take_document(&mut self, doc: JsonValue) -> (step: WalkStep)
        requires
            old(self).wf(),
            json_wf(doc),
        ensures
            final(self).visited == old(self).visited,
            final(self).current == old(self).current,
            final(self).depth == old(self).depth,
            match spec_extends_ref(doc.jv()) {
                Some(t) => {
                    &&& step matches WalkStep::Resolve { recipe_path, template_ref }
                        && recipe_path@ == old(self).current@ && template_ref@ == t
                    &&& final(self).docs@ == old(self).docs@.push(doc)
                    &&& final(self).awaiting_template()
                },
                None => {
                    &&& step matches WalkStep::Done(r) && json_wf(r)
                        && r.jv() == spec_resolve_chain(doc_views(old(self).docs@.push(doc)))
                    &&& final(self).docs@.len() == 0
                },
            },
    {
        let t = extends_ref(&doc);
        self.docs.push(doc);
        proof {
            assert(self.docs@.last() == doc);
            assert(docs_wf(self.docs@));
        }
        match t {
            Some(t) => WalkStep::Resolve { recipe_path: self.current.clone(), template_ref: t },
            None => {
                let mut docs: Vec<JsonValue> = Vec::new();
                std::mem::swap(&mut docs, &mut self.docs);
                let ghost all = docs@;
                let r = merge_chain(docs);
                proof {
                    assert(all =~= old(self).docs@.push(doc));
                }
                WalkStep::Done(r)
            },
        }
    }

    /// Takes the file that the template reference resolved to (or why it did
    /// not) and enters it one level deeper.
    pub fn on_resolved(&mut self, template_path: Result<String, TemplatePathError>) -> (step: WalkStep)
        requires
            old(self).awaiting_template(),
        ensures
            match template_path {
                Err(e) => step matches WalkStep::Failed(TemplateResolutionError::PathError(e2)) && e2 == e,
                Ok(p) => {
                    &&& old(self).depth + 1 > MAX_TEMPLATE_DEPTH ==> (step is Failed
                        && step->Failed_0 is MaxDepthExceeded)
                    &&& old(self).depth + 1 <= MAX_TEMPLATE_DEPTH && mentions(old(self).visited@, p@)
                        ==> fails_circular(step, p, old(self).visited@)
                    &&& old(self).depth + 1 <= MAX_TEMPLATE_DEPTH && !mentions(old(self).visited@, p@) ==> {
                        &&& step matches WalkStep::Load(q) && q@ == p@
                        &&& final(self).visited@ == old(self).visited@.push(p)
                        &&& final(self).current == p
                        &&& final(self).depth == old(self).depth + 1
                        &&& final(self).docs == old(self).docs
                        &&& final(self).wf()
                    }
                },
            },
    {
        match template_path {
            Err(e) => WalkStep::Failed(TemplateResolutionError::PathError(e)),
            Ok(p) => {
                let d = self.depth + 1;
                self.enter(p, d)
            },
        }
    }
}


/// Law: a resolved recipe never keeps an `"extends"` field.
pub proof fn lemma_chain_drops_extends(docs: Seq<JValue>)
    requires
        docs.len() >= 1,
    ensures
        spec_resolve_chain(docs) is Object ==> !spec_resolve_chain(docs)->Object_0.contains_key(extends_key()),
{
}

/// Law: a field that the recipe sets (to anything but `null` or an object)
/// comes out of resolution exactly as the recipe wrote it, whatever its
/// templates say; a field the recipe does not mention keeps the value the
/// resolved template gives it.
pub proof fn lemma_chain_recipe_fields_win(docs: Seq<JValue>, k: Seq<char>)
    requires
        docs.len() >= 2,
        docs[0] is Object,
        spec_resolve_chain(docs.drop_first()) is Object,
        k != extends_key(),
    ensures
        ({
            let r = spec_resolve_chain(docs)->Object_0;
            let own = docs[0]->Object_0;
            let inherited = spec_resolve_chain(docs.drop_first())->Object_0;
            &&& spec_resolve_chain(docs) is Object
            &&& own.contains_key(k) && !(own[k] is Null) && !(own[k] is Object)
                ==> r.contains_key(k) && r[k] == own[k]
            &&& own.contains_key(k) && own[k] is Null ==> !r.contains_key(k)
            &&& !own.contains_key(k) ==> (r.contains_key(k) == inherited.contains_key(k))
                && (inherited.contains_key(k) ==> r[k] == inherited[k])
        }),
{
}

} // verus!
