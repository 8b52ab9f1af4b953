use tui_vfx_recipes::recipe::{recipe_error_of, RecipeError};
use tui_vfx_recipes::json::{deep_merge_json, JsonValue};
use tui_vfx_recipes::template::{
    extends_ref, format_chain, merge_chain, resolve_template_path, strip_extends_field, template_candidate,
    validate_no_circular_ref, TemplatePathError, TemplateResolutionError, TemplateWalk, WalkStep,
    MAX_TEMPLATE_DEPTH,
};

fn s(x: &str) -> String {
    x.to_string()
}

fn num(n: &str) -> JsonValue {
    JsonValue::Number(n.to_string())
}

fn st(x: &str) -> JsonValue {
    JsonValue::Str(x.to_string())
}

fn obj(entries: Vec<(&str, JsonValue)>) -> JsonValue {
    JsonValue::Object(entries.into_iter().map(|(k, v)| (k.to_string(), v)).collect())
}

fn field<'a>(v: &'a JsonValue, k: &str) -> Option<&'a JsonValue> {
    v.get_lit(k)
}

#[test]
fn merge_example_from_the_docs() {
    let template = obj(vec![
        ("layout", obj(vec![("width", num("40")), ("height", num("6")), ("anchor", st("TopLeft"))])),
        ("border", obj(vec![("type", st("Rounded"))])),
    ]);
    let recipe = obj(vec![("layout", obj(vec![("anchor", st("MiddleCenter"))])), ("message", st("Hello"))]);
    let merged = deep_merge_json(template, recipe);
    let layout = field(&merged, "layout").unwrap();
    assert_eq!(field(layout, "width"), Some(&num("40")));
    assert_eq!(field(layout, "height"), Some(&num("6")));
    assert_eq!(field(layout, "anchor"), Some(&st("MiddleCenter")));
    assert_eq!(field(&merged, "border"), Some(&obj(vec![("type", st("Rounded"))])));
    assert_eq!(field(&merged, "message"), Some(&st("Hello")));
}

#[test]
fn merge_null_removes_and_arrays_replace() {
    let base = obj(vec![("a", num("1")), ("b", JsonValue::Array(vec![num("1"), num("2")])), ("c", num("3"))]);
    let overlay = obj(vec![("a", JsonValue::Null), ("b", JsonValue::Array(vec![num("9")]))]);
    let merged = deep_merge_json(base, overlay);
    assert_eq!(field(&merged, "a"), None);
    assert_eq!(field(&merged, "b"), Some(&JsonValue::Array(vec![num("9")])));
    assert_eq!(field(&merged, "c"), Some(&num("3")));
}

#[test]
fn merge_skips_overlay_extends_and_replaces_non_objects() {
    let base = obj(vec![("x", num("1"))]);
    let overlay = obj(vec![("extends", st("base.json")), ("x", obj(vec![("y", num("2"))]))]);
    let merged = deep_merge_json(base, overlay);
    assert_eq!(field(&merged, "extends"), None);
    assert_eq!(field(&merged, "x"), Some(&obj(vec![("y", num("2"))])));
    assert_eq!(deep_merge_json(num("1"), st("z")), st("z"));
    assert_eq!(deep_merge_json(obj(vec![("k", num("1"))]), num("2")), num("2"));
}

#[test]
fn merge_with_empty_overlay_keeps_base() {
    let base = || obj(vec![("k", num("1")), ("m", obj(vec![("n", JsonValue::Bool(true))]))]);
    let merged = deep_merge_json(base(), obj(vec![]));
    assert_eq!(merged, base());
}

#[test]
fn extends_ref_needs_a_non_empty_string() {
    assert_eq!(extends_ref(&obj(vec![("extends", st("t.json"))])), Some(s("t.json")));
    assert_eq!(extends_ref(&obj(vec![("extends", st(""))])), None);
    assert_eq!(extends_ref(&obj(vec![("extends", num("3"))])), None);
    assert_eq!(extends_ref(&st("extends")), None);
}

#[test]
fn strip_extends_removes_only_that_field() {
    let v = strip_extends_field(obj(vec![("extends", st("t.json")), ("a", num("1"))]));
    assert_eq!(v, obj(vec![("a", num("1"))]));
    assert_eq!(strip_extends_field(num("5")), num("5"));
}

#[test]
fn chain_merges_deepest_template_first() {
    let recipe = obj(vec![("extends", st("mid.json")), ("message", st("hi"))]);
    let mid = obj(vec![("extends", st("base.json")), ("message", st("mid")), ("width", num("10"))]);
    let base = obj(vec![("width", num("30")), ("height", num("3"))]);
    let r = merge_chain(vec![recipe, mid, base]);
    assert_eq!(field(&r, "message"), Some(&st("hi")));
    assert_eq!(field(&r, "width"), Some(&num("10")));
    assert_eq!(field(&r, "height"), Some(&num("3")));
    assert_eq!(field(&r, "extends"), None);
}

#[test]
fn circular_reference_reports_sorted_chain() {
    let visited = vec![s("b.json"), s("a.json"), s("c.json")];
    assert!(validate_no_circular_ref(&s("d.json"), &visited).is_ok());
    let err = validate_no_circular_ref(&s("b.json"), &visited).unwrap_err();
    assert_eq!(err.chain, vec![s("a.json"), s("b.json"), s("c.json"), s("b.json")]);
    assert_eq!(format_chain(&err.chain), "a.json → b.json → c.json → b.json");
    assert!(err.message().contains("Circular template reference detected\n  Chain: a.json → b.json"));
}

#[test]
fn candidate_paths_follow_the_reference_kind() {
    let root = s("/proj");
    let recipe = s("/proj/recipes/greeting.json");
    assert_eq!(template_candidate(&root, &recipe, &s("themes/base.json")).unwrap(), "/proj/recipes/themes/base.json");
    assert_eq!(template_candidate(&root, &recipe, &s("/themes/base.json")).unwrap(), "/proj/themes/base.json");
    let err = template_candidate(&root, &s("/"), &s("x.json")).unwrap_err();
    assert!(matches!(err, TemplatePathError::InvalidRecipePath(p) if p == "/"));
}

#[test]
fn resolved_templates_must_stay_in_the_root() {
    let root = s("/proj");
    let recipe = s("/proj/recipes/greeting.json");
    let t = s("../../etc/passwd");
    let ok = resolve_template_path(&root, &recipe, &s("base.json"), Some(s("/proj/recipes/base.json")), Some(s("/proj")));
    assert_eq!(ok.unwrap(), "/proj/recipes/base.json");
    let out = resolve_template_path(&root, &recipe, &t, Some(s("/etc/passwd")), Some(s("/proj")));
    assert!(matches!(out, Err(TemplatePathError::PathTraversal { ref template, .. }) if *template == t));
    let sibling = resolve_template_path(&root, &recipe, &t, Some(s("/project2/x.json")), Some(s("/proj")));
    assert!(matches!(sibling, Err(TemplatePathError::PathTraversal { .. })));
    let missing = resolve_template_path(&root, &recipe, &s("nope.json"), None, Some(s("/proj")));
    assert!(matches!(missing, Err(TemplatePathError::TemplateNotFound { path }) if path == "/proj/recipes/nope.json"));
    let bad_root = resolve_template_path(&root, &recipe, &s("base.json"), Some(s("/proj/recipes/base.json")), None);
    assert!(matches!(bad_root, Err(TemplatePathError::InvalidProjectRoot(p)) if p == "/proj"));
}

#[test]
fn walk_loads_resolves_and_merges() {
    let (mut w, step) = TemplateWalk::begin(s("/p/r.json"), vec![]);
    assert!(matches!(step, WalkStep::Load(ref p) if p == "/p/r.json"));
    let step = w.on_loaded(r#"{"extends": "base.json", "a": 1}"#);
    match step {
        WalkStep::Resolve { recipe_path, template_ref } => {
            assert_eq!(recipe_path, "/p/r.json");
            assert_eq!(template_ref, "base.json");
        },
        other => panic!("unexpected step {:?}", other),
    }
    let step = w.on_resolved(Ok(s("/p/base.json")));
    assert!(matches!(step, WalkStep::Load(ref p) if p == "/p/base.json"));
    let step = w.on_loaded(r#"{"a": 0, "b": 2}"#);
    match step {
        WalkStep::Done(v) => {
            assert_eq!(field(&v, "a"), Some(&num("1")));
            assert_eq!(field(&v, "b"), Some(&num("2")));
            assert_eq!(field(&v, "extends"), None);
        },
        other => panic!("unexpected step {:?}", other),
    }
}

#[test]
fn walk_detects_cycles_and_depth() {
    let (mut w, _) = TemplateWalk::begin(s("/p/a.json"), vec![]);
    w.on_loaded(r#"{"extends": "a.json"}"#);
    let step = w.on_resolved(Ok(s("/p/a.json")));
    match step {
        WalkStep::Failed(TemplateResolutionError::CircularReference(e)) => {
            assert_eq!(e.chain, vec![s("/p/a.json"), s("/p/a.json")]);
        },
        other => panic!("unexpected step {:?}", other),
    }
    let (mut w, _) = TemplateWalk::begin(s("/p/0.json"), vec![]);
    let mut last = WalkStep::Load(s(""));
    for i in 1..=(MAX_TEMPLATE_DEPTH + 1) {
        w.on_loaded(r#"{"extends": "next.json"}"#);
        last = w.on_resolved(Ok(format!("/p/{}.json", i)));
        if i <= MAX_TEMPLATE_DEPTH {
            assert!(matches!(last, WalkStep::Load(_)));
        }
    }
    assert!(matches!(last, WalkStep::Failed(TemplateResolutionError::MaxDepthExceeded)));
    let (_, step) = TemplateWalk::begin(s("/p/x.json"), vec![s("/p/x.json")]);
    assert!(matches!(step, WalkStep::Failed(TemplateResolutionError::CircularReference(_))));
}

#[test]
fn walk_passes_path_errors_on() {
    let (mut w, _) = TemplateWalk::begin(s("/p/a.json"), vec![]);
    w.on_loaded(r#"{"extends": "x.json"}"#);
    let step = w.on_resolved(Err(TemplatePathError::InvalidRecipePath(s("/p/a.json"))));
    assert!(matches!(step, WalkStep::Failed(TemplateResolutionError::PathError(TemplatePathError::InvalidRecipePath(_)))));
}

#[test]
fn walk_fails_on_text_that_is_not_json() {
    let (mut w, _) = TemplateWalk::begin(s("/p/r.json"), vec![]);
    match w.on_loaded("{\"a\": ") {
        WalkStep::Failed(TemplateResolutionError::InvalidJson { path, message }) => {
            assert_eq!(path, "/p/r.json");
            assert!(message.contains("line 1"));
        },
        other => panic!("unexpected step {:?}", other),
    }
}

#[test]
fn merging_the_same_overlay_twice_is_merging_it_once() {
    let base = obj(vec![("a", num("1")), ("n", obj(vec![("x", num("1")), ("y", num("2"))]))]);
    let overlay = || {
        obj(vec![
            ("n", obj(vec![("y", num("3")), ("z", obj(vec![("deep", st("v"))]))])),
            ("b", JsonValue::Array(vec![JsonValue::Null])),
        ])
    };
    let once = deep_merge_json(base, overlay());
    let again = deep_merge_json(
        obj(vec![("a", num("1")), ("n", obj(vec![("x", num("1")), ("y", num("2"))]))]),
        overlay(),
    );
    let twice = deep_merge_json(again, overlay());
    assert_eq!(field(&twice, "a"), Some(&num("1")));
    assert_eq!(field(&twice, "b"), field(&once, "b"));
    let n_once = field(&once, "n").unwrap();
    let n_twice = field(&twice, "n").unwrap();
    for k in ["x", "y", "z"] {
        assert_eq!(field(n_twice, k), field(n_once, k));
    }
    assert_eq!(field(n_twice, "y"), Some(&num("3")));
}

#[test]
fn circular_check_compares_paths_not_texts() {
    let visited = vec![s("/p/a.json")];
    assert!(validate_no_circular_ref(&s("/p/./a.json"), &visited).is_err());
    assert!(validate_no_circular_ref(&s("/p//a.json"), &visited).is_err());
    assert!(validate_no_circular_ref(&s("/p/b.json"), &visited).is_ok());
    let (_, step) = TemplateWalk::begin(s("/p/./a.json"), visited);
    assert!(matches!(step, WalkStep::Failed(TemplateResolutionError::CircularReference(_))));
}

#[test]
fn template_errors_have_the_documented_messages() {
    assert_eq!(TemplatePathError::InvalidRecipePath(s("/p/a.json")).message(), "Invalid recipe path: \"/p/a.json\"");
    assert_eq!(
        TemplatePathError::TemplateNotFound { path: s("/p/t.json") }.message(),
        "Template not found: \"/p/t.json\"\n\nEnsure the template file exists and the path is correct."
    );
    assert_eq!(
        TemplateResolutionError::MaxDepthExceeded.message(),
        "Maximum template inheritance depth (10) exceeded\n  This usually indicates a circular reference that was not caught."
    );
    assert_eq!(
        TemplateResolutionError::IoError { path: s("/p/r.json"), message: s("gone") }.message(),
        "Failed to read template file /p/r.json: gone"
    );
}

#[test]
fn loading_maps_resolution_errors_to_recipe_errors() {
    match recipe_error_of(TemplateResolutionError::InvalidJson { path: s("/p/r.json"), message: s("oops") }) {
        RecipeError::ParseError(m) => assert_eq!(m, "Invalid JSON in \"/p/r.json\": oops"),
        other => panic!("unexpected {:?}", other),
    }
    match recipe_error_of(TemplateResolutionError::MaxDepthExceeded) {
        RecipeError::TemplateError(m) => assert_eq!(m, "Template inheritance depth exceeded maximum"),
        other => panic!("unexpected {:?}", other),
    }
    match recipe_error_of(TemplateResolutionError::PathError(TemplatePathError::InvalidProjectRoot(s("/x")))) {
        RecipeError::TemplateError(m) => assert_eq!(m, "Template path error: Invalid project root: \"/x\""),
        other => panic!("unexpected {:?}", other),
    }
    match recipe_error_of(TemplateResolutionError::IoError { path: s("/p/r.json"), message: s("gone") }) {
        RecipeError::IoError(m) => assert_eq!(m, "Failed to read recipe at \"/p/r.json\": gone"),
        other => panic!("unexpected {:?}", other),
    }
}
