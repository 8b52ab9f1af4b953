use tui_vfx_recipes::json::JsonValue;
use tui_vfx_recipes::recipe::{
    check_schema_version, number_as_u64, parse_dyn_recipe_text, parse_recipe_text, recipe_hints, ConfigLoadError, Phase,
    RecipeError,
};
use tui_vfx_recipes::recipes::{RecipeMeta, StateCompositionMode};
use tui_vfx_recipes::refs::Recipe;
use tui_vfx_recipes::registry::RecipeRegistry;
use tui_vfx_recipes::text::{decimal, snippet, sort_strings, str_lt};

fn num(n: &str) -> JsonValue {
    JsonValue::Number(n.to_string())
}

fn st(x: &str) -> JsonValue {
    JsonValue::Str(x.to_string())
}

fn obj(entries: Vec<(&str, JsonValue)>) -> JsonValue {
    JsonValue::Object(entries.into_iter().map(|(k, v)| (k.to_string(), v)).collect())
}

#[test]
fn phase_names_are_lower_case() {
    assert_eq!(Phase::Enter.as_str(), "enter");
    assert_eq!(Phase::Dwell.as_str(), "dwell");
    assert_eq!(Phase::Exit.as_str(), "exit");
}

#[test]
fn error_messages_carry_their_kind() {
    assert_eq!(RecipeError::IoError("x".to_string()).message(), "I/O error: x");
    assert_eq!(RecipeError::ParseError("x".to_string()).message(), "Parse error: x");
    assert_eq!(RecipeError::ValidationError("x".to_string()).message(), "Validation error: x");
    assert_eq!(RecipeError::TemplateError("x".to_string()).message(), "Template error: x");
    assert_eq!(ConfigLoadError::ParseError("y".to_string()).message(), "Parse error: y");
    assert_eq!(ConfigLoadError::IoError("y".to_string()).message(), "I/O error: y");
}

#[test]
fn numbers_read_as_unsigned_integers() {
    assert_eq!(number_as_u64(&"0".to_string()), Some(0));
    assert_eq!(number_as_u64(&"2".to_string()), Some(2));
    assert_eq!(number_as_u64(&"18446744073709551615".to_string()), Some(u64::MAX));
    assert_eq!(number_as_u64(&"18446744073709551616".to_string()), None);
    assert_eq!(number_as_u64(&"-1".to_string()), None);
    assert_eq!(number_as_u64(&"1.0".to_string()), None);
    assert_eq!(number_as_u64(&"".to_string()), None);
}

#[test]
fn schema_version_must_be_at_least_two() {
    assert_eq!(check_schema_version(&obj(vec![("schema_version", num("2"))])).unwrap(), 2);
    match check_schema_version(&obj(vec![("schema_version", num("1"))])) {
        Err(RecipeError::ParseError(m)) => {
            assert_eq!(m, "Invalid schema_version=1. Recipes require schema_version >= 2.")
        },
        other => panic!("unexpected {:?}", other),
    }
    match check_schema_version(&obj(vec![("schema_version", st("2"))])) {
        Err(RecipeError::ParseError(m)) => assert!(m.starts_with("Missing or invalid 'schema_version'")),
        other => panic!("unexpected {:?}", other),
    }
    assert!(check_schema_version(&obj(vec![])).is_err());
}

#[test]
fn hints_default_when_missing() {
    let (id, title, v) = recipe_hints(&obj(vec![("id", st("toast")), ("schema_version", num("3"))]));
    assert_eq!((id.as_str(), title.as_str(), v), ("toast", "<unknown>", 3));
    let (id, _, v) = recipe_hints(&st("nope"));
    assert_eq!((id.as_str(), v), ("<unknown>", 1));
}

fn config() -> JsonValue {
    obj(vec![(
        "pipeline",
        obj(vec![
            (
                "styles",
                JsonValue::Array(vec![
                    obj(vec![
                        ("enter_effect", obj(vec![("type", st("spatial")), ("shader", st("glow"))])),
                        ("dwell_effect", JsonValue::Null),
                        ("spatial_shader", st("wave")),
                    ]),
                    obj(vec![("exit_effect", obj(vec![("shader", st("fade"))]))]),
                ]),
            ),
            (
                "mask",
                obj(vec![
                    (
                        "enter",
                        JsonValue::Array(vec![
                            obj(vec![("type", st("wipe"))]),
                            obj(vec![("type", st("none"))]),
                            obj(vec![("type", st("x"))]),
                        ]),
                    ),
                    ("dwell", obj(vec![("type", st("none"))])),
                    ("exit", JsonValue::Array(vec![])),
                ]),
            ),
            ("filter", obj(vec![("exit", obj(vec![("type", st("dim"))]))])),
        ]),
    )])
}

#[test]
fn recipe_lists_its_effects_with_locations() {
    let meta = RecipeMeta::from_static("toast", "Toast", "A toast");
    let r = Recipe::new(meta, config());
    assert_eq!(r.id(), "toast");
    assert_eq!(r.title(), "Toast");
    let shaders = r.shaders();
    let locs: Vec<(&str, Phase)> = shaders.iter().map(|s| (s.location.as_str(), s.phase)).collect();
    assert_eq!(locs, vec![
        ("pipeline.styles[0].enter_effect.shader", Phase::Enter),
        ("pipeline.styles[0].spatial_shader", Phase::Enter),
        ("pipeline.styles[1].exit_effect.shader", Phase::Exit),
    ]);
    assert_eq!(shaders[0].shader, &st("glow"));
    let masks = r.masks();
    assert_eq!(masks.len(), 2);
    assert_eq!((masks[0].location.as_str(), masks[0].phase), ("pipeline.mask.enter", Phase::Enter));
    assert_eq!(masks[0].value, &obj(vec![("type", st("wipe"))]));
    assert_eq!((masks[1].location.as_str(), masks[1].phase), ("pipeline.mask.enter", Phase::Enter));
    assert_eq!(masks[1].value, &obj(vec![("type", st("x"))]));
    let filters = r.filters();
    assert_eq!(filters.len(), 1);
    assert_eq!((filters[0].location.as_str(), filters[0].phase), ("pipeline.filter.exit", Phase::Exit));
    assert!(r.samplers().is_empty());
    let layers = r.style_layers();
    assert_eq!(layers.len(), 2);
    assert_eq!(layers[1].index, 1);
}

#[test]
fn registry_lists_by_id_and_finds_first() {
    let mut reg: RecipeRegistry<u32> = RecipeRegistry::new();
    reg.register(RecipeMeta::from_owned("b".to_string(), "B".to_string(), String::new()), 1);
    reg.register(RecipeMeta::from_owned("a".to_string(), "A".to_string(), String::new()), 2);
    reg.register(RecipeMeta::from_owned("b".to_string(), "B2".to_string(), String::new()), 3);
    let ids: Vec<String> = reg.list().into_iter().map(|m| m.title).collect();
    assert_eq!(ids, vec!["A".to_string(), "B".to_string(), "B2".to_string()]);
    assert_eq!(reg.get("b"), Some(&1));
    assert_eq!(reg.get("c"), None);
}

#[test]
fn text_helpers() {
    assert_eq!(decimal(0), "0");
    assert_eq!(decimal(4096), "4096");
    assert_eq!(decimal(u64::MAX), "18446744073709551615");
    assert!(str_lt("ab", "b"));
    assert!(str_lt("a", "ab"));
    assert!(!str_lt("ab", "ab"));
    assert!(!str_lt("é", "z"));
    let sorted = sort_strings(vec!["pear".to_string(), "apple".to_string(), "Zoo".to_string(), "apple".to_string()]);
    assert_eq!(sorted, vec!["Zoo", "apple", "apple", "pear"]);
    assert_eq!(StateCompositionMode::default(), StateCompositionMode::Layered);
}

#[test]
fn registry_list_keeps_registration_order_for_equal_ids() {
    let mut reg: RecipeRegistry<u32> = RecipeRegistry::new();
    reg.register(RecipeMeta::from_static("b", "B", ""), 1);
    reg.register(RecipeMeta::from_static("a", "first a", ""), 2);
    reg.register(RecipeMeta::from_static("a", "second a", ""), 3);
    let titles: Vec<String> = reg.list().into_iter().map(|m| m.title).collect();
    assert_eq!(titles, vec!["first a".to_string(), "second a".to_string(), "B".to_string()]);
    assert_eq!(reg.get("a"), Some(&2));
}

#[test]
fn recipe_text_is_read_and_its_version_checked() {
    let (doc, v) = parse_recipe_text(r#"{"schema_version": 2, "id": "toast"}"#).unwrap();
    assert_eq!(v, 2);
    assert_eq!(doc.get_lit("id"), Some(&st("toast")));
    assert_eq!(doc.get_lit("schema_version"), Some(&num("2")));
    match parse_recipe_text(r#"{"schema_version": 1}"#) {
        Err(RecipeError::ParseError(m)) => assert_eq!(m, "Invalid schema_version=1. Recipes require schema_version >= 2."),
        other => panic!("unexpected {:?}", other),
    }
    match parse_recipe_text("{oops") {
        Err(RecipeError::ParseError(m)) => {
            assert!(m.starts_with("Failed to parse JSON: key must be a string at line 1 column 2"));
            assert!(m.ends_with(". Input: {oops"));
        },
        other => panic!("unexpected {:?}", other),
    }
}

#[test]
fn dyn_recipe_text_gives_hints_or_a_message() {
    let (doc, id, title) = parse_dyn_recipe_text(r#"{"id": "a", "schema_version": 2}"#).unwrap();
    assert_eq!((id.as_str(), title.as_str()), ("a", "<unknown>"));
    assert_eq!(doc.get_lit("id"), Some(&st("a")));
    let m = parse_dyn_recipe_text(r#"{"id": "a", "title": "T", "schema_version": 0}"#).unwrap_err();
    assert_eq!(
        m,
        "V1 recipes are deprecated. Recipe id=a title=T uses schema_version=1. \
         Use ratatui_notifications::recipes::json_recipe_dyn() for V1 compatibility."
    );
    assert!(parse_dyn_recipe_text("[").unwrap_err().starts_with("Failed to parse JSON recipe: "));
}

#[test]
fn long_input_is_echoed_up_to_two_hundred_bytes() {
    assert_eq!(snippet("short"), "short");
    let exact = "x".repeat(200);
    assert_eq!(snippet(&exact), exact);
    let long = "y".repeat(250);
    assert_eq!(snippet(&long), format!("{}...", "y".repeat(200)));
    // 199 one-byte characters, then a two-byte one that would pass byte 200.
    let wide = format!("{}é{}", "z".repeat(199), "z".repeat(10));
    assert_eq!(snippet(&wide), format!("{}...", "z".repeat(199)));
}

#[test]
fn numbers_read_from_text_take_serde_jsons_form() {
    let (doc, _) = parse_recipe_text(r#"{"schema_version": 2, "x": 1.50, "n": 18446744073709551615}"#).unwrap();
    assert_eq!(doc.get_lit("x"), Some(&num("1.5")));
    assert_eq!(doc.get_lit("n"), Some(&num("18446744073709551615")));
}
