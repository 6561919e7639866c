use vmux_desktop::settings_path::{append_segment, parse_path_segments, set_at_path, JsonValue, PathSegment};

fn obj(members: Vec<(&str, JsonValue)>) -> JsonValue {
    JsonValue::Object(members.into_iter().map(|(k, v)| (k.to_string(), v)).collect())
}

fn num(s: &str) -> JsonValue {
    JsonValue::Number(s.to_string())
}

fn number_at<'a>(v: Option<&'a JsonValue>) -> Option<&'a str> {
    match v {
        Some(JsonValue::Number(n)) => Some(n.as_str()),
        _ => None,
    }
}

#[test]
fn set_at_path_replaces_nested_object_value() {
    let mut root = obj(vec![("layout", obj(vec![("pane", obj(vec![("gap", num("8.0"))]))]))]);
    set_at_path(&mut root, "layout.pane.gap", num("12.0")).unwrap();
    let gap = root
        .get_field("layout")
        .and_then(|l| l.get_field("pane"))
        .and_then(|p| p.get_field("gap"));
    assert_eq!(number_at(gap), Some("12.0"));
}

#[test]
fn set_at_path_replaces_array_element_field() {
    let theme = obj(vec![("name", JsonValue::Str("default".into())), ("font_size", num("14.0"))]);
    let mut root = obj(vec![("terminal", obj(vec![("themes", JsonValue::Array(vec![theme]))]))]);
    set_at_path(&mut root, "terminal.themes[0].font_size", num("16.0")).unwrap();
    let size = root
        .get_field("terminal")
        .and_then(|t| t.get_field("themes"))
        .and_then(|a| a.get_index(0))
        .and_then(|t| t.get_field("font_size"));
    assert_eq!(number_at(size), Some("16.0"));
    let name = root
        .get_field("terminal")
        .and_then(|t| t.get_field("themes"))
        .and_then(|a| a.get_index(0))
        .and_then(|t| t.get_field("name"));
    assert!(matches!(name, Some(JsonValue::Str(s)) if s == "default"));
}

#[test]
fn set_at_path_top_level_leaf() {
    let mut root = obj(vec![("auto_update", JsonValue::Bool(true))]);
    set_at_path(&mut root, "auto_update", JsonValue::Bool(false)).unwrap();
    assert!(matches!(root.get_field("auto_update"), Some(JsonValue::Bool(false))));
}

#[test]
fn set_at_path_unknown_key_errors() {
    let mut root = obj(vec![("layout", obj(vec![]))]);
    let err = set_at_path(&mut root, "layout.nope", num("1")).unwrap_err();
    assert!(err.contains("layout.nope"), "error must mention path: {err}");
    assert!(matches!(root.get_field("layout"), Some(JsonValue::Object(m)) if m.is_empty()));
}

#[test]
fn set_at_path_array_out_of_bounds_errors() {
    let mut root = obj(vec![("themes", JsonValue::Array(vec![obj(vec![("font_size", num("14.0"))])]))]);
    let err = set_at_path(&mut root, "themes[5].font_size", num("16.0")).unwrap_err();
    assert!(err.contains("themes[5]"), "error must mention path: {err}");
}

#[test]
fn set_at_path_empty_path_errors() {
    let mut root = obj(vec![]);
    assert!(set_at_path(&mut root, "", num("1")).is_err());
}

#[test]
fn parse_path_segments_reads_fields_and_indices() {
    let segs = parse_path_segments("a.b[2].c").unwrap();
    assert_eq!(segs.len(), 4);
    assert!(matches!(&segs[0], PathSegment::Field(f) if f == "a"));
    assert!(matches!(&segs[1], PathSegment::Field(f) if f == "b"));
    assert!(matches!(segs[2], PathSegment::Index(2)));
    assert!(matches!(&segs[3], PathSegment::Field(f) if f == "c"));
}

#[test]
fn consecutive_indices_are_read_as_one_bad_index() {
    // After the first `]` the rest, `[10]`, is searched for its `]` from its
    // own start, so the index text takes in the `[`.
    assert_eq!(
        parse_path_segments("b[2][10]").unwrap_err(),
        "non-integer index '[[10]' in b[2][10]"
    );
}

#[test]
fn parse_path_segments_rejects_malformed_paths() {
    assert_eq!(parse_path_segments("a..b").unwrap_err(), "empty segment in path: a..b");
    assert_eq!(parse_path_segments("a[x]").unwrap_err(), "non-integer index '[x]' in a[x]");
    assert_eq!(parse_path_segments("a[1").unwrap_err(), "unclosed '[' in a[1");
    assert_eq!(parse_path_segments("[1]").unwrap_err(), "missing field name before '[' in [1]");
    assert_eq!(parse_path_segments("a[1]x").unwrap_err(), "unexpected text after ']' in a[1]x: x");
}

#[test]
fn append_segment_renders_walked_path() {
    let mut walked = String::new();
    append_segment(&mut walked, &PathSegment::Field("themes".into()));
    append_segment(&mut walked, &PathSegment::Index(5));
    append_segment(&mut walked, &PathSegment::Field("font_size".into()));
    assert_eq!(walked, "themes[5].font_size");
}

#[test]
fn set_into_scalar_errors_and_leaves_root() {
    let mut root = obj(vec![("auto_update", JsonValue::Bool(true))]);
    assert!(set_at_path(&mut root, "auto_update.x", num("1")).is_err());
    assert!(matches!(root.get_field("auto_update"), Some(JsonValue::Bool(true))));
}

fn names(v: &JsonValue) -> Vec<String> {
    match v {
        JsonValue::Object(es) => es.iter().map(|(k, _)| k.clone()).collect(),
        _ => Vec::new(),
    }
}

#[test]
fn set_at_path_changes_only_its_place() {
    let mut root = obj(vec![
        ("auto_update", JsonValue::Bool(true)),
        (
            "layout",
            obj(vec![
                ("pane", obj(vec![("gap", num("8.0")), ("radius", num("4.0"))])),
                ("window", obj(vec![("padding", num("2.0"))])),
            ]),
        ),
    ]);
    set_at_path(&mut root, "layout.pane.gap", obj(vec![("x", num("1"))])).unwrap();
    // Off the path nothing changed.
    assert!(matches!(root.get_field("auto_update"), Some(JsonValue::Bool(true))));
    let layout = root.get_field("layout").unwrap();
    assert_eq!(number_at(layout.get_field("window").and_then(|w| w.get_field("padding"))), Some("2.0"));
    assert_eq!(number_at(layout.get_field("pane").and_then(|p| p.get_field("radius"))), Some("4.0"));
    // Along the path the member names are kept, in order.
    assert_eq!(names(&root), vec!["auto_update".to_string(), "layout".to_string()]);
    assert_eq!(names(layout), vec!["pane".to_string(), "window".to_string()]);
    assert_eq!(names(layout.get_field("pane").unwrap()), vec!["gap".to_string(), "radius".to_string()]);
    // Below its place is the value that was set.
    let x = layout.get_field("pane").and_then(|p| p.get_field("gap")).and_then(|g| g.get_field("x"));
    assert_eq!(number_at(x), Some("1"));

    // A path that does not lead somewhere is refused and changes nothing.
    assert!(set_at_path(&mut root, "layout.nope.gap", num("3")).is_err());
    assert!(set_at_path(&mut root, "", num("3")).is_err());
    assert_eq!(names(&root), vec!["auto_update".to_string(), "layout".to_string()]);
}
