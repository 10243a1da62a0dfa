use gitinfo_check::format::{is_valid_email, is_valid_uri};
use gitinfo_check::pattern::search;
use gitinfo_check::source::{prepare_document, remove_trailing_commas};
use gitinfo_check::text::decimal_string;
use gitinfo_check::validator::{check_string, validate, validate_property, ValidationError};
use gitinfo_check::value::JsonValue;

fn s(text: &str) -> JsonValue {
    JsonValue::Str(text.to_string())
}

fn n(value: u64) -> JsonValue {
    JsonValue::Number(Some(value))
}

fn arr(items: Vec<JsonValue>) -> JsonValue {
    JsonValue::Array(items)
}

fn obj(members: Vec<(&str, JsonValue)>) -> JsonValue {
    JsonValue::Object(members.into_iter().map(|(k, v)| (k.to_string(), v)).collect())
}

fn schema_of(props: Vec<(&str, JsonValue)>, closed: Option<bool>) -> JsonValue {
    let mut members = vec![("properties", obj(props))];
    if let Some(allowed) = closed {
        members.push(("additionalProperties", JsonValue::Bool(!allowed)));
    }
    obj(members)
}

fn texts(errors: &[ValidationError]) -> Vec<String> {
    errors.iter().map(|e| e.text()).collect()
}

fn run(data: &JsonValue, schema: &JsonValue) -> Vec<String> {
    texts(&validate(data, schema))
}

#[test]
fn root_that_is_not_an_object_gives_one_error() {
    let schema = schema_of(vec![("name", obj(vec![("type", s("string"))]))], Some(true));
    for data in [arr(vec![]), s("x"), JsonValue::Null, JsonValue::Bool(true), n(4)] {
        assert_eq!(run(&data, &schema), vec!["root: expected object".to_string()]);
    }
}

#[test]
fn closed_schema_flags_exactly_the_undeclared_keys() {
    let schema = schema_of(vec![("name", obj(vec![])), ("tags", obj(vec![]))], Some(true));
    let data = obj(vec![("extra", n(1)), ("name", s("a")), ("other", JsonValue::Null)]);
    assert_eq!(
        run(&data, &schema),
        vec!["root: unknown property \"extra\"", "root: unknown property \"other\""]
    );
}

#[test]
fn open_schema_permits_undeclared_keys() {
    let data = obj(vec![("extra", n(1))]);
    assert!(run(&data, &schema_of(vec![("name", obj(vec![]))], None)).is_empty());
    assert!(run(&data, &schema_of(vec![("name", obj(vec![]))], Some(false))).is_empty());
}

#[test]
fn declared_but_absent_properties_are_not_missing() {
    let schema = schema_of(vec![("name", obj(vec![("type", s("string"))]))], Some(true));
    assert!(run(&obj(vec![]), &schema).is_empty());
}

#[test]
fn validation_twice_gives_the_same_errors() {
    let schema = schema_of(
        vec![("a", obj(vec![("type", s("string"))])), ("b", obj(vec![("type", s("array"))]))],
        Some(true),
    );
    let data = obj(vec![("a", n(1)), ("b", s("x")), ("c", JsonValue::Null)]);
    let first = run(&data, &schema);
    assert_eq!(first.len(), 3);
    assert_eq!(first, run(&data, &schema));
}

#[test]
fn min_length_counts_bytes() {
    let schema = schema_of(vec![("name", obj(vec![("type", s("string")), ("minLength", n(3))]))], None);
    assert_eq!(run(&obj(vec![("name", s("ab"))]), &schema), vec![".name: string too short (min 3)"]);
    assert!(run(&obj(vec![("name", s("abc"))]), &schema).is_empty());
    assert!(run(&obj(vec![("name", s("é!"))]), &schema).is_empty());
}

#[test]
fn tuple_items_check_each_position() {
    let items = arr(vec![
        obj(vec![("type", s("string"))]),
        obj(vec![("type", s("string")), ("format", s("email"))]),
    ]);
    let schema = schema_of(vec![("owner", obj(vec![("type", s("array")), ("items", items)]))], None);
    assert_eq!(
        run(&obj(vec![("owner", arr(vec![s("x"), s("not-an-email")]))]), &schema),
        vec![".owner[1]: invalid email \"not-an-email\""]
    );
    assert!(run(&obj(vec![("owner", arr(vec![s("x"), s("a@b.co")]))]), &schema).is_empty());
    assert!(run(&obj(vec![("owner", arr(vec![s("x"), s("a@b.co"), n(3)]))]), &schema).is_empty());
}

#[test]
fn tuple_items_bounds() {
    let items = arr(vec![obj(vec![("type", s("string"))])]);
    let schema = schema_of(
        vec![("t", obj(vec![("type", s("array")), ("items", items), ("minItems", n(2)), ("maxItems", n(3))]))],
        None,
    );
    assert_eq!(run(&obj(vec![("t", arr(vec![s("a")]))]), &schema), vec![".t: expected at least 2 items"]);
    assert_eq!(
        run(&obj(vec![("t", arr(vec![n(1), s("b"), s("c"), s("d")]))]), &schema),
        vec![".t[0]: expected string", ".t: expected at most 3 items"]
    );
}

#[test]
fn homogeneous_items_check_every_element() {
    let schema = schema_of(
        vec![("tags", obj(vec![("type", s("array")), ("items", obj(vec![("type", s("string"))])), ("minItems", n(5))]))],
        None,
    );
    assert_eq!(run(&obj(vec![("tags", arr(vec![s("a"), n(1), s("c")]))]), &schema), vec![".tags[1]: expected string"]);
}

#[test]
fn element_paths_use_decimal_indices() {
    let schema = obj(vec![("type", s("array")), ("items", obj(vec![("type", s("object"))]))]);
    let mut elements: Vec<JsonValue> = (0..11).map(|_| obj(vec![])).collect();
    elements.push(n(0));
    let mut errors = Vec::new();
    validate_property(&mut errors, ".x", &arr(elements), &schema);
    assert_eq!(texts(&errors), vec![".x[11]: expected object"]);
}

#[test]
fn uri_format() {
    let schema = schema_of(vec![("home", obj(vec![("type", s("string")), ("format", s("uri"))]))], None);
    assert!(run(&obj(vec![("home", s("https://x.com"))]), &schema).is_empty());
    assert!(run(&obj(vec![("home", s("data:image/png;base64,AAAA"))]), &schema).is_empty());
    assert_eq!(run(&obj(vec![("home", s("ftp://x.com"))]), &schema), vec![".home: invalid URI \"ftp://x.com\""]);
}

#[test]
fn uri_prefixes() {
    assert!(is_valid_uri("http://a"));
    assert!(is_valid_uri("https://"));
    assert!(is_valid_uri("data:image/gif"));
    assert!(!is_valid_uri("data:text/plain"));
    assert!(!is_valid_uri("HTTP://a"));
    assert!(!is_valid_uri(""));
}

#[test]
fn email_shape() {
    assert!(is_valid_email("a@b.co"));
    assert!(!is_valid_email("a b@c.de"));
    assert!(!is_valid_email("a@bcd"));
    assert!(!is_valid_email("@b.co"));
    assert!(!is_valid_email("a@@b.co"));
}

#[test]
fn invalid_pattern_is_no_constraint() {
    let schema = schema_of(vec![("v", obj(vec![("type", s("string")), ("pattern", s("(["))]))], None);
    assert!(run(&obj(vec![("v", s("anything"))]), &schema).is_empty());
}

#[test]
fn pattern_is_searched_anywhere() {
    let schema = schema_of(vec![("v", obj(vec![("type", s("string")), ("pattern", s("[0-9]+"))]))], None);
    assert!(run(&obj(vec![("v", s("v12x"))]), &schema).is_empty());
    assert_eq!(run(&obj(vec![("v", s("none"))]), &schema), vec![".v: does not match pattern [0-9]+"]);
}

#[test]
fn search_reports_compile_failure_and_matches() {
    assert_eq!(search("^a+$", "aaa"), Some(true));
    assert_eq!(search("^a+$", "aab"), Some(false));
    assert_eq!(search("(", "x"), None);
}

#[test]
fn string_checks_run_in_order() {
    let schema = obj(vec![("format", s("email")), ("pattern", s("z")), ("minLength", n(10))]);
    let mut errors = Vec::new();
    check_string(&mut errors, ".e", "abc", &schema, false, Some(false));
    assert_eq!(
        texts(&errors),
        vec![".e: invalid email \"abc\"", ".e: does not match pattern z", ".e: string too short (min 10)"]
    );
    let mut none = Vec::new();
    check_string(&mut none, ".e", "abcdefghijk", &schema, true, None);
    assert!(none.is_empty());
}

#[test]
fn type_mismatches_stop_at_the_node() {
    let schema = schema_of(
        vec![
            ("a", obj(vec![("type", s("array")), ("items", obj(vec![("type", s("string"))]))])),
            ("o", obj(vec![("type", s("object")), ("pattern", s("x"))])),
            ("s", obj(vec![("type", s("string")), ("minLength", n(9))])),
            ("u", obj(vec![])),
        ],
        None,
    );
    let data = obj(vec![("a", s("x")), ("o", arr(vec![])), ("s", n(1)), ("u", n(2))]);
    assert_eq!(run(&data, &schema), vec![".a: expected array", ".o: expected object", ".s: expected string"]);
    let ok = obj(vec![("a", arr(vec![])), ("o", obj(vec![])), ("s", s("123456789")), ("u", JsonValue::Null)]);
    assert!(run(&ok, &schema).is_empty());
}

#[test]
fn decimal_digits() {
    assert_eq!(decimal_string(0), "0");
    assert_eq!(decimal_string(7), "7");
    assert_eq!(decimal_string(120), "120");
    assert_eq!(decimal_string(u64::MAX), "18446744073709551615");
}

#[test]
fn error_text_joins_path_and_message() {
    let e = ValidationError { path: ".a".to_string(), message: "expected string".to_string() };
    assert_eq!(e.text(), ".a: expected string");
}

#[test]
fn trailing_commas_are_removed() {
    assert_eq!(remove_trailing_commas("{\"a\": [1, 2 ,\n],\n}"), "{\"a\": [1, 2 \n]\n}");
    assert_eq!(remove_trailing_commas("[\"a,]\", 1]"), "[\"a]\", 1]");
    assert_eq!(remove_trailing_commas("[1, 2]"), "[1, 2]");
}

#[test]
fn comments_are_blanked_before_commas_go() {
    assert_eq!(prepare_document("// c\n{\"a\":1,}").as_deref(), Some("    \n{\"a\":1}"));
    assert_eq!(prepare_document("[1, /* two */ 2]").as_deref(), Some("[1,           2]"));
    assert_eq!(prepare_document("[1 /* open"), None);
    assert_eq!(prepare_document("\"open"), None);
}
