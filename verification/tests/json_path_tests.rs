use llm_tool_test::assertion::{evaluate_json_assertion, parse_assertion, JsonAssertion};
use llm_tool_test::json::{json_eq, json_string, parse_json, JsonValue};
use llm_tool_test::json_path::{parse_json_path, resolve_json_path, JsonPathSegment};

fn doc(text: &str) -> JsonValue {
    parse_json(text).expect("valid JSON")
}

#[test]
fn parse_path_accepts_root_only() {
    let segs = parse_json_path("$").expect("root parses");
    assert!(segs.is_empty());
}

#[test]
fn parse_path_accepts_keys_and_indices() {
    let segs = parse_json_path("$.a.b[0]").expect("path parses");
    assert_eq!(segs.len(), 3);
    match &segs[0] {
        JsonPathSegment::Key(k) => assert_eq!(k, "a"),
        _ => panic!("expected key segment"),
    }
    match &segs[2] {
        JsonPathSegment::Index(i) => assert_eq!(*i, 0),
        _ => panic!("expected index segment"),
    }
}

#[test]
fn parse_path_rejects_missing_dollar() {
    let err = parse_json_path("a.b").unwrap_err();
    assert_eq!(err, "path must start with '$'");
}

#[test]
fn parse_path_rejects_empty_key() {
    let err = parse_json_path("$..a").unwrap_err();
    assert_eq!(err, "empty object key in path");
}

#[test]
fn parse_path_rejects_unclosed_bracket() {
    let err = parse_json_path("$.a[1").unwrap_err();
    assert_eq!(err, "unclosed array index bracket");
}

#[test]
fn parse_path_rejects_bad_index() {
    let err = parse_json_path("$.a[x]").unwrap_err();
    assert_eq!(err, "invalid array index 'x'");
}

#[test]
fn parse_path_rejects_unexpected_character() {
    let err = parse_json_path("$a").unwrap_err();
    assert_eq!(err, "unexpected character 'a' in path");
}

#[test]
fn resolution_matches_structural_lookup() {
    let d = doc("{\"a\":{\"b\":[{\"c\":7},2]}}");
    let v = resolve_json_path(&d, "$.a.b[0].c").expect("path ok").expect("value present");
    assert!(json_eq(v, &doc("7")));
}

#[test]
fn resolution_of_missing_key_is_none_not_error() {
    let d = doc("{\"a\":{\"b\":[1,2]}}");
    assert!(resolve_json_path(&d, "$.a.missing").expect("path ok").is_none());
    assert!(resolve_json_path(&d, "$.a.b[5]").expect("path ok").is_none());
    assert!(resolve_json_path(&d, "$.a.b[0].deeper").expect("path ok").is_none());
}

#[test]
fn resolution_through_non_container_is_none() {
    let d = doc("{\"a\":3}");
    assert!(resolve_json_path(&d, "$.a.b").expect("path ok").is_none());
    assert!(resolve_json_path(&d, "$.a[0]").expect("path ok").is_none());
}

#[test]
fn assertion_exists_requires_non_null() {
    let d = doc("{\"a\":null,\"b\":1}");
    let a = resolve_json_path(&d, "$.a").unwrap();
    let b = resolve_json_path(&d, "$.b").unwrap();
    let missing = resolve_json_path(&d, "$.c").unwrap();
    assert!(!evaluate_json_assertion(a, "exists").unwrap().0);
    assert!(evaluate_json_assertion(b, "exists").unwrap().0);
    assert!(!evaluate_json_assertion(missing, "exists").unwrap().0);
}

#[test]
fn assertion_equals_falls_back_to_bare_text() {
    let d = doc("{\"status\":\"done\"}");
    let v = resolve_json_path(&d, "$.status").unwrap();
    assert!(evaluate_json_assertion(v, "equals done").unwrap().0);
    assert!(!evaluate_json_assertion(v, "equals other").unwrap().0);
}

#[test]
fn assertion_contains_requires_string_value() {
    let d = doc("{\"msg\":\"all tests green\",\"n\":4}");
    let msg = resolve_json_path(&d, "$.msg").unwrap();
    let n = resolve_json_path(&d, "$.n").unwrap();
    assert!(evaluate_json_assertion(msg, "contains tests").unwrap().0);
    let (passed, detail) = evaluate_json_assertion(n, "contains tests").unwrap();
    assert!(!passed);
    assert_eq!(detail, "value is not a string");
}

#[test]
fn len_assertions_compare_array_and_object_sizes() {
    let d = doc("{\"arr\":[1,2,3],\"obj\":{\"a\":1,\"b\":2}}");
    let arr = resolve_json_path(&d, "$.arr").unwrap();
    let obj = resolve_json_path(&d, "$.obj").unwrap();
    assert!(evaluate_json_assertion(arr, "len >= 3").unwrap().0);
    assert!(evaluate_json_assertion(arr, "len == 3").unwrap().0);
    assert!(!evaluate_json_assertion(arr, "len > 3").unwrap().0);
    assert!(evaluate_json_assertion(obj, "len == 2").unwrap().0);
    assert!(evaluate_json_assertion(obj, "len >= 1").unwrap().0);
    assert!(!evaluate_json_assertion(obj, "len > 2").unwrap().0);
}

#[test]
fn len_assertions_fail_on_scalars() {
    let d = doc("{\"n\":5,\"s\":\"text\"}");
    let n = resolve_json_path(&d, "$.n").unwrap();
    let s = resolve_json_path(&d, "$.s").unwrap();
    let (passed_n, detail_n) = evaluate_json_assertion(n, "len >= 0").unwrap();
    assert!(!passed_n);
    assert_eq!(detail_n, "value is not an array or object");
    let (passed_s, detail_s) = evaluate_json_assertion(s, "len == 4").unwrap();
    assert!(!passed_s);
    assert_eq!(detail_s, "value is not an array or object");
}

#[test]
fn unrecognized_assertion_is_an_error() {
    let d = doc("{}");
    let v = resolve_json_path(&d, "$").unwrap();
    let err = evaluate_json_assertion(v, "bogus stuff").unwrap_err();
    assert!(err.contains("assertion must be one of"));
}

#[test]
fn oversized_len_count_is_an_error() {
    let err = parse_assertion("len >= 99999999999999999999999999").unwrap_err();
    assert_eq!(err, "length must be a non-negative integer");
}

#[test]
fn parse_assertion_recognizes_all_forms() {
    assert!(matches!(parse_assertion("exists"), Ok(JsonAssertion::Exists)));
    assert!(matches!(parse_assertion(" exists "), Ok(JsonAssertion::Exists)));
    assert!(matches!(parse_assertion("equals 1"), Ok(JsonAssertion::Equals(_))));
    assert!(matches!(parse_assertion("contains x"), Ok(JsonAssertion::Contains(_))));
    assert!(matches!(parse_assertion("len>=2"), Ok(JsonAssertion::Len(_, 2))));
    assert!(matches!(parse_assertion("len == 0"), Ok(JsonAssertion::Len(_, 0))));
}

#[test]
fn json_rendering_is_compact() {
    let d = doc("{\"a\":[1,true,null],\"b\":\"x\\\"y\"}");
    assert_eq!(json_string(&d), "{\"a\":[1,true,null],\"b\":\"x\\\"y\"}");
}

#[test]
fn json_equality_is_structural() {
    assert!(json_eq(&doc("{\"a\":1,\"b\":[2,3]}"), &doc("{ \"b\": [2, 3], \"a\": 1 }")));
    assert!(!json_eq(&doc("3"), &doc("3.0")));
    assert!(!json_eq(&doc("[1,2]"), &doc("[2,1]")));
}
