use derive_survey::path::ResponsePath;
use derive_survey::responses::{ResponseError, Responses};
use derive_survey::value::ResponseValue;

#[test]
fn insert_and_get() {
    let mut responses = Responses::new();
    responses.insert(ResponsePath::new("name"), ResponseValue::from_str("Alice"));
    responses.insert(ResponsePath::new("age"), ResponseValue::Int(30));

    assert_eq!(
        responses.get_string(&ResponsePath::new("name")).unwrap(),
        "Alice"
    );
    assert_eq!(responses.get_int(&ResponsePath::new("age")).unwrap(), 30);
}

#[test]
fn filter_prefix() {
    let mut responses = Responses::new();
    responses.insert(ResponsePath::new("address.street"), ResponseValue::from_str("123 Main St"));
    responses.insert(ResponsePath::new("address.city"), ResponseValue::from_str("Springfield"));
    responses.insert(ResponsePath::new("name"), ResponseValue::from_str("Alice"));

    let filtered = responses.filter_prefix(&ResponsePath::new("address"));
    assert_eq!(filtered.len(), 2);
    assert_eq!(
        filtered.get_string(&ResponsePath::new("street")).unwrap(),
        "123 Main St"
    );
    assert_eq!(
        filtered.get_string(&ResponsePath::new("city")).unwrap(),
        "Springfield"
    );
}

#[test]
fn type_mismatch_error() {
    let mut responses = Responses::new();
    responses.insert(ResponsePath::new("age"), ResponseValue::Int(30));

    let result = responses.get_string(&ResponsePath::new("age"));
    assert!(matches!(result, Err(ResponseError::TypeMismatch { .. })));
}

#[test]
fn type_mismatch_names_both_kinds() {
    let mut responses = Responses::new();
    responses.insert(ResponsePath::new("age"), ResponseValue::Int(30));
    match responses.get_bool(&ResponsePath::new("age")) {
        Err(ResponseError::TypeMismatch { path, expected, actual }) => {
            assert_eq!(path.as_str(), "age");
            assert_eq!(expected, "Bool");
            assert_eq!(actual, "Int");
        }
        other => panic!("unexpected {:?}", other),
    }
}

#[test]
fn missing_path_error() {
    let responses = Responses::new();
    match responses.get_int(&ResponsePath::new("age")) {
        Err(ResponseError::MissingPath(p)) => assert_eq!(p.as_str(), "age"),
        other => panic!("unexpected {:?}", other),
    }
}

#[test]
fn insert_replaces_value() {
    let mut responses = Responses::new();
    responses.insert(ResponsePath::new("n"), ResponseValue::Int(1));
    responses.insert(ResponsePath::new("n"), ResponseValue::Int(2));
    assert_eq!(responses.len(), 1);
    assert_eq!(responses.get_int(&ResponsePath::new("n")).unwrap(), 2);
}

#[test]
fn remove_returns_old_value() {
    let mut responses = Responses::new();
    responses.insert(ResponsePath::new("a"), ResponseValue::Bool(true));
    responses.insert(ResponsePath::new("b"), ResponseValue::Bool(false));
    let old = responses.remove(&ResponsePath::new("a"));
    assert!(matches!(old, Some(ResponseValue::Bool(true))));
    assert!(!responses.contains(&ResponsePath::new("a")));
    assert!(responses.contains(&ResponsePath::new("b")));
    assert!(responses.remove(&ResponsePath::new("a")).is_none());
    assert_eq!(responses.len(), 1);
}

#[test]
fn extend_prefers_other() {
    let mut mine = Responses::new();
    mine.insert(ResponsePath::new("a"), ResponseValue::Int(1));
    mine.insert(ResponsePath::new("b"), ResponseValue::Int(2));
    let mut other = Responses::new();
    other.insert(ResponsePath::new("b"), ResponseValue::Int(20));
    other.insert(ResponsePath::new("c"), ResponseValue::Int(30));
    mine.extend(other);
    assert_eq!(mine.len(), 3);
    assert_eq!(mine.get_int(&ResponsePath::new("a")).unwrap(), 1);
    assert_eq!(mine.get_int(&ResponsePath::new("b")).unwrap(), 20);
    assert_eq!(mine.get_int(&ResponsePath::new("c")).unwrap(), 30);
}

#[test]
fn has_value_treats_empty_string_as_skipped() {
    let mut responses = Responses::new();
    responses.insert(ResponsePath::new("nick"), ResponseValue::from_str(""));
    responses.insert(ResponsePath::new("age"), ResponseValue::Int(0));
    assert!(!responses.has_value(&ResponsePath::new("nick")));
    assert!(responses.has_value(&ResponsePath::new("age")));
    assert!(!responses.has_value(&ResponsePath::new("missing")));
}

#[test]
fn typed_list_getters() {
    let mut responses = Responses::new();
    responses.insert(
        ResponsePath::new("tags"),
        ResponseValue::StringList(vec!["a".to_string(), "b".to_string()]),
    );
    responses.insert(ResponsePath::new("nums"), ResponseValue::IntList(vec![1, 2]));
    responses.insert(ResponsePath::new("picks"), ResponseValue::ChosenVariants(vec![0, 2]));
    responses.insert(ResponsePath::new("pick"), ResponseValue::ChosenVariant(1));
    responses.insert(ResponsePath::new("ratio"), ResponseValue::Float(1.5f64.to_bits()));
    assert_eq!(responses.get_string_list(&ResponsePath::new("tags")).unwrap(), &["a".to_string(), "b".to_string()]);
    assert_eq!(responses.get_int_list(&ResponsePath::new("nums")).unwrap(), &[1, 2]);
    assert_eq!(responses.get_chosen_variants(&ResponsePath::new("picks")).unwrap(), &[0, 2]);
    assert_eq!(responses.get_chosen_variant(&ResponsePath::new("pick")).unwrap(), 1);
    assert_eq!(f64::from_bits(responses.get_float(&ResponsePath::new("ratio")).unwrap()), 1.5);
    assert!(responses.get_float_list(&ResponsePath::new("nums")).is_err());
}

#[test]
fn filter_prefix_of_root_and_deep_paths() {
    let mut responses = Responses::new();
    responses.insert(ResponsePath::new("a.b.c"), ResponseValue::Int(1));
    responses.insert(ResponsePath::new("a.b"), ResponseValue::Int(2));
    responses.insert(ResponsePath::new("ab.c"), ResponseValue::Int(3));
    let below = responses.filter_prefix(&ResponsePath::new("a.b"));
    assert_eq!(below.len(), 2);
    assert_eq!(below.get_int(&ResponsePath::new("c")).unwrap(), 1);
    assert_eq!(below.get_int(&ResponsePath::empty()).unwrap(), 2);
    let under_a = responses.filter_prefix(&ResponsePath::new("a"));
    assert_eq!(under_a.len(), 2);
    assert_eq!(under_a.get_int(&ResponsePath::new("b.c")).unwrap(), 1);
}

#[test]
fn value_kind_names() {
    assert_eq!(ResponseValue::from_str("x").kind_name(), "String");
    assert_eq!(ResponseValue::Int(1).kind_name(), "Int");
    assert_eq!(ResponseValue::Float(0).kind_name(), "Float");
    assert_eq!(ResponseValue::Bool(true).kind_name(), "Bool");
    assert_eq!(ResponseValue::ChosenVariant(0).kind_name(), "ChosenVariant");
    assert_eq!(ResponseValue::ChosenVariants(vec![]).kind_name(), "ChosenVariants");
    assert_eq!(ResponseValue::StringList(vec![]).kind_name(), "StringList");
    assert_eq!(ResponseValue::IntList(vec![]).kind_name(), "IntList");
    assert_eq!(ResponseValue::FloatList(vec![]).kind_name(), "FloatList");
    assert_eq!(ResponseValue::from_i32(-5).as_int(), Some(-5));
    assert_eq!(ResponseValue::Int(3).as_str(), None);
}
