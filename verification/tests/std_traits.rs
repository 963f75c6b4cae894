//! The standard traits of the library's types.

use derive_survey::path::ResponsePath;
use derive_survey::question::{
    ConfirmQuestion, DefaultValue, InputQuestion, IntQuestion, ListElementKind, ListQuestion, Question,
    QuestionKind,
};
use derive_survey::value::ResponseValue;

#[test]
fn response_path_equality_and_conversions() {
    assert_eq!(ResponsePath::new("a.b"), ResponsePath::from("a.b"));
    assert_ne!(ResponsePath::new("a"), ResponsePath::new("b"));
    let s = String::from("address.street");
    assert_eq!(ResponsePath::from(&s), ResponsePath::from(s.clone()));
    let p: ResponsePath = "x".into();
    assert_eq!(p.as_str(), "x");
}

#[test]
fn response_value_conversions() {
    assert!(matches!(ResponseValue::from("hi"), ResponseValue::String(s) if s == "hi"));
    assert!(matches!(ResponseValue::from(String::from("yo")), ResponseValue::String(s) if s == "yo"));
    assert!(matches!(ResponseValue::from(7i64), ResponseValue::Int(7)));
    assert!(matches!(ResponseValue::from(-3i32), ResponseValue::Int(-3)));
    assert!(matches!(ResponseValue::from(true), ResponseValue::Bool(true)));
    assert!(matches!(ResponseValue::from(vec![0usize, 2]), ResponseValue::ChosenVariants(v) if v == vec![0, 2]));
}

#[test]
fn defaults_of_question_types() {
    assert!(matches!(DefaultValue::default(), DefaultValue::Unset));
    let i = InputQuestion::default();
    assert!(i.default.is_none() && i.validate.is_none());
    let n = IntQuestion::default();
    assert!(n.min.is_none() && n.max.is_none());
    assert!(!ConfirmQuestion::default().default);
    assert!(matches!(ListElementKind::default(), ListElementKind::String));
    assert!(ListQuestion::default().min_items.is_none());
}

#[test]
fn cloned_question_keeps_its_parts() {
    let mut q = Question::new(ResponsePath::new("name"), "Name?", QuestionKind::Input(InputQuestion::new()));
    q.set_assumption(ResponseValue::from("Bob"));
    let c = q.clone();
    assert_eq!(c.path(), q.path());
    assert_eq!(c.ask(), "Name?");
    assert!(matches!(c.default(), DefaultValue::Assumed(ResponseValue::String(s)) if s == "Bob"));
    assert!(matches!(c.kind(), QuestionKind::Input(_)));
}
