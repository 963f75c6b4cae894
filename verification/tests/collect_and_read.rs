//! The test backend, the derive's validator dispatch and reading fields back.

use std::cell::RefCell;

use derive_survey::builder::{DefaultsScope, SurveyBuilder};
use derive_survey::cli::{follow_up, items_of, FollowUp};
use derive_survey::display::{bounds_hint, int_bounds_hint, masked};

use derive_survey::derive::{
    enum_question, question_for_field, survey_of, validate_field, validators_at, FieldAttrs, FieldChecks, FieldType,
    TypeChecks,
};
use derive_survey::fields::{read_field, FieldValue};
use derive_survey::path::ResponsePath;
use derive_survey::question::{
    AllOfQuestion, AnyOfQuestion, DefaultValue, InputQuestion, IntQuestion, OneOfQuestion, Question, QuestionKind,
    Variant,
};
use derive_survey::responses::{ResponseError, Responses};
use derive_survey::test_backend::{TestBackend, TestBackendError};
use derive_survey::text::trim;
use derive_survey::value::ResponseValue;

fn attrs(ask: &str) -> FieldAttrs {
    FieldAttrs {
        ask: Some(ask.to_string()),
        mask: false,
        multiline: false,
        validate: None,
        min: None,
        max: None,
        multiselect: false,
    }
}

fn accept_all(_v: &ResponseValue, _r: &Responses) -> Result<(), String> {
    Ok(())
}

fn refuse_short(v: &ResponseValue, _r: &Responses) -> Result<(), String> {
    match v {
        ResponseValue::String(s) if s.len() < 3 => Err(format!("too short: {}", s)),
        _ => Ok(()),
    }
}

fn refuse_second(v: &ResponseValue, r: &Responses) -> Result<(), String> {
    match v {
        ResponseValue::String(_) if r.len() >= 1 => Err(format!("{} before", r.len())),
        _ => Ok(()),
    }
}

#[test]
fn top_level_enum_choice_is_read_at_selected_variant() {
    let q = enum_question(vec![Variant::unit("A"), Variant::unit("B")]);
    let survey = survey_of(None, vec![q], None);
    let backend = TestBackend::new().with_variant("selected_variant", 1);
    let r = backend.collect(&survey, &accept_all).unwrap();
    assert_eq!(r.get_chosen_variant(&ResponsePath::new("selected_variant")).unwrap(), 1);
}

#[test]
fn assumed_direct_answer_is_stored() {
    let mut q = Question::new(ResponsePath::new("name"), "Name?", QuestionKind::Input(InputQuestion::new()));
    q.set_assumption(ResponseValue::from_str("Bob"));
    let survey = survey_of(None, vec![q], None);
    let r = TestBackend::new().collect(&survey, &accept_all).unwrap();
    assert_eq!(r.get_string(&ResponsePath::new("name")).unwrap(), "Bob");
}

#[test]
fn missing_answer_names_its_path() {
    let q = Question::new(ResponsePath::new("name"), "Name?", QuestionKind::Input(InputQuestion::new()));
    let survey = survey_of(None, vec![q], None);
    match TestBackend::new().collect(&survey, &accept_all) {
        Err(TestBackendError::MissingResponse(p)) => assert_eq!(p, "name"),
        other => panic!("unexpected {:?}", other),
    }
}

#[test]
fn refused_answer_gives_validation_failed_with_its_path() {
    let q = Question::new(ResponsePath::new("name"), "Name?", QuestionKind::Input(InputQuestion::new()));
    let survey = survey_of(None, vec![q], None);
    let backend = TestBackend::new().with_string("name", "Al");
    match backend.collect(&survey, &refuse_short) {
        Err(TestBackendError::ValidationFailed { path, message }) => {
            assert_eq!(path, "name");
            assert_eq!(message, "too short: Al");
        },
        other => panic!("unexpected {:?}", other),
    }
}

#[test]
fn validator_sees_the_answers_collected_before() {
    let a = Question::new(ResponsePath::new("a"), "A?", QuestionKind::Input(InputQuestion::new()));
    let b = Question::new(ResponsePath::new("b"), "B?", QuestionKind::Input(InputQuestion::new()));
    let survey = survey_of(None, vec![a, b], None);
    let backend = TestBackend::new().with_string("a", "first").with_string("b", "second");
    match backend.collect(&survey, &refuse_second) {
        Err(TestBackendError::ValidationFailed { path, message }) => {
            assert_eq!(path, "b");
            assert_eq!(message, "1 before");
        },
        other => panic!("unexpected {:?}", other),
    }
}

#[test]
fn propagated_validator_reaches_numeric_fields_only() {
    let n = question_for_field("n", FieldType::Integer, &attrs("N?"), Some("v".to_string())).unwrap();
    match n.kind() {
        QuestionKind::Int(q) => assert_eq!(q.validate, Some("v".to_string())),
        _ => panic!("expected an integer question"),
    }
    let name = question_for_field("name", FieldType::Text, &attrs("Name?"), Some("v".to_string())).unwrap();
    match name.kind() {
        QuestionKind::Input(q) => assert_eq!(q.validate, None),
        _ => panic!("expected a text question"),
    }
}

#[test]
fn own_validator_wins_over_propagated() {
    let mut a = attrs("Name?");
    a.validate = Some("own".to_string());
    let name = question_for_field("name", FieldType::Text, &a, Some("v".to_string())).unwrap();
    match name.kind() {
        QuestionKind::Input(q) => assert_eq!(q.validate, Some("own".to_string())),
        _ => panic!("expected a text question"),
    }
}

fn checks(name: &str, validate: Option<&str>, nested: Option<TypeChecks>) -> FieldChecks {
    FieldChecks { name: name.to_string(), validate: validate.map(|v| v.to_string()), nested: nested.map(Box::new) }
}

fn person_checks() -> TypeChecks {
    let address = TypeChecks {
        propagated: None,
        fields: vec![checks("zip", Some("check_zip"), None), checks("city", None, None)],
    };
    TypeChecks {
        propagated: Some("whole".to_string()),
        fields: vec![
            checks("email", Some("check_email"), None),
            checks("address", None, Some(address)),
            checks("age", Some("check_age"), None),
        ],
    }
}

#[test]
fn validators_run_in_order_with_nested_types() {
    let t = person_checks();
    assert_eq!(validators_at(&t, &ResponsePath::new("email")), vec!["whole", "check_email"]);
    assert_eq!(validators_at(&t, &ResponsePath::new("person.email")), vec!["whole", "check_email"]);
    assert_eq!(validators_at(&t, &ResponsePath::new("address.zip")), vec!["whole", "check_zip"]);
    assert_eq!(validators_at(&t, &ResponsePath::new("age")), vec!["whole", "check_age"]);
    assert_eq!(validators_at(&t, &ResponsePath::new("backup_email")), vec!["whole"]);
    let plain = TypeChecks { propagated: None, fields: vec![checks("f", Some("v"), None)] };
    assert_eq!(validators_at(&plain, &ResponsePath::new("x.f")), vec!["v"]);
    assert!(validators_at(&plain, &ResponsePath::new("xf")).is_empty());
}

#[test]
fn validate_field_stops_at_the_first_refusal() {
    let t = person_checks();
    let calls = RefCell::new(Vec::<String>::new());
    let run = |name: &String, v: &ResponseValue, _r: &Responses, _p: &ResponsePath| -> Result<(), String> {
        calls.borrow_mut().push(name.clone());
        match (name.as_str(), v) {
            ("check_zip", ResponseValue::String(s)) if s.len() != 5 => Err("zip must have 5 digits".to_string()),
            ("whole", ResponseValue::String(s)) if s.is_empty() => Err("empty".to_string()),
            _ => Ok(()),
        }
    };
    let r = Responses::new();
    let bad_zip = ResponseValue::from("123");
    assert_eq!(
        validate_field(&t, &run, &bad_zip, &r, &ResponsePath::new("address.zip")),
        Err("zip must have 5 digits".to_string())
    );
    assert_eq!(*calls.borrow(), vec!["whole", "check_zip"]);
    calls.borrow_mut().clear();
    let empty = ResponseValue::from("");
    assert_eq!(validate_field(&t, &run, &empty, &r, &ResponsePath::new("address.zip")), Err("empty".to_string()));
    assert_eq!(*calls.borrow(), vec!["whole"]);
    let good = ResponseValue::from("12345");
    assert_eq!(validate_field(&t, &run, &good, &r, &ResponsePath::new("address.zip")), Ok(()));
}

#[test]
fn optional_assumed_none_reads_back_as_absent() {
    let mut r = Responses::new();
    r.insert(ResponsePath::new("nick"), ResponseValue::Bool(false));
    let text = FieldType::Optional(Box::new(FieldType::Text));
    assert!(matches!(read_field(&text, &r, &ResponsePath::new("nick")).unwrap(), FieldValue::Optional(None)));
    let flag = FieldType::Optional(Box::new(FieldType::Bool));
    match read_field(&flag, &r, &ResponsePath::new("nick")).unwrap() {
        FieldValue::Optional(Some(v)) => assert!(matches!(*v, FieldValue::Bool(false))),
        other => panic!("unexpected {:?}", other),
    }
}

#[test]
fn builder_none_then_backend_then_read_gives_none() {
    let nick = question_for_field("nick", FieldType::Optional(Box::new(FieldType::Text)), &attrs("Nick?"), None)
        .unwrap();
    let survey = survey_of(None, vec![nick], None);
    let scope = DefaultsScope::new(ResponsePath::new("nick")).set_none();
    let survey = SurveyBuilder::new().assume_scope(scope).apply_to_definition(survey);
    let r = TestBackend::new().collect(&survey, &accept_all).unwrap();
    let ty = FieldType::Optional(Box::new(FieldType::Text));
    assert!(matches!(read_field(&ty, &r, &ResponsePath::new("nick")).unwrap(), FieldValue::Optional(None)));
}

#[test]
fn assumed_enum_choice_is_not_asked() {
    let q = enum_question(vec![Variant::unit("A"), Variant::unit("B"), Variant::unit("C")]);
    let top = question_for_field("pay", FieldType::Nested(vec![q]), &attrs("Pay:"), None).unwrap();
    let survey = survey_of(None, vec![top], None);
    let scope = DefaultsScope::new(ResponsePath::new("pay")).select_variant(2);
    let survey = SurveyBuilder::new().assume_scope(scope).apply_to_definition(survey);
    let inner = match survey.questions[0].kind() {
        QuestionKind::AllOf(all) => &all.questions()[0],
        _ => panic!("expected a nested group"),
    };
    assert!(inner.is_assumed());
    assert!(matches!(inner.default(), DefaultValue::Assumed(ResponseValue::ChosenVariant(2))));
    let r = TestBackend::new().collect(&survey, &accept_all).unwrap();
    assert_eq!(r.get_chosen_variant(&ResponsePath::new("pay.selected_variant")).unwrap(), 2);
}

#[test]
fn read_field_text_and_errors() {
    let mut r = Responses::new();
    r.insert(ResponsePath::new("name"), ResponseValue::from_str("Ann"));
    match read_field(&FieldType::Text, &r, &ResponsePath::new("name")).unwrap() {
        FieldValue::Text(s) => assert_eq!(s, "Ann"),
        other => panic!("unexpected {:?}", other),
    }
    assert!(matches!(
        read_field(&FieldType::Text, &r, &ResponsePath::new("other")),
        Err(ResponseError::MissingPath(_))
    ));
    assert!(matches!(
        read_field(&FieldType::Integer, &r, &ResponsePath::new("name")),
        Err(ResponseError::TypeMismatch { .. })
    ));
}

#[test]
fn read_field_optional_present_and_absent() {
    let mut r = Responses::new();
    r.insert(ResponsePath::new("nick"), ResponseValue::from_str("Jo"));
    let ty = FieldType::Optional(Box::new(FieldType::Text));
    match read_field(&ty, &r, &ResponsePath::new("nick")).unwrap() {
        FieldValue::Optional(Some(v)) => assert!(matches!(*v, FieldValue::Text(ref s) if s == "Jo")),
        other => panic!("unexpected {:?}", other),
    }
    assert!(matches!(read_field(&ty, &r, &ResponsePath::new("none")).unwrap(), FieldValue::Optional(None)));
}

#[test]
fn read_field_nested_and_items() {
    let mut r = Responses::new();
    r.insert(ResponsePath::new("addr.city"), ResponseValue::from_str("Oslo"));
    r.insert(ResponsePath::new("addr.zip"), ResponseValue::from_str("0150"));
    r.insert(ResponsePath::new("tops.selected_variants"), ResponseValue::ChosenVariants(vec![0, 2]));
    r.insert(ResponsePath::new("tops.0.selected_variant"), ResponseValue::ChosenVariant(0));
    r.insert(ResponsePath::new("tops.1.selected_variant"), ResponseValue::ChosenVariant(2));
    match read_field(&FieldType::Nested(vec![]), &r, &ResponsePath::new("addr")).unwrap() {
        FieldValue::Nested(n) => {
            assert_eq!(n.len(), 2);
            assert_eq!(n.get_string(&ResponsePath::new("city")).unwrap(), "Oslo");
        },
        other => panic!("unexpected {:?}", other),
    }
    match read_field(&FieldType::EnumList(vec![]), &r, &ResponsePath::new("tops")).unwrap() {
        FieldValue::Items(items) => {
            assert_eq!(items.len(), 2);
            assert_eq!(items[1].get_chosen_variant(&ResponsePath::new("selected_variant")).unwrap(), 2);
        },
        other => panic!("unexpected {:?}", other),
    }
}

#[test]
fn collected_answers_read_back() {
    let survey = survey_of(
        None,
        vec![
            question_for_field("name", FieldType::Text, &attrs("Name?"), None).unwrap(),
            question_for_field("age", FieldType::Integer, &attrs("Age?"), None).unwrap(),
        ],
        None,
    );
    let backend = TestBackend::new().with_string("name", "Ann").with_int("age", 41);
    let r = backend.collect(&survey, &accept_all).unwrap();
    assert!(matches!(read_field(&FieldType::Integer, &r, &ResponsePath::new("age")).unwrap(), FieldValue::Int(41)));
}

#[test]
fn path_len_and_last_count_segments() {
    assert_eq!(ResponsePath::new("a..b").len(), 2);
    assert_eq!(ResponsePath::new("a.").len(), 1);
    assert_eq!(ResponsePath::new("a.").last(), Some("a"));
    assert_eq!(ResponsePath::empty().len(), 0);
}

#[test]
fn trim_drops_unicode_white_space() {
    assert_eq!(trim("\u{3000} a b\u{a0}\t"), "a b");
    assert_eq!(trim("\u{2009}x\u{85}"), "x");
    assert_eq!(trim("\u{200b}y"), "\u{200b}y");
}

#[test]
fn choice_follow_ups_and_item_paths() {
    let card = Variant::new(
        "Card",
        QuestionKind::AllOf(AllOfQuestion::new(vec![Question::new(
            ResponsePath::new("number"),
            "Number?",
            QuestionKind::Input(InputQuestion::new()),
        )])),
    );
    let tip = Variant::new("Tip", QuestionKind::Int(IntQuestion::new()));
    let one_of = OneOfQuestion::new(vec![Variant::unit("Cash"), card, tip]);
    assert!(matches!(follow_up(&one_of, 0), FollowUp::Nothing));
    match follow_up(&one_of, 1) {
        FollowUp::Group(qs) => assert_eq!(qs[0].path().as_str(), "number"),
        other => panic!("unexpected {:?}", other),
    }
    match follow_up(&one_of, 2) {
        FollowUp::Single(q) => {
            assert_eq!(q.path().as_str(), "Tip");
            assert_eq!(q.ask(), "Enter Tip value:");
            assert!(matches!(q.kind(), QuestionKind::Int(_)));
        },
        other => panic!("unexpected {:?}", other),
    }
    assert!(matches!(follow_up(&one_of, 7), FollowUp::Nothing));

    let any_of = AnyOfQuestion::new(one_of.variants.clone());
    let items = items_of(&any_of, &vec![2, 9, 1], &ResponsePath::new("pay"));
    assert_eq!(items.len(), 3);
    let first = items[0].as_ref().unwrap();
    assert_eq!(first.path.as_str(), "pay.0");
    assert_eq!(first.variant, 2);
    assert!(first.questions.is_empty());
    assert!(items[1].is_none());
    let third = items[2].as_ref().unwrap();
    assert_eq!(third.path.as_str(), "pay.2");
    assert_eq!(third.questions.len(), 1);
}

#[test]
fn wizard_display_texts() {
    assert_eq!(int_bounds_hint(Some(-3), Some(10)), " (min: -3, max: 10)");
    assert_eq!(int_bounds_hint(None, Some(5)), " (max: 5)");
    assert_eq!(int_bounds_hint(None, None), "");
    assert_eq!(bounds_hint(Some("0.5".to_string()), None), " (min: 0.5)");
    assert_eq!(masked("pässwd"), "●●●●●●");
}

#[test]
fn with_suggestions_takes_the_plain_fields_of_an_instance() {
    let b = SurveyBuilder::new().with_suggestions(vec![
        ("name".to_string(), FieldValue::Text("Ann".to_string())),
        ("age".to_string(), FieldValue::Int(41)),
        ("tags".to_string(), FieldValue::TextList(vec!["x".to_string()])),
    ]);
    assert_eq!(b.suggestions().len(), 2);
    let survey = survey_of(
        None,
        vec![
            question_for_field("name", FieldType::Text, &attrs("Name?"), None).unwrap(),
            question_for_field("age", FieldType::Integer, &attrs("Age?"), None).unwrap(),
        ],
        None,
    );
    let survey = b.apply_to_definition(survey);
    assert!(matches!(survey.questions[0].default(), DefaultValue::Suggested(ResponseValue::String(s)) if s == "Ann"));
    assert!(matches!(survey.questions[1].default(), DefaultValue::Suggested(ResponseValue::Int(41))));
}
