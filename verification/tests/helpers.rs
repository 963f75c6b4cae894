//! Names, prompts, defaults, bounds, field kinds and flattening.

use derive_survey::cli::{
    assumed_answer, check_int_bounds, confirm_default, int_default, prompt_for, question_path,
    text_default, variant_prompt,
};
use derive_survey::derive::{field_kind, path_matches_field, FieldType};
use derive_survey::error::WizardError;
use derive_survey::infer::{infer_question_type, infer_target_type, AnswerKind, PromptKind};
use derive_survey::flat::{flatten_questions, FlatQuestionKind};
use derive_survey::interview::{
    InputQuestion as WizardInput, IntQuestion as WizardInt, Question as WizardQuestion,
    QuestionKind as WizardKind, SuggestedAnswer,
};
use derive_survey::naming::{capitalize_first, title_case, to_snake_case};
use derive_survey::path::ResponsePath;
use derive_survey::question::{
    AllOfQuestion, DefaultValue, InputQuestion, IntQuestion, OneOfQuestion, Question,
    QuestionKind, Variant,
};
use derive_survey::text::{list_items, trim};
use derive_survey::value::ResponseValue;

#[test]
fn snake_case_of_camel_case() {
    assert_eq!(to_snake_case("CreditCard"), "credit_card");
    assert_eq!(to_snake_case("HTTPServer"), "h_t_t_p_server");
    assert_eq!(to_snake_case("already_snake"), "already_snake");
    assert_eq!(to_snake_case(""), "");
}

#[test]
fn capitalize_and_title() {
    assert_eq!(capitalize_first("name"), "Name");
    assert_eq!(capitalize_first(""), "");
    assert_eq!(capitalize_first("éclair"), "Éclair");
    assert_eq!(title_case("user_name"), "User Name");
    assert_eq!(title_case("port"), "Port");
}

#[test]
fn text_helpers() {
    assert_eq!(trim("  a b \n"), "a b");
    assert_eq!(trim("   "), "");
    assert_eq!(list_items(" a, b ,\n, c"), vec!["a", "b", "c"]);
}

#[test]
fn paths_and_prompts() {
    let q = Question::new(ResponsePath::new("user_name"), "", QuestionKind::Input(InputQuestion::new()));
    let prefix = ResponsePath::new("account");
    let p = question_path(&q, Some(&prefix));
    assert_eq!(p.as_str(), "account.user_name");
    assert_eq!(question_path(&q, None).as_str(), "user_name");
    assert_eq!(prompt_for(&q, &p), "User Name");
    let asked = Question::new(ResponsePath::new("x"), "What?", QuestionKind::Input(InputQuestion::new()));
    assert_eq!(prompt_for(&asked, &p), "What?");
}

#[test]
fn defaults_for_prompts() {
    let suggested = DefaultValue::Suggested(ResponseValue::String("s".to_string()));
    assert_eq!(text_default(&suggested, &Some("own".to_string())), Some("s".to_string()));
    assert_eq!(text_default(&DefaultValue::Unset, &Some("own".to_string())), Some("own".to_string()));
    assert_eq!(text_default(&DefaultValue::Suggested(ResponseValue::Int(1)), &None), None);
    assert_eq!(int_default(&DefaultValue::Assumed(ResponseValue::Int(3)), Some(1)), Some(3));
    assert_eq!(int_default(&DefaultValue::Unset, Some(1)), Some(1));
    assert!(confirm_default(&DefaultValue::Suggested(ResponseValue::Bool(true)), false));
    assert!(!confirm_default(&DefaultValue::Unset, false));
}

#[test]
fn integer_bounds_messages() {
    assert_eq!(check_int_bounds(5, Some(1), Some(9)), Ok(()));
    assert_eq!(check_int_bounds(0, Some(1), None), Err("Value must be at least 1".to_string()));
    assert_eq!(check_int_bounds(10, None, Some(-2)), Err("Value must be at most -2".to_string()));
}

#[test]
fn assumed_answers_and_variant_prompts() {
    let mut q = Question::new(ResponsePath::new("a"), "A?", QuestionKind::Int(IntQuestion::new()));
    assert!(assumed_answer(&q).is_none());
    q.set_assumption(ResponseValue::Int(4));
    assert_eq!(assumed_answer(&q).and_then(|v| v.as_int()), Some(4));
    assert_eq!(variant_prompt("Card", &QuestionKind::Input(InputQuestion::new())), "Enter Card value:");
    assert_eq!(
        variant_prompt("Kind", &QuestionKind::OneOf(OneOfQuestion::new(vec![]))),
        "Select Kind:"
    );
}

#[test]
fn field_kinds_by_type_and_attributes() {
    let k = field_kind(FieldType::Text, true, false, None, None, false, None).unwrap();
    assert!(matches!(k, QuestionKind::Masked(_)));
    let k = field_kind(FieldType::Text, false, true, None, None, false, None).unwrap();
    assert!(matches!(k, QuestionKind::Multiline(_)));
    let k = field_kind(FieldType::Integer, false, false, Some(1), Some(5), false, None).unwrap();
    match k {
        QuestionKind::Int(iq) => {
            assert_eq!(iq.min, Some(1));
            assert_eq!(iq.max, Some(5));
        }
        _ => panic!("expected an integer question"),
    }
    let k = field_kind(FieldType::Optional(Box::new(FieldType::Bool)), false, false, None, None, false, None)
        .unwrap();
    assert!(matches!(k, QuestionKind::Confirm(_)));
    assert!(field_kind(FieldType::EnumList(vec![]), false, false, None, None, false, None).is_none());
    let k = field_kind(FieldType::EnumList(vec![]), false, false, None, None, true, None).unwrap();
    assert!(matches!(k, QuestionKind::AnyOf(_)));
}

#[test]
fn flattening_nests_groups_and_choices() {
    let inner = vec![
        Question::new(ResponsePath::new("street"), "", QuestionKind::Input(InputQuestion::new())),
        Question::new(ResponsePath::new("zip"), "Zip?", QuestionKind::Int(IntQuestion::new())),
    ];
    let mut city = Question::new(ResponsePath::new("city"), "City?", QuestionKind::Input(InputQuestion::new()));
    city.set_suggestion(ResponseValue::String("Oslo".to_string()));
    let qs = vec![
        Question::new(ResponsePath::new("address"), "Where?", QuestionKind::AllOf(AllOfQuestion::new(inner))),
        city,
        Question::new(
            ResponsePath::new("kind"),
            "Kind?",
            QuestionKind::OneOf(OneOfQuestion::with_default(vec![Variant::unit("A"), Variant::unit("B")], 1)),
        ),
        Question::new(ResponsePath::new("nothing"), "", QuestionKind::Unit),
    ];
    let flat = flatten_questions(&qs, &ResponsePath::empty());
    assert_eq!(flat.len(), 4);
    assert_eq!(flat[0].path.as_str(), "address.street");
    assert_eq!(flat[0].prompt, "Where?");
    assert_eq!(flat[1].path.as_str(), "address.zip");
    assert_eq!(flat[1].prompt, "Zip?");
    assert_eq!(flat[2].default_value.as_deref(), Some("Oslo"));
    assert_eq!(flat[3].path.as_str(), "kind.selected_variant");
    match &flat[3].kind {
        FlatQuestionKind::Select { options, default_idx, .. } => {
            assert_eq!(options, &vec!["A".to_string(), "B".to_string()]);
            assert_eq!(*default_idx, 1);
        }
        _ => panic!("expected a choice"),
    }
}

#[test]
fn interview_suggestions_fit_the_kind() {
    let mut q = WizardQuestion::new(
        Some("id1".to_string()),
        "name".to_string(),
        "Name?".to_string(),
        WizardKind::Input(WizardInput { default: None, validate_on_key: None, validate_on_submit: None }),
    );
    q.set_suggestion(SuggestedAnswer::String("Ann".to_string()));
    match q.kind() {
        WizardKind::Input(i) => assert_eq!(i.default.as_deref(), Some("Ann")),
        _ => panic!("kind changed"),
    }
    q.set_suggestion(SuggestedAnswer::Int(3));
    match q.kind() {
        WizardKind::Input(i) => assert_eq!(i.default.as_deref(), Some("Ann")),
        _ => panic!("kind changed"),
    }
    assert_eq!(q.id(), Some("id1"));
    assert_eq!(q.name(), "name");
    assert_eq!(q.prompt(), "Name?");
    let mut n = WizardQuestion::new(
        None,
        "n".to_string(),
        "N?".to_string(),
        WizardKind::Int(WizardInt {
            default: None,
            min: None,
            max: None,
            validate_on_key: None,
            validate_on_submit: None,
        }),
    );
    n.set_suggestion(SuggestedAnswer::Int(9));
    match n.kind() {
        WizardKind::Int(i) => assert_eq!(i.default, Some(9)),
        _ => panic!("kind changed"),
    }
}

#[test]
fn wizard_derive_prompt_kinds() {
    assert_eq!(infer_question_type(Some("String"), false, false), PromptKind::Input);
    assert_eq!(infer_question_type(Some("String"), true, false), PromptKind::Password);
    assert_eq!(infer_question_type(Some("String"), true, true), PromptKind::Editor);
    assert_eq!(infer_question_type(Some("bool"), false, false), PromptKind::Confirm);
    assert_eq!(infer_question_type(Some("u128"), false, false), PromptKind::Int);
    assert_eq!(infer_question_type(Some("f32"), false, false), PromptKind::Float);
    assert_eq!(infer_question_type(Some("ListItem"), false, false), PromptKind::Select);
    assert_eq!(infer_question_type(Some("ExpandItem"), false, false), PromptKind::Expand);
    assert_eq!(infer_question_type(Some("Vec"), false, false), PromptKind::MultiSelect);
    assert_eq!(infer_question_type(Some("std::path::Thing"), false, false), PromptKind::Input);
    assert_eq!(infer_question_type(None, false, false), PromptKind::Input);
}

#[test]
fn wizard_derive_answer_kinds() {
    assert_eq!(infer_target_type(Some("PathBuf")), Ok(AnswerKind::Path));
    assert_eq!(infer_target_type(Some("String")), Ok(AnswerKind::Text));
    assert_eq!(infer_target_type(Some("i16")), Ok(AnswerKind::Int));
    assert_eq!(infer_target_type(Some("usize")), Ok(AnswerKind::Int));
    assert_eq!(infer_target_type(Some("f64")), Ok(AnswerKind::Float));
    assert_eq!(infer_target_type(Some("Vec")), Ok(AnswerKind::ListItems));
    assert_eq!(infer_target_type(Some("u128")), Err(WizardError::UnsupportedTypeForPrompting));
    assert_eq!(infer_target_type(None), Err(WizardError::UnsupportedTypeForPrompting));
    assert_eq!(
        WizardError::UnsupportedTypeForPrompting.message(),
        "Unsupported type for prompting"
    );
}

#[test]
fn field_validators_apply_by_path() {
    assert!(path_matches_field(&ResponsePath::new("email"), "email"));
    assert!(path_matches_field(&ResponsePath::new("user.email"), "email"));
    assert!(!path_matches_field(&ResponsePath::new("user.backup_email"), "email"));
    assert!(!path_matches_field(&ResponsePath::new("mail"), "email"));
    assert!(!path_matches_field(&ResponsePath::new("email2"), "email"));
}
