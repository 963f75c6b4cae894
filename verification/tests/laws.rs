//! The library's laws, each checked on concrete values.

use derive_survey::builder::{DefaultsScope, SurveyBuilder};
use derive_survey::path::ResponsePath;
use derive_survey::question::{DefaultValue, InputQuestion, IntQuestion, Question, QuestionKind, SurveyDefinition};
use derive_survey::responses::Responses;
use derive_survey::value::ResponseValue;
use derive_survey::wizard::{FloatText, WizardState};

#[test]
fn law_child_then_strip_gives_segment() {
    let p = ResponsePath::new("a.b");
    let c = p.child("c");
    assert_eq!(c.strip_path_prefix(&p).unwrap().as_str(), "c");
    assert!(p.strip_path_prefix(&p).unwrap().is_empty());
}

#[test]
fn law_parent_last_segments_len_of_child() {
    let p = ResponsePath::new("x.y");
    let c = p.child("z");
    assert_eq!(c.parent().as_str(), "x.y");
    assert_eq!(c.last(), Some("z"));
    assert_eq!(c.segments(), vec!["x", "y", "z"]);
    assert_eq!(c.len(), p.len() + 1);
}

#[test]
fn law_read_after_write() {
    let mut r = Responses::new();
    r.insert(ResponsePath::new("a"), ResponseValue::Int(1));
    r.insert(ResponsePath::new("b"), ResponseValue::Int(2));
    r.insert(ResponsePath::new("a"), ResponseValue::Int(3));
    assert_eq!(r.get_int(&ResponsePath::new("a")).unwrap(), 3);
    assert_eq!(r.get_int(&ResponsePath::new("b")).unwrap(), 2);
    r.remove(&ResponsePath::new("a"));
    assert!(!r.contains(&ResponsePath::new("a")));
    assert_eq!(r.get_int(&ResponsePath::new("b")).unwrap(), 2);
}

#[test]
fn law_filter_prefix_reads_children_only() {
    let mut r = Responses::new();
    r.insert(ResponsePath::new("addr.city"), ResponseValue::String("Oslo".to_string()));
    r.insert(ResponsePath::new("address"), ResponseValue::String("x".to_string()));
    r.insert(ResponsePath::new("name"), ResponseValue::String("n".to_string()));
    let f = r.filter_prefix(&ResponsePath::new("addr"));
    assert_eq!(f.len(), 1);
    assert_eq!(f.get_string(&ResponsePath::new("city")).unwrap(), "Oslo");
}

#[test]
fn law_extend_prefers_other() {
    let mut a = Responses::new();
    a.insert(ResponsePath::new("k"), ResponseValue::Bool(false));
    a.insert(ResponsePath::new("own"), ResponseValue::Bool(true));
    let mut b = Responses::new();
    b.insert(ResponsePath::new("k"), ResponseValue::Bool(true));
    a.extend(b);
    assert_eq!(a.get_bool(&ResponsePath::new("k")).unwrap(), true);
    assert_eq!(a.get_bool(&ResponsePath::new("own")).unwrap(), true);
}

#[test]
fn law_assumption_wins_and_scoped_suggestions_reach_questions() {
    let survey = SurveyDefinition::new(vec![
        Question::new(ResponsePath::new("host"), "Host?", QuestionKind::Input(InputQuestion::new())),
        Question::new(ResponsePath::new("port"), "Port?", QuestionKind::Int(IntQuestion::new())),
    ]);
    let scope = DefaultsScope::new(ResponsePath::empty()).set("port", ResponseValue::Int(80));
    assert_eq!(scope.path("port").as_str(), "port");
    let builder = SurveyBuilder::new()
        .suggest_value("host", ResponseValue::String("example.org".to_string()))
        .assume_value("host", ResponseValue::String("localhost".to_string()))
        .suggest_scope(scope);
    let applied = builder.apply_to_definition(survey);
    let qs = applied.questions();
    assert!(matches!(qs[0].default(), DefaultValue::Assumed(ResponseValue::String(s)) if s == "localhost"));
    assert!(matches!(qs[1].default(), DefaultValue::Suggested(ResponseValue::Int(80))));
}

#[test]
fn law_nested_scope_key_is_question_path() {
    let scope = DefaultsScope::new(ResponsePath::new("server")).nested("tls");
    assert_eq!(scope.path("cert").as_str(), ResponsePath::new("server").child("tls").child("cert").as_str());
}

struct NoFloats;

impl FloatText for NoFloats {
    fn parse(&self, _text: &str) -> Option<u64> {
        None
    }

    fn less(&self, _a: u64, _b: u64) -> bool {
        false
    }

    fn show(&self, _bits: u64) -> String {
        String::new()
    }
}

#[test]
fn law_assumed_question_is_skipped() {
    let survey = SurveyDefinition::new(vec![
        Question::new(ResponsePath::new("port"), "Port?", QuestionKind::Int(IntQuestion::new())),
        Question::new(ResponsePath::new("host"), "Host?", QuestionKind::Input(InputQuestion::new())),
    ]);
    let survey = SurveyBuilder::new().assume_value("port", ResponseValue::Int(8080)).apply_to_definition(survey);
    let mut w = WizardState::new(&survey, "T".to_string());
    assert!(w.questions[0].assumed.is_some());
    w.enter_question(&NoFloats);
    assert_eq!(w.current_index, 1);
    assert_eq!(w.responses.get_int(&ResponsePath::new("port")).unwrap(), 8080);
}
