//! The terminal wizard's state machine, driven by keys as the front end
//! drives it.

use derive_survey::path::ResponsePath;
use derive_survey::question::{
    AllOfQuestion, AnyOfQuestion, ConfirmQuestion, FloatQuestion, InputQuestion, IntQuestion,
    ListQuestion, OneOfQuestion, Question, QuestionKind, SurveyDefinition, Variant,
};
use derive_survey::responses::Responses;
use derive_survey::value::ResponseValue;
use derive_survey::wizard::{parent_path, FloatText, Key, WizardState};

struct Floats;

impl FloatText for Floats {
    fn parse(&self, text: &str) -> Option<u64> {
        text.parse::<f64>().ok().map(f64::to_bits)
    }

    fn less(&self, a: u64, b: u64) -> bool {
        f64::from_bits(a) < f64::from_bits(b)
    }

    fn show(&self, bits: u64) -> String {
        f64::from_bits(bits).to_string()
    }
}

fn accept(_v: &ResponseValue, _r: &Responses, _p: &ResponsePath) -> Result<(), String> {
    Ok(())
}

fn q(path: &str, ask: &str, kind: QuestionKind) -> Question {
    Question::new(ResponsePath::new(path), ask, kind)
}

fn start(questions: Vec<Question>) -> WizardState {
    let mut w = WizardState::new(&SurveyDefinition::new(questions), "Survey".to_string());
    w.enter_question(&Floats);
    w
}

fn press(w: &mut WizardState, key: Key) -> bool {
    w.handle_key(key, &accept, &Floats)
}

fn type_text(w: &mut WizardState, text: &str) {
    for c in text.chars() {
        press(w, Key::Char(c));
    }
}

fn at(path: &str) -> ResponsePath {
    ResponsePath::new(path)
}

#[test]
fn wizard_title_includes_prelude() {
    let def = SurveyDefinition::new(vec![q("name", "Name?", QuestionKind::Input(InputQuestion::new()))])
        .with_prelude("Welcome")
        .with_epilogue("Bye");
    let w = WizardState::new(&def, "Setup".to_string());
    assert_eq!(w.title, "Setup\nWelcome");
    assert_eq!(w.epilogue.as_deref(), Some("Bye"));
    assert_eq!(w.progress(), (1, 1));
    assert!(!w.complete);
}

#[test]
fn wizard_text_answer_completes() {
    let mut w = start(vec![q("name", "Name?", QuestionKind::Input(InputQuestion::new()))]);
    type_text(&mut w, "Ann");
    assert_eq!(w.input, "Ann");
    assert_eq!(w.cursor_pos, 3);
    assert!(!press(&mut w, Key::Enter));
    assert!(w.complete);
    assert_eq!(w.responses.get_string(&at("name")).unwrap(), "Ann");
    assert!(press(&mut w, Key::Enter));
}

#[test]
fn wizard_editing_keys_move_and_delete() {
    let mut w = start(vec![q("name", "Name?", QuestionKind::Input(InputQuestion::new()))]);
    type_text(&mut w, "ac");
    press(&mut w, Key::Left);
    press(&mut w, Key::Char('b'));
    assert_eq!(w.input, "abc");
    assert_eq!(w.cursor_pos, 2);
    press(&mut w, Key::Home);
    press(&mut w, Key::Delete);
    assert_eq!(w.input, "bc");
    press(&mut w, Key::End);
    press(&mut w, Key::Backspace);
    assert_eq!(w.input, "b");
    assert_eq!(w.cursor_pos, 1);
    press(&mut w, Key::Right);
    assert_eq!(w.cursor_pos, 1);
}

#[test]
fn wizard_refuses_text_that_is_no_integer() {
    let mut w = start(vec![q("age", "Age?", QuestionKind::Int(IntQuestion::new()))]);
    type_text(&mut w, "x1");
    press(&mut w, Key::Enter);
    assert_eq!(w.current_index, 0);
    assert_eq!(w.error_message.as_deref(), Some("Please enter a valid integer"));
    assert!(w.responses.is_empty());
    press(&mut w, Key::Backspace);
    assert_eq!(w.error_message, None);
}

#[test]
fn wizard_integer_bounds() {
    let kind = || QuestionKind::Int(IntQuestion::with_bounds(Some(1), Some(10)));
    let mut w = start(vec![q("n", "N?", kind())]);
    type_text(&mut w, "0");
    press(&mut w, Key::Enter);
    assert_eq!(w.error_message.as_deref(), Some("Value must be at least 1"));
    let mut w = start(vec![q("n", "N?", kind())]);
    type_text(&mut w, "11");
    press(&mut w, Key::Enter);
    assert_eq!(w.error_message.as_deref(), Some("Value must be at most 10"));
    let mut w = start(vec![q("n", "N?", kind())]);
    type_text(&mut w, "-3");
    press(&mut w, Key::Enter);
    assert_eq!(w.error_message.as_deref(), Some("Value must be at least 1"));
    let mut w = start(vec![q("n", "N?", kind())]);
    type_text(&mut w, "7");
    press(&mut w, Key::Enter);
    assert_eq!(w.responses.get_int(&at("n")).unwrap(), 7);
}

#[test]
fn wizard_prefills_defaults() {
    let mut w = start(vec![
        q("first", "First?", QuestionKind::Input(InputQuestion::new())),
        q("second", "Second?", QuestionKind::Input(InputQuestion::with_default("hi"))),
        q("third", "Third?", QuestionKind::Int(IntQuestion { default: Some(-5), min: None, max: None, validate: None })),
    ]);
    type_text(&mut w, "a");
    press(&mut w, Key::Enter);
    assert_eq!(w.input, "hi");
    assert_eq!(w.cursor_pos, 2);
    press(&mut w, Key::Enter);
    assert_eq!(w.input, "-5");
    press(&mut w, Key::Enter);
    assert!(w.complete);
    assert_eq!(w.responses.get_string(&at("second")).unwrap(), "hi");
    assert_eq!(w.responses.get_int(&at("third")).unwrap(), -5);
}

#[test]
fn wizard_confirm_uses_highlight() {
    let mut w = start(vec![q("ok", "OK?", QuestionKind::Confirm(ConfirmQuestion::with_default(false)))]);
    assert_eq!(w.selected_option, 1);
    press(&mut w, Key::Char('y'));
    assert_eq!(w.input, "");
    press(&mut w, Key::Down);
    assert_eq!(w.selected_option, 1);
    press(&mut w, Key::Up);
    assert_eq!(w.selected_option, 0);
    press(&mut w, Key::Up);
    assert_eq!(w.selected_option, 0);
    press(&mut w, Key::Enter);
    assert_eq!(w.responses.get_bool(&at("ok")).unwrap(), true);
}

#[test]
fn wizard_skips_assumed_questions() {
    let mut assumed = q("host", "Host?", QuestionKind::Input(InputQuestion::new()));
    assumed.set_assumption(ResponseValue::String("localhost".to_string()));
    let mut w = start(vec![assumed, q("port", "Port?", QuestionKind::Int(IntQuestion::new()))]);
    assert_eq!(w.current_index, 1);
    assert_eq!(w.responses.get_string(&at("host")).unwrap(), "localhost");
    type_text(&mut w, "80");
    press(&mut w, Key::Enter);
    assert!(w.complete);
    assert_eq!(w.responses.len(), 2);
}

#[test]
fn wizard_back_restores_answer() {
    let mut w = start(vec![
        q("name", "Name?", QuestionKind::Input(InputQuestion::new())),
        q("age", "Age?", QuestionKind::Int(IntQuestion::new())),
    ]);
    type_text(&mut w, "Bo");
    press(&mut w, Key::Enter);
    assert_eq!(w.current_index, 1);
    press(&mut w, Key::Backspace);
    assert_eq!(w.current_index, 0);
    assert_eq!(w.input, "Bo");
    assert_eq!(w.cursor_pos, 2);
    press(&mut w, Key::Enter);
    type_text(&mut w, "33");
    press(&mut w, Key::Enter);
    assert!(w.complete);
}

#[test]
fn wizard_back_restores_numbers_and_lists() {
    let mut w = start(vec![
        q("age", "Age?", QuestionKind::Int(IntQuestion::new())),
        q("tags", "Tags?", QuestionKind::List(ListQuestion::strings())),
        q("nums", "Nums?", QuestionKind::List(ListQuestion::ints())),
        q("last", "Last?", QuestionKind::Input(InputQuestion::new())),
    ]);
    type_text(&mut w, "-12");
    press(&mut w, Key::Enter);
    type_text(&mut w, "a, b,,c");
    press(&mut w, Key::Enter);
    type_text(&mut w, "1,2");
    press(&mut w, Key::Enter);
    assert_eq!(w.responses.get_int_list(&at("nums")).unwrap(), &[1, 2]);
    w.prev_question(&Floats);
    assert_eq!(w.input, "1, 2");
    w.prev_question(&Floats);
    assert_eq!(w.input, "a, b, c");
    w.prev_question(&Floats);
    assert_eq!(w.input, "-12");
    w.prev_question(&Floats);
    assert_eq!(w.current_index, 0);
}

#[test]
fn wizard_list_of_integers() {
    let mut w = start(vec![q("nums", "Nums?", QuestionKind::List(ListQuestion::ints_with_bounds(Some(0), Some(9))))]);
    type_text(&mut w, "1, x");
    press(&mut w, Key::Enter);
    assert_eq!(w.error_message.as_deref(), Some("'x' is not a valid integer"));
    let mut w = start(vec![q("nums", "Nums?", QuestionKind::List(ListQuestion::ints_with_bounds(Some(0), Some(9))))]);
    type_text(&mut w, "3, 12");
    press(&mut w, Key::Enter);
    assert_eq!(w.error_message.as_deref(), Some("Value 12 must be at most 9"));
    let mut w = start(vec![q("nums", "Nums?", QuestionKind::List(ListQuestion::ints_with_bounds(Some(0), Some(9))))]);
    type_text(&mut w, "3, 4");
    press(&mut w, Key::Enter);
    assert_eq!(w.responses.get_int_list(&at("nums")).unwrap(), &[3, 4]);
}

#[test]
fn wizard_floats_are_read_by_the_front_end() {
    let kind = || {
        QuestionKind::Float(FloatQuestion::with_bounds(Some(0.0f64.to_bits()), Some(1.0f64.to_bits())))
    };
    let mut w = start(vec![q("r", "Ratio?", kind())]);
    type_text(&mut w, "abc");
    press(&mut w, Key::Enter);
    assert_eq!(w.error_message.as_deref(), Some("Please enter a valid number"));
    let mut w = start(vec![q("r", "Ratio?", kind())]);
    type_text(&mut w, "1.5");
    press(&mut w, Key::Enter);
    assert_eq!(w.error_message.as_deref(), Some("Value must be at most 1"));
    let mut w = start(vec![q("r", "Ratio?", kind()), q("s", "S?", QuestionKind::Input(InputQuestion::new()))]);
    type_text(&mut w, "0.25");
    press(&mut w, Key::Enter);
    assert_eq!(w.responses.get_float(&at("r")).unwrap(), 0.25f64.to_bits());
    w.prev_question(&Floats);
    assert_eq!(w.input, "0.25");
}

#[test]
fn wizard_float_default_is_prefilled() {
    let kind = QuestionKind::Float(FloatQuestion { default: Some(2.5f64.to_bits()), min: None, max: None, validate: None });
    let mut w = start(vec![q("x", "X?", kind)]);
    assert_eq!(w.input, "2.5");
    assert_eq!(w.cursor_pos, 3);
    press(&mut w, Key::Enter);
    assert_eq!(w.responses.get_float(&at("x")).unwrap(), 2.5f64.to_bits());
}

fn payment() -> Question {
    let card = Variant::new(
        "Card",
        QuestionKind::AllOf(AllOfQuestion::new(vec![q("number", "Card number?", QuestionKind::Input(InputQuestion::new()))])),
    );
    let cash = Variant::unit("Cash");
    let tip = Variant::new("Tip", QuestionKind::Int(IntQuestion::new()));
    q("pay", "How to pay?", QuestionKind::OneOf(OneOfQuestion::new(vec![card, cash, tip])))
}

#[test]
fn wizard_choice_adds_follow_ups() {
    let mut w = start(vec![payment(), q("note", "Note?", QuestionKind::Input(InputQuestion::new()))]);
    assert_eq!(w.questions[0].path.as_str(), "pay.selected_variant");
    press(&mut w, Key::Down);
    press(&mut w, Key::Down);
    press(&mut w, Key::Down);
    assert_eq!(w.selected_option, 2);
    press(&mut w, Key::Up);
    press(&mut w, Key::Up);
    assert_eq!(w.selected_option, 0);
    press(&mut w, Key::Enter);
    assert_eq!(w.responses.get_chosen_variant(&at("pay.selected_variant")).unwrap(), 0);
    assert_eq!(w.questions.len(), 3);
    assert_eq!(w.questions[1].path.as_str(), "pay.number");
    assert_eq!(w.current_question().unwrap().prompt, "Card number?");
    type_text(&mut w, "4242");
    press(&mut w, Key::Enter);
    assert_eq!(w.responses.get_string(&at("pay.number")).unwrap(), "4242");
    assert_eq!(w.questions[2].path.as_str(), "note");
}

#[test]
fn wizard_changed_choice_drops_old_follow_ups() {
    let mut w = start(vec![payment(), q("note", "Note?", QuestionKind::Input(InputQuestion::new()))]);
    press(&mut w, Key::Enter);
    type_text(&mut w, "4242");
    press(&mut w, Key::Enter);
    assert_eq!(w.current_index, 2);
    w.prev_question(&Floats);
    w.prev_question(&Floats);
    assert_eq!(w.current_index, 0);
    assert_eq!(w.selected_option, 0);
    press(&mut w, Key::Down);
    press(&mut w, Key::Down);
    press(&mut w, Key::Enter);
    assert_eq!(w.responses.get_chosen_variant(&at("pay.selected_variant")).unwrap(), 2);
    assert!(!w.responses.contains(&at("pay.number")));
    assert_eq!(w.questions.len(), 3);
    assert_eq!(w.questions[1].path.as_str(), "pay.Tip");
    assert_eq!(w.questions[1].prompt, "Enter Tip value:");
    type_text(&mut w, "5");
    press(&mut w, Key::Enter);
    assert_eq!(w.responses.get_int(&at("pay.Tip")).unwrap(), 5);
}

#[test]
fn wizard_unit_choice_has_no_follow_ups() {
    let mut w = start(vec![payment()]);
    press(&mut w, Key::Down);
    press(&mut w, Key::Enter);
    assert!(w.complete);
    assert_eq!(w.questions.len(), 1);
    assert_eq!(w.responses.get_chosen_variant(&at("pay.selected_variant")).unwrap(), 1);
}

#[test]
fn wizard_multi_select_marks_and_follow_ups() {
    let extra = Variant::new(
        "Extra",
        QuestionKind::AllOf(AllOfQuestion::new(vec![q("amount", "How much?", QuestionKind::Int(IntQuestion::new()))])),
    );
    let plain = Variant::unit("Plain");
    let toppings = q("toppings", "Toppings?", QuestionKind::AnyOf(AnyOfQuestion::with_defaults(vec![plain, extra], vec![1])));
    let mut w = start(vec![toppings]);
    assert_eq!(w.multi_selected, vec![false, true]);
    press(&mut w, Key::Char(' '));
    assert_eq!(w.multi_selected, vec![true, true]);
    press(&mut w, Key::Enter);
    assert_eq!(w.responses.get_chosen_variants(&at("toppings.selected_variants")).unwrap(), &[0, 1]);
    assert_eq!(w.responses.get_chosen_variant(&at("toppings.0.selected_variant")).unwrap(), 0);
    assert_eq!(w.responses.get_chosen_variant(&at("toppings.1.selected_variant")).unwrap(), 1);
    assert_eq!(w.questions.len(), 2);
    assert_eq!(w.questions[1].path.as_str(), "toppings.1.amount");
    type_text(&mut w, "2");
    press(&mut w, Key::Enter);
    assert!(w.complete);
    assert_eq!(w.responses.get_int(&at("toppings.1.amount")).unwrap(), 2);
}

#[test]
fn wizard_validator_refusal_keeps_old_answer() {
    fn no_bob(v: &ResponseValue, _r: &Responses, p: &ResponsePath) -> Result<(), String> {
        match v {
            ResponseValue::String(s) if s == "Bob" && p.as_str() == "name" => Err("not Bob".to_string()),
            _ => Ok(()),
        }
    }
    let mut w = start(vec![
        q("name", "Name?", QuestionKind::Input(InputQuestion::with_validator("no_bob"))),
        q("age", "Age?", QuestionKind::Int(IntQuestion::new())),
    ]);
    for c in "Al".chars() {
        w.handle_key(Key::Char(c), &no_bob, &Floats);
    }
    w.handle_key(Key::Enter, &no_bob, &Floats);
    w.handle_key(Key::Backspace, &no_bob, &Floats);
    assert_eq!(w.current_index, 0);
    w.handle_key(Key::Home, &no_bob, &Floats);
    w.handle_key(Key::Delete, &no_bob, &Floats);
    w.handle_key(Key::Delete, &no_bob, &Floats);
    for c in "Bob".chars() {
        w.handle_key(Key::Char(c), &no_bob, &Floats);
    }
    w.handle_key(Key::Enter, &no_bob, &Floats);
    assert_eq!(w.current_index, 0);
    assert_eq!(w.error_message.as_deref(), Some("not Bob"));
    assert_eq!(w.responses.get_string(&at("name")).unwrap(), "Al");
}

#[test]
fn wizard_escape_cancels() {
    let mut w = start(vec![q("name", "Name?", QuestionKind::Input(InputQuestion::new()))]);
    assert!(press(&mut w, Key::Esc));
    assert!(w.cancelled);
}

#[test]
fn wizard_empty_survey_is_complete() {
    let w = start(vec![]);
    assert!(w.complete);
    assert!(w.current_question().is_none());
}

#[test]
fn wizard_submit_past_end_is_refused() {
    let mut w = start(vec![]);
    assert!(!w.validate_and_submit(&accept, &Floats));
}

#[test]
fn wizard_parent_path() {
    assert_eq!(parent_path(&at("a.b.c")).as_str(), "a.b");
    assert_eq!(parent_path(&at("a")).as_str(), "");
    assert_eq!(parent_path(&at("")).as_str(), "");
}

#[test]
fn wizard_integer_limits_and_signs() {
    let mut w = start(vec![q("n", "N?", QuestionKind::Int(IntQuestion::new()))]);
    type_text(&mut w, "-9223372036854775808");
    press(&mut w, Key::Enter);
    assert_eq!(w.responses.get_int(&at("n")).unwrap(), i64::MIN);
    let mut w = start(vec![q("n", "N?", QuestionKind::Int(IntQuestion::new()))]);
    type_text(&mut w, "+42");
    press(&mut w, Key::Enter);
    assert_eq!(w.responses.get_int(&at("n")).unwrap(), 42);
    let mut w = start(vec![q("n", "N?", QuestionKind::Int(IntQuestion::new()))]);
    type_text(&mut w, "9223372036854775808");
    press(&mut w, Key::Enter);
    assert_eq!(w.error_message.as_deref(), Some("Please enter a valid integer"));
    let mut w = start(vec![q("n", "N?", QuestionKind::Int(IntQuestion::new()))]);
    type_text(&mut w, "12a");
    press(&mut w, Key::Enter);
    assert_eq!(w.error_message.as_deref(), Some("Please enter a valid integer"));
}

#[test]
fn wizard_integer_bounds_message_prints_negative_bound() {
    let kind = QuestionKind::Int(IntQuestion::with_bounds(Some(-20), Some(10)));
    let mut w = start(vec![q("n", "N?", kind)]);
    type_text(&mut w, "-21");
    press(&mut w, Key::Enter);
    assert_eq!(w.error_message.as_deref(), Some("Value must be at least -20"));
}
