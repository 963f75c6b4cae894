//! Types written out as the `Survey` derive expands them, on top of the
//! library's field-to-question rules, builders and test backend.

use derive_survey::builder::{DefaultsScope, SurveyBuilder};
use derive_survey::derive::{enum_question, question_for_field, survey_of, FieldAttrs, FieldType};
use derive_survey::fields::{read_field, FieldValue};
use derive_survey::path::ResponsePath;
use derive_survey::question::{DefaultValue, Question, QuestionKind, SurveyDefinition, Variant};
use derive_survey::responses::Responses;
use derive_survey::test_backend::TestBackend;
use derive_survey::value::ResponseValue;

fn attrs(ask: &str) -> FieldAttrs {
    FieldAttrs {
        ask: Some(ask.to_string()),
        mask: false,
        multiline: false,
        validate: None,
        min: None,
        max: None,
        multiselect: false,
    }
}

fn field(name: &str, ty: FieldType, a: FieldAttrs) -> Question {
    question_for_field(name, ty, &a, None).unwrap()
}

fn read_text(responses: &Responses, path: &str) -> String {
    match read_field(&FieldType::Text, responses, &ResponsePath::new(path)).expect("missing string") {
        FieldValue::Text(s) => s,
        other => panic!("expected text, got {:?}", other),
    }
}

fn read_int(responses: &Responses, path: &str) -> i64 {
    match read_field(&FieldType::Integer, responses, &ResponsePath::new(path)).expect("missing int") {
        FieldValue::Int(i) => i,
        other => panic!("expected int, got {:?}", other),
    }
}

fn read_bool(responses: &Responses, path: &str) -> bool {
    match read_field(&FieldType::Bool, responses, &ResponsePath::new(path)).expect("missing bool") {
        FieldValue::Bool(b) => b,
        other => panic!("expected bool, got {:?}", other),
    }
}

fn accept_all(_v: &ResponseValue, _r: &Responses) -> Result<(), String> {
    Ok(())
}

fn run_with(builder: &SurveyBuilder, definition: SurveyDefinition, backend: &TestBackend) -> Responses {
    let definition = builder.apply_to_definition(definition);
    backend.collect(&definition, &accept_all).unwrap()
}

// ---------------------------------------------------------------------------
// SimpleStruct { name: String, age: u32, student: bool }
// ---------------------------------------------------------------------------

#[derive(Debug, PartialEq)]
struct SimpleStruct {
    name: String,
    age: u32,
    student: bool,
}

struct SimpleStructBuilder {
    inner: SurveyBuilder,
}

impl SimpleStruct {
    fn survey() -> SurveyDefinition {
        survey_of(
            None,
            vec![
                field("name", FieldType::Text, attrs("What is your name?")),
                field("age", FieldType::Integer, attrs("How old are you?")),
                field("student", FieldType::Bool, attrs("Are you a student?")),
            ],
            None,
        )
    }

    fn from_responses(responses: &Responses) -> Self {
        SimpleStruct {
            name: read_text(responses, "name"),
            age: read_int(responses, "age") as u32,
            student: read_bool(responses, "student"),
        }
    }

    fn builder() -> SimpleStructBuilder {
        SimpleStructBuilder { inner: SurveyBuilder::new() }
    }
}

impl SimpleStructBuilder {
    fn suggest_name(self, value: &str) -> Self {
        SimpleStructBuilder { inner: self.inner.suggest_value("name", ResponseValue::from_str(value)) }
    }

    fn suggest_age(self, value: u32) -> Self {
        SimpleStructBuilder { inner: self.inner.suggest_value("age", ResponseValue::Int(value as i64)) }
    }

    fn assume_student(self, value: bool) -> Self {
        SimpleStructBuilder { inner: self.inner.assume_value("student", ResponseValue::Bool(value)) }
    }
}

#[test]
fn test_simple_struct_survey() {
    let survey = SimpleStruct::survey();

    assert_eq!(survey.questions.len(), 3);

    assert_eq!(survey.questions[0].path().as_str(), "name");
    assert_eq!(survey.questions[0].ask(), "What is your name?");

    assert_eq!(survey.questions[1].path().as_str(), "age");
    assert_eq!(survey.questions[1].ask(), "How old are you?");

    assert_eq!(survey.questions[2].path().as_str(), "student");
    assert_eq!(survey.questions[2].ask(), "Are you a student?");
}

#[test]
fn test_simple_struct_from_responses() {
    let mut responses = Responses::new();
    responses.insert(ResponsePath::new("name"), ResponseValue::from_str("Alice"));
    responses.insert(ResponsePath::new("age"), ResponseValue::Int(25));
    responses.insert(ResponsePath::new("student"), ResponseValue::Bool(true));

    let result = SimpleStruct::from_responses(&responses);

    assert_eq!(result.name, "Alice");
    assert_eq!(result.age, 25);
    assert_eq!(result.student, true);
}

#[test]
fn test_builder_methods_exist() {
    let builder = SimpleStruct::builder()
        .suggest_name("Bob")
        .suggest_age(30)
        .assume_student(false);
    let survey = builder.inner.apply_to_definition(SimpleStruct::survey());
    assert!(matches!(survey.questions[0].default(), DefaultValue::Suggested(ResponseValue::String(s)) if s == "Bob"));
    assert!(matches!(survey.questions[1].default(), DefaultValue::Suggested(ResponseValue::Int(30))));
    assert!(matches!(survey.questions[2].default(), DefaultValue::Assumed(ResponseValue::Bool(false))));
}

// ---------------------------------------------------------------------------
// WithPreludeEpilogue, WithMinMax, WithMaskedAndMultiline
// ---------------------------------------------------------------------------

fn with_prelude_epilogue_survey() -> SurveyDefinition {
    survey_of(
        Some("Welcome to the survey!".to_string()),
        vec![field("name", FieldType::Text, attrs("Name:"))],
        Some("Thank you!".to_string()),
    )
}

#[test]
fn test_prelude_epilogue() {
    let survey = with_prelude_epilogue_survey();

    assert_eq!(survey.prelude, Some("Welcome to the survey!".to_string()));
    assert_eq!(survey.epilogue, Some("Thank you!".to_string()));
}

fn with_min_max_survey() -> SurveyDefinition {
    let mut a = attrs("Age:");
    a.min = Some(18);
    a.max = Some(120);
    survey_of(None, vec![field("age", FieldType::Integer, a)], None)
}

#[test]
fn test_min_max() {
    let survey = with_min_max_survey();

    match survey.questions[0].kind() {
        QuestionKind::Int(int_q) => {
            assert_eq!(int_q.min, Some(18));
            assert_eq!(int_q.max, Some(120));
        }
        _ => panic!("Expected Int question kind"),
    }
}

fn masked_and_multiline_survey() -> SurveyDefinition {
    let mut password = attrs("Password:");
    password.mask = true;
    let mut bio = attrs("Bio:");
    bio.multiline = true;
    survey_of(
        None,
        vec![field("password", FieldType::Text, password), field("bio", FieldType::Text, bio)],
        None,
    )
}

#[test]
fn test_masked_and_multiline() {
    let survey = masked_and_multiline_survey();

    assert!(matches!(survey.questions[0].kind(), QuestionKind::Masked(_)));
    assert!(matches!(survey.questions[1].kind(), QuestionKind::Multiline(_)));
}

// ---------------------------------------------------------------------------
// SimpleConfig { name: String, age: u32, developer: bool }
// ---------------------------------------------------------------------------

#[derive(Debug, PartialEq)]
struct SimpleConfig {
    name: String,
    age: u32,
    developer: bool,
}

struct SimpleConfigBuilder {
    inner: SurveyBuilder,
}

impl SimpleConfig {
    fn survey() -> SurveyDefinition {
        survey_of(
            None,
            vec![
                field("name", FieldType::Text, attrs("What is your name?")),
                field("age", FieldType::Integer, attrs("What is your age?")),
                field("developer", FieldType::Bool, attrs("Are you a developer?")),
            ],
            None,
        )
    }

    fn from_responses(responses: &Responses) -> Self {
        SimpleConfig {
            name: read_text(responses, "name"),
            age: read_int(responses, "age") as u32,
            developer: read_bool(responses, "developer"),
        }
    }

    fn builder() -> SimpleConfigBuilder {
        SimpleConfigBuilder { inner: SurveyBuilder::new() }
    }
}

impl SimpleConfigBuilder {
    fn suggest_name(self, value: &str) -> Self {
        SimpleConfigBuilder { inner: self.inner.suggest_value("name", ResponseValue::from_str(value)) }
    }
    fn suggest_age(self, value: u32) -> Self {
        SimpleConfigBuilder { inner: self.inner.suggest_value("age", ResponseValue::Int(value as i64)) }
    }
    fn suggest_developer(self, value: bool) -> Self {
        SimpleConfigBuilder { inner: self.inner.suggest_value("developer", ResponseValue::Bool(value)) }
    }
    fn assume_name(self, value: &str) -> Self {
        SimpleConfigBuilder { inner: self.inner.assume_value("name", ResponseValue::from_str(value)) }
    }
    fn assume_age(self, value: u32) -> Self {
        SimpleConfigBuilder { inner: self.inner.assume_value("age", ResponseValue::Int(value as i64)) }
    }
    fn run(self, backend: TestBackend) -> Result<SimpleConfig, String> {
        let definition = self.inner.apply_to_definition(SimpleConfig::survey());
        let responses = backend.collect(&definition, &accept_all).map_err(|e| format!("{:?}", e))?;
        Ok(SimpleConfig::from_responses(&responses))
    }
}

#[test]
fn simple_survey_definition() {
    let survey = SimpleConfig::survey();

    assert_eq!(survey.questions.len(), 3);
    assert_eq!(survey.questions[0].ask(), "What is your name?");
    assert_eq!(survey.questions[1].ask(), "What is your age?");
    assert_eq!(survey.questions[2].ask(), "Are you a developer?");
}

#[test]
fn simple_survey_with_test_backend() {
    let config: SimpleConfig = SimpleConfig::builder()
        .run(
            TestBackend::new()
                .with_string("name", "Alice")
                .with_int("age", 30)
                .with_bool("developer", true),
        )
        .unwrap();

    assert_eq!(config.name, "Alice");
    assert_eq!(config.age, 30);
    assert!(config.developer);
}

#[test]
fn builder_with_suggestions() {
    let builder = SimpleConfig::builder()
        .suggest_name("Bob")
        .suggest_age(25)
        .suggest_developer(false);
    let survey = builder.inner.apply_to_definition(SimpleConfig::survey());
    assert!(survey.questions.iter().all(|q| q.default().is_suggested()));
}

#[test]
fn builder_with_assumptions() {
    let builder = SimpleConfig::builder().assume_name("Charlie").assume_age(35);
    let survey = builder.inner.apply_to_definition(SimpleConfig::survey());
    assert!(survey.questions[0].is_assumed());
    assert!(survey.questions[1].is_assumed());
    assert!(!survey.questions[2].is_assumed());
}

#[test]
fn assumed_questions_need_no_answer() {
    let definition = SimpleConfig::builder()
        .assume_name("Charlie")
        .inner
        .apply_to_definition(SimpleConfig::survey());
    let backend = TestBackend::new().with_int("age", 35).with_bool("developer", false);
    let responses = backend.collect(&definition, &accept_all).unwrap();
    assert_eq!(responses.len(), 3);
    assert_eq!(responses.get_string(&ResponsePath::new("name")).unwrap(), "Charlie");
}

#[test]
fn missing_answer_is_reported() {
    let backend = TestBackend::new().with_string("name", "Alice");
    let result = backend.collect(&SimpleConfig::survey(), &accept_all);
    match result {
        Err(derive_survey::test_backend::TestBackendError::MissingResponse(p)) => assert_eq!(p, "age"),
        other => panic!("unexpected {:?}", other),
    }
}

#[test]
fn refused_answer_is_reported() {
    fn no_short_names(v: &ResponseValue, _r: &Responses) -> Result<(), String> {
        match v {
            ResponseValue::String(s) if s.len() < 3 => Err("too short".to_string()),
            _ => Ok(()),
        }
    }
    let backend = TestBackend::new()
        .with_string("name", "Al")
        .with_int("age", 3)
        .with_bool("developer", true);
    match backend.collect(&SimpleConfig::survey(), &no_short_names) {
        Err(derive_survey::test_backend::TestBackendError::ValidationFailed { path, message }) => {
            assert_eq!(path, "name");
            assert_eq!(message, "too short");
        }
        other => panic!("unexpected {:?}", other),
    }
}

// ---------------------------------------------------------------------------
// ServerConfig with prelude, epilogue and bounds; PasswordForm
// ---------------------------------------------------------------------------

fn server_config_survey() -> SurveyDefinition {
    let mut port = attrs("Server port:");
    port.min = Some(1);
    port.max = Some(65535);
    survey_of(
        Some("Welcome to the server configuration!".to_string()),
        vec![
            field("host", FieldType::Text, attrs("Server host:")),
            field("port", FieldType::Integer, port),
        ],
        Some("Configuration complete.".to_string()),
    )
}

#[test]
fn prelude_and_epilogue() {
    let survey = server_config_survey();

    assert_eq!(
        survey.prelude,
        Some("Welcome to the server configuration!".to_string())
    );
    assert_eq!(survey.epilogue, Some("Configuration complete.".to_string()));
}

#[test]
fn min_max_bounds() {
    let survey = server_config_survey();
    let port_question = &survey.questions[1];

    match port_question.kind() {
        QuestionKind::Int(int_q) => {
            assert_eq!(int_q.min, Some(1));
            assert_eq!(int_q.max, Some(65535));
        }
        _ => panic!("Expected Int question kind"),
    }
}

fn password_form_survey() -> SurveyDefinition {
    let mut password = attrs("Enter password:");
    password.mask = true;
    let mut bio = attrs("Enter your biography:");
    bio.multiline = true;
    survey_of(
        None,
        vec![field("password", FieldType::Text, password), field("bio", FieldType::Text, bio)],
        None,
    )
}

#[test]
fn mask_and_multiline() {
    let survey = password_form_survey();

    assert!(matches!(survey.questions[0].kind(), QuestionKind::Masked(_)));
    assert!(matches!(survey.questions[1].kind(), QuestionKind::Multiline(_)));
}

// ---------------------------------------------------------------------------
// OrderForm { customer_name, shipping_address: Address, payment: PaymentMethod,
//             nickname: Option<String> }
// ---------------------------------------------------------------------------

fn address_questions() -> Vec<Question> {
    vec![
        field("street", FieldType::Text, attrs("Street address:")),
        field("city", FieldType::Text, attrs("City:")),
        field("zip", FieldType::Text, attrs("Zip code:")),
    ]
}

fn payment_questions() -> Vec<Question> {
    vec![enum_question(vec![
        Variant::new("Cash payment", QuestionKind::Unit),
        Variant::new(
            "Credit card",
            QuestionKind::AllOf(derive_survey::question::AllOfQuestion::new(vec![
                field("number", FieldType::Text, attrs("Card number:")),
                field("cvv", FieldType::Text, attrs("CVV:")),
            ])),
        ),
        Variant::new(
            "Bank transfer",
            QuestionKind::AllOf(derive_survey::question::AllOfQuestion::new(vec![field(
                "iban",
                FieldType::Text,
                attrs("IBAN:"),
            )])),
        ),
    ])]
}

fn order_form_survey() -> SurveyDefinition {
    survey_of(
        None,
        vec![
            field("customer_name", FieldType::Text, attrs("Customer name:")),
            field("shipping_address", FieldType::Nested(address_questions()), attrs("Shipping address:")),
            field("payment", FieldType::Nested(payment_questions()), attrs("Payment method:")),
            field(
                "nickname",
                FieldType::Optional(Box::new(FieldType::Text)),
                attrs("Nickname (optional):"),
            ),
        ],
        None,
    )
}

struct AddressSuggestBuilder {
    scope: DefaultsScope,
}

impl AddressSuggestBuilder {
    fn street(self, value: &str) -> Self {
        AddressSuggestBuilder { scope: self.scope.set("street", ResponseValue::from_str(value)) }
    }
    fn city(self, value: &str) -> Self {
        AddressSuggestBuilder { scope: self.scope.set("city", ResponseValue::from_str(value)) }
    }
    fn zip(self, value: &str) -> Self {
        AddressSuggestBuilder { scope: self.scope.set("zip", ResponseValue::from_str(value)) }
    }
}

struct PaymentMethodSuggestBuilder {
    scope: DefaultsScope,
}

struct CreditCardSuggestBuilder {
    scope: DefaultsScope,
}

struct BankTransferSuggestBuilder {
    scope: DefaultsScope,
}

impl CreditCardSuggestBuilder {
    fn number(self, value: &str) -> Self {
        CreditCardSuggestBuilder { scope: self.scope.set("number", ResponseValue::from_str(value)) }
    }
    fn cvv(self, value: &str) -> Self {
        CreditCardSuggestBuilder { scope: self.scope.set("cvv", ResponseValue::from_str(value)) }
    }
}

impl BankTransferSuggestBuilder {
    fn iban(self, value: &str) -> Self {
        BankTransferSuggestBuilder { scope: self.scope.set("iban", ResponseValue::from_str(value)) }
    }
}

impl PaymentMethodSuggestBuilder {
    fn suggest_cash(self) -> Self {
        PaymentMethodSuggestBuilder { scope: self.scope.select_variant(0) }
    }
    fn suggest_credit_card(self) -> Self {
        PaymentMethodSuggestBuilder { scope: self.scope.select_variant(1) }
    }
    fn suggest_bank_transfer(self) -> Self {
        PaymentMethodSuggestBuilder { scope: self.scope.select_variant(2) }
    }
    fn credit_card<F: FnOnce(CreditCardSuggestBuilder) -> CreditCardSuggestBuilder>(self, f: F) -> Self {
        let inner = f(CreditCardSuggestBuilder { scope: DefaultsScope::new(self.scope.prefix().clone()) });
        PaymentMethodSuggestBuilder { scope: self.scope.absorb(inner.scope) }
    }
    fn bank_transfer<F: FnOnce(BankTransferSuggestBuilder) -> BankTransferSuggestBuilder>(self, f: F) -> Self {
        let inner = f(BankTransferSuggestBuilder { scope: DefaultsScope::new(self.scope.prefix().clone()) });
        PaymentMethodSuggestBuilder { scope: self.scope.absorb(inner.scope) }
    }
}

struct OptionStringSuggestBuilder {
    scope: DefaultsScope,
}

impl OptionStringSuggestBuilder {
    fn none(self) -> Self {
        OptionStringSuggestBuilder { scope: self.scope.set_none() }
    }
    fn some(self, value: &str) -> Self {
        OptionStringSuggestBuilder { scope: self.scope.set_some(ResponseValue::from_str(value)) }
    }
}

struct OrderFormBuilder {
    inner: SurveyBuilder,
}

fn order_form_builder() -> OrderFormBuilder {
    OrderFormBuilder { inner: SurveyBuilder::new() }
}

fn scope_at(path: &str) -> DefaultsScope {
    DefaultsScope::new(ResponsePath::new(path))
}

impl OrderFormBuilder {
    fn suggest_customer_name(self, value: &str) -> Self {
        OrderFormBuilder { inner: self.inner.suggest_value("customer_name", ResponseValue::from_str(value)) }
    }
    fn suggest_shipping_address<F: FnOnce(AddressSuggestBuilder) -> AddressSuggestBuilder>(self, f: F) -> Self {
        let b = f(AddressSuggestBuilder { scope: scope_at("shipping_address") });
        OrderFormBuilder { inner: self.inner.suggest_scope(b.scope) }
    }
    fn assume_shipping_address<F: FnOnce(AddressSuggestBuilder) -> AddressSuggestBuilder>(self, f: F) -> Self {
        let b = f(AddressSuggestBuilder { scope: scope_at("shipping_address") });
        OrderFormBuilder { inner: self.inner.assume_scope(b.scope) }
    }
    fn suggest_payment<F: FnOnce(PaymentMethodSuggestBuilder) -> PaymentMethodSuggestBuilder>(self, f: F) -> Self {
        let b = f(PaymentMethodSuggestBuilder { scope: scope_at("payment") });
        OrderFormBuilder { inner: self.inner.suggest_scope(b.scope) }
    }
    fn assume_payment<F: FnOnce(PaymentMethodSuggestBuilder) -> PaymentMethodSuggestBuilder>(self, f: F) -> Self {
        let b = f(PaymentMethodSuggestBuilder { scope: scope_at("payment") });
        OrderFormBuilder { inner: self.inner.assume_scope(b.scope) }
    }
    fn suggest_nickname<F: FnOnce(OptionStringSuggestBuilder) -> OptionStringSuggestBuilder>(self, f: F) -> Self {
        let b = f(OptionStringSuggestBuilder { scope: scope_at("nickname") });
        OrderFormBuilder { inner: self.inner.suggest_scope(b.scope) }
    }
    fn assume_nickname<F: FnOnce(OptionStringSuggestBuilder) -> OptionStringSuggestBuilder>(self, f: F) -> Self {
        let b = f(OptionStringSuggestBuilder { scope: scope_at("nickname") });
        OrderFormBuilder { inner: self.inner.assume_scope(b.scope) }
    }
}

fn nested<'a>(survey: &'a SurveyDefinition, top: usize) -> &'a [Question] {
    match survey.questions[top].kind() {
        QuestionKind::AllOf(all) => all.questions(),
        _ => panic!("expected a nested group"),
    }
}

#[test]
fn nested_struct_suggest_builder() {
    let builder = order_form_builder()
        .suggest_customer_name("John Doe")
        .suggest_shipping_address(|addr| {
            addr.street("123 Main St").city("Springfield").zip("12345")
        });
    let survey = builder.inner.apply_to_definition(order_form_survey());
    let address = nested(&survey, 1);
    assert!(matches!(address[0].default(), DefaultValue::Suggested(ResponseValue::String(s)) if s == "123 Main St"));
    assert!(matches!(address[2].default(), DefaultValue::Suggested(ResponseValue::String(s)) if s == "12345"));
}

#[test]
fn enum_suggest_builder_suggest_variant() {
    let _builder = order_form_builder().suggest_payment(|p| p.suggest_cash());

    let _builder2 = order_form_builder().suggest_payment(|p| p.suggest_credit_card());

    let builder3 = order_form_builder().suggest_payment(|p| p.suggest_bank_transfer());
    let survey = builder3.inner.apply_to_definition(order_form_survey());
    match nested(&survey, 2)[0].kind() {
        QuestionKind::OneOf(one_of) => assert_eq!(one_of.default, Some(2)),
        _ => panic!("expected an enum choice"),
    }
}

#[test]
fn enum_suggest_builder_variant_fields() {
    let builder = order_form_builder().suggest_payment(|p| {
        p.suggest_credit_card()
            .credit_card(|cc| cc.number("4111111111111111").cvv("123"))
    });
    let survey = builder.inner.apply_to_definition(order_form_survey());
    match nested(&survey, 2)[0].kind() {
        QuestionKind::OneOf(one_of) => {
            assert_eq!(one_of.default, Some(1));
            match &one_of.variants[1].kind {
                QuestionKind::AllOf(card) => {
                    assert!(matches!(card.questions[0].default(), DefaultValue::Suggested(ResponseValue::String(s)) if s == "4111111111111111"));
                    assert!(matches!(card.questions[1].default(), DefaultValue::Suggested(ResponseValue::String(s)) if s == "123"));
                }
                _ => panic!("expected variant fields"),
            }
        }
        _ => panic!("expected an enum choice"),
    }
}

#[test]
fn enum_suggest_multiple_variants() {
    let builder = order_form_builder().suggest_payment(|p| {
        p.suggest_credit_card()
            .credit_card(|cc| cc.number("4111111111111111").cvv("123"))
            .bank_transfer(|bt| bt.iban("DE89370400440532013000"))
    });
    assert_eq!(builder.inner.suggestions().len(), 4);
}

#[test]
fn option_suggest_some() {
    let builder = order_form_builder().suggest_nickname(|opt| opt.some("Johnny"));
    let survey = builder.inner.apply_to_definition(order_form_survey());
    assert!(matches!(survey.questions[3].default(), DefaultValue::Suggested(ResponseValue::String(s)) if s == "Johnny"));
}

#[test]
fn option_suggest_none() {
    let builder = order_form_builder().suggest_nickname(|opt| opt.none());
    let survey = builder.inner.apply_to_definition(order_form_survey());
    assert!(matches!(survey.questions[3].default(), DefaultValue::Suggested(ResponseValue::Bool(false))));
}

#[test]
fn assume_nested_struct() {
    let builder = order_form_builder().assume_shipping_address(|addr| {
        addr.street("456 Oak Ave").city("Shelbyville").zip("67890")
    });
    let survey = builder.inner.apply_to_definition(order_form_survey());
    assert!(nested(&survey, 1).iter().all(|q| q.is_assumed()));
}

#[test]
fn assume_enum_with_fields() {
    let builder = order_form_builder().assume_payment(|p| {
        p.suggest_bank_transfer()
            .bank_transfer(|bt| bt.iban("DE89370400440532013000"))
    });
    let survey = builder.inner.apply_to_definition(order_form_survey());
    match nested(&survey, 2)[0].kind() {
        QuestionKind::OneOf(one_of) => match &one_of.variants[2].kind {
            QuestionKind::AllOf(bank) => assert!(bank.questions[0].is_assumed()),
            _ => panic!("expected variant fields"),
        },
        _ => panic!("expected an enum choice"),
    }
}

#[test]
fn combined_suggest_and_assume() {
    let builder = order_form_builder()
        .suggest_customer_name("John Doe")
        .assume_shipping_address(|addr| addr.street("123 Main St").city("Springfield").zip("12345"))
        .suggest_payment(|p| p.suggest_cash())
        .assume_nickname(|opt| opt.none());
    let survey = builder.inner.apply_to_definition(order_form_survey());
    assert!(survey.questions[0].default().is_suggested());
    assert!(matches!(survey.questions[3].default(), DefaultValue::Assumed(ResponseValue::Bool(false))));
}

#[test]
fn order_form_answered_by_test_backend() {
    let backend = TestBackend::new()
        .with_string("customer_name", "Ann")
        .with_string("shipping_address.street", "1 Way")
        .with_string("shipping_address.city", "Town")
        .with_string("shipping_address.zip", "00001")
        .with_variant("payment.selected_variant", 2)
        .with_string("payment.iban", "DE00")
        .with_string("nickname", "");
    let responses = run_with(&SurveyBuilder::new(), order_form_survey(), &backend);
    assert_eq!(responses.get_string(&ResponsePath::new("shipping_address.city")).unwrap(), "Town");
    assert_eq!(responses.get_chosen_variant(&ResponsePath::new("payment.selected_variant")).unwrap(), 2);
    assert_eq!(responses.get_string(&ResponsePath::new("payment.iban")).unwrap(), "DE00");
    assert!(!responses.has_value(&ResponsePath::new("nickname")));
    let address = responses.filter_prefix(&ResponsePath::new("shipping_address"));
    assert_eq!(address.len(), 3);
}
