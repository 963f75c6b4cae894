//! Questions, their kinds, and the survey definition that holds them.
use vstd::prelude::*;
use crate::path::ResponsePath;
use crate::value::{ResponseValue, ValueView};

verus! {

/// The key segment under which the chosen variant of a OneOf question is
/// stored: for a field `method`, at `method.selected_variant`.
pub const SELECTED_VARIANT_KEY: &'static str = "selected_variant";

/// The key segment under which the chosen variants of an AnyOf question are
/// stored: for a field `features`, at `features.selected_variants`.
pub const SELECTED_VARIANTS_KEY: &'static str = "selected_variants";

/// Default value of a question: none, suggested (pre-filled), or assumed
/// (the question is skipped and the value used as it is).
#[derive(Debug)]
pub enum DefaultValue {
    /// No default value: the user must answer.
    Unset,
    /// A value shown pre-filled, which the user may accept or change.
    Suggested(ResponseValue),
    /// A value used directly; the question is not shown.
    Assumed(ResponseValue),
}

/// The mathematical content of a [`DefaultValue`].
pub enum DefaultView {
    Unset,
    Suggested(ValueView),
    Assumed(ValueView),
}

impl View for DefaultValue {
    type V = DefaultView;

    open spec fn view(&self) -> DefaultView {
        match self {
            DefaultValue::Unset => DefaultView::Unset,
            DefaultValue::Suggested(v) => DefaultView::Suggested(v@),
            DefaultValue::Assumed(v) => DefaultView::Assumed(v@),
        }
    }
}

impl DefaultValue {
    /// Whether there is no default.
    pub fn is_none(&self) -> (r: bool)
        ensures
            r == (self is Unset),
    {
        match self {
            DefaultValue::Unset => true,
            _ => false,
        }
    }

    /// Whether the value is assumed (the question is skipped).
    pub fn is_assumed(&self) -> (r: bool)
        ensures
            r == (self is Assumed),
    {
        match self {
            DefaultValue::Assumed(_) => true,
            _ => false,
        }
    }

    /// Whether the value is suggested.
    pub fn is_suggested(&self) -> (r: bool)
        ensures
            r == (self is Suggested),
    {
        match self {
            DefaultValue::Suggested(_) => true,
            _ => false,
        }
    }

    /// The suggested or assumed value, if any.
    pub fn value(&self) -> (r: Option<&ResponseValue>)
        ensures
            match self {
                DefaultValue::Unset => r is None,
                DefaultValue::Suggested(v) => r == Some(v),
                DefaultValue::Assumed(v) => r == Some(v),
            },
    {
        match self {
            DefaultValue::Unset => None,
            DefaultValue::Suggested(v) => Some(v),
            DefaultValue::Assumed(v) => Some(v),
        }
    }
}

/// A single question of a survey.
#[derive(Debug)]
pub struct Question {
    /// The path of the answer in the collected responses.
    pub path: ResponsePath,
    /// The prompt shown to the user.
    pub ask: String,
    /// The input type, or how the question nests others.
    pub kind: QuestionKind,
    /// The default value (none, suggested or assumed).
    pub default: DefaultValue,
}

/// The kind of a question: its input type, or how it nests other questions.
#[derive(Debug)]
pub enum QuestionKind {
    /// Nothing to collect (unit variants, unit structs).
    Unit,
    /// Single-line text.
    Input(InputQuestion),
    /// Multi-line text.
    Multiline(MultilineQuestion),
    /// Hidden text, for passwords.
    Masked(MaskedQuestion),
    /// An integer with optional bounds.
    Int(IntQuestion),
    /// A floating-point number with optional bounds.
    Float(FloatQuestion),
    /// Yes or no.
    Confirm(ConfirmQuestion),
    /// A list of values of one primitive type.
    List(ListQuestion),
    /// Any number of options from a list.
    AnyOf(AnyOfQuestion),
    /// A group of questions that are all answered.
    AllOf(AllOfQuestion),
    /// One variant out of several, then its questions.
    OneOf(OneOfQuestion),
}

/// A variant of a OneOf or AnyOf question.
#[derive(Debug, Clone)]
pub struct Variant {
    /// Name shown for the variant.
    pub name: String,
    /// What to collect once the variant is chosen.
    pub kind: QuestionKind,
}

/// Multi-select over variants.
#[derive(Debug, Clone)]
pub struct AnyOfQuestion {
    pub variants: Vec<Variant>,
    /// Indices selected by default.
    pub defaults: Vec<usize>,
}

/// A group of questions that are all answered.
#[derive(Debug, Clone)]
pub struct AllOfQuestion {
    pub questions: Vec<Question>,
}

/// Choice of exactly one variant.
#[derive(Debug, Clone)]
pub struct OneOfQuestion {
    pub variants: Vec<Variant>,
    /// Index selected by default.
    pub default: Option<usize>,
}

/// Single-line text input.
#[derive(Debug, Clone)]
pub struct InputQuestion {
    pub default: Option<String>,
    /// Name of a validation function.
    pub validate: Option<String>,
}

/// Multi-line text input.
#[derive(Debug, Clone)]
pub struct MultilineQuestion {
    pub default: Option<String>,
    pub validate: Option<String>,
}

/// Hidden text input.
#[derive(Debug, Clone)]
pub struct MaskedQuestion {
    /// The masking character (the backend's own when absent).
    pub mask: Option<char>,
    pub validate: Option<String>,
}

/// Integer input.
#[derive(Debug, Clone)]
pub struct IntQuestion {
    pub default: Option<i64>,
    pub min: Option<i64>,
    pub max: Option<i64>,
    pub validate: Option<String>,
}

/// Floating-point input; numbers are carried as `f64` bit patterns.
#[derive(Debug, Clone)]
pub struct FloatQuestion {
    pub default: Option<u64>,
    pub min: Option<u64>,
    pub max: Option<u64>,
    pub validate: Option<String>,
}

/// Yes/no confirmation.
#[derive(Debug, Clone)]
pub struct ConfirmQuestion {
    /// The default answer (true for yes).
    pub default: bool,
}

/// The type of the elements of a list question.
#[derive(Debug)]
pub enum ListElementKind {
    String,
    Int { min: Option<i64>, max: Option<i64> },
    /// Bounds as `f64` bit patterns.
    Float { min: Option<u64>, max: Option<u64> },
}

/// Input of a list of values.
#[derive(Debug, Clone)]
pub struct ListQuestion {
    pub element_kind: ListElementKind,
    pub min_items: Option<usize>,
    pub max_items: Option<usize>,
    pub validate: Option<String>,
}

impl Question {
    /// A question with no default.
    pub fn new(path: ResponsePath, ask: &str, kind: QuestionKind) -> (r: Self)
        ensures
            r.path == path,
            r.ask@ == ask@,
            r.kind == kind,
            r.default is Unset,
    {
        Question { path, ask: ask.to_owned(), kind, default: DefaultValue::Unset }
    }

    /// The path of this question's answer.
    pub fn path(&self) -> (r: &ResponsePath)
        ensures
            *r == self.path,
    {
        &self.path
    }

    /// The prompt text.
    pub fn ask(&self) -> (r: &str)
        ensures
            r@ == self.ask@,
    {
        self.ask.as_str()
    }

    /// The question kind.
    pub fn kind(&self) -> (r: &QuestionKind)
        ensures
            *r == self.kind,
    {
        &self.kind
    }

    /// The question kind, to change in place.
    pub fn kind_mut(&mut self) -> (r: &mut QuestionKind)
        ensures
            *r == old(self).kind,
            final(self).kind == *final(r),
            final(self).path == old(self).path,
            final(self).ask == old(self).ask,
            final(self).default == old(self).default,
    {
        &mut self.kind
    }

    /// The default value.
    pub fn default(&self) -> (r: &DefaultValue)
        ensures
            *r == self.default,
    {
        &self.default
    }

    /// Suggest a value that the user can change.
    pub fn set_suggestion(&mut self, value: ResponseValue)
        ensures
            final(self).default == DefaultValue::Suggested(value),
            final(self).path == old(self).path,
            final(self).ask@ == old(self).ask@,
            final(self).kind == old(self).kind,
    {
        self.default = DefaultValue::Suggested(value);
    }

    /// Assume a value: the question is skipped.
    pub fn set_assumption(&mut self, value: ResponseValue)
        ensures
            final(self).default == DefaultValue::Assumed(value),
            final(self).path == old(self).path,
            final(self).ask@ == old(self).ask@,
            final(self).kind == old(self).kind,
    {
        self.default = DefaultValue::Assumed(value);
    }

    /// Remove any default value.
    pub fn clear_default(&mut self)
        ensures
            final(self).default is Unset,
            final(self).path == old(self).path,
            final(self).ask@ == old(self).ask@,
            final(self).kind == old(self).kind,
    {
        self.default = DefaultValue::Unset;
    }

    /// Whether the question is skipped because its value is assumed.
    pub fn is_assumed(&self) -> (r: bool)
        ensures
            r == (self.default is Assumed),
    {
        self.default.is_assumed()
    }
}

impl QuestionKind {
    /// Whether there is nothing to collect.
    pub fn is_unit(&self) -> (r: bool)
        ensures
            r == (self is Unit),
    {
        match self {
            QuestionKind::Unit => true,
            _ => false,
        }
    }

    /// Whether the question asks for a single primitive input.
    pub fn is_basic(&self) -> (r: bool)
        ensures
            r == (self is Input || self is Multiline || self is Masked || self is Int
                || self is Float || self is Confirm || self is List),
    {
        match self {
            QuestionKind::Input(_) | QuestionKind::Multiline(_) | QuestionKind::Masked(_)
            | QuestionKind::Int(_) | QuestionKind::Float(_) | QuestionKind::Confirm(_)
            | QuestionKind::List(_) => true,
            _ => false,
        }
    }

    /// Whether the question nests others (AllOf, OneOf, AnyOf).
    pub fn is_structural(&self) -> (r: bool)
        ensures
            r == (self is AllOf || self is OneOf || self is AnyOf),
    {
        match self {
            QuestionKind::AllOf(_) | QuestionKind::OneOf(_) | QuestionKind::AnyOf(_) => true,
            _ => false,
        }
    }
}

impl Variant {
    /// A variant with the given name and kind.
    pub fn new(name: &str, kind: QuestionKind) -> (r: Self)
        ensures
            r.name@ == name@,
            r.kind == kind,
    {
        Variant { name: name.to_owned(), kind }
    }

    /// A variant with nothing to collect.
    pub fn unit(name: &str) -> (r: Self)
        ensures
            r.name@ == name@,
            r.kind is Unit,
    {
        Variant::new(name, QuestionKind::Unit)
    }
}

impl AnyOfQuestion {
    /// No option selected by default.
    pub fn new(variants: Vec<Variant>) -> (r: Self)
        ensures
            r.variants == variants,
            r.defaults@ == Seq::<usize>::empty(),
    {
        AnyOfQuestion { variants, defaults: Vec::new() }
    }

    /// The given options selected by default.
    pub fn with_defaults(variants: Vec<Variant>, defaults: Vec<usize>) -> (r: Self)
        ensures
            r.variants == variants,
            r.defaults == defaults,
    {
        AnyOfQuestion { variants, defaults }
    }
}

impl AllOfQuestion {
    /// A group of the given questions.
    pub fn new(questions: Vec<Question>) -> (r: Self)
        ensures
            r.questions == questions,
    {
        AllOfQuestion { questions }
    }

    /// An empty group.
    pub fn empty() -> (r: Self)
        ensures
            r.questions@ == Seq::<Question>::empty(),
    {
        AllOfQuestion { questions: Vec::new() }
    }

    /// The questions of the group.
    pub fn questions(&self) -> (r: &[Question])
        ensures
            r@ == self.questions@,
    {
        self.questions.as_slice()
    }

    /// The questions of the group, for changing them.
    pub fn questions_mut(&mut self) -> (r: &mut Vec<Question>)
        ensures
            *r == old(self).questions,
            final(self).questions == *final(r),
    {
        &mut self.questions
    }
}

impl OneOfQuestion {
    /// No variant selected by default.
    pub fn new(variants: Vec<Variant>) -> (r: Self)
        ensures
            r.variants == variants,
            r.default is None,
    {
        OneOfQuestion { variants, default: None }
    }

    /// The given variant selected by default.
    pub fn with_default(variants: Vec<Variant>, default: usize) -> (r: Self)
        ensures
            r.variants == variants,
            r.default == Some(default),
    {
        OneOfQuestion { variants, default: Some(default) }
    }

    /// The variants.
    pub fn variants(&self) -> (r: &[Variant])
        ensures
            r@ == self.variants@,
    {
        self.variants.as_slice()
    }

    /// The variants, for changing them.
    pub fn variants_mut(&mut self) -> (r: &mut Vec<Variant>)
        ensures
            *r == old(self).variants,
            final(self).variants == *final(r),
    {
        &mut self.variants
    }
}

impl InputQuestion {
    /// No default, no validator.
    pub fn new() -> (r: Self)
        ensures
            r.default is None,
            r.validate is None,
    {
        InputQuestion { default: None, validate: None }
    }

    /// With a default text.
    pub fn with_default(default: &str) -> (r: Self)
        ensures
            r.default is Some && r.default->0@ == default@,
            r.validate is None,
    {
        InputQuestion { default: Some(default.to_owned()), validate: None }
    }

    /// With a validator.
    pub fn with_validator(validate: &str) -> (r: Self)
        ensures
            r.default is None,
            r.validate is Some && r.validate->0@ == validate@,
    {
        InputQuestion { default: None, validate: Some(validate.to_owned()) }
    }
}

impl MultilineQuestion {
    /// No default, no validator.
    pub fn new() -> (r: Self)
        ensures
            r.default is None,
            r.validate is None,
    {
        MultilineQuestion { default: None, validate: None }
    }
}

impl MaskedQuestion {
    /// The backend's mask, no validator.
    pub fn new() -> (r: Self)
        ensures
            r.mask is None,
            r.validate is None,
    {
        MaskedQuestion { mask: None, validate: None }
    }

    /// With a custom mask character.
    pub fn with_mask(mask: char) -> (r: Self)
        ensures
            r.mask == Some(mask),
            r.validate is None,
    {
        MaskedQuestion { mask: Some(mask), validate: None }
    }
}

impl IntQuestion {
    /// No default, no bounds, no validator.
    pub fn new() -> (r: Self)
        ensures
            r.default is None,
            r.min is None,
            r.max is None,
            r.validate is None,
    {
        IntQuestion { default: None, min: None, max: None, validate: None }
    }

    /// With bounds.
    pub fn with_bounds(min: Option<i64>, max: Option<i64>) -> (r: Self)
        ensures
            r.default is None,
            r.min == min,
            r.max == max,
            r.validate is None,
    {
        IntQuestion { default: None, min, max, validate: None }
    }

    /// With bounds and a validator.
    pub fn with_bounds_and_validator(
        min: Option<i64>,
        max: Option<i64>,
        validate: Option<String>,
    ) -> (r: Self)
        ensures
            r.default is None,
            r.min == min,
            r.max == max,
            r.validate == validate,
    {
        IntQuestion { default: None, min, max, validate }
    }
}

impl FloatQuestion {
    /// No default, no bounds, no validator.
    pub fn new() -> (r: Self)
        ensures
            r.default is None,
            r.min is None,
            r.max is None,
            r.validate is None,
    {
        FloatQuestion { default: None, min: None, max: None, validate: None }
    }

    /// With bounds (as bit patterns).
    pub fn with_bounds(min: Option<u64>, max: Option<u64>) -> (r: Self)
        ensures
            r.default is None,
            r.min == min,
            r.max == max,
            r.validate is None,
    {
        FloatQuestion { default: None, min, max, validate: None }
    }

    /// With bounds (as bit patterns) and a validator.
    pub fn with_bounds_and_validator(
        min: Option<u64>,
        max: Option<u64>,
        validate: Option<String>,
    ) -> (r: Self)
        ensures
            r.default is None,
            r.min == min,
            r.max == max,
            r.validate == validate,
    {
        FloatQuestion { default: None, min, max, validate }
    }
}

impl ConfirmQuestion {
    /// Default answer no.
    pub fn new() -> (r: Self)
        ensures
            r.default == false,
    {
        ConfirmQuestion { default: false }
    }

    /// With the given default answer.
    pub fn with_default(default: bool) -> (r: Self)
        ensures
            r.default == default,
    {
        ConfirmQuestion { default }
    }
}

impl ListQuestion {
    /// A list of strings with no item bounds and no validator.
    pub fn new() -> (r: Self)
        ensures
            r.element_kind is String,
            r.min_items is None,
            r.max_items is None,
            r.validate is None,
    {
        ListQuestion::strings()
    }

    /// A list of strings.
    pub fn strings() -> (r: Self)
        ensures
            r.element_kind is String,
            r.min_items is None,
            r.max_items is None,
            r.validate is None,
    {
        ListQuestion {
            element_kind: ListElementKind::String,
            min_items: None,
            max_items: None,
            validate: None,
        }
    }

    /// A list of integers without bounds.
    pub fn ints() -> (r: Self)
        ensures
            r.element_kind == (ListElementKind::Int { min: None, max: None }),
            r.min_items is None,
            r.max_items is None,
            r.validate is None,
    {
        ListQuestion::ints_with_bounds(None, None)
    }

    /// A list of integers, each within the bounds.
    pub fn ints_with_bounds(min: Option<i64>, max: Option<i64>) -> (r: Self)
        ensures
            r.element_kind == (ListElementKind::Int { min, max }),
            r.min_items is None,
            r.max_items is None,
            r.validate is None,
    {
        ListQuestion {
            element_kind: ListElementKind::Int { min, max },
            min_items: None,
            max_items: None,
            validate: None,
        }
    }

    /// A list of floating-point numbers without bounds.
    pub fn floats() -> (r: Self)
        ensures
            r.element_kind == (ListElementKind::Float { min: None, max: None }),
            r.min_items is None,
            r.max_items is None,
            r.validate is None,
    {
        ListQuestion::floats_with_bounds(None, None)
    }

    /// A list of floating-point numbers, each within the bounds (bit patterns).
    pub fn floats_with_bounds(min: Option<u64>, max: Option<u64>) -> (r: Self)
        ensures
            r.element_kind == (ListElementKind::Float { min, max }),
            r.min_items is None,
            r.max_items is None,
            r.validate is None,
    {
        ListQuestion {
            element_kind: ListElementKind::Float { min, max },
            min_items: None,
            max_items: None,
            validate: None,
        }
    }

    /// The same list question with bounds on the number of items.
    pub fn with_item_bounds(self, min: Option<usize>, max: Option<usize>) -> (r: Self)
        ensures
            r.element_kind == self.element_kind,
            r.min_items == min,
            r.max_items == max,
            r.validate == self.validate,
    {
        let mut q = self;
        q.min_items = min;
        q.max_items = max;
        q
    }

    /// The same list question with a validator.
    pub fn with_validator(self, validate: &str) -> (r: Self)
        ensures
            r.element_kind == self.element_kind,
            r.min_items == self.min_items,
            r.max_items == self.max_items,
            r.validate is Some && r.validate->0@ == validate@,
    {
        let mut q = self;
        q.validate = Some(validate.to_owned());
        q
    }
}

/// A whole survey: an optional opening message, the questions, and an
/// optional closing message.
#[derive(Debug, Clone)]
pub struct SurveyDefinition {
    /// Shown before the survey starts.
    pub prelude: Option<String>,
    /// The questions (AllOf, OneOf and AnyOf nest further ones).
    pub questions: Vec<Question>,
    /// Shown after the survey completes.
    pub epilogue: Option<String>,
}

impl SurveyDefinition {
    /// A survey of the given questions, without messages.
    pub fn new(questions: Vec<Question>) -> (r: Self)
        ensures
            r.prelude is None,
            r.questions == questions,
            r.epilogue is None,
    {
        SurveyDefinition { prelude: None, questions, epilogue: None }
    }

    /// A survey without questions or messages.
    pub fn empty() -> (r: Self)
        ensures
            r.prelude is None,
            r.questions@ == Seq::<Question>::empty(),
            r.epilogue is None,
    {
        SurveyDefinition { prelude: None, questions: Vec::new(), epilogue: None }
    }

    /// The same survey with an opening message.
    pub fn with_prelude(self, prelude: &str) -> (r: Self)
        ensures
            r.prelude is Some && r.prelude->0@ == prelude@,
            r.questions == self.questions,
            r.epilogue == self.epilogue,
    {
        let mut d = self;
        d.prelude = Some(prelude.to_owned());
        d
    }

    /// The same survey with a closing message.
    pub fn with_epilogue(self, epilogue: &str) -> (r: Self)
        ensures
            r.prelude == self.prelude,
            r.questions == self.questions,
            r.epilogue is Some && r.epilogue->0@ == epilogue@,
    {
        let mut d = self;
        d.epilogue = Some(epilogue.to_owned());
        d
    }

    /// The top-level questions.
    pub fn questions(&self) -> (r: &[Question])
        ensures
            r@ == self.questions@,
    {
        self.questions.as_slice()
    }

    /// The top-level questions, for changing them.
    pub fn questions_mut(&mut self) -> (r: &mut Vec<Question>)
        ensures
            *r == old(self).questions,
            final(self).questions == *final(r),
            final(self).prelude == old(self).prelude,
            final(self).epilogue == old(self).epilogue,
    {
        &mut self.questions
    }

    /// Whether there is no top-level question.
    pub fn is_empty(&self) -> (r: bool)
        ensures
            r == (self.questions@.len() == 0),
    {
        self.questions.len() == 0
    }

    /// The number of top-level questions.
    pub fn len(&self) -> (r: usize)
        ensures
            r == self.questions@.len(),
    {
        self.questions.len()
    }
}

impl Default for SurveyDefinition {
    fn default() -> (r: Self)
        ensures
            r.prelude is None,
            r.questions@ == Seq::<Question>::empty(),
            r.epilogue is None,
    {
        SurveyDefinition::empty()
    }
}

} // verus!

verus! {

/// `b` is a copy of the question `a`: the same in every part, stored values
/// compared by their content.
pub open spec fn same_question(a: Question, b: Question) -> bool
    decreases a, 0int,
{
    &&& b.path == a.path
    &&& b.ask == a.ask
    &&& b.default@ == a.default@
    &&& same_kind(a.kind, b.kind)
}

/// `b` is a copy of the question kind `a`.
pub open spec fn same_kind(a: QuestionKind, b: QuestionKind) -> bool
    decreases a, 0int,
{
    match a {
        QuestionKind::AllOf(x) => b is AllOf && same_list(x.questions@, b->AllOf_0.questions@),
        QuestionKind::OneOf(o) => b is OneOf && b->OneOf_0.default == o.default && same_variants(
            o.variants@,
            b->OneOf_0.variants@,
        ),
        QuestionKind::AnyOf(y) => b is AnyOf && b->AnyOf_0.defaults@ == y.defaults@
            && same_variants(y.variants@, b->AnyOf_0.variants@),
        _ => b == a,
    }
}

/// Each question of `qb` is a copy of its counterpart in `qa`.
pub open spec fn same_list(qa: Seq<Question>, qb: Seq<Question>) -> bool
    decreases qa, 0int,
{
    &&& qb.len() == qa.len()
    &&& forall|i: int| 0 <= i < qa.len() ==> same_question(qa[i], qb[i])
}

/// Each variant of `vb` is a copy of its counterpart in `va`.
pub open spec fn same_variants(va: Seq<Variant>, vb: Seq<Variant>) -> bool
    decreases va, 0int,
{
    &&& vb.len() == va.len()
    &&& forall|i: int|
        0 <= i < va.len() ==> vb[i].name == va[i].name && same_kind(va[i].kind, vb[i].kind)
}

fn copy_opt_string(s: &Option<String>) -> (r: Option<String>)
    ensures
        r == *s,
{
    match s {
        Some(t) => Some(t.clone()),
        None => None,
    }
}

impl DefaultValue {
    /// A copy of this default.
    pub fn copy(&self) -> (r: Self)
        ensures
            r@ == self@,
    {
        match self {
            DefaultValue::Unset => DefaultValue::Unset,
            DefaultValue::Suggested(v) => DefaultValue::Suggested(v.clone()),
            DefaultValue::Assumed(v) => DefaultValue::Assumed(v.clone()),
        }
    }
}

impl ListElementKind {
    /// A copy of this element kind.
    pub fn copy(&self) -> (r: Self)
        ensures
            r == *self,
    {
        match self {
            ListElementKind::String => ListElementKind::String,
            ListElementKind::Int { min, max } => ListElementKind::Int { min: *min, max: *max },
            ListElementKind::Float { min, max } => ListElementKind::Float { min: *min, max: *max },
        }
    }
}

impl Question {
    /// A deep copy of this question.
    pub fn copy(&self) -> (r: Self)
        ensures
            same_question(*self, r),
        decreases *self, 1int,
    {
        Question {
            path: self.path.clone(),
            ask: self.ask.clone(),
            kind: self.kind.copy(),
            default: self.default.copy(),
        }
    }
}

/// Deep copies of the questions `qs`.
pub fn copy_questions(qs: &Vec<Question>) -> (r: Vec<Question>)
    ensures
        same_list(qs@, r@),
    decreases qs@, 1int,
{
    let mut out: Vec<Question> = Vec::new();
    let mut i: usize = 0;
    while i < qs.len()
        invariant
            i <= qs@.len(),
            out@.len() == i,
            forall|j: int| 0 <= j < i ==> same_question(qs@[j], out@[j]),
        decreases qs@.len() - i,
    {
        proof {
            assert(decreases_to!(qs@ => qs@[i as int]));
        }
        out.push(qs[i].copy());
        i = i + 1;
    }
    out
}

/// Deep copies of the variants `vs`.
pub fn copy_variants(vs: &Vec<Variant>) -> (r: Vec<Variant>)
    ensures
        same_variants(vs@, r@),
    decreases vs@, 1int,
{
    let mut out: Vec<Variant> = Vec::new();
    let mut i: usize = 0;
    while i < vs.len()
        invariant
            i <= vs@.len(),
            out@.len() == i,
            forall|j: int|
                0 <= j < i ==> out@[j].name == vs@[j].name && same_kind(vs@[j].kind, out@[j].kind),
        decreases vs@.len() - i,
    {
        proof {
            assert(decreases_to!(vs@ => vs@[i as int]));
            assert(decreases_to!(vs@[i as int] => vs@[i as int].kind));
        }
        let v = Variant { name: vs[i].name.clone(), kind: vs[i].kind.copy() };
        out.push(v);
        i = i + 1;
    }
    out
}

impl QuestionKind {
    /// A deep copy of this kind.
    pub fn copy(&self) -> (r: Self)
        ensures
            same_kind(*self, r),
        decreases *self, 1int,
    {
        match self {
            QuestionKind::Unit => QuestionKind::Unit,
            QuestionKind::Input(q) => QuestionKind::Input(
                InputQuestion { default: copy_opt_string(&q.default), validate: copy_opt_string(&q.validate) },
            ),
            QuestionKind::Multiline(q) => QuestionKind::Multiline(
                MultilineQuestion {
                    default: copy_opt_string(&q.default),
                    validate: copy_opt_string(&q.validate),
                },
            ),
            QuestionKind::Masked(q) => QuestionKind::Masked(
                MaskedQuestion { mask: q.mask, validate: copy_opt_string(&q.validate) },
            ),
            QuestionKind::Int(q) => QuestionKind::Int(
                IntQuestion {
                    default: q.default,
                    min: q.min,
                    max: q.max,
                    validate: copy_opt_string(&q.validate),
                },
            ),
            QuestionKind::Float(q) => QuestionKind::Float(
                FloatQuestion {
                    default: q.default,
                    min: q.min,
                    max: q.max,
                    validate: copy_opt_string(&q.validate),
                },
            ),
            QuestionKind::Confirm(q) => QuestionKind::Confirm(ConfirmQuestion { default: q.default }),
            QuestionKind::List(q) => QuestionKind::List(
                ListQuestion {
                    element_kind: q.element_kind.copy(),
                    min_items: q.min_items,
                    max_items: q.max_items,
                    validate: copy_opt_string(&q.validate),
                },
            ),
            QuestionKind::AnyOf(y) => QuestionKind::AnyOf(
                AnyOfQuestion {
                    variants: copy_variants(&y.variants),
                    defaults: crate::value::copy_vec(&y.defaults),
                },
            ),
            QuestionKind::AllOf(x) => QuestionKind::AllOf(
                AllOfQuestion { questions: copy_questions(&x.questions) },
            ),
            QuestionKind::OneOf(o) => QuestionKind::OneOf(
                OneOfQuestion { variants: copy_variants(&o.variants), default: o.default },
            ),
        }
    }
}

impl Clone for DefaultValue {
    fn clone(&self) -> (r: Self)
        ensures
            r@ == self@,
    {
        self.copy()
    }
}

impl Clone for ListElementKind {
    fn clone(&self) -> (r: Self)
        ensures
            r == *self,
    {
        self.copy()
    }
}

impl Clone for Question {
    fn clone(&self) -> (r: Self)
        ensures
            same_question(*self, r),
    {
        self.copy()
    }
}

impl Clone for QuestionKind {
    fn clone(&self) -> (r: Self)
        ensures
            same_kind(*self, r),
    {
        self.copy()
    }
}

impl Default for DefaultValue {
    fn default() -> (r: Self)
        ensures
            r is Unset,
    {
        DefaultValue::Unset
    }
}

impl Default for InputQuestion {
    fn default() -> (r: Self)
        ensures
            r.default is None,
            r.validate is None,
    {
        InputQuestion::new()
    }
}

impl Default for MultilineQuestion {
    fn default() -> (r: Self)
        ensures
            r.default is None,
            r.validate is None,
    {
        MultilineQuestion::new()
    }
}

impl Default for MaskedQuestion {
    fn default() -> (r: Self)
        ensures
            r.mask is None,
            r.validate is None,
    {
        MaskedQuestion::new()
    }
}

impl Default for IntQuestion {
    fn default() -> (r: Self)
        ensures
            r.default is None,
            r.min is None,
            r.max is None,
            r.validate is None,
    {
        IntQuestion::new()
    }
}

impl Default for FloatQuestion {
    fn default() -> (r: Self)
        ensures
            r.default is None,
            r.min is None,
            r.max is None,
            r.validate is None,
    {
        FloatQuestion::new()
    }
}

impl Default for ConfirmQuestion {
    fn default() -> (r: Self)
        ensures
            r.default == false,
    {
        ConfirmQuestion::new()
    }
}

impl Default for ListElementKind {
    fn default() -> (r: Self)
        ensures
            r is String,
    {
        ListElementKind::String
    }
}

impl Default for ListQuestion {
    fn default() -> (r: Self)
        ensures
            r.element_kind is String,
            r.min_items is None,
            r.max_items is None,
            r.validate is None,
    {
        ListQuestion::new()
    }
}

} // verus!

