//! The decisions of the prompt-by-prompt command-line backend: which path a
//! question answers, which prompt and default it shows, and which bounds its
//! answer must meet, and what is asked after a choice. The prompting itself
//! is done by the front end.
use vstd::prelude::*;
use crate::naming::{spec_title_case, title_case};
use crate::path::{spec_child, ResponsePath};
use crate::question::{
    copy_questions, same_kind, same_list, AnyOfQuestion, DefaultValue, OneOfQuestion, Question,
    QuestionKind, Variant,
};
use crate::text::{decimal, i64_to_text, last_index_of, rfind_char, signed_decimal, substring, usize_to_text};
use crate::value::ResponseValue;

verus! {

/// The prompt-by-prompt command-line backend.
#[derive(Debug)]
pub struct RequesttyBackend;

impl RequesttyBackend {
    /// A new backend.
    pub fn new() -> (r: Self) {
        RequesttyBackend
    }
}

/// The path a question answers: its own path, below `prefix` if given.
pub open spec fn spec_question_path(prefix: Option<Seq<char>>, p: Seq<char>) -> Seq<char> {
    match prefix {
        Some(pre) => spec_child(pre, p),
        None => p,
    }
}

/// The path that `question` answers below the optional `prefix`.
pub fn question_path(question: &Question, prefix: Option<&ResponsePath>) -> (r: ResponsePath)
    ensures
        r@ == spec_question_path(
            match prefix {
                Some(p) => Some(p@),
                None => None,
            },
            question.path@,
        ),
{
    match prefix {
        Some(p) => p.child(question.path.as_str()),
        None => question.path.clone(),
    }
}

/// The prompt shown for a question at `path`: its own text, or when that is
/// empty the last piece of the path in title case.
pub open spec fn spec_prompt(ask: Seq<char>, path: Seq<char>) -> Seq<char> {
    if ask.len() > 0 {
        ask
    } else {
        spec_title_case(path.skip(last_index_of(path, '.') + 1))
    }
}

/// The prompt shown for `question` answering at `path`.
pub fn prompt_for(question: &Question, path: &ResponsePath) -> (r: String)
    ensures
        r@ == spec_prompt(question.ask@, path@),
{
    if question.ask.as_str().unicode_len() > 0 {
        return question.ask.clone();
    }
    let s = path.as_str();
    let n = s.unicode_len();
    proof {
        crate::text::lemma_last_index_bounds(s@, '.');
    }
    let start: usize = match rfind_char(s, '.') {
        Some(k) => k + 1,
        None => 0,
    };
    let last = substring(s, start, n);
    assert(last@ =~= s@.skip(last_index_of(s@, '.') + 1));
    title_case(last.as_str())
}

/// The text shown pre-filled for a text question: the question's suggested
/// or assumed value when there is one (and nothing when that value is not
/// text), else the question kind's own default.
pub open spec fn spec_text_default(d: DefaultValue, own: Option<String>) -> Option<Seq<char>> {
    match d {
        DefaultValue::Unset => match own {
            Some(s) => Some(s@),
            None => None,
        },
        DefaultValue::Suggested(v) => match v {
            ResponseValue::String(s) => Some(s@),
            _ => None,
        },
        DefaultValue::Assumed(v) => match v {
            ResponseValue::String(s) => Some(s@),
            _ => None,
        },
    }
}

/// The text pre-filled for a text question with default `d` and the kind's
/// own default `own`.
pub fn text_default(d: &DefaultValue, own: &Option<String>) -> (r: Option<String>)
    ensures
        match r {
            Some(s) => spec_text_default(*d, *own) == Some(s@),
            None => spec_text_default(*d, *own) is None,
        },
{
    match d.value() {
        Some(v) => match v {
            ResponseValue::String(s) => Some(s.clone()),
            _ => None,
        },
        None => match own {
            Some(s) => Some(s.clone()),
            None => None,
        },
    }
}

/// The integer pre-filled for an integer question: the suggested or assumed
/// value when there is one (nothing when it is not an integer), else the
/// kind's own default.
pub open spec fn spec_int_default(d: DefaultValue, own: Option<i64>) -> Option<i64> {
    match d {
        DefaultValue::Unset => own,
        DefaultValue::Suggested(v) => match v {
            ResponseValue::Int(i) => Some(i),
            _ => None,
        },
        DefaultValue::Assumed(v) => match v {
            ResponseValue::Int(i) => Some(i),
            _ => None,
        },
    }
}

/// The integer pre-filled for an integer question.
pub fn int_default(d: &DefaultValue, own: Option<i64>) -> (r: Option<i64>)
    ensures
        r == spec_int_default(*d, own),
{
    match d.value() {
        Some(v) => match v {
            ResponseValue::Int(i) => Some(*i),
            _ => None,
        },
        None => own,
    }
}

/// The answer pre-selected for a confirmation: a suggested or assumed
/// boolean, else the kind's own default.
pub open spec fn spec_confirm_default(d: DefaultValue, own: bool) -> bool {
    match d {
        DefaultValue::Suggested(ResponseValue::Bool(b)) => b,
        DefaultValue::Assumed(ResponseValue::Bool(b)) => b,
        _ => own,
    }
}

/// The answer pre-selected for a confirmation.
pub fn confirm_default(d: &DefaultValue, own: bool) -> (r: bool)
    ensures
        r == spec_confirm_default(*d, own),
{
    match d.value() {
        Some(ResponseValue::Bool(b)) => *b,
        _ => own,
    }
}

/// The bound check of an integer answer: the message for the first bound
/// it breaks.
pub open spec fn spec_int_bounds(value: i64, min: Option<i64>, max: Option<i64>) -> Option<Seq<char>> {
    if min is Some && value < min->0 {
        Some("Value must be at least "@ + signed_decimal(min->0 as int))
    } else if max is Some && value > max->0 {
        Some("Value must be at most "@ + signed_decimal(max->0 as int))
    } else {
        None
    }
}

/// Check an integer answer against the bounds of its question.
pub fn check_int_bounds(value: i64, min: Option<i64>, max: Option<i64>) -> (r: Result<(), String>)
    ensures
        match r {
            Ok(_) => spec_int_bounds(value, min, max) is None,
            Err(m) => spec_int_bounds(value, min, max) == Some(m@),
        },
{
    match min {
        Some(lo) => if value < lo {
            let mut m = "Value must be at least ".to_owned();
            m.append(i64_to_text(lo).as_str());
            return Err(m);
        },
        None => {},
    }
    match max {
        Some(hi) => if value > hi {
            let mut m = "Value must be at most ".to_owned();
            m.append(i64_to_text(hi).as_str());
            return Err(m);
        },
        None => {},
    }
    Ok(())
}

/// What a question asks for once its path is known: an assumed value is
/// stored without asking.
pub fn assumed_answer(question: &Question) -> (r: Option<ResponseValue>)
    ensures
        match question.default {
            DefaultValue::Assumed(v) => r is Some && r->0@ == v@,
            _ => r is None,
        },
{
    match &question.default {
        DefaultValue::Assumed(v) => Some(v.clone()),
        _ => None,
    }
}

/// The prompt of the synthetic question asked for the single value of a
/// chosen variant: `Enter NAME value:`, `Select NAME:` for a nested choice,
/// `Select NAME options:` for a nested multi-select.
pub open spec fn spec_variant_prompt(name: Seq<char>, kind: QuestionKind) -> Seq<char> {
    match kind {
        QuestionKind::OneOf(_) => "Select "@ + name + ":"@,
        QuestionKind::AnyOf(_) => "Select "@ + name + " options:"@,
        _ => "Enter "@ + name + " value:"@,
    }
}

/// The prompt of the synthetic question for a chosen variant named `name`.
pub fn variant_prompt(name: &str, kind: &QuestionKind) -> (r: String)
    ensures
        r@ == spec_variant_prompt(name@, *kind),
{
    match kind {
        QuestionKind::OneOf(_) => {
            let mut m = "Select ".to_owned();
            m.append(name);
            m.append(":");
            m
        },
        QuestionKind::AnyOf(_) => {
            let mut m = "Select ".to_owned();
            m.append(name);
            m.append(" options:");
            m
        },
        _ => {
            let mut m = "Enter ".to_owned();
            m.append(name);
            m.append(" value:");
            m
        },
    }
}

/// What is asked after a variant of a choice is selected.
#[derive(Debug)]
pub enum FollowUp {
    /// Nothing: a unit variant, a list, or an index out of range.
    Nothing,
    /// The variant's fields, asked below the choice's path.
    Group(Vec<Question>),
    /// The variant's single value, asked as this question below the
    /// choice's path.
    Single(Question),
}

/// `r` is what follows the selection of variant `selection` of `vs`: a unit
/// variant (or a list, or an index out of range) asks nothing; a variant
/// with fields asks copies of its fields; any other variant asks one
/// question, at the variant's name, with its kind and the prompt of
/// [`spec_variant_prompt`].
pub open spec fn spec_follow_up(vs: Seq<Variant>, selection: usize, r: FollowUp) -> bool {
    if selection >= vs.len() {
        r is Nothing
    } else {
        let v = vs[selection as int];
        match v.kind {
            QuestionKind::Unit => r is Nothing,
            QuestionKind::List(_) => r is Nothing,
            QuestionKind::AllOf(a) => r matches FollowUp::Group(qs) && same_list(a.questions@, qs@),
            _ => r matches FollowUp::Single(q) && q.path@ == v.name@ && q.ask@ == spec_variant_prompt(
                v.name@,
                v.kind,
            ) && same_kind(v.kind, q.kind) && q.default is Unset,
        }
    }
}

/// What is asked after variant `selection` of `one_of` is selected.
pub fn follow_up(one_of: &OneOfQuestion, selection: usize) -> (r: FollowUp)
    ensures
        spec_follow_up(one_of.variants@, selection, r),
{
    if selection >= one_of.variants.len() {
        return FollowUp::Nothing;
    }
    let v = &one_of.variants[selection];
    match &v.kind {
        QuestionKind::Unit => FollowUp::Nothing,
        QuestionKind::List(_) => FollowUp::Nothing,
        QuestionKind::AllOf(a) => FollowUp::Group(copy_questions(&a.questions)),
        kind => {
            let prompt = variant_prompt(v.name.as_str(), kind);
            FollowUp::Single(Question::new(ResponsePath::new(v.name.as_str()), prompt.as_str(), kind.copy()))
        },
    }
}

/// One selected item of a multi-select: where its answers go, which variant
/// it is, and the variant's fields to ask below that path.
#[derive(Debug)]
pub struct Item {
    pub path: ResponsePath,
    pub variant: usize,
    pub questions: Vec<Question>,
}

/// `r` is the item for the `k`-th selection, of variant `idx`, of a
/// multi-select at `path` over `vs`: none when the index is out of range;
/// else the item at `path.k` (its position among the selections), with
/// copies of the variant's fields, or no questions for another variant.
pub open spec fn spec_item(vs: Seq<Variant>, path: Seq<char>, k: int, idx: usize, r: Option<Item>) -> bool {
    if idx >= vs.len() {
        r is None
    } else {
        &&& r is Some
        &&& r->0.path@ == spec_child(path, decimal(k as nat))
        &&& r->0.variant == idx
        &&& match vs[idx as int].kind {
            QuestionKind::AllOf(a) => same_list(a.questions@, r->0.questions@),
            _ => r->0.questions@.len() == 0,
        }
    }
}

/// The items of the selections `selections` of the multi-select `any_of`
/// at `path`, one per selection.
pub fn items_of(any_of: &AnyOfQuestion, selections: &Vec<usize>, path: &ResponsePath) -> (r: Vec<
    Option<Item>,
>)
    ensures
        r@.len() == selections@.len(),
        forall|k: int|
            0 <= k < selections@.len() ==> spec_item(any_of.variants@, path@, k, selections@[k], #[trigger] r@[k]),
{
    let mut out: Vec<Option<Item>> = Vec::new();
    let mut k: usize = 0;
    while k < selections.len()
        invariant
            k <= selections@.len(),
            out@.len() == k,
            forall|j: int|
                0 <= j < k ==> spec_item(any_of.variants@, path@, j, selections@[j], #[trigger] out@[j]),
        decreases selections@.len() - k,
    {
        let idx = selections[k];
        if idx < any_of.variants.len() {
            let item_path = path.child(usize_to_text(k).as_str());
            let questions = match &any_of.variants[idx].kind {
                QuestionKind::AllOf(a) => copy_questions(&a.questions),
                _ => Vec::new(),
            };
            out.push(Some(Item { path: item_path, variant: idx, questions }));
        } else {
            out.push(None);
        }
        k = k + 1;
    }
    out
}

} // verus!

verus! {

/// A suggested or assumed value pre-fills the prompt whatever the kind's own
/// default; only without one does the kind's own default show: for integer,
/// text and confirmation prompts alike.
pub proof fn law_question_default_prefills(i: i64, t: String, b: bool, own_int: Option<i64>, own_text: Option<
    String,
>, own_bool: bool)
    ensures
        spec_int_default(DefaultValue::Suggested(ResponseValue::Int(i)), own_int) == Some(i),
        spec_int_default(DefaultValue::Assumed(ResponseValue::Int(i)), own_int) == Some(i),
        spec_int_default(DefaultValue::Unset, own_int) == own_int,
        spec_text_default(DefaultValue::Suggested(ResponseValue::String(t)), own_text) == Some(t@),
        spec_text_default(DefaultValue::Assumed(ResponseValue::String(t)), own_text) == Some(t@),
        spec_text_default(DefaultValue::Unset, own_text) == (match own_text {
            Some(s) => Some(s@),
            None => None,
        }),
        spec_confirm_default(DefaultValue::Suggested(ResponseValue::Bool(b)), own_bool) == b,
        spec_confirm_default(DefaultValue::Assumed(ResponseValue::Bool(b)), own_bool) == b,
        spec_confirm_default(DefaultValue::Unset, own_bool) == own_bool,
{
}

/// An integer answer is refused by its bounds exactly when it lies below the
/// minimum or above the maximum.
pub proof fn law_int_bounds_refuse_outside(value: i64, min: Option<i64>, max: Option<i64>)
    ensures
        spec_int_bounds(value, min, max) is None <==> (min is None || min->0 <= value) && (max is None
            || value <= max->0),
{
}

} // verus!
