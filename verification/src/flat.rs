//! Surveys flattened into the sequence of single questions that a wizard
//! asks one after the other.
use vstd::prelude::*;
use crate::builder::{applied_question, is_true_at};
use crate::path::{spec_child, ResponsePath};
use crate::test_backend::{dotted, is_direct};
use crate::question::{
    copy_variants, same_variants, DefaultValue, ListElementKind, Question, QuestionKind, Variant,
    SELECTED_VARIANTS_KEY, SELECTED_VARIANT_KEY,
};
use crate::text::{i64_to_text, signed_decimal};
use crate::value::{ResponseValue, ValueView};

verus! {

/// The input that a flattened question takes.
#[derive(Debug)]
pub enum FlatQuestionKind {
    Input,
    Multiline,
    Masked,
    Int { min: Option<i64>, max: Option<i64> },
    /// Bounds as `f64` bit patterns.
    Float { min: Option<u64>, max: Option<u64> },
    Confirm { default: bool },
    List { element_kind: ListElementKind },
    /// Choice of one variant; its follow-up questions are added once chosen.
    Select { options: Vec<String>, default_idx: usize, variants: Vec<Variant> },
    /// Choice of any variants; their follow-up questions are added once chosen.
    MultiSelect { options: Vec<String>, defaults: Vec<usize>, variants: Vec<Variant> },
}

/// A single question of a flattened survey.
#[derive(Debug)]
pub struct FlatQuestion {
    /// Where the answer is stored.
    pub path: ResponsePath,
    /// The prompt.
    pub prompt: String,
    /// The input it takes.
    pub kind: FlatQuestionKind,
    /// The text pre-filled for text, number and confirmation inputs.
    pub default_value: Option<String>,
    /// The number pre-filled for floating-point inputs (bit pattern; the
    /// front end writes it as text).
    pub float_default: Option<u64>,
    /// The assumed answer, when the question is skipped.
    pub assumed: Option<ResponseValue>,
    /// Whether the answer goes through the survey's validator.
    pub has_validation: bool,
}

/// The mathematical content of a [`FlatQuestionKind`]; the variants are the
/// ones of the survey it was flattened from.
pub enum FlatKindSpec {
    Input,
    Multiline,
    Masked,
    Int { min: Option<i64>, max: Option<i64> },
    Float { min: Option<u64>, max: Option<u64> },
    Confirm { default: bool },
    List { element_kind: ListElementKind },
    Select { options: Seq<Seq<char>>, default_idx: usize, variants: Seq<Variant> },
    MultiSelect { options: Seq<Seq<char>>, defaults: Seq<usize>, variants: Seq<Variant> },
}

/// The mathematical content of a [`FlatQuestion`].
pub struct FlatSpec {
    pub path: Seq<char>,
    pub prompt: Seq<char>,
    pub kind: FlatKindSpec,
    pub default_value: Option<Seq<char>>,
    pub float_default: Option<u64>,
    pub assumed: Option<ValueView>,
    pub has_validation: bool,
}

/// The text of an optional string.
pub open spec fn opt_text(s: Option<String>) -> Option<Seq<char>> {
    match s {
        Some(t) => Some(t@),
        None => None,
    }
}

/// The content of an optional value.
pub open spec fn opt_value(v: Option<ResponseValue>) -> Option<ValueView> {
    match v {
        Some(x) => Some(x@),
        None => None,
    }
}

/// The names of the variants `vs`.
pub open spec fn variant_names(vs: Seq<Variant>) -> Seq<Seq<char>> {
    Seq::new(vs.len(), |i: int| vs[i].name@)
}

/// `k` holds what `s` describes; its variants are copies of the described ones.
pub open spec fn kind_matches(k: FlatQuestionKind, s: FlatKindSpec) -> bool {
    match s {
        FlatKindSpec::Input => k is Input,
        FlatKindSpec::Multiline => k is Multiline,
        FlatKindSpec::Masked => k is Masked,
        FlatKindSpec::Int { min, max } => k == FlatQuestionKind::Int { min, max },
        FlatKindSpec::Float { min, max } => k == FlatQuestionKind::Float { min, max },
        FlatKindSpec::Confirm { default } => k == FlatQuestionKind::Confirm { default },
        FlatKindSpec::List { element_kind } => k == FlatQuestionKind::List { element_kind },
        FlatKindSpec::Select { options, default_idx, variants } => {
            &&& k is Select
            &&& k->Select_options.deep_view() == options
            &&& k->Select_default_idx == default_idx
            &&& same_variants(variants, k->Select_variants@)
        },
        FlatKindSpec::MultiSelect { options, defaults, variants } => {
            &&& k is MultiSelect
            &&& k->MultiSelect_options.deep_view() == options
            &&& k->MultiSelect_defaults@ == defaults
            &&& same_variants(variants, k->MultiSelect_variants@)
        },
    }
}

/// `f` holds what `s` describes.
pub open spec fn flat_matches(f: FlatQuestion, s: FlatSpec) -> bool {
    &&& f.path@ == s.path
    &&& f.prompt@ == s.prompt
    &&& kind_matches(f.kind, s.kind)
    &&& opt_text(f.default_value) == s.default_value
    &&& f.float_default == s.float_default
    &&& opt_value(f.assumed) == s.assumed
    &&& f.has_validation == s.has_validation
}

/// Each question of `fs` holds what its counterpart in `ss` describes.
pub open spec fn flats_match(fs: Seq<FlatQuestion>, ss: Seq<FlatSpec>) -> bool {
    &&& fs.len() == ss.len()
    &&& forall|i: int| 0 <= i < fs.len() ==> flat_matches(fs[i], ss[i])
}

/// A nested group's flattened questions, the first one taking the group's
/// prompt when it has none of its own.
pub open spec fn with_prompt(nested: Seq<FlatSpec>, ask: Seq<char>) -> Seq<FlatSpec> {
    if ask.len() > 0 && nested.len() > 0 && nested[0].prompt.len() == 0 {
        nested.update(0, FlatSpec { prompt: ask, ..nested[0] })
    } else {
        nested
    }
}

/// The assumed answer of a question, if its default is assumed.
pub open spec fn assumed_of(d: DefaultValue) -> Option<ValueView> {
    match d {
        DefaultValue::Assumed(v) => Some(v@),
        _ => None,
    }
}

/// The questions `qs`, below `prefix`, flattened in order.
pub open spec fn flat_list(qs: Seq<Question>, prefix: Seq<char>) -> Seq<FlatSpec>
    decreases qs, 0int,
{
    if qs.len() == 0 {
        Seq::<FlatSpec>::empty()
    } else {
        flat_list(qs.drop_last(), prefix) + flat_one(qs.last(), prefix)
    }
}

/// One question, below `prefix`, flattened: nothing for a unit, its nested
/// questions for a group, else one question at its path (a choice at
/// `path.selected_variant` or `path.selected_variants`).
pub open spec fn flat_one(q: Question, prefix: Seq<char>) -> Seq<FlatSpec>
    decreases q, 0int,
{
    let path = spec_child(prefix, q.path@);
    let assumed = assumed_of(q.default);
    let basic = FlatSpec {
        path,
        prompt: q.ask@,
        kind: FlatKindSpec::Input,
        default_value: None,
        float_default: None,
        assumed,
        has_validation: false,
    };
    match q.kind {
        QuestionKind::Unit => Seq::<FlatSpec>::empty(),
        QuestionKind::Input(iq) => seq![
            FlatSpec {
                default_value: match q.default {
                    DefaultValue::Suggested(ResponseValue::String(s)) => Some(s@),
                    _ => opt_text(iq.default),
                },
                has_validation: iq.validate is Some,
                ..basic
            },
        ],
        QuestionKind::Multiline(mq) => seq![
            FlatSpec {
                kind: FlatKindSpec::Multiline,
                default_value: match q.default {
                    DefaultValue::Suggested(ResponseValue::String(s)) => Some(s@),
                    _ => opt_text(mq.default),
                },
                has_validation: mq.validate is Some,
                ..basic
            },
        ],
        QuestionKind::Masked(mq) => seq![
            FlatSpec { kind: FlatKindSpec::Masked, has_validation: mq.validate is Some, ..basic },
        ],
        QuestionKind::Int(iq) => seq![
            FlatSpec {
                kind: FlatKindSpec::Int { min: iq.min, max: iq.max },
                default_value: match q.default {
                    DefaultValue::Suggested(ResponseValue::Int(i)) => Some(signed_decimal(i as int)),
                    _ => match iq.default {
                        Some(d) => Some(signed_decimal(d as int)),
                        None => None,
                    },
                },
                has_validation: iq.validate is Some,
                ..basic
            },
        ],
        QuestionKind::Float(fq) => seq![
            FlatSpec {
                kind: FlatKindSpec::Float { min: fq.min, max: fq.max },
                float_default: match q.default {
                    DefaultValue::Suggested(ResponseValue::Float(b)) => Some(b),
                    _ => fq.default,
                },
                has_validation: fq.validate is Some,
                ..basic
            },
        ],
        QuestionKind::Confirm(cq) => {
            let d = match q.default {
                DefaultValue::Suggested(ResponseValue::Bool(b)) => b,
                _ => cq.default,
            };
            seq![
                FlatSpec {
                    kind: FlatKindSpec::Confirm { default: d },
                    default_value: Some(if d { "yes"@ } else { "no"@ }),
                    ..basic
                },
            ]
        },
        QuestionKind::List(lq) => seq![
            FlatSpec {
                kind: FlatKindSpec::List { element_kind: lq.element_kind },
                has_validation: lq.validate is Some,
                ..basic
            },
        ],
        QuestionKind::OneOf(o) => seq![
            FlatSpec {
                path: spec_child(path, SELECTED_VARIANT_KEY@),
                kind: FlatKindSpec::Select {
                    options: variant_names(o.variants@),
                    default_idx: match o.default {
                        Some(d) => d,
                        None => 0,
                    },
                    variants: o.variants@,
                },
                ..basic
            },
        ],
        QuestionKind::AnyOf(a) => seq![
            FlatSpec {
                path: spec_child(path, SELECTED_VARIANTS_KEY@),
                kind: FlatKindSpec::MultiSelect {
                    options: variant_names(a.variants@),
                    defaults: a.defaults@,
                    variants: a.variants@,
                },
                ..basic
            },
        ],
        QuestionKind::AllOf(a) => with_prompt(flat_list(a.questions@, path), q.ask@),
    }
}

/// The names of the variants.
pub fn names_of(vs: &Vec<Variant>) -> (r: Vec<String>)
    ensures
        r.deep_view() == variant_names(vs@),
{
    let mut out: Vec<String> = Vec::new();
    let mut i: usize = 0;
    while i < vs.len()
        invariant
            i <= vs@.len(),
            out@.len() == i,
            forall|j: int| 0 <= j < i ==> out@[j]@ == vs@[j].name@,
        decreases vs@.len() - i,
    {
        out.push(vs[i].name.clone());
        i = i + 1;
    }
    assert(out.deep_view() =~= variant_names(vs@));
    out
}

fn copy_text(s: &Option<String>) -> (r: Option<String>)
    ensures
        opt_text(r) == opt_text(*s),
{
    match s {
        Some(t) => Some(t.clone()),
        None => None,
    }
}

/// The questions `qs`, below `prefix`, flattened in order.
pub fn flatten_questions(qs: &Vec<Question>, prefix: &ResponsePath) -> (r: Vec<FlatQuestion>)
    ensures
        flats_match(r@, flat_list(qs@, prefix@)),
    decreases qs@, 1int,
{
    let mut out: Vec<FlatQuestion> = Vec::new();
    let mut i: usize = 0;
    proof {
        assert(qs@.take(0) =~= Seq::<Question>::empty());
    }
    while i < qs.len()
        invariant
            i <= qs@.len(),
            flats_match(out@, flat_list(qs@.take(i as int), prefix@)),
        decreases qs@.len() - i,
    {
        proof {
            assert(qs@.take(i + 1).drop_last() =~= qs@.take(i as int));
            assert(qs@.take(i + 1).last() == qs@[i as int]);
            assert(decreases_to!(qs@ => qs@[i as int]));
        }
        let ghost before = out@;
        let mut piece = flatten_one(&qs[i], prefix);
        let ghost p = piece@;
        out.append(&mut piece);
        proof {
            let a = flat_list(qs@.take(i as int), prefix@);
            let b = flat_one(qs@[i as int], prefix@);
            assert(out@ =~= before + p);
            assert forall|j: int| 0 <= j < out@.len() implies flat_matches(out@[j], (a + b)[j]) by {
                if j < before.len() {
                    assert(out@[j] == before[j]);
                } else {
                    assert(out@[j] == p[j - before.len()]);
                }
            }
        }
        i = i + 1;
    }
    proof {
        assert(qs@.take(qs@.len() as int) =~= qs@);
    }
    out
}

/// One question, below `prefix`, flattened.
pub fn flatten_one(q: &Question, prefix: &ResponsePath) -> (r: Vec<FlatQuestion>)
    ensures
        flats_match(r@, flat_one(*q, prefix@)),
    decreases *q, 1int,
{
    let path = prefix.child(q.path.as_str());
    let assumed = match &q.default {
        DefaultValue::Assumed(v) => Some(v.clone()),
        _ => None,
    };
    let mut out: Vec<FlatQuestion> = Vec::new();
    match &q.kind {
        QuestionKind::Unit => {},
        QuestionKind::Input(iq) => {
            let default_value = match &q.default {
                DefaultValue::Suggested(ResponseValue::String(s)) => Some(s.clone()),
                _ => copy_text(&iq.default),
            };
            out.push(
                FlatQuestion {
                    path,
                    prompt: q.ask.clone(),
                    kind: FlatQuestionKind::Input,
                    default_value,
                    float_default: None,
                    assumed,
                    has_validation: iq.validate.is_some(),
                },
            );
        },
        QuestionKind::Multiline(mq) => {
            let default_value = match &q.default {
                DefaultValue::Suggested(ResponseValue::String(s)) => Some(s.clone()),
                _ => copy_text(&mq.default),
            };
            out.push(
                FlatQuestion {
                    path,
                    prompt: q.ask.clone(),
                    kind: FlatQuestionKind::Multiline,
                    default_value,
                    float_default: None,
                    assumed,
                    has_validation: mq.validate.is_some(),
                },
            );
        },
        QuestionKind::Masked(mq) => {
            out.push(
                FlatQuestion {
                    path,
                    prompt: q.ask.clone(),
                    kind: FlatQuestionKind::Masked,
                    default_value: None,
                    float_default: None,
                    assumed,
                    has_validation: mq.validate.is_some(),
                },
            );
        },
        QuestionKind::Int(iq) => {
            let default_value = match &q.default {
                DefaultValue::Suggested(ResponseValue::Int(i)) => Some(i64_to_text(*i)),
                _ => match iq.default {
                    Some(d) => Some(i64_to_text(d)),
                    None => None,
                },
            };
            out.push(
                FlatQuestion {
                    path,
                    prompt: q.ask.clone(),
                    kind: FlatQuestionKind::Int { min: iq.min, max: iq.max },
                    default_value,
                    float_default: None,
                    assumed,
                    has_validation: iq.validate.is_some(),
                },
            );
        },
        QuestionKind::Float(fq) => {
            let float_default = match &q.default {
                DefaultValue::Suggested(ResponseValue::Float(b)) => Some(*b),
                _ => fq.default,
            };
            out.push(
                FlatQuestion {
                    path,
                    prompt: q.ask.clone(),
                    kind: FlatQuestionKind::Float { min: fq.min, max: fq.max },
                    default_value: None,
                    float_default,
                    assumed,
                    has_validation: fq.validate.is_some(),
                },
            );
        },
        QuestionKind::Confirm(cq) => {
            let d = match &q.default {
                DefaultValue::Suggested(ResponseValue::Bool(b)) => *b,
                _ => cq.default,
            };
            proof {
                reveal_strlit("yes");
                reveal_strlit("no");
            }
            let text = if d {
                "yes".to_owned()
            } else {
                "no".to_owned()
            };
            out.push(
                FlatQuestion {
                    path,
                    prompt: q.ask.clone(),
                    kind: FlatQuestionKind::Confirm { default: d },
                    default_value: Some(text),
                    float_default: None,
                    assumed,
                    has_validation: false,
                },
            );
        },
        QuestionKind::List(lq) => {
            out.push(
                FlatQuestion {
                    path,
                    prompt: q.ask.clone(),
                    kind: FlatQuestionKind::List { element_kind: lq.element_kind.copy() },
                    default_value: None,
                    float_default: None,
                    assumed,
                    has_validation: lq.validate.is_some(),
                },
            );
        },
        QuestionKind::OneOf(o) => {
            let default_idx = match o.default {
                Some(d) => d,
                None => 0,
            };
            out.push(
                FlatQuestion {
                    path: path.child(SELECTED_VARIANT_KEY),
                    prompt: q.ask.clone(),
                    kind: FlatQuestionKind::Select {
                        options: names_of(&o.variants),
                        default_idx,
                        variants: copy_variants(&o.variants),
                    },
                    default_value: None,
                    float_default: None,
                    assumed,
                    has_validation: false,
                },
            );
        },
        QuestionKind::AnyOf(a) => {
            out.push(
                FlatQuestion {
                    path: path.child(SELECTED_VARIANTS_KEY),
                    prompt: q.ask.clone(),
                    kind: FlatQuestionKind::MultiSelect {
                        options: names_of(&a.variants),
                        defaults: crate::value::copy_vec(&a.defaults),
                        variants: copy_variants(&a.variants),
                    },
                    default_value: None,
                    float_default: None,
                    assumed,
                    has_validation: false,
                },
            );
        },
        QuestionKind::AllOf(a) => {
            let mut nested = flatten_questions(&a.questions, &path);
            let ghost n0 = nested@;
            if q.ask.as_str().unicode_len() > 0 && nested.len() > 0
                && nested[0].prompt.as_str().unicode_len() == 0 {
                let mut first = nested.remove(0);
                first.prompt = q.ask.clone();
                nested.insert(0, first);
                proof {
                    let ss = flat_list(a.questions@, path@);
                    assert forall|j: int| 0 <= j < nested@.len() implies flat_matches(
                        nested@[j],
                        with_prompt(ss, q.ask@)[j],
                    ) by {
                        if j > 0 {
                            assert(nested@[j] == n0[j]);
                        }
                    }
                }
            }
            return nested;
        },
    }
    out
}


/// Questions matching two descriptions, one after the other, match the two
/// descriptions one after the other.
pub proof fn lemma_flats_match_concat(
    f1: Seq<FlatQuestion>,
    s1: Seq<FlatSpec>,
    f2: Seq<FlatQuestion>,
    s2: Seq<FlatSpec>,
)
    requires
        flats_match(f1, s1),
        flats_match(f2, s2),
    ensures
        flats_match(f1 + f2, s1 + s2),
{
    assert forall|i: int| 0 <= i < (f1 + f2).len() implies flat_matches((f1 + f2)[i], (s1 + s2)[i]) by {
        if i < f1.len() {
            assert(flat_matches(f1[i], s1[i]));
        } else {
            assert(flat_matches(f2[i - f1.len()], s2[i - f1.len()]));
        }
    }
}


/// An assumption skips its question: a single-value question with an
/// assumed answer written into it flattens to one question that carries
/// that answer as assumed, which the wizard stores without asking.
pub proof fn law_assumed_question_is_skipped(
    q0: Question,
    q1: Question,
    parent: Seq<char>,
    s: Map<Seq<char>, ValueView>,
    a: Map<Seq<char>, ValueView>,
)
    requires
        applied_question(q0, q1, parent, s, a),
        is_direct(q0.kind),
        a.contains_key(spec_child(parent, q0.path@)),
        !is_true_at(a, dotted(spec_child(parent, q0.path@), "is_none"@)),
    ensures
        flat_one(q1, parent).len() == 1,
        flat_one(q1, parent)[0].assumed == Some(a[spec_child(parent, q0.path@)]),
{
}

} // verus!
