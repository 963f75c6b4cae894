//! A backend that answers a survey from pre-set responses, for tests.
use vstd::prelude::*;
use crate::path::{spec_child, ResponsePath};
use crate::question::{
    DefaultValue, DefaultView,
    Question, QuestionKind, SurveyDefinition, Variant, SELECTED_VARIANTS_KEY, SELECTED_VARIANT_KEY,
};
use crate::responses::Responses;
use crate::text::{decimal, usize_to_text};
use crate::value::{ResponseValue, ValueView};

verus! {

/// The path of a question at `p` below `prefix`.
pub open spec fn full_path(prefix: Seq<char>, p: Seq<char>) -> Seq<char> {
    if prefix.len() == 0 {
        p
    } else {
        spec_child(prefix, p)
    }
}

/// `p`, a dot, then `key` (the lookup key of a selection below `p`).
pub open spec fn dotted(p: Seq<char>, key: Seq<char>) -> Seq<char> {
    p + seq!['.'] + key
}

/// The kinds whose single value is read directly from the pre-set responses.
pub open spec fn is_direct(k: QuestionKind) -> bool {
    k is Input || k is Multiline || k is Masked || k is Int || k is Float || k is Confirm
        || k is List
}

/// Answering the questions `qs` below `prefix` from the pre-set table `tm`,
/// starting from the responses `acc`: the responses collected, or the first
/// key for which a required answer is missing.
pub open spec fn walk_list(
    qs: Seq<Question>,
    prefix: Seq<char>,
    tm: Map<Seq<char>, ValueView>,
    acc: Map<Seq<char>, ValueView>,
) -> Result<Map<Seq<char>, ValueView>, Seq<char>>
    decreases qs, 0int,
{
    if qs.len() == 0 {
        Ok(acc)
    } else {
        match walk_list(qs.drop_last(), prefix, tm, acc) {
            Ok(m) => walk_one(qs.last(), prefix, tm, m),
            Err(e) => Err(e),
        }
    }
}

/// The choice recorded for a OneOf question whose lookup key is `vk`: the
/// pre-set chosen variant, else the assumed value of its default `d`.
pub open spec fn one_of_choice(tm: Map<Seq<char>, ValueView>, vk: Seq<char>, d: DefaultView) -> Option<ValueView> {
    if tm.contains_key(vk) && tm[vk] is ChosenVariant {
        Some(tm[vk])
    } else {
        match d {
            DefaultView::Assumed(v) => Some(v),
            _ => None,
        }
    }
}

/// The choices recorded for an AnyOf question whose lookup key is `vk`: the
/// pre-set chosen variants, else the assumed value of its default `d`.
pub open spec fn any_of_choice(tm: Map<Seq<char>, ValueView>, vk: Seq<char>, d: DefaultView) -> Option<ValueView> {
    if tm.contains_key(vk) && tm[vk] is ChosenVariants {
        Some(tm[vk])
    } else {
        match d {
            DefaultView::Assumed(v) => Some(v),
            _ => None,
        }
    }
}

/// Answering one question (see [`walk_list`]). A direct question takes its
/// pre-set answer, else its assumed value; a choice takes its pre-set
/// choice, else its assumed one, and then the chosen variants' questions.
pub open spec fn walk_one(
    q: Question,
    prefix: Seq<char>,
    tm: Map<Seq<char>, ValueView>,
    acc: Map<Seq<char>, ValueView>,
) -> Result<Map<Seq<char>, ValueView>, Seq<char>>
    decreases q, 0int,
{
    let fp = full_path(prefix, q.path@);
    match q.kind {
        QuestionKind::Unit => Ok(acc),
        QuestionKind::AllOf(a) => walk_list(a.questions@, fp, tm, acc),
        QuestionKind::OneOf(o) => {
            let vk = spec_child(fp, SELECTED_VARIANT_KEY@);
            match one_of_choice(tm, vk, q.default@) {
                None => Err(vk),
                Some(v) => match v {
                    ValueView::ChosenVariant(idx) => walk_choice(o.variants@, idx, fp, tm, acc.insert(vk, v)),
                    _ => Ok(acc.insert(vk, v)),
                },
            }
        },
        QuestionKind::AnyOf(a) => {
            let vk = spec_child(fp, SELECTED_VARIANTS_KEY@);
            match any_of_choice(tm, vk, q.default@) {
                None => Err(vk),
                Some(v) => match v {
                    ValueView::ChosenVariants(idxs) => walk_items(a.variants@, idxs, fp, tm, acc.insert(vk, v)),
                    _ => Ok(acc.insert(vk, v)),
                },
            }
        },
        _ => {
            if tm.contains_key(fp) {
                Ok(acc.insert(fp, tm[fp]))
            } else {
                match q.default@ {
                    DefaultView::Assumed(v) => Ok(acc.insert(fp, v)),
                    _ => Err(fp),
                }
            }
        },
    }
}

/// Answering the questions of variant `idx` of `vs`, chosen for a OneOf
/// question at `fp`.
pub open spec fn walk_choice(
    vs: Seq<Variant>,
    idx: usize,
    fp: Seq<char>,
    tm: Map<Seq<char>, ValueView>,
    acc: Map<Seq<char>, ValueView>,
) -> Result<Map<Seq<char>, ValueView>, Seq<char>>
    decreases vs, 0int,
{
    if idx < vs.len() && vs[idx as int].kind is AllOf {
        walk_list(vs[idx as int].kind->AllOf_0.questions@, fp, tm, acc)
    } else {
        Ok(acc)
    }
}

/// Answering the follow-up questions of the selected variants `idxs` of an
/// AnyOf question at `fp`: the `n`-th selection answers below `fp.n`.
pub open spec fn walk_items(
    vs: Seq<Variant>,
    idxs: Seq<usize>,
    fp: Seq<char>,
    tm: Map<Seq<char>, ValueView>,
    acc: Map<Seq<char>, ValueView>,
) -> Result<Map<Seq<char>, ValueView>, Seq<char>>
    decreases vs, idxs.len(),
{
    if idxs.len() == 0 {
        Ok(acc)
    } else {
        match walk_items(vs, idxs.drop_last(), fp, tm, acc) {
            Ok(m) => {
                let idx = idxs.last();
                if idx < vs.len() && vs[idx as int].kind is AllOf {
                    walk_list(
                        vs[idx as int].kind->AllOf_0.questions@,
                        spec_child(fp, decimal(idx as nat)),
                        tm,
                        m,
                    )
                } else {
                    Ok(m)
                }
            },
            Err(e) => Err(e),
        }
    }
}

/// Why the test backend could not answer a survey.
#[derive(Debug)]
pub enum TestBackendError {
    /// No pre-set response for a required question.
    MissingResponse(String),
    /// The validator refused a pre-set response.
    ValidationFailed { path: String, message: String },
}

/// Whether `validate` checks the answers of a question of kind `k`: the
/// direct kinds but confirmations.
pub open spec fn validated(k: QuestionKind) -> bool {
    is_direct(k) && !(k is Confirm)
}

/// `validate` accepted the answer `v` beside the answers `m`.
pub open spec fn accepts<F: Fn(&ResponseValue, &Responses) -> Result<(), String>>(
    validate: F,
    v: ValueView,
    m: Map<Seq<char>, ValueView>,
) -> bool {
    exists|val: ResponseValue, rs: Responses, verdict: Result<(), String>|
        #![trigger call_ensures(validate, (&val, &rs), verdict)]
        val@ == v && rs@ == m && call_ensures(validate, (&val, &rs), verdict) && verdict is Ok
}

/// `validate` refused the answer `v` beside the answers `m` with `message`.
pub open spec fn refuses<F: Fn(&ResponseValue, &Responses) -> Result<(), String>>(
    validate: F,
    v: ValueView,
    m: Map<Seq<char>, ValueView>,
    message: String,
) -> bool {
    exists|val: ResponseValue, rs: Responses|
        #![trigger call_ensures(validate, (&val, &rs), Err(message))]
        val@ == v && rs@ == m && call_ensures(validate, (&val, &rs), Err(message))
}

/// `validate` can be called on every value and every collection.
pub open spec fn callable<F: Fn(&ResponseValue, &Responses) -> Result<(), String>>(
    validate: F,
) -> bool {
    forall|v: &ResponseValue, rs: &Responses| call_requires(validate, (v, rs))
}

/// Along the walk of `qs` below `prefix` from `acc` (see [`walk_list`]),
/// `validate` accepted every checked answer beside the answers collected
/// before it.
pub open spec fn accepted_list<F: Fn(&ResponseValue, &Responses) -> Result<(), String>>(
    validate: F,
    qs: Seq<Question>,
    prefix: Seq<char>,
    tm: Map<Seq<char>, ValueView>,
    acc: Map<Seq<char>, ValueView>,
) -> bool
    decreases qs, 0int,
{
    if qs.len() == 0 {
        true
    } else {
        &&& accepted_list(validate, qs.drop_last(), prefix, tm, acc)
        &&& match walk_list(qs.drop_last(), prefix, tm, acc) {
            Ok(m) => accepted_one(validate, qs.last(), prefix, tm, m),
            Err(_) => true,
        }
    }
}

/// The same along the walk of one question (see [`walk_one`]).
pub open spec fn accepted_one<F: Fn(&ResponseValue, &Responses) -> Result<(), String>>(
    validate: F,
    q: Question,
    prefix: Seq<char>,
    tm: Map<Seq<char>, ValueView>,
    acc: Map<Seq<char>, ValueView>,
) -> bool
    decreases q, 0int,
{
    let fp = full_path(prefix, q.path@);
    match q.kind {
        QuestionKind::Unit => true,
        QuestionKind::AllOf(a) => accepted_list(validate, a.questions@, fp, tm, acc),
        QuestionKind::OneOf(o) => {
            let vk = spec_child(fp, SELECTED_VARIANT_KEY@);
            match one_of_choice(tm, vk, q.default@) {
                Some(ValueView::ChosenVariant(idx)) => accepted_choice(
                    validate,
                    o.variants@,
                    idx,
                    fp,
                    tm,
                    acc.insert(vk, ValueView::ChosenVariant(idx)),
                ),
                _ => true,
            }
        },
        QuestionKind::AnyOf(a) => {
            let vk = spec_child(fp, SELECTED_VARIANTS_KEY@);
            match any_of_choice(tm, vk, q.default@) {
                Some(ValueView::ChosenVariants(idxs)) => accepted_items(
                    validate,
                    a.variants@,
                    idxs,
                    fp,
                    tm,
                    acc.insert(vk, ValueView::ChosenVariants(idxs)),
                ),
                _ => true,
            }
        },
        _ => tm.contains_key(fp) && validated(q.kind) ==> accepts(validate, tm[fp], acc),
    }
}

/// The same along the walk of a chosen variant (see [`walk_choice`]).
pub open spec fn accepted_choice<F: Fn(&ResponseValue, &Responses) -> Result<(), String>>(
    validate: F,
    vs: Seq<Variant>,
    idx: usize,
    fp: Seq<char>,
    tm: Map<Seq<char>, ValueView>,
    acc: Map<Seq<char>, ValueView>,
) -> bool
    decreases vs, 0int,
{
    idx < vs.len() && vs[idx as int].kind is AllOf ==> accepted_list(
        validate,
        vs[idx as int].kind->AllOf_0.questions@,
        fp,
        tm,
        acc,
    )
}

/// The same along the walk of the selected variants (see [`walk_items`]).
pub open spec fn accepted_items<F: Fn(&ResponseValue, &Responses) -> Result<(), String>>(
    validate: F,
    vs: Seq<Variant>,
    idxs: Seq<usize>,
    fp: Seq<char>,
    tm: Map<Seq<char>, ValueView>,
    acc: Map<Seq<char>, ValueView>,
) -> bool
    decreases vs, idxs.len(),
{
    if idxs.len() == 0 {
        true
    } else {
        let idx = idxs.last();
        &&& accepted_items(validate, vs, idxs.drop_last(), fp, tm, acc)
        &&& match walk_items(vs, idxs.drop_last(), fp, tm, acc) {
            Ok(m) => idx < vs.len() && vs[idx as int].kind is AllOf ==> accepted_list(
                validate,
                vs[idx as int].kind->AllOf_0.questions@,
                spec_child(fp, decimal(idx as nat)),
                tm,
                m,
            ),
            Err(_) => true,
        }
    }
}

/// The walk of `qs` below `prefix` from `acc` stops at the checked answer at
/// `path`: every question before it was answered and accepted, and
/// `validate` refused that answer, beside the answers collected before it,
/// with `message`.
pub open spec fn fails_list<F: Fn(&ResponseValue, &Responses) -> Result<(), String>>(
    validate: F,
    qs: Seq<Question>,
    prefix: Seq<char>,
    tm: Map<Seq<char>, ValueView>,
    acc: Map<Seq<char>, ValueView>,
    path: Seq<char>,
    message: String,
) -> bool
    decreases qs, 0int,
{
    if qs.len() == 0 {
        false
    } else {
        ||| fails_list(validate, qs.drop_last(), prefix, tm, acc, path, message)
        ||| match walk_list(qs.drop_last(), prefix, tm, acc) {
            Ok(m) => accepted_list(validate, qs.drop_last(), prefix, tm, acc) && fails_one(
                validate,
                qs.last(),
                prefix,
                tm,
                m,
                path,
                message,
            ),
            Err(_) => false,
        }
    }
}

/// The same for one question (see [`walk_one`]).
pub open spec fn fails_one<F: Fn(&ResponseValue, &Responses) -> Result<(), String>>(
    validate: F,
    q: Question,
    prefix: Seq<char>,
    tm: Map<Seq<char>, ValueView>,
    acc: Map<Seq<char>, ValueView>,
    path: Seq<char>,
    message: String,
) -> bool
    decreases q, 0int,
{
    let fp = full_path(prefix, q.path@);
    match q.kind {
        QuestionKind::Unit => false,
        QuestionKind::AllOf(a) => fails_list(validate, a.questions@, fp, tm, acc, path, message),
        QuestionKind::OneOf(o) => {
            let vk = spec_child(fp, SELECTED_VARIANT_KEY@);
            match one_of_choice(tm, vk, q.default@) {
                Some(ValueView::ChosenVariant(idx)) => fails_choice(
                    validate,
                    o.variants@,
                    idx,
                    fp,
                    tm,
                    acc.insert(vk, ValueView::ChosenVariant(idx)),
                    path,
                    message,
                ),
                _ => false,
            }
        },
        QuestionKind::AnyOf(a) => {
            let vk = spec_child(fp, SELECTED_VARIANTS_KEY@);
            match any_of_choice(tm, vk, q.default@) {
                Some(ValueView::ChosenVariants(idxs)) => fails_items(
                    validate,
                    a.variants@,
                    idxs,
                    fp,
                    tm,
                    acc.insert(vk, ValueView::ChosenVariants(idxs)),
                    path,
                    message,
                ),
                _ => false,
            }
        },
        _ => {
            &&& validated(q.kind)
            &&& tm.contains_key(fp)
            &&& path == fp
            &&& refuses(validate, tm[fp], acc, message)
        },
    }
}

/// The same for a chosen variant (see [`walk_choice`]).
pub open spec fn fails_choice<F: Fn(&ResponseValue, &Responses) -> Result<(), String>>(
    validate: F,
    vs: Seq<Variant>,
    idx: usize,
    fp: Seq<char>,
    tm: Map<Seq<char>, ValueView>,
    acc: Map<Seq<char>, ValueView>,
    path: Seq<char>,
    message: String,
) -> bool
    decreases vs, 0int,
{
    &&& idx < vs.len()
    &&& vs[idx as int].kind is AllOf
    &&& fails_list(validate, vs[idx as int].kind->AllOf_0.questions@, fp, tm, acc, path, message)
}

/// The same for the selected variants (see [`walk_items`]).
pub open spec fn fails_items<F: Fn(&ResponseValue, &Responses) -> Result<(), String>>(
    validate: F,
    vs: Seq<Variant>,
    idxs: Seq<usize>,
    fp: Seq<char>,
    tm: Map<Seq<char>, ValueView>,
    acc: Map<Seq<char>, ValueView>,
    path: Seq<char>,
    message: String,
) -> bool
    decreases vs, idxs.len(),
{
    if idxs.len() == 0 {
        false
    } else {
        let idx = idxs.last();
        ||| fails_items(validate, vs, idxs.drop_last(), fp, tm, acc, path, message)
        ||| match walk_items(vs, idxs.drop_last(), fp, tm, acc) {
            Ok(m) => {
                &&& accepted_items(validate, vs, idxs.drop_last(), fp, tm, acc)
                &&& idx < vs.len()
                &&& vs[idx as int].kind is AllOf
                &&& fails_list(
                    validate,
                    vs[idx as int].kind->AllOf_0.questions@,
                    spec_child(fp, decimal(idx as nat)),
                    tm,
                    m,
                    path,
                    message,
                )
            },
            Err(_) => false,
        }
    }
}

/// The outcome `r` of a walk step against the spec `w`: a success is the
/// walk's result with every checked answer `accepted`; a missing answer is
/// the walk's error; a refusal is one that `fails` describes.
pub open spec fn step_matches(
    r: Result<(), TestBackendError>,
    w: Result<Map<Seq<char>, ValueView>, Seq<char>>,
    after: Map<Seq<char>, ValueView>,
    accepted: bool,
    fails: spec_fn(Seq<char>, String) -> bool,
) -> bool {
    match r {
        Ok(_) => w == Ok::<Map<Seq<char>, ValueView>, Seq<char>>(after) && accepted,
        Err(TestBackendError::MissingResponse(p)) => w == Err::<Map<Seq<char>, ValueView>, Seq<char>>(
            p@,
        ),
        Err(TestBackendError::ValidationFailed { path, message }) => fails(path@, message),
    }
}

/// A backend that returns pre-set responses instead of asking anyone.
#[derive(Debug)]
pub struct TestBackend {
    responses: Responses,
}

impl View for TestBackend {
    type V = Map<Seq<char>, ValueView>;

    closed spec fn view(&self) -> Map<Seq<char>, ValueView> {
        self.responses@
    }
}

impl TestBackend {
    /// A backend without pre-set responses.
    pub fn new() -> (r: Self)
        ensures
            r@ == Map::<Seq<char>, ValueView>::empty(),
    {
        TestBackend { responses: Responses::new() }
    }

    /// The same backend, answering `value` at `path`.
    pub fn with_response(self, path: &str, value: ResponseValue) -> (r: Self)
        ensures
            r@ == self@.insert(path@, value@),
    {
        let mut b = self;
        b.responses.insert(ResponsePath::new(path), value);
        b
    }

    /// The same backend, answering the text `value` at `path`.
    pub fn with_string(self, path: &str, value: &str) -> (r: Self)
        ensures
            r@ == self@.insert(path@, ValueView::String(value@)),
    {
        self.with_response(path, ResponseValue::from_str(value))
    }

    /// The same backend, answering the integer `value` at `path`.
    pub fn with_int(self, path: &str, value: i64) -> (r: Self)
        ensures
            r@ == self@.insert(path@, ValueView::Int(value)),
    {
        self.with_response(path, ResponseValue::Int(value))
    }

    /// The same backend, answering the floating-point number with bit
    /// pattern `bits` at `path`.
    pub fn with_float(self, path: &str, bits: u64) -> (r: Self)
        ensures
            r@ == self@.insert(path@, ValueView::Float(bits)),
    {
        self.with_response(path, ResponseValue::Float(bits))
    }

    /// The same backend, answering the boolean `value` at `path`.
    pub fn with_bool(self, path: &str, value: bool) -> (r: Self)
        ensures
            r@ == self@.insert(path@, ValueView::Bool(value)),
    {
        self.with_response(path, ResponseValue::Bool(value))
    }

    /// The same backend, choosing variant `index` at `path`.
    pub fn with_variant(self, path: &str, index: usize) -> (r: Self)
        ensures
            r@ == self@.insert(path@, ValueView::ChosenVariant(index)),
    {
        self.with_response(path, ResponseValue::ChosenVariant(index))
    }

    /// The same backend, choosing the variants `indices` at `path`.
    pub fn with_variants(self, path: &str, indices: Vec<usize>) -> (r: Self)
        ensures
            r@ == self@.insert(path@, ValueView::ChosenVariants(indices@)),
    {
        self.with_response(path, ResponseValue::ChosenVariants(indices))
    }

    /// Answer `definition` from the pre-set responses, validating text and
    /// number answers with `validate` before they are stored.
    pub fn collect<F: Fn(&ResponseValue, &Responses) -> Result<(), String>>(
        &self,
        definition: &SurveyDefinition,
        validate: &F,
    ) -> (r: Result<Responses, TestBackendError>)
        requires
            callable(*validate),
        ensures
            match r {
                Ok(rs) => {
                    &&& walk_list(
                        definition.questions@,
                        Seq::<char>::empty(),
                        self@,
                        Map::<Seq<char>, ValueView>::empty(),
                    ) == Ok::<Map<Seq<char>, ValueView>, Seq<char>>(rs@)
                    &&& accepted_list(
                        *validate,
                        definition.questions@,
                        Seq::<char>::empty(),
                        self@,
                        Map::<Seq<char>, ValueView>::empty(),
                    )
                },
                Err(TestBackendError::MissingResponse(p)) => walk_list(
                    definition.questions@,
                    Seq::<char>::empty(),
                    self@,
                    Map::<Seq<char>, ValueView>::empty(),
                ) == Err::<Map<Seq<char>, ValueView>, Seq<char>>(p@),
                Err(TestBackendError::ValidationFailed { path, message }) => fails_list(
                    *validate,
                    definition.questions@,
                    Seq::<char>::empty(),
                    self@,
                    Map::<Seq<char>, ValueView>::empty(),
                    path@,
                    message,
                ),
            },
    {
        let mut responses = Responses::new();
        let root = ResponsePath::empty();
        match collect_list(&definition.questions, &root, &self.responses, &mut responses, validate) {
            Ok(_) => Ok(responses),
            Err(e) => Err(e),
        }
    }
}

/// Store the pre-set value for a direct question at `fp`, validating it first
/// unless it is a confirmation; without one, store the question's assumed value.
fn collect_direct<F: Fn(&ResponseValue, &Responses) -> Result<(), String>>(
    q: &Question,
    fp: ResponsePath,
    tm: &Responses,
    responses: &mut Responses,
    validate: &F,
) -> (r: Result<(), TestBackendError>)
    requires
        callable(*validate),
        is_direct(q.kind),
    ensures
        step_matches(
            r,
            if tm@.contains_key(fp@) {
                Ok(old(responses)@.insert(fp@, tm@[fp@]))
            } else {
                match q.default@ {
                    DefaultView::Assumed(v) => Ok(old(responses)@.insert(fp@, v)),
                    _ => Err(fp@),
                }
            },
            final(responses)@,
            tm@.contains_key(fp@) && validated(q.kind) ==> accepts(
                *validate,
                tm@[fp@],
                old(responses)@,
            ),
            (|p: Seq<char>, m: String|
                validated(q.kind) && tm@.contains_key(fp@) && p == fp@ && refuses(
                    *validate,
                    tm@[fp@],
                    old(responses)@,
                    m,
                )),
        ),
{
    match tm.get(&fp) {
        Some(value) => {
            let ghost before = *responses;
            let checked = match &q.kind {
                QuestionKind::Confirm(_) => Ok(()),
                _ => {
                    let verdict = validate(value, responses);
                    proof {
                        assert(call_ensures(*validate, (value, &before), verdict));
                    }
                    verdict
                },
            };
            match checked {
                Ok(_) => {
                    proof {
                        if validated(q.kind) {
                            assert(accepts(*validate, tm@[fp@], before@));
                        }
                    }
                    responses.insert(fp, value.clone());
                    Ok(())
                },
                Err(message) => {
                    proof {
                        assert(refuses(*validate, tm@[fp@], before@, message));
                    }
                    Err(TestBackendError::ValidationFailed { path: fp.to_string(), message })
                },
            }
        },
        None => match &q.default {
            DefaultValue::Assumed(v) => {
                responses.insert(fp, v.clone());
                Ok(())
            },
            _ => Err(TestBackendError::MissingResponse(fp.to_string())),
        },
    }
}

fn collect_list<F: Fn(&ResponseValue, &Responses) -> Result<(), String>>(
    questions: &Vec<Question>,
    prefix: &ResponsePath,
    tm: &Responses,
    responses: &mut Responses,
    validate: &F,
) -> (r: Result<(), TestBackendError>)
    requires
        callable(*validate),
    ensures
        step_matches(
            r,
            walk_list(questions@, prefix@, tm@, old(responses)@),
            final(responses)@,
            accepted_list(*validate, questions@, prefix@, tm@, old(responses)@),
            (|p: Seq<char>, m: String|
                fails_list(*validate, questions@, prefix@, tm@, old(responses)@, p, m)),
        ),
    decreases questions@, 1int,
{
    let ghost start = responses@;
    let mut i: usize = 0;
    proof {
        assert(questions@.take(0) =~= Seq::<Question>::empty());
    }
    while i < questions.len()
        invariant
            i <= questions@.len(),
            callable(*validate),
            start == old(responses)@,
            walk_list(questions@.take(i as int), prefix@, tm@, start) == Ok::<
                Map<Seq<char>, ValueView>,
                Seq<char>,
            >(responses@),
            accepted_list(*validate, questions@.take(i as int), prefix@, tm@, start),
        decreases questions@.len() - i,
    {
        let ghost before = responses@;
        proof {
            assert(questions@.take(i + 1).drop_last() =~= questions@.take(i as int));
            assert(questions@.take(i + 1).last() == questions@[i as int]);
        }
        let r = collect_one(&questions[i], prefix, tm, responses, validate);
        match r {
            Ok(_) => {},
            Err(e) => {
                proof {
                    if let TestBackendError::MissingResponse(p) = &e {
                        assert(walk_one(questions@[i as int], prefix@, tm@, before) == Err::<
                            Map<Seq<char>, ValueView>,
                            Seq<char>,
                        >(p@));
                        assert(walk_list(questions@.take(i + 1), prefix@, tm@, start) == Err::<
                            Map<Seq<char>, ValueView>,
                            Seq<char>,
                        >(p@));
                        lemma_walk_list_stops(questions@, i as int, prefix@, tm@, start);
                    }
                    if let TestBackendError::ValidationFailed { path, message } = &e {
                        assert(fails_one(*validate, questions@[i as int], prefix@, tm@, before, path@, *message));
                        assert(fails_list(*validate, questions@.take(i + 1), prefix@, tm@, start, path@, *message));
                        lemma_fails_list_grows(*validate, questions@, i as int, prefix@, tm@, start, path@, *message);
                    }
                }
                return Err(e);
            },
        }
        i = i + 1;
    }
    proof {
        assert(questions@.take(questions@.len() as int) =~= questions@);
    }
    Ok(())
}

proof fn lemma_walk_list_stops(
    qs: Seq<Question>,
    i: int,
    prefix: Seq<char>,
    tm: Map<Seq<char>, ValueView>,
    start: Map<Seq<char>, ValueView>,
)
    requires
        0 <= i < qs.len(),
        walk_list(qs.take(i + 1), prefix, tm, start) is Err,
    ensures
        walk_list(qs, prefix, tm, start) == walk_list(qs.take(i + 1), prefix, tm, start),
    decreases qs.len() - i,
{
    if i + 1 < qs.len() {
        assert(qs.take(i + 2).drop_last() =~= qs.take(i + 1));
        lemma_walk_list_stops(qs, i + 1, prefix, tm, start);
    } else {
        assert(qs.take(i + 1) =~= qs);
    }
}

proof fn lemma_fails_list_grows<F: Fn(&ResponseValue, &Responses) -> Result<(), String>>(
    validate: F,
    qs: Seq<Question>,
    i: int,
    prefix: Seq<char>,
    tm: Map<Seq<char>, ValueView>,
    start: Map<Seq<char>, ValueView>,
    path: Seq<char>,
    message: String,
)
    requires
        0 <= i < qs.len(),
        fails_list(validate, qs.take(i + 1), prefix, tm, start, path, message),
    ensures
        fails_list(validate, qs, prefix, tm, start, path, message),
    decreases qs.len() - i,
{
    if i + 1 < qs.len() {
        assert(qs.take(i + 2).drop_last() =~= qs.take(i + 1));
        assert(fails_list(validate, qs.take(i + 2), prefix, tm, start, path, message));
        lemma_fails_list_grows(validate, qs, i + 1, prefix, tm, start, path, message);
    } else {
        assert(qs.take(i + 1) =~= qs);
    }
}

fn collect_one<F: Fn(&ResponseValue, &Responses) -> Result<(), String>>(
    q: &Question,
    prefix: &ResponsePath,
    tm: &Responses,
    responses: &mut Responses,
    validate: &F,
) -> (r: Result<(), TestBackendError>)
    requires
        callable(*validate),
    ensures
        step_matches(
            r,
            walk_one(*q, prefix@, tm@, old(responses)@),
            final(responses)@,
            accepted_one(*validate, *q, prefix@, tm@, old(responses)@),
            (|p: Seq<char>, m: String| fails_one(*validate, *q, prefix@, tm@, old(responses)@, p, m)),
        ),
    decreases *q, 1int,
{
    let fp = if prefix.is_empty() {
        q.path().clone()
    } else {
        prefix.child(q.path().as_str())
    };
    match &q.kind {
        QuestionKind::Unit => Ok(()),
        QuestionKind::AllOf(all_of) => collect_list(&all_of.questions, &fp, tm, responses, validate),
        QuestionKind::OneOf(one_of) => {
            let key = fp.child(SELECTED_VARIANT_KEY);
            let given = match tm.get(&key) {
                Some(ResponseValue::ChosenVariant(idx)) => Some(ResponseValue::ChosenVariant(*idx)),
                _ => match &q.default {
                    DefaultValue::Assumed(v) => Some(v.clone()),
                    _ => None,
                },
            };
            match given {
                None => Err(TestBackendError::MissingResponse(key.to_string())),
                Some(v) => {
                    let chosen = match &v {
                        ResponseValue::ChosenVariant(idx) => Some(*idx),
                        _ => None,
                    };
                    responses.insert(key, v);
                    match chosen {
                        Some(idx) => {
                            if idx < one_of.variants.len() {
                                match &one_of.variants[idx].kind {
                                    QuestionKind::AllOf(all_of) => {
                                        collect_list(&all_of.questions, &fp, tm, responses, validate)
                                    },
                                    _ => Ok(()),
                                }
                            } else {
                                Ok(())
                            }
                        },
                        None => Ok(()),
                    }
                },
            }
        },
        QuestionKind::AnyOf(any_of) => {
            let key = fp.child(SELECTED_VARIANTS_KEY);
            let given = match tm.get(&key) {
                Some(ResponseValue::ChosenVariants(indices)) => Some(
                    ResponseValue::ChosenVariants(crate::value::copy_vec(indices)),
                ),
                _ => match &q.default {
                    DefaultValue::Assumed(v) => Some(v.clone()),
                    _ => None,
                },
            };
            match given {
                None => Err(TestBackendError::MissingResponse(key.to_string())),
                Some(v) => {
                    let chosen = match &v {
                        ResponseValue::ChosenVariants(indices) => Some(crate::value::copy_vec(indices)),
                        _ => None,
                    };
                    responses.insert(key, v);
                    match chosen {
                        Some(idxs) => collect_items(&any_of.variants, &idxs, &fp, tm, responses, validate),
                        None => Ok(()),
                    }
                },
            }
        },
        _ => collect_direct(q, fp, tm, responses, validate),
    }
}

fn collect_items<F: Fn(&ResponseValue, &Responses) -> Result<(), String>>(
    variants: &Vec<Variant>,
    idxs: &Vec<usize>,
    fp: &ResponsePath,
    tm: &Responses,
    responses: &mut Responses,
    validate: &F,
) -> (r: Result<(), TestBackendError>)
    requires
        callable(*validate),
    ensures
        step_matches(
            r,
            walk_items(variants@, idxs@, fp@, tm@, old(responses)@),
            final(responses)@,
            accepted_items(*validate, variants@, idxs@, fp@, tm@, old(responses)@),
            (|p: Seq<char>, m: String|
                fails_items(*validate, variants@, idxs@, fp@, tm@, old(responses)@, p, m)),
        ),
    decreases variants@, idxs@.len() + 1,
{
    let ghost start = responses@;
    let mut i: usize = 0;
    proof {
        assert(idxs@.take(0) =~= Seq::<usize>::empty());
    }
    while i < idxs.len()
        invariant
            i <= idxs@.len(),
            callable(*validate),
            start == old(responses)@,
            walk_items(variants@, idxs@.take(i as int), fp@, tm@, start) == Ok::<
                Map<Seq<char>, ValueView>,
                Seq<char>,
            >(responses@),
            accepted_items(*validate, variants@, idxs@.take(i as int), fp@, tm@, start),
        decreases idxs@.len() - i,
    {
        let ghost before = responses@;
        proof {
            assert(idxs@.take(i + 1).drop_last() =~= idxs@.take(i as int));
            assert(idxs@.take(i + 1).last() == idxs@[i as int]);
        }
        let idx = idxs[i];
        if idx < variants.len() {
            match &variants[idx].kind {
                QuestionKind::AllOf(all_of) => {
                    let item = fp.child(usize_to_text(idx).as_str());
                    let r = collect_list(&all_of.questions, &item, tm, responses, validate);
                    match r {
                        Ok(_) => {},
                        Err(e) => {
                            proof {
                                if e is MissingResponse {
                                    lemma_walk_items_stops(
                                        variants@,
                                        idxs@,
                                        i as int,
                                        fp@,
                                        tm@,
                                        start,
                                    );
                                }
                                if let TestBackendError::ValidationFailed { path, message } = &e {
                                    assert(fails_items(
                                        *validate,
                                        variants@,
                                        idxs@.take(i + 1),
                                        fp@,
                                        tm@,
                                        start,
                                        path@,
                                        *message,
                                    ));
                                    lemma_fails_items_grows(
                                        *validate,
                                        variants@,
                                        idxs@,
                                        i as int,
                                        fp@,
                                        tm@,
                                        start,
                                        path@,
                                        *message,
                                    );
                                }
                            }
                            return Err(e);
                        },
                    }
                },
                _ => {},
            }
        }
        i = i + 1;
    }
    proof {
        assert(idxs@.take(idxs@.len() as int) =~= idxs@);
    }
    Ok(())
}

proof fn lemma_walk_items_stops(
    vs: Seq<Variant>,
    idxs: Seq<usize>,
    i: int,
    fp: Seq<char>,
    tm: Map<Seq<char>, ValueView>,
    start: Map<Seq<char>, ValueView>,
)
    requires
        0 <= i < idxs.len(),
        walk_items(vs, idxs.take(i + 1), fp, tm, start) is Err,
    ensures
        walk_items(vs, idxs, fp, tm, start) == walk_items(vs, idxs.take(i + 1), fp, tm, start),
    decreases idxs.len() - i,
{
    if i + 1 < idxs.len() {
        assert(idxs.take(i + 2).drop_last() =~= idxs.take(i + 1));
        lemma_walk_items_stops(vs, idxs, i + 1, fp, tm, start);
    } else {
        assert(idxs.take(i + 1) =~= idxs);
    }
}

proof fn lemma_fails_items_grows<F: Fn(&ResponseValue, &Responses) -> Result<(), String>>(
    validate: F,
    vs: Seq<Variant>,
    idxs: Seq<usize>,
    i: int,
    fp: Seq<char>,
    tm: Map<Seq<char>, ValueView>,
    start: Map<Seq<char>, ValueView>,
    path: Seq<char>,
    message: String,
)
    requires
        0 <= i < idxs.len(),
        fails_items(validate, vs, idxs.take(i + 1), fp, tm, start, path, message),
    ensures
        fails_items(validate, vs, idxs, fp, tm, start, path, message),
    decreases idxs.len() - i,
{
    if i + 1 < idxs.len() {
        assert(idxs.take(i + 2).drop_last() =~= idxs.take(i + 1));
        assert(fails_items(validate, vs, idxs.take(i + 2), fp, tm, start, path, message));
        lemma_fails_items_grows(validate, vs, idxs, i + 1, fp, tm, start, path, message);
    } else {
        assert(idxs.take(i + 1) =~= idxs);
    }
}

} // verus!

verus! {

/// Every question that takes a single typed answer but a confirmation (text,
/// multi-line, masked, integer, floating-point, list) has its pre-set answer
/// checked: along a walk that the validator accepted, the validator accepted
/// the answer of the `i`-th top-level question beside the answers collected
/// before it.
pub proof fn law_typed_answers_are_validated<F: Fn(&ResponseValue, &Responses) -> Result<(), String>>(
    validate: F,
    qs: Seq<Question>,
    tm: Map<Seq<char>, ValueView>,
    i: int,
    before: Map<Seq<char>, ValueView>,
)
    requires
        0 <= i < qs.len(),
        qs[i].kind is Input || qs[i].kind is Multiline || qs[i].kind is Masked || qs[i].kind is Int
            || qs[i].kind is Float || qs[i].kind is List,
        tm.contains_key(qs[i].path@),
        walk_list(qs.take(i), Seq::<char>::empty(), tm, Map::<Seq<char>, ValueView>::empty())
            == Ok::<Map<Seq<char>, ValueView>, Seq<char>>(before),
        accepted_list(validate, qs, Seq::<char>::empty(), tm, Map::<Seq<char>, ValueView>::empty()),
    ensures
        accepts(validate, tm[qs[i].path@], before),
    decreases qs.len(),
{
    let e = Seq::<char>::empty();
    let empty = Map::<Seq<char>, ValueView>::empty();
    assert(full_path(e, qs[i].path@) == qs[i].path@);
    assert(is_direct(qs[i].kind) && !(qs[i].kind is Confirm));
    assert(validated(qs[i].kind));
    if i == qs.len() - 1 {
        assert(qs.drop_last() =~= qs.take(i));
        assert(qs.last() == qs[i]);
        assert(walk_list(qs.drop_last(), e, tm, empty) == Ok::<Map<Seq<char>, ValueView>, Seq<char>>(before));
        assert(accepted_one(validate, qs[i], e, tm, before));
    } else {
        let ds = qs.drop_last();
        assert(ds.take(i) =~= qs.take(i));
        assert(ds[i] == qs[i]);
        law_typed_answers_are_validated(validate, ds, tm, i, before);
    }
}

/// A refusal names the refused question: when the survey's only question
/// takes a typed answer (not a confirmation) and the collection fails
/// validation at `path` with `message`, then `path` is the question's path
/// and the validator refused its pre-set answer with `message`.
pub proof fn law_refusal_names_the_question<F: Fn(&ResponseValue, &Responses) -> Result<(), String>>(
    validate: F,
    q: Question,
    tm: Map<Seq<char>, ValueView>,
    path: Seq<char>,
    message: String,
)
    requires
        q.kind is Input || q.kind is Multiline || q.kind is Masked || q.kind is Int || q.kind is Float
            || q.kind is List,
        fails_list(
            validate,
            seq![q],
            Seq::<char>::empty(),
            tm,
            Map::<Seq<char>, ValueView>::empty(),
            path,
            message,
        ),
    ensures
        path == q.path@,
        tm.contains_key(q.path@),
        refuses(validate, tm[q.path@], Map::<Seq<char>, ValueView>::empty(), message),
{
    let e = Seq::<char>::empty();
    let empty = Map::<Seq<char>, ValueView>::empty();
    let qs = seq![q];
    assert(qs.drop_last() =~= Seq::<Question>::empty());
    assert(qs.last() == q);
    assert(full_path(e, q.path@) == q.path@);
    assert(!fails_list(validate, qs.drop_last(), e, tm, empty, path, message));
    assert(walk_list(qs.drop_last(), e, tm, empty) == Ok::<Map<Seq<char>, ValueView>, Seq<char>>(empty));
    assert(fails_one(validate, q, e, tm, empty, path, message));
}

/// A confirmation is never refused: its pre-set answer is not validated.
pub proof fn law_confirmation_not_refused<F: Fn(&ResponseValue, &Responses) -> Result<(), String>>(
    validate: F,
    q: Question,
    tm: Map<Seq<char>, ValueView>,
    path: Seq<char>,
    message: String,
)
    requires
        q.kind is Confirm,
    ensures
        !fails_list(
            validate,
            seq![q],
            Seq::<char>::empty(),
            tm,
            Map::<Seq<char>, ValueView>::empty(),
            path,
            message,
        ),
{
    let e = Seq::<char>::empty();
    let empty = Map::<Seq<char>, ValueView>::empty();
    let qs = seq![q];
    assert(qs.drop_last() =~= Seq::<Question>::empty());
    assert(qs.last() == q);
    assert(!fails_list(validate, qs.drop_last(), e, tm, empty, path, message));
    assert(!fails_one(validate, q, e, tm, empty, path, message));
}

} // verus!
