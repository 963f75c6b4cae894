//! Suggestions and assumptions for a survey, and how they are written into
//! its questions before the survey runs.
use vstd::prelude::*;
use crate::path::{spec_child, ResponsePath};
use crate::question::{
    AllOfQuestion, AnyOfQuestion, DefaultView, DefaultValue, OneOfQuestion, Question,
    QuestionKind, SurveyDefinition, Variant,
};
use crate::responses::Responses;
use crate::test_backend::dotted;
use crate::text::join3;
use crate::value::{copy_vec, ResponseValue, ValueView};

verus! {

/// The key segment that marks an optional field as `None`.
pub const IS_NONE_KEY: &'static str = "is_none";

/// The segment under which the value of a newtype variant is found.
pub const NEWTYPE_FIELD: &'static str = "0";

/// `m` holds `true` at `k`.
pub open spec fn is_true_at(m: Map<Seq<char>, ValueView>, k: Seq<char>) -> bool {
    m.contains_key(k) && m[k] == ValueView::Bool(true)
}

/// The default variant of a OneOf question at `p` after the defaults are
/// applied: an assumed choice, else a suggested one, else the old default.
pub open spec fn chosen_default(
    old_default: Option<usize>,
    p: Seq<char>,
    s: Map<Seq<char>, ValueView>,
    a: Map<Seq<char>, ValueView>,
) -> Option<usize> {
    let k = dotted(p, "selected_variant"@);
    if a.contains_key(k) && a[k] is ChosenVariant {
        Some(a[k]->ChosenVariant_0)
    } else if s.contains_key(k) && s[k] is ChosenVariant {
        Some(s[k]->ChosenVariant_0)
    } else {
        old_default
    }
}

/// The default selections of an AnyOf question at `p` after the defaults are
/// applied: assumed choices, else suggested ones, else the old defaults.
pub open spec fn chosen_defaults(
    old_defaults: Seq<usize>,
    p: Seq<char>,
    s: Map<Seq<char>, ValueView>,
    a: Map<Seq<char>, ValueView>,
) -> Seq<usize> {
    let k = dotted(p, "selected_variants"@);
    if a.contains_key(k) && a[k] is ChosenVariants {
        a[k]->ChosenVariants_0
    } else if s.contains_key(k) && s[k] is ChosenVariants {
        s[k]->ChosenVariants_0
    } else {
        old_defaults
    }
}

/// The assumed choice for a question of kind `k` at `p`: an assumed chosen
/// variant (at `p.selected_variant`) for a OneOf question, assumed chosen
/// variants (at `p.selected_variants`) for an AnyOf question.
pub open spec fn assumed_choice(k: QuestionKind, p: Seq<char>, a: Map<Seq<char>, ValueView>) -> Option<ValueView> {
    match k {
        QuestionKind::OneOf(_) => {
            let key = dotted(p, "selected_variant"@);
            if a.contains_key(key) && a[key] is ChosenVariant {
                Some(a[key])
            } else {
                None
            }
        },
        QuestionKind::AnyOf(_) => {
            let key = dotted(p, "selected_variants"@);
            if a.contains_key(key) && a[key] is ChosenVariants {
                Some(a[key])
            } else {
                None
            }
        },
        _ => None,
    }
}

/// `q1` is the question `q0`, below the path `parent`, after the suggestions
/// `s` and assumptions `a` are applied.
///
/// At the question's path `p`: an assumed `p.is_none` assumes `false` and
/// stops; an assumed value is taken as it is and stops; otherwise an assumed
/// choice of a OneOf or AnyOf question is assumed, else a suggested
/// value (or, failing that, a suggested `p.is_none`, as `false`) becomes the
/// suggestion, and the nested questions are treated in turn.
pub open spec fn applied_question(
    q0: Question,
    q1: Question,
    parent: Seq<char>,
    s: Map<Seq<char>, ValueView>,
    a: Map<Seq<char>, ValueView>,
) -> bool
    decreases q0, 0int,
{
    let p = spec_child(parent, q0.path@);
    let none_key = dotted(p, "is_none"@);
    &&& q1.path == q0.path
    &&& q1.ask == q0.ask
    &&& if is_true_at(a, none_key) {
        q1.default@ == DefaultView::Assumed(ValueView::Bool(false)) && q1.kind == q0.kind
    } else if a.contains_key(p) {
        q1.default@ == DefaultView::Assumed(a[p]) && q1.kind == q0.kind
    } else {
        &&& q1.default@ == (if assumed_choice(q0.kind, p, a) is Some {
            DefaultView::Assumed(assumed_choice(q0.kind, p, a)->0)
        } else if s.contains_key(p) {
            DefaultView::Suggested(s[p])
        } else if is_true_at(s, none_key) {
            DefaultView::Suggested(ValueView::Bool(false))
        } else {
            q0.default@
        })
        &&& applied_kind(q0.kind, q1.kind, p, s, a)
    }
}

/// `k1` is the kind `k0` of the question at `p` after the defaults are applied.
pub open spec fn applied_kind(
    k0: QuestionKind,
    k1: QuestionKind,
    p: Seq<char>,
    s: Map<Seq<char>, ValueView>,
    a: Map<Seq<char>, ValueView>,
) -> bool
    decreases k0, 0int,
{
    match k0 {
        QuestionKind::AllOf(x0) => k1 is AllOf && applied_list(
            x0.questions@,
            k1->AllOf_0.questions@,
            p,
            s,
            a,
        ),
        QuestionKind::OneOf(o0) => {
            &&& k1 is OneOf
            &&& k1->OneOf_0.default == chosen_default(o0.default, p, s, a)
            &&& applied_variants(o0.variants@, k1->OneOf_0.variants@, p, s, a)
        },
        QuestionKind::AnyOf(y0) => {
            &&& k1 is AnyOf
            &&& k1->AnyOf_0.defaults@ == chosen_defaults(y0.defaults@, p, s, a)
            &&& applied_any_variants(y0.variants@, k1->AnyOf_0.variants@, p, s, a)
        },
        _ => k1 == k0,
    }
}

/// Each question of `qs1` is its counterpart in `qs0` after the defaults are
/// applied below `p`.
pub open spec fn applied_list(
    qs0: Seq<Question>,
    qs1: Seq<Question>,
    p: Seq<char>,
    s: Map<Seq<char>, ValueView>,
    a: Map<Seq<char>, ValueView>,
) -> bool
    decreases qs0, 0int,
{
    &&& qs1.len() == qs0.len()
    &&& forall|i: int| 0 <= i < qs0.len() ==> applied_question(qs0[i], qs1[i], p, s, a)
}

/// The variants of a OneOf question at `p` after the defaults are applied:
/// the questions of a struct variant are treated below `p`; the single value
/// of a newtype variant is treated at `p.0`, unless that value is assumed.
pub open spec fn applied_variants(
    vs0: Seq<Variant>,
    vs1: Seq<Variant>,
    p: Seq<char>,
    s: Map<Seq<char>, ValueView>,
    a: Map<Seq<char>, ValueView>,
) -> bool
    decreases vs0, 0int,
{
    &&& vs1.len() == vs0.len()
    &&& forall|i: int|
        0 <= i < vs0.len() ==> {
            &&& vs1[i].name == vs0[i].name
            &&& match vs0[i].kind {
                QuestionKind::AllOf(x0) => vs1[i].kind is AllOf && applied_list(
                    x0.questions@,
                    vs1[i].kind->AllOf_0.questions@,
                    p,
                    s,
                    a,
                ),
                QuestionKind::Unit => vs1[i].kind is Unit,
                _ => {
                    let p0 = spec_child(p, "0"@);
                    if is_true_at(a, dotted(p0, "is_none"@)) || a.contains_key(p0) {
                        vs1[i].kind == vs0[i].kind
                    } else {
                        applied_kind(vs0[i].kind, vs1[i].kind, p0, s, a)
                    }
                },
            }
        }
}

/// The variants of an AnyOf question at `p` after the defaults are applied:
/// only the questions of struct variants change, treated below `p`.
pub open spec fn applied_any_variants(
    vs0: Seq<Variant>,
    vs1: Seq<Variant>,
    p: Seq<char>,
    s: Map<Seq<char>, ValueView>,
    a: Map<Seq<char>, ValueView>,
) -> bool
    decreases vs0, 0int,
{
    &&& vs1.len() == vs0.len()
    &&& forall|i: int|
        0 <= i < vs0.len() ==> {
            &&& vs1[i].name == vs0[i].name
            &&& match vs0[i].kind {
                QuestionKind::AllOf(x0) => vs1[i].kind is AllOf && applied_list(
                    x0.questions@,
                    vs1[i].kind->AllOf_0.questions@,
                    p,
                    s,
                    a,
                ),
                _ => vs1[i].kind == vs0[i].kind,
            }
        }
}

/// Suggested and assumed answers for a survey, keyed by response path.
///
/// Suggestions are shown pre-filled; assumptions skip their questions.
#[derive(Debug)]
pub struct SurveyBuilder {
    suggestions: Responses,
    assumptions: Responses,
}

impl SurveyBuilder {
    /// The suggested answers.
    pub closed spec fn spec_suggestions(&self) -> Map<Seq<char>, ValueView> {
        self.suggestions@
    }

    /// The assumed answers.
    pub closed spec fn spec_assumptions(&self) -> Map<Seq<char>, ValueView> {
        self.assumptions@
    }

    /// A builder without suggestions or assumptions.
    pub fn new() -> (r: Self)
        ensures
            r.spec_suggestions() == Map::<Seq<char>, ValueView>::empty(),
            r.spec_assumptions() == Map::<Seq<char>, ValueView>::empty(),
    {
        SurveyBuilder { suggestions: Responses::new(), assumptions: Responses::new() }
    }

    /// The same builder, suggesting `value` at `path`.
    pub fn suggest_value(self, path: &str, value: ResponseValue) -> (r: Self)
        ensures
            r.spec_suggestions() == self.spec_suggestions().insert(path@, value@),
            r.spec_assumptions() == self.spec_assumptions(),
    {
        let mut b = self;
        b.suggestions.insert(ResponsePath::new(path), value);
        b
    }

    /// The same builder, assuming `value` at `path`.
    pub fn assume_value(self, path: &str, value: ResponseValue) -> (r: Self)
        ensures
            r.spec_suggestions() == self.spec_suggestions(),
            r.spec_assumptions() == self.spec_assumptions().insert(path@, value@),
    {
        let mut b = self;
        b.assumptions.insert(ResponsePath::new(path), value);
        b
    }

    /// The same builder, suggesting everything the scope holds.
    pub fn suggest_scope(self, scope: DefaultsScope) -> (r: Self)
        ensures
            r.spec_suggestions() == self.spec_suggestions().union_prefer_right(scope.spec_values()),
            r.spec_assumptions() == self.spec_assumptions(),
    {
        let mut b = self;
        b.suggestions.extend(scope.into_values());
        b
    }

    /// The same builder, assuming everything the scope holds.
    pub fn assume_scope(self, scope: DefaultsScope) -> (r: Self)
        ensures
            r.spec_suggestions() == self.spec_suggestions(),
            r.spec_assumptions() == self.spec_assumptions().union_prefer_right(scope.spec_values()),
    {
        let mut b = self;
        b.assumptions.extend(scope.into_values());
        b
    }

    /// The suggested answers.
    pub fn suggestions(&self) -> (r: &Responses)
        ensures
            r@ == self.spec_suggestions(),
    {
        &self.suggestions
    }

    /// The assumed answers.
    pub fn assumptions(&self) -> (r: &Responses)
        ensures
            r@ == self.spec_assumptions(),
    {
        &self.assumptions
    }

    /// Whether `m` holds `true` at `key`.
    fn holds_true(m: &Responses, key: &ResponsePath) -> (r: bool)
        ensures
            r == is_true_at(m@, key@),
    {
        match m.get(key) {
            Some(ResponseValue::Bool(b)) => *b,
            _ => false,
        }
    }

    /// The survey `definition` with the suggestions and assumptions written
    /// into its questions.
    pub fn apply_to_definition(&self, definition: SurveyDefinition) -> (r: SurveyDefinition)
        ensures
            r.prelude == definition.prelude,
            r.epilogue == definition.epilogue,
            applied_list(
                definition.questions@,
                r.questions@,
                Seq::<char>::empty(),
                self.spec_suggestions(),
                self.spec_assumptions(),
            ),
    {
        let SurveyDefinition { prelude, questions, epilogue } = definition;
        let root = ResponsePath::empty();
        let questions = self.apply_list(questions, &root);
        SurveyDefinition { prelude, questions, epilogue }
    }

    /// The questions `qs` below `parent` with the defaults applied.
    #[verifier::loop_isolation(false)]
    pub fn apply_list(&self, qs: Vec<Question>, parent: &ResponsePath) -> (r: Vec<Question>)
        ensures
            applied_list(qs@, r@, parent@, self.spec_suggestions(), self.spec_assumptions()),
        decreases qs@, 1int,
    {
        let ghost qs0 = qs@;
        let mut rest = qs;
        let mut out: Vec<Question> = Vec::new();
        while rest.len() > 0
            invariant
                out@.len() + rest@.len() == qs0.len(),
                rest@ == qs0.skip(out@.len() as int),
                forall|j: int|
                    0 <= j < out@.len() ==> applied_question(
                        qs0[j],
                        out@[j],
                        parent@,
                        self.spec_suggestions(),
                        self.spec_assumptions(),
                    ),
            decreases rest@.len(),
        {
            let ghost k = out@.len() as int;
            let q = rest.remove(0);
            proof {
                assert(q == qs0[k]);
                assert(rest@ =~= qs0.skip(k + 1));
                assert(decreases_to!(qs0 => q));
            }
            let q1 = self.apply_question(q, parent);
            out.push(q1);
        }
        out
    }

    /// The question `q` below `parent` with the defaults applied.
    pub fn apply_question(&self, q: Question, parent: &ResponsePath) -> (r: Question)
        ensures
            applied_question(q, r, parent@, self.spec_suggestions(), self.spec_assumptions()),
        decreases q, 1int,
    {
        let ghost q0 = q;
        let Question { path, ask, kind, default } = q;
        let p = parent.child(path.as_str());
        proof {
            reveal_strlit(".");
            reveal_strlit("is_none");
        }
        let none_key = ResponsePath::from_string(join3(p.as_str(), ".", IS_NONE_KEY));
        assert(none_key@ =~= dotted(p@, "is_none"@));
        if Self::holds_true(&self.assumptions, &none_key) {
            return Question {
                path,
                ask,
                kind,
                default: DefaultValue::Assumed(ResponseValue::Bool(false)),
            };
        }
        match self.assumptions.get(&p) {
            Some(v) => {
                return Question { path, ask, kind, default: DefaultValue::Assumed(v.clone()) };
            },
            None => {},
        }
        let choice = self.assumed_choice_of(&kind, &p);
        let default = match choice {
            Some(v) => DefaultValue::Assumed(v),
            None => match self.suggestions.get(&p) {
                Some(v) => DefaultValue::Suggested(v.clone()),
                None => if Self::holds_true(&self.suggestions, &none_key) {
                    DefaultValue::Suggested(ResponseValue::Bool(false))
                } else {
                    default
                },
            },
        };
        let kind = self.apply_kind(kind, &p);
        Question { path, ask, kind, default }
    }

    /// The assumed choice for a question of kind `k` at `p`, if any.
    fn assumed_choice_of(&self, k: &QuestionKind, p: &ResponsePath) -> (r: Option<ResponseValue>)
        ensures
            match r {
                Some(v) => assumed_choice(*k, p@, self.spec_assumptions()) == Some(v@),
                None => assumed_choice(*k, p@, self.spec_assumptions()) is None,
            },
    {
        proof {
            reveal_strlit(".");
            reveal_strlit("selected_variant");
            reveal_strlit("selected_variants");
        }
        match k {
            QuestionKind::OneOf(_) => {
                let key = ResponsePath::from_string(join3(p.as_str(), ".", "selected_variant"));
                assert(key@ =~= dotted(p@, "selected_variant"@));
                match self.assumptions.get(&key) {
                    Some(ResponseValue::ChosenVariant(i)) => Some(ResponseValue::ChosenVariant(*i)),
                    _ => None,
                }
            },
            QuestionKind::AnyOf(_) => {
                let key = ResponsePath::from_string(join3(p.as_str(), ".", "selected_variants"));
                assert(key@ =~= dotted(p@, "selected_variants"@));
                match self.assumptions.get(&key) {
                    Some(ResponseValue::ChosenVariants(v)) => Some(ResponseValue::ChosenVariants(copy_vec(v))),
                    _ => None,
                }
            },
            _ => None,
        }
    }

    /// The kind `k` of the question at `p` with the defaults applied.
    pub fn apply_kind(&self, k: QuestionKind, p: &ResponsePath) -> (r: QuestionKind)
        ensures
            applied_kind(k, r, p@, self.spec_suggestions(), self.spec_assumptions()),
        decreases k, 1int,
    {
        match k {
            QuestionKind::AllOf(x) => {
                let AllOfQuestion { questions } = x;
                QuestionKind::AllOf(AllOfQuestion { questions: self.apply_list(questions, p) })
            },
            QuestionKind::OneOf(o) => {
                let OneOfQuestion { variants, default } = o;
                proof {
                    reveal_strlit(".");
                    reveal_strlit("selected_variant");
                }
                let key = ResponsePath::from_string(join3(p.as_str(), ".", "selected_variant"));
                assert(key@ =~= dotted(p@, "selected_variant"@));
                let default = match self.assumptions.get(&key) {
                    Some(ResponseValue::ChosenVariant(i)) => Some(*i),
                    _ => match self.suggestions.get(&key) {
                        Some(ResponseValue::ChosenVariant(i)) => Some(*i),
                        _ => default,
                    },
                };
                let variants = self.apply_variants(variants, p);
                QuestionKind::OneOf(OneOfQuestion { variants, default })
            },
            QuestionKind::AnyOf(y) => {
                let AnyOfQuestion { variants, defaults } = y;
                proof {
                    reveal_strlit(".");
                    reveal_strlit("selected_variants");
                }
                let key = ResponsePath::from_string(join3(p.as_str(), ".", "selected_variants"));
                assert(key@ =~= dotted(p@, "selected_variants"@));
                let defaults = match self.assumptions.get(&key) {
                    Some(ResponseValue::ChosenVariants(v)) => copy_vec(v),
                    _ => match self.suggestions.get(&key) {
                        Some(ResponseValue::ChosenVariants(v)) => copy_vec(v),
                        _ => defaults,
                    },
                };
                let variants = self.apply_any_variants(variants, p);
                QuestionKind::AnyOf(AnyOfQuestion { variants, defaults })
            },
            other => other,
        }
    }

    /// The variants of a OneOf question at `p` with the defaults applied.
    #[verifier::loop_isolation(false)]
    pub fn apply_variants(&self, vs: Vec<Variant>, p: &ResponsePath) -> (r: Vec<Variant>)
        ensures
            applied_variants(vs@, r@, p@, self.spec_suggestions(), self.spec_assumptions()),
        decreases vs@, 1int,
    {
        let ghost vs0 = vs@;
        let ghost s = self.spec_suggestions();
        let ghost a = self.spec_assumptions();
        proof {
            reveal_strlit("0");
            reveal_strlit(".");
            reveal_strlit("is_none");
        }
        let p0 = p.child(NEWTYPE_FIELD);
        let none0 = ResponsePath::from_string(join3(p0.as_str(), ".", IS_NONE_KEY));
        assert(none0@ =~= dotted(p0@, "is_none"@));
        let skip0 = Self::holds_true(&self.assumptions, &none0) || self.assumptions.contains(&p0);
        let mut rest = vs;
        let mut out: Vec<Variant> = Vec::new();
        while rest.len() > 0
            invariant
                out@.len() + rest@.len() == vs0.len(),
                rest@ == vs0.skip(out@.len() as int),
                s == self.spec_suggestions(),
                a == self.spec_assumptions(),
                p0@ == spec_child(p@, "0"@),
                skip0 == (is_true_at(a, dotted(p0@, "is_none"@)) || a.contains_key(p0@)),
                forall|j: int|
                    0 <= j < out@.len() ==> {
                        &&& out@[j].name == vs0[j].name
                        &&& match vs0[j].kind {
                            QuestionKind::AllOf(x0) => out@[j].kind is AllOf && applied_list(
                                x0.questions@,
                                out@[j].kind->AllOf_0.questions@,
                                p@,
                                s,
                                a,
                            ),
                            QuestionKind::Unit => out@[j].kind is Unit,
                            _ => if skip0 {
                                out@[j].kind == vs0[j].kind
                            } else {
                                applied_kind(vs0[j].kind, out@[j].kind, p0@, s, a)
                            },
                        }
                    },
            decreases rest@.len(),
        {
            let ghost k = out@.len() as int;
            let v = rest.remove(0);
            proof {
                assert(v == vs0[k]);
                assert(rest@ =~= vs0.skip(k + 1));
            }
            let Variant { name, kind } = v;
            proof {
                assert(decreases_to!(vs0 => vs0[k]));
                assert(decreases_to!(vs0[k] => vs0[k].kind));
                assert(decreases_to!(vs0 => kind));
            }
            let kind = match kind {
                QuestionKind::AllOf(x) => {
                    let AllOfQuestion { questions } = x;
                    proof {
                        assert(decreases_to!(kind => x));
                        assert(decreases_to!(x => x.questions));
                        assert(decreases_to!(x.questions => x.questions@));
                        assert(decreases_to!(vs0 => questions@));
                    }
                    QuestionKind::AllOf(
                        AllOfQuestion { questions: self.apply_list(questions, p) },
                    )
                },
                QuestionKind::Unit => QuestionKind::Unit,
                other => if skip0 {
                    other
                } else {
                    self.apply_kind(other, &p0)
                },
            };
            out.push(Variant { name, kind });
        }
        out
    }

    /// The variants of an AnyOf question at `p` with the defaults applied.
    #[verifier::loop_isolation(false)]
    pub fn apply_any_variants(&self, vs: Vec<Variant>, p: &ResponsePath) -> (r: Vec<Variant>)
        ensures
            applied_any_variants(vs@, r@, p@, self.spec_suggestions(), self.spec_assumptions()),
        decreases vs@, 1int,
    {
        let ghost vs0 = vs@;
        let mut rest = vs;
        let mut out: Vec<Variant> = Vec::new();
        while rest.len() > 0
            invariant
                out@.len() + rest@.len() == vs0.len(),
                rest@ == vs0.skip(out@.len() as int),
                forall|j: int|
                    0 <= j < out@.len() ==> {
                        &&& out@[j].name == vs0[j].name
                        &&& match vs0[j].kind {
                            QuestionKind::AllOf(x0) => out@[j].kind is AllOf && applied_list(
                                x0.questions@,
                                out@[j].kind->AllOf_0.questions@,
                                p@,
                                self.spec_suggestions(),
                                self.spec_assumptions(),
                            ),
                            _ => out@[j].kind == vs0[j].kind,
                        }
                    },
            decreases rest@.len(),
        {
            let ghost k = out@.len() as int;
            let v = rest.remove(0);
            proof {
                assert(v == vs0[k]);
                assert(rest@ =~= vs0.skip(k + 1));
            }
            let Variant { name, kind } = v;
            proof {
                assert(decreases_to!(vs0 => vs0[k]));
                assert(decreases_to!(vs0[k] => vs0[k].kind));
            }
            let kind = match kind {
                QuestionKind::AllOf(x) => {
                    let AllOfQuestion { questions } = x;
                    proof {
                        assert(decreases_to!(kind => x));
                        assert(decreases_to!(x => x.questions));
                        assert(decreases_to!(x.questions => x.questions@));
                        assert(decreases_to!(vs0 => questions@));
                    }
                    QuestionKind::AllOf(
                        AllOfQuestion { questions: self.apply_list(questions, p) },
                    )
                },
                other => other,
            };
            out.push(Variant { name, kind });
        }
        out
    }
}

/// The path of a field `field` below `prefix`, as nested suggestion scopes
/// write it: `prefix.field`, or `field` alone at the root.
pub open spec fn scoped(prefix: Seq<char>, field: Seq<char>) -> Seq<char> {
    if prefix.len() == 0 {
        field
    } else {
        prefix + seq!['.'] + field
    }
}

/// Suggested or assumed values for the fields below one path, gathered
/// before they are handed to a [`SurveyBuilder`].
#[derive(Debug)]
pub struct DefaultsScope {
    prefix: ResponsePath,
    values: Responses,
}

impl DefaultsScope {
    /// The path of the scope.
    pub closed spec fn spec_prefix(&self) -> Seq<char> {
        self.prefix@
    }

    /// The values gathered so far.
    pub closed spec fn spec_values(&self) -> Map<Seq<char>, ValueView> {
        self.values@
    }

    /// An empty scope at `prefix`.
    pub fn new(prefix: ResponsePath) -> (r: Self)
        ensures
            r.spec_prefix() == prefix@,
            r.spec_values() == Map::<Seq<char>, ValueView>::empty(),
    {
        DefaultsScope { prefix, values: Responses::new() }
    }

    /// The path of the scope.
    pub fn prefix(&self) -> (r: &ResponsePath)
        ensures
            r@ == self.spec_prefix(),
    {
        &self.prefix
    }

    /// The path of the field `field` in this scope.
    pub fn path(&self, field: &str) -> (r: ResponsePath)
        ensures
            r@ == scoped(self.spec_prefix(), field@),
    {
        if self.prefix.is_empty() {
            ResponsePath::new(field)
        } else {
            proof {
                reveal_strlit(".");
            }
            let joined = join3(self.prefix.as_str(), ".", field);
            assert(joined@ =~= scoped(self.spec_prefix(), field@));
            ResponsePath::from_string(joined)
        }
    }

    /// The same scope with `value` for the field `field`.
    pub fn set(self, field: &str, value: ResponseValue) -> (r: Self)
        ensures
            r.spec_prefix() == self.spec_prefix(),
            r.spec_values() == self.spec_values().insert(scoped(self.spec_prefix(), field@), value@),
    {
        let key = self.path(field);
        let mut s = self;
        s.values.insert(key, value);
        s
    }

    /// The same scope with variant `index` chosen for the enum at the scope's
    /// path (stored at `prefix.selected_variant`).
    pub fn select_variant(self, index: usize) -> (r: Self)
        ensures
            r.spec_prefix() == self.spec_prefix(),
            r.spec_values() == self.spec_values().insert(
                dotted(self.spec_prefix(), "selected_variant"@),
                ValueView::ChosenVariant(index),
            ),
    {
        proof {
            reveal_strlit(".");
        }
        let key = join3(self.prefix.as_str(), ".", "selected_variant");
        assert(key@ =~= dotted(self.spec_prefix(), "selected_variant"@));
        let mut s = self;
        s.values.insert(ResponsePath::from_string(key), ResponseValue::ChosenVariant(index));
        s
    }

    /// The same scope marking the optional value at the scope's path as
    /// `None` (stored as `true` at `prefix.is_none`).
    pub fn set_none(self) -> (r: Self)
        ensures
            r.spec_prefix() == self.spec_prefix(),
            r.spec_values() == self.spec_values().insert(
                dotted(self.spec_prefix(), "is_none"@),
                ValueView::Bool(true),
            ),
    {
        proof {
            reveal_strlit(".");
        }
        let key = join3(self.prefix.as_str(), ".", IS_NONE_KEY);
        assert(key@ =~= dotted(self.spec_prefix(), "is_none"@));
        let mut s = self;
        s.values.insert(ResponsePath::from_string(key), ResponseValue::Bool(true));
        s
    }

    /// The same scope with `value` for the optional value at the scope's path.
    pub fn set_some(self, value: ResponseValue) -> (r: Self)
        ensures
            r.spec_prefix() == self.spec_prefix(),
            r.spec_values() == self.spec_values().insert(self.spec_prefix(), value@),
    {
        let key = self.prefix.clone();
        let mut s = self;
        s.values.insert(key, value);
        s
    }

    /// An empty scope for the nested field `field`.
    pub fn nested(&self, field: &str) -> (r: Self)
        ensures
            r.spec_prefix() == scoped(self.spec_prefix(), field@),
            r.spec_values() == Map::<Seq<char>, ValueView>::empty(),
    {
        DefaultsScope::new(self.path(field))
    }

    /// An empty scope for the value of a newtype variant (at `prefix.0`).
    pub fn newtype(&self) -> (r: Self)
        ensures
            r.spec_prefix() == dotted(self.spec_prefix(), "0"@),
            r.spec_values() == Map::<Seq<char>, ValueView>::empty(),
    {
        proof {
            reveal_strlit(".");
        }
        let key = join3(self.prefix.as_str(), ".", NEWTYPE_FIELD);
        assert(key@ =~= dotted(self.spec_prefix(), "0"@));
        DefaultsScope::new(ResponsePath::from_string(key))
    }

    /// The same scope, with everything `inner` gathered added.
    pub fn absorb(self, inner: DefaultsScope) -> (r: Self)
        ensures
            r.spec_prefix() == self.spec_prefix(),
            r.spec_values() == self.spec_values().union_prefer_right(inner.spec_values()),
    {
        let mut s = self;
        s.values.extend(inner.into_values());
        s
    }

    /// The values gathered.
    pub fn into_values(self) -> (r: Responses)
        ensures
            r@ == self.spec_values(),
    {
        self.values
    }
}


/// An assumed value for a question wins over a suggested one: the question
/// takes the assumption (unless its optional value is assumed to be absent).
pub proof fn law_assumption_wins_over_suggestion(
    q0: Question,
    q1: Question,
    parent: Seq<char>,
    s: Map<Seq<char>, ValueView>,
    a: Map<Seq<char>, ValueView>,
)
    requires
        applied_question(q0, q1, parent, s, a),
        a.contains_key(spec_child(parent, q0.path@)),
        !is_true_at(a, dotted(spec_child(parent, q0.path@), "is_none"@)),
    ensures
        q1.default@ == DefaultView::Assumed(a[spec_child(parent, q0.path@)]),
{
}

/// A field's key in a scope is the path of the field's question below the
/// scope's path.
pub proof fn law_scope_key_is_question_path(prefix: Seq<char>, field: Seq<char>)
    requires
        field.len() > 0,
    ensures
        scoped(prefix, field) == spec_child(prefix, field),
{
}

/// A value suggested for a field through a scope becomes the suggestion of
/// the field's question below the scope's path, when nothing is assumed
/// there (neither the value nor, for a choice, the chosen variant).
pub proof fn law_scoped_suggestion_reaches_question(
    q0: Question,
    q1: Question,
    prefix: Seq<char>,
    s: Map<Seq<char>, ValueView>,
    a: Map<Seq<char>, ValueView>,
)
    requires
        q0.path@.len() > 0,
        applied_question(q0, q1, prefix, s, a),
        s.contains_key(scoped(prefix, q0.path@)),
        !a.contains_key(scoped(prefix, q0.path@)),
        !is_true_at(a, dotted(scoped(prefix, q0.path@), "is_none"@)),
        assumed_choice(q0.kind, scoped(prefix, q0.path@), a) is None,
    ensures
        q1.default@ == DefaultView::Suggested(s[scoped(prefix, q0.path@)]),
{
}


/// An assumed chosen variant of an enum field assumes its choice question,
/// so that the choice is not asked.
pub proof fn law_assumed_choice_is_assumed(
    q0: Question,
    q1: Question,
    parent: Seq<char>,
    s: Map<Seq<char>, ValueView>,
    a: Map<Seq<char>, ValueView>,
)
    requires
        applied_question(q0, q1, parent, s, a),
        !a.contains_key(spec_child(parent, q0.path@)),
        !is_true_at(a, dotted(spec_child(parent, q0.path@), "is_none"@)),
        assumed_choice(q0.kind, spec_child(parent, q0.path@), a) is Some,
    ensures
        q1.default@ == DefaultView::Assumed(assumed_choice(q0.kind, spec_child(parent, q0.path@), a)->0),
{
}

} // verus!

verus! {

/// The default selections of a multi-select at `p` after the defaults are
/// applied: the assumed selections at `p.selected_variants` when there are
/// some, else the suggested ones, else the defaults it had.
pub proof fn law_multi_select_defaults(
    k0: QuestionKind,
    k1: QuestionKind,
    p: Seq<char>,
    s: Map<Seq<char>, ValueView>,
    a: Map<Seq<char>, ValueView>,
)
    requires
        k0 is AnyOf,
        applied_kind(k0, k1, p, s, a),
    ensures
        k1 is AnyOf,
        ({
            let key = p + seq!['.'] + "selected_variants"@;
            let assumed = a.contains_key(key) && a[key] is ChosenVariants;
            let suggested = s.contains_key(key) && s[key] is ChosenVariants;
            &&& assumed ==> k1->AnyOf_0.defaults@ == a[key]->ChosenVariants_0
            &&& !assumed && suggested ==> k1->AnyOf_0.defaults@ == s[key]->ChosenVariants_0
            &&& !assumed && !suggested ==> k1->AnyOf_0.defaults@ == k0->AnyOf_0.defaults@
        }),
{
}

/// The default variant of a choice at `p` after the defaults are applied:
/// the assumed variant at `p.selected_variant` when there is one, else the
/// suggested one, else the default it had.
pub proof fn law_choice_default(
    k0: QuestionKind,
    k1: QuestionKind,
    p: Seq<char>,
    s: Map<Seq<char>, ValueView>,
    a: Map<Seq<char>, ValueView>,
)
    requires
        k0 is OneOf,
        applied_kind(k0, k1, p, s, a),
    ensures
        k1 is OneOf,
        ({
            let key = p + seq!['.'] + "selected_variant"@;
            let assumed = a.contains_key(key) && a[key] is ChosenVariant;
            let suggested = s.contains_key(key) && s[key] is ChosenVariant;
            &&& assumed ==> k1->OneOf_0.default == Some(a[key]->ChosenVariant_0)
            &&& !assumed && suggested ==> k1->OneOf_0.default == Some(s[key]->ChosenVariant_0)
            &&& !assumed && !suggested ==> k1->OneOf_0.default == k0->OneOf_0.default
        }),
{
}

} // verus!
