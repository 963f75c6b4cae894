//! The questions that the `Survey` derive builds for the fields of a type:
//! which kind of question each field type and attribute set gives, and which
//! validators the validation it writes runs on an answer.
use vstd::prelude::*;
use crate::naming::{spec_title_case, title_case};
use crate::path::ResponsePath;
use crate::responses::Responses;
use crate::value::ResponseValue;
use crate::text::{str_eq, substring};
use crate::question::{
    AllOfQuestion, AnyOfQuestion, ConfirmQuestion, FloatQuestion, InputQuestion, IntQuestion,
    ListElementKind, ListQuestion, MaskedQuestion, MultilineQuestion, OneOfQuestion, Question,
    QuestionKind, SurveyDefinition, Variant,
};

verus! {

/// The type of a field, as far as it decides the question asked for it.
#[derive(Debug)]
pub enum FieldType {
    /// `String` or `&str`.
    Text,
    /// `bool`.
    Bool,
    /// Any of Rust's integer types.
    Integer,
    /// `f32` or `f64`, with the `#[min]`/`#[max]` bounds as `f64` bit patterns.
    Float { min: Option<u64>, max: Option<u64> },
    /// `PathBuf`.
    Path,
    /// `Vec<String>`.
    TextList,
    /// `Vec` of an integer type.
    IntegerList,
    /// `Vec<f32>` or `Vec<f64>`, with the bounds as `f64` bit patterns.
    FloatList { min: Option<u64>, max: Option<u64> },
    /// `Vec` of an enum, holding the variants of the enum's survey.
    EnumList(Vec<Variant>),
    /// `Option<T>`.
    Optional(Box<FieldType>),
    /// A nested type with a survey of its own, holding that survey's questions.
    Nested(Vec<Question>),
}

/// The attributes written on a field.
#[derive(Debug)]
pub struct FieldAttrs {
    /// `#[ask("...")]`: the prompt.
    pub ask: Option<String>,
    /// `#[mask]`.
    pub mask: bool,
    /// `#[multiline]`.
    pub multiline: bool,
    /// `#[validate("...")]`: a field-level validator.
    pub validate: Option<String>,
    /// `#[min(n)]`.
    pub min: Option<i64>,
    /// `#[max(n)]`.
    pub max: Option<i64>,
    /// `#[multiselect]`.
    pub multiselect: bool,
}

/// Whether a field of type `ty` is asked as a number (an integer or a
/// float, possibly optional, and neither masked nor multi-line).
pub open spec fn numeric_field(ty: FieldType, mask: bool, multiline: bool) -> bool
    decreases ty,
{
    if mask || multiline {
        false
    } else {
        match ty {
            FieldType::Integer => true,
            FieldType::Float { .. } => true,
            FieldType::Optional(inner) => numeric_field(*inner, mask, multiline),
            _ => false,
        }
    }
}

/// The validator of a field: its own; else, for a numeric field, the one its
/// type propagates (`#[validate_fields]`); else none.
pub open spec fn chosen_validator(own: Option<String>, propagated: Option<String>, numeric: bool) -> Option<String> {
    if own is Some {
        own
    } else if numeric {
        propagated
    } else {
        None
    }
}

/// Whether a field of type `ty` is asked as a number.
pub fn is_numeric_field(ty: &FieldType, mask: bool, multiline: bool) -> (r: bool)
    ensures
        r == numeric_field(*ty, mask, multiline),
    decreases ty,
{
    if mask || multiline {
        return false;
    }
    match ty {
        FieldType::Integer => true,
        FieldType::Float { .. } => true,
        FieldType::Optional(inner) => is_numeric_field(inner, mask, multiline),
        _ => false,
    }
}

/// `r` is the question kind for a field of type `ty` with the given
/// attributes (`validate` is the validator it gets), or none where the derive
/// cannot ask for such a field (a list of a non-primitive type without
/// `#[multiselect]`).
pub open spec fn is_field_kind(
    ty: FieldType,
    mask: bool,
    multiline: bool,
    min: Option<i64>,
    max: Option<i64>,
    multiselect: bool,
    validate: Option<String>,
    r: Option<QuestionKind>,
) -> bool
    decreases ty,
{
    if mask {
        r == Some(QuestionKind::Masked(MaskedQuestion { mask: None, validate }))
    } else if multiline {
        r == Some(QuestionKind::Multiline(MultilineQuestion { default: None, validate }))
    } else {
        match ty {
            FieldType::EnumList(vs) => if multiselect {
                r is Some && r->0 is AnyOf && r->0->AnyOf_0.variants == vs
                    && r->0->AnyOf_0.defaults@ == Seq::<usize>::empty()
            } else {
                r is None
            },
            FieldType::Optional(inner) => is_field_kind(
                *inner,
                mask,
                multiline,
                min,
                max,
                multiselect,
                validate,
                r,
            ),
            _ => r == plain_field_kind(ty, min, max, validate),
        }
    }
}

/// The question kind for a field of a type that is neither a list of enums
/// nor optional.
pub open spec fn plain_field_kind(
    ty: FieldType,
    min: Option<i64>,
    max: Option<i64>,
    validate: Option<String>,
) -> Option<QuestionKind> {
    {
        match ty {
            FieldType::Text => Some(QuestionKind::Input(InputQuestion { default: None, validate })),
            FieldType::Bool => Some(QuestionKind::Confirm(ConfirmQuestion { default: false })),
            FieldType::Integer => Some(
                QuestionKind::Int(IntQuestion { default: None, min, max, validate }),
            ),
            FieldType::Float { min: fmin, max: fmax } => Some(
                QuestionKind::Float(FloatQuestion { default: None, min: fmin, max: fmax, validate }),
            ),
            FieldType::Path => Some(
                QuestionKind::Input(InputQuestion { default: None, validate: None }),
            ),
            FieldType::TextList => Some(
                QuestionKind::List(
                    ListQuestion {
                        element_kind: ListElementKind::String,
                        min_items: None,
                        max_items: None,
                        validate: None,
                    },
                ),
            ),
            FieldType::IntegerList => Some(
                QuestionKind::List(
                    ListQuestion {
                        element_kind: ListElementKind::Int { min, max },
                        min_items: None,
                        max_items: None,
                        validate: None,
                    },
                ),
            ),
            FieldType::FloatList { min: fmin, max: fmax } => Some(
                QuestionKind::List(
                    ListQuestion {
                        element_kind: ListElementKind::Float { min: fmin, max: fmax },
                        min_items: None,
                        max_items: None,
                        validate: None,
                    },
                ),
            ),
            FieldType::Nested(qs) => Some(QuestionKind::AllOf(AllOfQuestion { questions: qs })),
            _ => None,
        }
    }
}

fn clone_opt_string(s: &Option<String>) -> (r: Option<String>)
    ensures
        r == *s,
{
    match s {
        Some(t) => Some(t.clone()),
        None => None,
    }
}

/// The question kind for a field of type `ty` with the given attributes,
/// where `validate` is the validator the field gets.
pub fn field_kind(
    ty: FieldType,
    mask: bool,
    multiline: bool,
    min: Option<i64>,
    max: Option<i64>,
    multiselect: bool,
    validate: Option<String>,
) -> (r: Option<QuestionKind>)
    ensures
        is_field_kind(ty, mask, multiline, min, max, multiselect, validate, r),
    decreases ty,
{
    if mask {
        return Some(QuestionKind::Masked(MaskedQuestion { mask: None, validate }));
    }
    if multiline {
        return Some(QuestionKind::Multiline(MultilineQuestion { default: None, validate }));
    }
    match ty {
        FieldType::Text => Some(QuestionKind::Input(InputQuestion { default: None, validate })),
        FieldType::Bool => Some(QuestionKind::Confirm(ConfirmQuestion { default: false })),
        FieldType::Integer => Some(
            QuestionKind::Int(IntQuestion { default: None, min, max, validate }),
        ),
        FieldType::Float { min: fmin, max: fmax } => Some(
            QuestionKind::Float(FloatQuestion { default: None, min: fmin, max: fmax, validate }),
        ),
        FieldType::Path => Some(QuestionKind::Input(InputQuestion { default: None, validate: None })),
        FieldType::TextList => Some(QuestionKind::List(ListQuestion::strings())),
        FieldType::IntegerList => Some(QuestionKind::List(ListQuestion::ints_with_bounds(min, max))),
        FieldType::FloatList { min: fmin, max: fmax } => Some(
            QuestionKind::List(ListQuestion::floats_with_bounds(fmin, fmax)),
        ),
        FieldType::EnumList(vs) => if multiselect {
            Some(QuestionKind::AnyOf(AnyOfQuestion { variants: vs, defaults: Vec::new() }))
        } else {
            None
        },
        FieldType::Optional(inner) => field_kind(*inner, mask, multiline, min, max, multiselect, validate),
        FieldType::Nested(qs) => Some(QuestionKind::AllOf(AllOfQuestion { questions: qs })),
    }
}

/// The question for the field `field_name` of type `ty` with attributes
/// `attrs`, where `propagated` is the validator its type hands to numeric
/// fields. The prompt is `#[ask]`, else the field name in title
/// case. None where the derive cannot ask for such a field.
pub fn question_for_field(
    field_name: &str,
    ty: FieldType,
    attrs: &FieldAttrs,
    propagated: Option<String>,
) -> (r: Option<Question>)
    ensures
        exists|k: Option<QuestionKind>|
            {
                &&& is_field_kind(
                    ty,
                    attrs.mask,
                    attrs.multiline,
                    attrs.min,
                    attrs.max,
                    attrs.multiselect,
                    chosen_validator(
                        attrs.validate,
                        propagated,
                        numeric_field(ty, attrs.mask, attrs.multiline),
                    ),
                    k,
                )
                &&& match k {
                    Some(k) => r is Some && r->0.path@ == field_name@ && r->0.kind == k
                        && r->0.default is Unset && r->0.ask@ == (match attrs.ask {
                        Some(a) => a@,
                        None => spec_title_case(field_name@),
                    }),
                    None => r is None,
                }
            },
{
    let numeric = is_numeric_field(&ty, attrs.mask, attrs.multiline);
    let validate = if attrs.validate.is_some() {
        clone_opt_string(&attrs.validate)
    } else if numeric {
        propagated
    } else {
        None
    };
    let kind = field_kind(
        ty,
        attrs.mask,
        attrs.multiline,
        attrs.min,
        attrs.max,
        attrs.multiselect,
        validate,
    );
    match kind {
        Some(k) => {
            let ask = match &attrs.ask {
                Some(a) => a.clone(),
                None => title_case(field_name),
            };
            Some(Question::new(ResponsePath::new(field_name), ask.as_str(), k))
        },
        None => None,
    }
}

/// The single question of an enum's survey: a OneOf over its variants, at
/// the empty path, without prompt and without default.
pub fn enum_question(variants: Vec<Variant>) -> (r: Question)
    ensures
        r.path@ == Seq::<char>::empty(),
        r.ask@ == Seq::<char>::empty(),
        r.default is Unset,
        r.kind == QuestionKind::OneOf(OneOfQuestion { variants, default: None }),
{
    proof {
        reveal_strlit("");
    }
    Question::new(
        ResponsePath::empty(),
        "",
        QuestionKind::OneOf(OneOfQuestion { variants, default: None }),
    )
}

/// The survey of a type: its questions, with the `#[prelude]` and
/// `#[epilogue]` messages.
pub fn survey_of(
    prelude: Option<String>,
    questions: Vec<Question>,
    epilogue: Option<String>,
) -> (r: SurveyDefinition)
    ensures
        r.prelude == prelude,
        r.questions == questions,
        r.epilogue == epilogue,
{
    SurveyDefinition { prelude, questions, epilogue }
}


/// `x` is how `s` ends.
pub open spec fn is_suffix(x: Seq<char>, s: Seq<char>) -> bool {
    x.len() <= s.len() && s.skip(s.len() - x.len()) == x
}

/// Whether the validator of the field `field` applies to the answer at
/// `path`: the path is the field's name, or ends with a dot and the name.
pub open spec fn spec_path_matches_field(path: Seq<char>, field: Seq<char>) -> bool {
    path == field || is_suffix("."@ + field, path)
}

/// Whether the validator of the field `field` applies to the answer at
/// `path`, as the validation the `Survey` derive writes checks it.
pub fn path_matches_field(path: &ResponsePath, field: &str) -> (r: bool)
    ensures
        r == spec_path_matches_field(path@, field@),
{
    let p = path.as_str();
    if str_eq(p, field) {
        return true;
    }
    proof {
        reveal_strlit(".");
    }
    let mut want = ".".to_owned();
    want.append(field);
    let n = p.unicode_len();
    let k = want.as_str().unicode_len();
    if k > n {
        return false;
    }
    let tail = substring(p, n - k, n);
    assert(tail@ =~= p@.skip(n - k));
    str_eq(tail.as_str(), want.as_str())
}


/// The validation that the `Survey` derive writes for a type: what it runs
/// on an answer, given the answer's path.
#[derive(Debug)]
pub struct TypeChecks {
    /// `#[validate_fields("...")]`: run first, on every answer.
    pub propagated: Option<String>,
    /// The fields, in declaration order (for an enum, those of its variants).
    pub fields: Vec<FieldChecks>,
}

/// What the validation of a type runs for one of its fields.
#[derive(Debug)]
pub struct FieldChecks {
    /// The name an answer's path ends with for this field (for a field of a
    /// tuple variant, the variant's name, or the name, a dot and the index).
    pub name: String,
    /// `#[validate("...")]` on the field.
    pub validate: Option<String>,
    /// For a field of a nested survey type, that type's validation, to which
    /// every answer is handed.
    pub nested: Option<Box<TypeChecks>>,
}

/// The one-element sequence of `v`, or the empty one.
pub open spec fn opt_seq(v: Option<String>) -> Seq<String> {
    match v {
        Some(s) => seq![s],
        None => Seq::<String>::empty(),
    }
}

/// The validators run on an answer at `path` for the fields `fs`, in order:
/// for each field, its own validator when the path is the field's, then all
/// that the field's nested type runs.
pub open spec fn fields_run(fs: Seq<FieldChecks>, path: Seq<char>) -> Seq<String>
    decreases fs,
{
    if fs.len() == 0 {
        Seq::<String>::empty()
    } else {
        let f = fs[fs.len() - 1];
        let own = if spec_path_matches_field(path, f.name@) {
            opt_seq(f.validate)
        } else {
            Seq::<String>::empty()
        };
        let inner = match f.nested {
            Some(n) => {
                proof {
                    assert(decreases_to!(fs => fs[fs.len() - 1]));
                }
                opt_seq(n.propagated) + fields_run(n.fields@, path)
            },
            None => Seq::<String>::empty(),
        };
        fields_run(fs.drop_last(), path) + own + inner
    }
}

/// The validators that the validation of `t` runs, in order, on an answer
/// at `path`: the propagated one, then those of the fields (see
/// [`fields_run`]). The first that refuses the answer decides.
pub open spec fn checks_run(t: TypeChecks, path: Seq<char>) -> Seq<String> {
    opt_seq(t.propagated) + fields_run(t.fields@, path)
}

proof fn lemma_fields_run_keeps(fs: Seq<FieldChecks>, path: Seq<char>, x: String)
    requires
        fs.len() > 0,
        fields_run(fs.drop_last(), path).contains(x),
    ensures
        fields_run(fs, path).contains(x),
{
    let pre = fields_run(fs.drop_last(), path);
    let k = choose|k: int| 0 <= k < pre.len() && pre[k] == x;
    assert(fields_run(fs, path)[k] == x);
}

/// The own validator of a field whose name the path ends with runs.
proof fn lemma_own_validator_runs(fs: Seq<FieldChecks>, path: Seq<char>, i: int)
    requires
        0 <= i < fs.len(),
        fs[i].validate is Some,
        spec_path_matches_field(path, fs[i].name@),
    ensures
        fields_run(fs, path).contains(fs[i].validate->0),
    decreases fs.len(),
{
    let x = fs[i].validate->0;
    if i == fs.len() - 1 {
        let pre = fields_run(fs.drop_last(), path);
        assert(fields_run(fs, path)[pre.len() as int] == x);
    } else {
        assert(fs.drop_last()[i] == fs[i]);
        lemma_own_validator_runs(fs.drop_last(), path, i);
        lemma_fields_run_keeps(fs, path, x);
    }
}

/// What a field's nested type runs on an answer, the type runs too.
proof fn lemma_nested_validators_run(fs: Seq<FieldChecks>, path: Seq<char>, i: int, x: String)
    requires
        0 <= i < fs.len(),
        fs[i].nested is Some,
        checks_run(*fs[i].nested->0, path).contains(x),
    ensures
        fields_run(fs, path).contains(x),
    decreases fs.len(),
{
    if i == fs.len() - 1 {
        let f = fs[i];
        let n = f.nested->0;
        let pre = fields_run(fs.drop_last(), path);
        let own = if spec_path_matches_field(path, f.name@) {
            opt_seq(f.validate)
        } else {
            Seq::<String>::empty()
        };
        let inner = checks_run(*n, path);
        let k = choose|k: int| 0 <= k < inner.len() && inner[k] == x;
        assert(fields_run(fs, path) == pre + own + inner);
        assert(fields_run(fs, path)[pre.len() + own.len() + k] == x);
    } else {
        assert(fs.drop_last()[i] == fs[i]);
        lemma_nested_validators_run(fs.drop_last(), path, i, x);
        lemma_fields_run_keeps(fs, path, x);
    }
}

/// The validator propagated by a type (`#[validate_fields]`) runs first, on
/// every answer, whatever its path.
pub proof fn law_propagated_runs_first(t: TypeChecks, path: Seq<char>)
    requires
        t.propagated is Some,
    ensures
        checks_run(t, path).len() > 0,
        checks_run(t, path)[0] == t.propagated->0,
{
}

/// The validator of a field of a nested survey type runs on the answers at
/// that field's path: a type hands every answer to the validation of its
/// nested fields' types.
pub proof fn law_nested_field_validator_runs(t: TypeChecks, i: int, j: int, path: Seq<char>)
    requires
        0 <= i < t.fields@.len(),
        t.fields@[i].nested is Some,
        0 <= j < t.fields@[i].nested->0.fields@.len(),
        t.fields@[i].nested->0.fields@[j].validate is Some,
        spec_path_matches_field(path, t.fields@[i].nested->0.fields@[j].name@),
    ensures
        checks_run(t, path).contains(t.fields@[i].nested->0.fields@[j].validate->0),
{
    let n = *t.fields@[i].nested->0;
    let x = n.fields@[j].validate->0;
    lemma_own_validator_runs(n.fields@, path, j);
    let inner = fields_run(n.fields@, path);
    let k = choose|k: int| 0 <= k < inner.len() && inner[k] == x;
    assert(checks_run(n, path)[opt_seq(n.propagated).len() + k] == x);
    lemma_nested_validators_run(t.fields@, path, i, x);
    let fr = fields_run(t.fields@, path);
    let m = choose|m: int| 0 <= m < fr.len() && fr[m] == x;
    assert(checks_run(t, path)[opt_seq(t.propagated).len() + m] == x);
}

fn push_fields_run(fs: &Vec<FieldChecks>, path: &ResponsePath, out: &mut Vec<String>)
    ensures
        final(out)@ == old(out)@ + fields_run(fs@, path@),
    decreases fs@,
{
    let ghost start = out@;
    let mut i: usize = 0;
    proof {
        assert(fs@.take(0) =~= Seq::<FieldChecks>::empty());
        assert(out@ =~= start + fields_run(fs@.take(0), path@));
    }
    while i < fs.len()
        invariant
            i <= fs@.len(),
            out@ == start + fields_run(fs@.take(i as int), path@),
        decreases fs@.len() - i,
    {
        let f = &fs[i];
        let ghost before = out@;
        if path_matches_field(path, f.name.as_str()) {
            match &f.validate {
                Some(v) => out.push(v.clone()),
                None => {},
            }
        }
        match &f.nested {
            Some(n) => {
                match &n.propagated {
                    Some(v) => out.push(v.clone()),
                    None => {},
                }
                proof {
                    assert(decreases_to!(fs@ => fs@[i as int]));
                }
                push_fields_run(&n.fields, path, out);
            },
            None => {},
        }
        proof {
            let t = fs@.take(i + 1);
            assert(t.drop_last() =~= fs@.take(i as int));
            assert(t[t.len() - 1] == fs@[i as int]);
            assert(out@ =~= start + fields_run(t, path@));
        }
        i = i + 1;
    }
    proof {
        assert(fs@.take(fs@.len() as int) =~= fs@);
    }
}

/// The validators that the validation of `checks` runs, in order, on an
/// answer at `path`.
pub fn validators_at(checks: &TypeChecks, path: &ResponsePath) -> (r: Vec<String>)
    ensures
        r@ == checks_run(*checks, path@),
{
    let mut out: Vec<String> = Vec::new();
    match &checks.propagated {
        Some(v) => out.push(v.clone()),
        None => {},
    }
    proof {
        assert(out@ =~= opt_seq(checks.propagated));
    }
    push_fields_run(&checks.fields, path, &mut out);
    out
}

/// `run` answered `verdict` for the validator `name` on the answer `value`
/// at `path`, beside `responses`.
pub open spec fn ran<F: Fn(&String, &ResponseValue, &Responses, &ResponsePath) -> Result<(), String>>(
    run: F,
    name: String,
    value: ResponseValue,
    responses: Responses,
    path: ResponsePath,
    verdict: Result<(), String>,
) -> bool {
    call_ensures(run, (&name, &value, &responses, &path), verdict)
}

/// The validation of `checks` on the answer `value` at `path`, beside the
/// answers `responses`: the validators of [`checks_run`], run in order by
/// `run` (which calls the validator of the given name), stopping at the
/// first refusal, whose message is returned.
pub fn validate_field<F: Fn(&String, &ResponseValue, &Responses, &ResponsePath) -> Result<(), String>>(
    checks: &TypeChecks,
    run: &F,
    value: &ResponseValue,
    responses: &Responses,
    path: &ResponsePath,
) -> (r: Result<(), String>)
    requires
        forall|n: &String, v: &ResponseValue, rs: &Responses, p: &ResponsePath|
            call_requires(*run, (n, v, rs, p)),
    ensures
        r is Ok ==> forall|k: int|
            0 <= k < checks_run(*checks, path@).len() ==> ran(
                *run,
                #[trigger] checks_run(*checks, path@)[k],
                *value,
                *responses,
                *path,
                Ok(()),
            ),
        r is Err ==> exists|k: int|
            0 <= k < checks_run(*checks, path@).len() && (forall|j: int|
                0 <= j < k ==> ran(
                    *run,
                    #[trigger] checks_run(*checks, path@)[j],
                    *value,
                    *responses,
                    *path,
                    Ok(()),
                )) && ran(*run, checks_run(*checks, path@)[k], *value, *responses, *path, r),
{
    let names = validators_at(checks, path);
    let ghost vs = checks_run(*checks, path@);
    let mut k: usize = 0;
    while k < names.len()
        invariant
            k <= names@.len(),
            names@ == vs,
            vs == checks_run(*checks, path@),
            forall|n: &String, v: &ResponseValue, rs: &Responses, p: &ResponsePath|
                call_requires(*run, (n, v, rs, p)),
            forall|j: int| 0 <= j < k ==> ran(*run, #[trigger] vs[j], *value, *responses, *path, Ok(())),
        decreases names@.len() - k,
    {
        let name = &names[k];
        let verdict = run(name, value, responses, path);
        match verdict {
            Ok(u) => {
                proof {
                    assert(u == ());
                    assert(ran(*run, vs[k as int], *value, *responses, *path, Ok(())));
                }
            },
            Err(e) => {
                proof {
                    assert(ran(*run, vs[k as int], *value, *responses, *path, Err(e)));
                }
                return Err(e);
            },
        }
        k = k + 1;
    }
    Ok(())
}

} // verus!

verus! {

/// The `#[min]` and `#[max]` bounds of an integer field, or of a list of
/// integers, reach its question (through `Option` too): an integer question
/// with exactly those bounds, or a list whose items are integers with exactly
/// those bounds.
pub proof fn law_integer_bounds_reach_question(
    ty: FieldType,
    min: Option<i64>,
    max: Option<i64>,
    multiselect: bool,
    validate: Option<String>,
    r: Option<QuestionKind>,
)
    requires
        is_field_kind(ty, false, false, min, max, multiselect, validate, r),
    ensures
        (ty is Integer || (ty matches FieldType::Optional(inner) && *inner is Integer)) ==> (r matches Some(
            QuestionKind::Int(q),
        ) && q.min == min && q.max == max),
        (ty is IntegerList || (ty matches FieldType::Optional(inner) && *inner is IntegerList)) ==> (
        r matches Some(QuestionKind::List(l)) && l.element_kind == (ListElementKind::Int { min, max })),
        ty is Integer ==> (r matches Some(QuestionKind::Int(q)) && q.validate == validate && q.default is None),
        ty is Text ==> (r matches Some(QuestionKind::Input(q)) && q.validate == validate),
        ty matches FieldType::Float { min: fmin, max: fmax } ==> (r matches Some(QuestionKind::Float(q))
            && q.min == fmin && q.max == fmax && q.validate == validate),
        ty matches FieldType::FloatList { min: fmin, max: fmax } ==> (r matches Some(
            QuestionKind::List(l),
        ) && l.element_kind == (ListElementKind::Float { min: fmin, max: fmax })),
{
    reveal_with_fuel(is_field_kind, 2);
    match ty {
        FieldType::Optional(inner) => {
            assert(is_field_kind(*inner, false, false, min, max, multiselect, validate, r));
        },
        _ => {},
    }
}

} // verus!
