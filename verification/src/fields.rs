//! Reading the value of a field back from collected responses, as the
//! `from_responses` that the `Survey` derive writes does: plain values at the
//! field's path, lists of chosen variants item by item, nested types from the
//! responses below the field's path.
use vstd::prelude::*;
use crate::builder::SurveyBuilder;
use crate::derive::FieldType;
use crate::test_backend::{is_direct, walk_list, walk_one, full_path};
use crate::question::Question;
use crate::path::{spec_child, ResponsePath};
use crate::question::SELECTED_VARIANTS_KEY;
use crate::responses::{is_filtered, is_read_error, spec_has_value, ResponseError, Responses};
use crate::text::{decimal, usize_to_text};
use crate::value::{ResponseValue, ValueView};

verus! {

/// The value of a field, read back from responses.
#[derive(Debug)]
pub enum FieldValue {
    Text(String),
    Bool(bool),
    Int(i64),
    /// A floating-point value, as its `f64` bit pattern.
    Float(u64),
    /// A path, as its text.
    Path(String),
    TextList(Vec<String>),
    IntList(Vec<i64>),
    FloatList(Vec<u64>),
    /// For each chosen item of a multi-select, the responses below the item.
    Items(Vec<Responses>),
    /// An optional value: present when an answer is stored at the field's path.
    Optional(Option<Box<FieldValue>>),
    /// The responses below the field's path, for a nested type to read.
    Nested(Responses),
}

/// The chosen variants of a multi-select field at `p`: those stored at
/// `p.selected_variants`, or none.
pub open spec fn chosen_items(m: Map<Seq<char>, ValueView>, p: Seq<char>) -> Seq<usize> {
    let k = spec_child(p, SELECTED_VARIANTS_KEY@);
    if m.contains_key(k) && m[k] is ChosenVariants {
        m[k]->ChosenVariants_0
    } else {
        Seq::<usize>::empty()
    }
}

/// The value that the builder assumes for an optional field set to `None`,
/// `false`, stands for `None` when read back, unless the inner type is
/// itself a `bool` (then it is the answer `false`).
pub open spec fn marks_none(inner: FieldType, v: ValueView) -> bool {
    v == ValueView::Bool(false) && !(inner is Bool)
}

/// `r` is the outcome of reading a field of type `ty` at `p` from the
/// responses `m`: a plain value is the one stored at `p` (the read fails, as
/// the typed getters fail, when it is missing or of another kind); a
/// multi-select gives, for its `n`-th chosen item, the responses below
/// `p.n`; an optional value is absent when nothing but an empty text is
/// stored at `p`, or the value assumed for `None` ([`marks_none`]), and else
/// read as its inner type; a nested type gets the responses below `p`.
pub open spec fn field_read(
    ty: FieldType,
    m: Map<Seq<char>, ValueView>,
    p: Seq<char>,
    r: Result<FieldValue, ResponseError>,
) -> bool
    decreases ty,
{
    match ty {
        FieldType::Text => match r {
            Ok(FieldValue::Text(s)) => m.contains_key(p) && m[p] == ValueView::String(s@),
            Ok(_) => false,
            Err(e) => is_read_error(m, p, "String"@, m[p] is String, e),
        },
        FieldType::Bool => match r {
            Ok(FieldValue::Bool(b)) => m.contains_key(p) && m[p] == ValueView::Bool(b),
            Ok(_) => false,
            Err(e) => is_read_error(m, p, "Bool"@, m[p] is Bool, e),
        },
        FieldType::Integer => match r {
            Ok(FieldValue::Int(i)) => m.contains_key(p) && m[p] == ValueView::Int(i),
            Ok(_) => false,
            Err(e) => is_read_error(m, p, "Int"@, m[p] is Int, e),
        },
        FieldType::Float { .. } => match r {
            Ok(FieldValue::Float(f)) => m.contains_key(p) && m[p] == ValueView::Float(f),
            Ok(_) => false,
            Err(e) => is_read_error(m, p, "Float"@, m[p] is Float, e),
        },
        FieldType::Path => match r {
            Ok(FieldValue::Path(s)) => m.contains_key(p) && m[p] == ValueView::String(s@),
            Ok(_) => false,
            Err(e) => is_read_error(m, p, "String"@, m[p] is String, e),
        },
        FieldType::TextList => match r {
            Ok(FieldValue::TextList(v)) => m.contains_key(p) && m[p] == ValueView::StringList(v.deep_view()),
            Ok(_) => false,
            Err(e) => is_read_error(m, p, "StringList"@, m[p] is StringList, e),
        },
        FieldType::IntegerList => match r {
            Ok(FieldValue::IntList(v)) => m.contains_key(p) && m[p] == ValueView::IntList(v@),
            Ok(_) => false,
            Err(e) => is_read_error(m, p, "IntList"@, m[p] is IntList, e),
        },
        FieldType::FloatList { .. } => match r {
            Ok(FieldValue::FloatList(v)) => m.contains_key(p) && m[p] == ValueView::FloatList(v@),
            Ok(_) => false,
            Err(e) => is_read_error(m, p, "FloatList"@, m[p] is FloatList, e),
        },
        FieldType::EnumList(_) => match r {
            Ok(FieldValue::Items(items)) => {
                &&& items@.len() == chosen_items(m, p).len()
                &&& forall|n: int|
                    0 <= n < items@.len() ==> is_filtered(
                        m,
                        spec_child(p, decimal(n as nat)),
                        #[trigger] items@[n]@,
                    )
            },
            _ => false,
        },
        FieldType::Optional(inner) => if spec_has_value(m, p) && !marks_none(*inner, m[p]) {
            match r {
                Ok(FieldValue::Optional(Some(b))) => field_read(*inner, m, p, Ok(*b)),
                Ok(_) => false,
                Err(e) => field_read(*inner, m, p, Err(e)),
            }
        } else {
            r matches Ok(FieldValue::Optional(None))
        },
        FieldType::Nested(_) => match r {
            Ok(FieldValue::Nested(rs)) => is_filtered(m, p, rs@),
            _ => false,
        },
    }
}

fn strings_from(x: &[String]) -> (r: Vec<String>)
    ensures
        r.deep_view() == x.deep_view(),
{
    let mut out: Vec<String> = Vec::new();
    let mut i: usize = 0;
    while i < x.len()
        invariant
            i <= x@.len(),
            out@.len() == i,
            forall|k: int| 0 <= k < i ==> out@[k]@ == x@[k]@,
        decreases x@.len() - i,
    {
        out.push(x[i].clone());
        i = i + 1;
    }
    assert(out.deep_view() =~= x.deep_view());
    out
}

fn copies_from<T: Copy>(x: &[T]) -> (r: Vec<T>)
    ensures
        r@ == x@,
{
    let mut out: Vec<T> = Vec::new();
    let mut i: usize = 0;
    while i < x.len()
        invariant
            i <= x@.len(),
            out@ == x@.take(i as int),
        decreases x@.len() - i,
    {
        out.push(x[i]);
        assert(x@.take(i + 1) =~= x@.take(i as int).push(x@[i as int]));
        i = i + 1;
    }
    assert(x@.take(x@.len() as int) =~= x@);
    out
}

/// The value of a field of type `ty` at `path`, read from `responses`.
pub fn read_field(ty: &FieldType, responses: &Responses, path: &ResponsePath) -> (r: Result<
    FieldValue,
    ResponseError,
>)
    ensures
        field_read(*ty, responses@, path@, r),
    decreases ty,
{
    match ty {
        FieldType::Text => match responses.get_string(path) {
            Ok(s) => Ok(FieldValue::Text(s.to_owned())),
            Err(e) => Err(e),
        },
        FieldType::Bool => match responses.get_bool(path) {
            Ok(b) => Ok(FieldValue::Bool(b)),
            Err(e) => Err(e),
        },
        FieldType::Integer => match responses.get_int(path) {
            Ok(i) => Ok(FieldValue::Int(i)),
            Err(e) => Err(e),
        },
        FieldType::Float { .. } => match responses.get_float(path) {
            Ok(f) => Ok(FieldValue::Float(f)),
            Err(e) => Err(e),
        },
        FieldType::Path => match responses.get_string(path) {
            Ok(s) => Ok(FieldValue::Path(s.to_owned())),
            Err(e) => Err(e),
        },
        FieldType::TextList => match responses.get_string_list(path) {
            Ok(v) => Ok(FieldValue::TextList(strings_from(v))),
            Err(e) => Err(e),
        },
        FieldType::IntegerList => match responses.get_int_list(path) {
            Ok(v) => Ok(FieldValue::IntList(copies_from(v))),
            Err(e) => Err(e),
        },
        FieldType::FloatList { .. } => match responses.get_float_list(path) {
            Ok(v) => Ok(FieldValue::FloatList(copies_from(v))),
            Err(e) => Err(e),
        },
        FieldType::EnumList(_) => {
            let key = path.child(SELECTED_VARIANTS_KEY);
            let count = match responses.get_chosen_variants(&key) {
                Ok(v) => v.len(),
                Err(_) => 0,
            };
            let mut items: Vec<Responses> = Vec::new();
            let mut n: usize = 0;
            while n < count
                invariant
                    n <= count,
                    count == chosen_items(responses@, path@).len(),
                    items@.len() == n,
                    forall|k: int|
                        0 <= k < n ==> is_filtered(
                            responses@,
                            spec_child(path@, decimal(k as nat)),
                            #[trigger] items@[k]@,
                        ),
                decreases count - n,
            {
                let item = path.child(usize_to_text(n).as_str());
                items.push(responses.filter_prefix(&item));
                n = n + 1;
            }
            Ok(FieldValue::Items(items))
        },
        FieldType::Optional(inner) => {
            let none_marker = match responses.get(path) {
                Some(ResponseValue::Bool(b)) => !*b && !matches!(**inner, FieldType::Bool),
                _ => false,
            };
            if responses.has_value(path) && !none_marker {
                match read_field(inner, responses, path) {
                    Ok(v) => Ok(FieldValue::Optional(Some(Box::new(v)))),
                    Err(e) => Err(e),
                }
            } else {
                Ok(FieldValue::Optional(None))
            }
        },
        FieldType::Nested(_) => Ok(FieldValue::Nested(responses.filter_prefix(path))),
    }
}


/// A stored value `v` can be read as a field of type `ty`.
pub open spec fn fits(ty: FieldType, v: ValueView) -> bool
    decreases ty,
{
    match ty {
        FieldType::Text => v is String,
        FieldType::Bool => v is Bool,
        FieldType::Integer => v is Int,
        FieldType::Float { .. } => v is Float,
        FieldType::Path => v is String,
        FieldType::TextList => v is StringList,
        FieldType::IntegerList => v is IntList,
        FieldType::FloatList { .. } => v is FloatList,
        FieldType::EnumList(_) => true,
        FieldType::Optional(inner) => (v matches ValueView::String(s) && s.len() == 0) || marks_none(*inner, v)
            || fits(*inner, v),
        FieldType::Nested(_) => true,
    }
}

/// A field whose stored value fits its type is read without an error.
pub proof fn lemma_fitting_read_succeeds(
    ty: FieldType,
    m: Map<Seq<char>, ValueView>,
    p: Seq<char>,
    r: Result<FieldValue, ResponseError>,
)
    requires
        m.contains_key(p),
        fits(ty, m[p]),
        field_read(ty, m, p, r),
    ensures
        r is Ok,
    decreases ty,
{
    match ty {
        FieldType::Optional(inner) => {
            if spec_has_value(m, p) && !marks_none(*inner, m[p]) {
                if let Err(e) = r {
                    lemma_fitting_read_succeeds(*inner, m, p, Err(e));
                }
            }
        },
        _ => {},
    }
}

/// An optional field whose answer is the value the builder assumes for
/// `None` reads back as absent (but for an optional `bool`, where that value
/// is the answer `false`).
pub proof fn law_assumed_none_reads_absent(
    inner: FieldType,
    m: Map<Seq<char>, ValueView>,
    p: Seq<char>,
    r: Result<FieldValue, ResponseError>,
)
    requires
        m.contains_key(p),
        m[p] == ValueView::Bool(false),
        !(inner is Bool),
        field_read(FieldType::Optional(Box::new(inner)), m, p, r),
    ensures
        r matches Ok(FieldValue::Optional(None)),
{
}

/// The answer that the test backend stores for a single-value question `q`
/// at the top level: the pre-set one, else the assumed default.
pub open spec fn stored_answer(q: Question, tm: Map<Seq<char>, ValueView>) -> ValueView {
    if tm.contains_key(q.path@) {
        tm[q.path@]
    } else {
        q.default@->Assumed_0
    }
}

/// The walk of top-level single-value questions with distinct paths stores,
/// at the path of each question, its pre-set or assumed answer.
proof fn lemma_walk_stores_answers(
    qs: Seq<Question>,
    tm: Map<Seq<char>, ValueView>,
    m: Map<Seq<char>, ValueView>,
    i: int,
)
    requires
        forall|j: int| 0 <= j < qs.len() ==> is_direct(#[trigger] qs[j].kind),
        forall|j: int, k: int| 0 <= j < qs.len() && 0 <= k < qs.len() && j != k
            ==> #[trigger] qs[j].path@ != #[trigger] qs[k].path@,
        walk_list(qs, Seq::<char>::empty(), tm, Map::<Seq<char>, ValueView>::empty()) == Ok::<
            Map<Seq<char>, ValueView>,
            Seq<char>,
        >(m),
        0 <= i < qs.len(),
    ensures
        m.contains_key(qs[i].path@),
        m[qs[i].path@] == stored_answer(qs[i], tm),
    decreases qs.len(),
{
    let e = Seq::<char>::empty();
    let empty = Map::<Seq<char>, ValueView>::empty();
    let last = qs.last();
    let lp = last.path@;
    let ds = qs.drop_last();
    assert(is_direct(last.kind));
    assert(full_path(e, lp) == lp);
    match walk_list(ds, e, tm, empty) {
        Ok(pm) => {
            assert(walk_list(qs, e, tm, empty) == walk_one(last, e, tm, pm));
            if i == qs.len() - 1 {
                if tm.contains_key(lp) {
                    assert(m == pm.insert(lp, tm[lp]));
                } else {
                    assert(last.default@ is Assumed);
                    assert(m == pm.insert(lp, last.default@->Assumed_0));
                }
            } else {
                assert forall|j: int| 0 <= j < ds.len() implies is_direct(#[trigger] ds[j].kind) by {
                    assert(ds[j] == qs[j]);
                }
                assert forall|j: int, k: int| 0 <= j < ds.len() && 0 <= k < ds.len() && j != k
                    implies #[trigger] ds[j].path@ != #[trigger] ds[k].path@ by {
                    assert(ds[j] == qs[j] && ds[k] == qs[k]);
                }
                assert(ds[i] == qs[i]);
                lemma_walk_stores_answers(ds, tm, pm, i);
                assert(qs[i].path@ != lp);
                if tm.contains_key(lp) {
                    assert(m == pm.insert(lp, tm[lp]));
                } else {
                    assert(last.default@ is Assumed);
                    assert(m == pm.insert(lp, last.default@->Assumed_0));
                }
            }
        },
        Err(x) => {
            assert(walk_list(qs, e, tm, empty) == Err::<Map<Seq<char>, ValueView>, Seq<char>>(x));
        },
    }
}

/// What the test backend collects for a survey of plain fields reads back:
/// for a top-level single-value question with a distinct path, whose pre-set
/// or assumed answer fits the field's type, reading the field from the
/// collected responses succeeds and gives that answer's field.
pub proof fn law_collected_field_reads_back(
    qs: Seq<Question>,
    tm: Map<Seq<char>, ValueView>,
    m: Map<Seq<char>, ValueView>,
    i: int,
    ty: FieldType,
    r: Result<FieldValue, ResponseError>,
)
    requires
        forall|j: int| 0 <= j < qs.len() ==> is_direct(#[trigger] qs[j].kind),
        forall|j: int, k: int| 0 <= j < qs.len() && 0 <= k < qs.len() && j != k
            ==> #[trigger] qs[j].path@ != #[trigger] qs[k].path@,
        walk_list(qs, Seq::<char>::empty(), tm, Map::<Seq<char>, ValueView>::empty()) == Ok::<
            Map<Seq<char>, ValueView>,
            Seq<char>,
        >(m),
        0 <= i < qs.len(),
        fits(ty, stored_answer(qs[i], tm)),
        field_read(ty, m, qs[i].path@, r),
    ensures
        m.contains_key(qs[i].path@),
        m[qs[i].path@] == stored_answer(qs[i], tm),
        r is Ok,
{
    lemma_walk_stores_answers(qs, tm, m, i);
    lemma_fitting_read_succeeds(ty, m, qs[i].path@, r);
}

/// The suggestion that a field value of an instance gives: the value itself
/// for text, booleans, numbers and paths; none for lists, optional values,
/// multi-selects and nested types.
pub open spec fn suggestion_of(v: FieldValue) -> Option<ValueView> {
    match v {
        FieldValue::Text(s) => Some(ValueView::String(s@)),
        FieldValue::Bool(b) => Some(ValueView::Bool(b)),
        FieldValue::Int(i) => Some(ValueView::Int(i)),
        FieldValue::Float(f) => Some(ValueView::Float(f)),
        FieldValue::Path(s) => Some(ValueView::String(s@)),
        _ => None,
    }
}

/// The suggestions `m` after those of the fields `fs` (name, value) of an
/// instance, taken in order.
pub open spec fn with_instance(m: Map<Seq<char>, ValueView>, fs: Seq<(String, FieldValue)>) -> Map<
    Seq<char>,
    ValueView,
>
    decreases fs.len(),
{
    if fs.len() == 0 {
        m
    } else {
        let prev = with_instance(m, fs.drop_last());
        match suggestion_of(fs.last().1) {
            Some(v) => prev.insert(fs.last().0@, v),
            None => prev,
        }
    }
}

impl SurveyBuilder {
    /// The same builder, suggesting the values of an existing instance,
    /// given as its fields (name, value): each field of a plain type becomes
    /// the suggested answer at the field's name.
    pub fn with_suggestions(self, instance: Vec<(String, FieldValue)>) -> (r: Self)
        ensures
            r.spec_suggestions() == with_instance(self.spec_suggestions(), instance@),
            r.spec_assumptions() == self.spec_assumptions(),
    {
        let mut b = self;
        let ghost start = b;
        let mut i: usize = 0;
        proof {
            assert(instance@.take(0) =~= Seq::<(String, FieldValue)>::empty());
        }
        while i < instance.len()
            invariant
                i <= instance@.len(),
                b.spec_suggestions() == with_instance(start.spec_suggestions(), instance@.take(i as int)),
                b.spec_assumptions() == start.spec_assumptions(),
            decreases instance@.len() - i,
        {
            proof {
                assert(instance@.take(i + 1).drop_last() =~= instance@.take(i as int));
            }
            let name = instance[i].0.as_str();
            b = match &instance[i].1 {
                FieldValue::Text(s) => b.suggest_value(name, ResponseValue::String(s.clone())),
                FieldValue::Bool(x) => b.suggest_value(name, ResponseValue::Bool(*x)),
                FieldValue::Int(x) => b.suggest_value(name, ResponseValue::Int(*x)),
                FieldValue::Float(x) => b.suggest_value(name, ResponseValue::Float(*x)),
                FieldValue::Path(s) => b.suggest_value(name, ResponseValue::String(s.clone())),
                _ => b,
            };
            i = i + 1;
        }
        proof {
            assert(instance@.take(instance@.len() as int) =~= instance@);
        }
        b
    }
}

} // verus!
