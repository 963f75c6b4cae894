//! The values that answers to survey questions take.
use vstd::prelude::*;
use vstd::std_specs::convert::FromSpecImpl;

verus! {

/// The mathematical content of a [`ResponseValue`].
pub enum ValueView {
    String(Seq<char>),
    Int(i64),
    Float(u64),
    Bool(bool),
    ChosenVariant(usize),
    ChosenVariants(Seq<usize>),
    StringList(Seq<Seq<char>>),
    IntList(Seq<i64>),
    FloatList(Seq<u64>),
}

/// A single response value collected from a survey.
///
/// Floating-point answers are carried as the IEEE-754 bit pattern of the
/// `f64` (`f64::to_bits`); the library compares and stores them, it never
/// computes with them.
#[derive(Debug)]
pub enum ResponseValue {
    /// A string value (from Input, Multiline, or Masked questions).
    String(String),
    /// An integer value (from Int questions).
    Int(i64),
    /// A floating-point value (from Float questions), as its bit pattern.
    Float(u64),
    /// A boolean value (from Confirm questions).
    Bool(bool),
    /// The index of the chosen variant in a OneOf question.
    ChosenVariant(usize),
    /// The indices of chosen variants in an AnyOf question.
    ChosenVariants(Vec<usize>),
    /// A list of strings (from List questions of strings).
    StringList(Vec<String>),
    /// A list of integers (from List questions of integers).
    IntList(Vec<i64>),
    /// A list of floating-point values, as bit patterns.
    FloatList(Vec<u64>),
}

impl View for ResponseValue {
    type V = ValueView;

    open spec fn view(&self) -> ValueView {
        match self {
            ResponseValue::String(s) => ValueView::String(s@),
            ResponseValue::Int(i) => ValueView::Int(*i),
            ResponseValue::Float(f) => ValueView::Float(*f),
            ResponseValue::Bool(b) => ValueView::Bool(*b),
            ResponseValue::ChosenVariant(i) => ValueView::ChosenVariant(*i),
            ResponseValue::ChosenVariants(v) => ValueView::ChosenVariants(v@),
            ResponseValue::StringList(v) => ValueView::StringList(v.deep_view()),
            ResponseValue::IntList(v) => ValueView::IntList(v@),
            ResponseValue::FloatList(v) => ValueView::FloatList(v@),
        }
    }
}

/// The name of the kind of a value, as error messages print it.
pub open spec fn spec_kind_name(v: ValueView) -> Seq<char> {
    match v {
        ValueView::String(_) => "String"@,
        ValueView::Int(_) => "Int"@,
        ValueView::Float(_) => "Float"@,
        ValueView::Bool(_) => "Bool"@,
        ValueView::ChosenVariant(_) => "ChosenVariant"@,
        ValueView::ChosenVariants(_) => "ChosenVariants"@,
        ValueView::StringList(_) => "StringList"@,
        ValueView::IntList(_) => "IntList"@,
        ValueView::FloatList(_) => "FloatList"@,
    }
}

/// A copy of a list of copyable items.
pub fn copy_vec<T: Copy>(v: &Vec<T>) -> (r: Vec<T>)
    ensures
        r@ == v@,
{
    let mut out: Vec<T> = Vec::new();
    let mut i: usize = 0;
    while i < v.len()
        invariant
            i <= v.len(),
            out@ == v@.take(i as int),
        decreases v.len() - i,
    {
        out.push(v[i]);
        proof {
            assert(v@.take(i + 1) =~= v@.take(i as int).push(v@[i as int]));
        }
        i = i + 1;
    }
    assert(v@.take(v.len() as int) =~= v@);
    out
}

/// A copy of a list of strings.
pub fn copy_strings(v: &Vec<String>) -> (r: Vec<String>)
    ensures
        r.deep_view() == v.deep_view(),
{
    let mut out: Vec<String> = Vec::new();
    let mut i: usize = 0;
    while i < v.len()
        invariant
            i <= v.len(),
            out.deep_view() == v.deep_view().take(i as int),
        decreases v.len() - i,
    {
        out.push(v[i].clone());
        proof {
            assert(v.deep_view().take(i + 1) =~= v.deep_view().take(i as int).push(v@[i as int]@));
            assert(out.deep_view() =~= v.deep_view().take(i + 1));
        }
        i = i + 1;
    }
    assert(v.deep_view().take(v.len() as int) =~= v.deep_view());
    out
}

impl Clone for ResponseValue {
    fn clone(&self) -> (r: Self)
        ensures
            r@ == self@,
    {
        match self {
            ResponseValue::String(s) => ResponseValue::String(s.clone()),
            ResponseValue::Int(i) => ResponseValue::Int(*i),
            ResponseValue::Float(f) => ResponseValue::Float(*f),
            ResponseValue::Bool(b) => ResponseValue::Bool(*b),
            ResponseValue::ChosenVariant(i) => ResponseValue::ChosenVariant(*i),
            ResponseValue::ChosenVariants(v) => ResponseValue::ChosenVariants(copy_vec(v)),
            ResponseValue::StringList(v) => ResponseValue::StringList(copy_strings(v)),
            ResponseValue::IntList(v) => ResponseValue::IntList(copy_vec(v)),
            ResponseValue::FloatList(v) => ResponseValue::FloatList(copy_vec(v)),
        }
    }
}

impl From<String> for ResponseValue {
    fn from(s: String) -> (r: Self) {
        ResponseValue::String(s)
    }
}

impl FromSpecImpl<String> for ResponseValue {
    open spec fn obeys_from_spec() -> bool {
        true
    }

    open spec fn from_spec(s: String) -> Self {
        ResponseValue::String(s)
    }
}

impl From<&str> for ResponseValue {
    fn from(s: &str) -> (r: Self)
        ensures
            r@ == ValueView::String(s@),
    {
        ResponseValue::from_str(s)
    }
}

/// A `String` is not determined by its characters in the specifications, so
/// the value of `from` is stated by its view, in its own `ensures`.
impl FromSpecImpl<&str> for ResponseValue {
    open spec fn obeys_from_spec() -> bool {
        false
    }

    open spec fn from_spec(s: &str) -> Self {
        ResponseValue::String(choose|t: String| t@ == s@)
    }
}

impl From<i64> for ResponseValue {
    fn from(i: i64) -> (r: Self) {
        ResponseValue::Int(i)
    }
}

impl FromSpecImpl<i64> for ResponseValue {
    open spec fn obeys_from_spec() -> bool {
        true
    }

    open spec fn from_spec(i: i64) -> Self {
        ResponseValue::Int(i)
    }
}

impl From<i32> for ResponseValue {
    fn from(i: i32) -> (r: Self) {
        ResponseValue::Int(i as i64)
    }
}

impl FromSpecImpl<i32> for ResponseValue {
    open spec fn obeys_from_spec() -> bool {
        true
    }

    open spec fn from_spec(i: i32) -> Self {
        ResponseValue::Int(i as i64)
    }
}

impl From<bool> for ResponseValue {
    fn from(b: bool) -> (r: Self) {
        ResponseValue::Bool(b)
    }
}

impl FromSpecImpl<bool> for ResponseValue {
    open spec fn obeys_from_spec() -> bool {
        true
    }

    open spec fn from_spec(b: bool) -> Self {
        ResponseValue::Bool(b)
    }
}

impl From<Vec<usize>> for ResponseValue {
    fn from(indices: Vec<usize>) -> (r: Self) {
        ResponseValue::ChosenVariants(indices)
    }
}

impl FromSpecImpl<Vec<usize>> for ResponseValue {
    open spec fn obeys_from_spec() -> bool {
        true
    }

    open spec fn from_spec(indices: Vec<usize>) -> Self {
        ResponseValue::ChosenVariants(indices)
    }
}

impl ResponseValue {
    /// A string value holding a copy of `s`.
    pub fn from_str(s: &str) -> (r: Self)
        ensures
            r@ == ValueView::String(s@),
    {
        ResponseValue::String(s.to_owned())
    }

    /// An integer value widened from a 32-bit integer.
    pub fn from_i32(i: i32) -> (r: Self)
        ensures
            r@ == ValueView::Int(i as i64),
    {
        ResponseValue::Int(i as i64)
    }

    /// The string, if this is a string value.
    pub fn as_str(&self) -> (r: Option<&str>)
        ensures
            match self@ {
                ValueView::String(s) => r is Some && r->0@ == s,
                _ => r is None,
            },
    {
        match self {
            ResponseValue::String(s) => Some(s.as_str()),
            _ => None,
        }
    }

    /// The integer, if this is an integer value.
    pub fn as_int(&self) -> (r: Option<i64>)
        ensures
            r == (match self@ {
                ValueView::Int(i) => Some(i),
                _ => None,
            }),
    {
        match self {
            ResponseValue::Int(i) => Some(*i),
            _ => None,
        }
    }

    /// The bit pattern of the number, if this is a floating-point value.
    pub fn as_float(&self) -> (r: Option<u64>)
        ensures
            r == (match self@ {
                ValueView::Float(f) => Some(f),
                _ => None,
            }),
    {
        match self {
            ResponseValue::Float(f) => Some(*f),
            _ => None,
        }
    }

    /// The boolean, if this is a boolean value.
    pub fn as_bool(&self) -> (r: Option<bool>)
        ensures
            r == (match self@ {
                ValueView::Bool(b) => Some(b),
                _ => None,
            }),
    {
        match self {
            ResponseValue::Bool(b) => Some(*b),
            _ => None,
        }
    }

    /// The variant index, if this is a chosen variant.
    pub fn as_chosen_variant(&self) -> (r: Option<usize>)
        ensures
            r == (match self@ {
                ValueView::ChosenVariant(i) => Some(i),
                _ => None,
            }),
    {
        match self {
            ResponseValue::ChosenVariant(i) => Some(*i),
            _ => None,
        }
    }

    /// The variant indices, if this is a set of chosen variants.
    pub fn as_chosen_variants(&self) -> (r: Option<&[usize]>)
        ensures
            match self@ {
                ValueView::ChosenVariants(v) => r is Some && r->0@ == v,
                _ => r is None,
            },
    {
        match self {
            ResponseValue::ChosenVariants(v) => Some(v.as_slice()),
            _ => None,
        }
    }

    /// The name of the kind of this value, for error messages.
    pub fn kind_name(&self) -> (r: &'static str)
        ensures
            r@ == spec_kind_name(self@),
    {
        match self {
            ResponseValue::String(_) => "String",
            ResponseValue::Int(_) => "Int",
            ResponseValue::Float(_) => "Float",
            ResponseValue::Bool(_) => "Bool",
            ResponseValue::ChosenVariant(_) => "ChosenVariant",
            ResponseValue::ChosenVariants(_) => "ChosenVariants",
            ResponseValue::StringList(_) => "StringList",
            ResponseValue::IntList(_) => "IntList",
            ResponseValue::FloatList(_) => "FloatList",
        }
    }
}

} // verus!
