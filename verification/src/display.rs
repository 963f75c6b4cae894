//! Texts that the terminal wizard shows beside a question: the bounds hint
//! of a number input and the masked form of a password.
use vstd::prelude::*;
use crate::text::{i64_to_text, push_char, signed_decimal};

verus! {

/// The bounds hint for the bound texts `min` and `max`: nothing without
/// bounds, else ` (min: A)`, ` (max: B)` or ` (min: A, max: B)`.
pub open spec fn spec_bounds_hint(min: Option<Seq<char>>, max: Option<Seq<char>>) -> Seq<char> {
    match (min, max) {
        (None, None) => Seq::<char>::empty(),
        (Some(a), None) => " (min: "@ + a + ")"@,
        (None, Some(b)) => " (max: "@ + b + ")"@,
        (Some(a), Some(b)) => " (min: "@ + a + ", max: "@ + b + ")"@,
    }
}

/// The view of an optional text.
pub open spec fn opt_view(s: Option<String>) -> Option<Seq<char>> {
    match s {
        Some(t) => Some(t@),
        None => None,
    }
}

/// The bounds hint for bounds already written as text.
pub fn bounds_hint(min: Option<String>, max: Option<String>) -> (r: String)
    ensures
        r@ == spec_bounds_hint(opt_view(min), opt_view(max)),
{
    proof {
        reveal_strlit(" (min: ");
        reveal_strlit(" (max: ");
        reveal_strlit(", max: ");
        reveal_strlit(")");
    }
    match (min, max) {
        (None, None) => String::new(),
        (Some(a), None) => {
            let mut m = " (min: ".to_owned();
            m.append(a.as_str());
            m.append(")");
            m
        },
        (None, Some(b)) => {
            let mut m = " (max: ".to_owned();
            m.append(b.as_str());
            m.append(")");
            m
        },
        (Some(a), Some(b)) => {
            let mut m = " (min: ".to_owned();
            m.append(a.as_str());
            m.append(", max: ");
            m.append(b.as_str());
            m.append(")");
            m
        },
    }
}

/// The bounds hint of an integer input, its bounds written in decimal.
pub fn int_bounds_hint(min: Option<i64>, max: Option<i64>) -> (r: String)
    ensures
        r@ == spec_bounds_hint(
            match min {
                Some(a) => Some(signed_decimal(a as int)),
                None => None,
            },
            match max {
                Some(b) => Some(signed_decimal(b as int)),
                None => None,
            },
        ),
{
    let lo = match min {
        Some(a) => Some(i64_to_text(a)),
        None => None,
    };
    let hi = match max {
        Some(b) => Some(i64_to_text(b)),
        None => None,
    };
    bounds_hint(lo, hi)
}

/// The character a password input shows for each typed character.
pub open spec fn mask_char() -> char {
    '●'
}

/// What a password input shows for the typed text `input`: one mask
/// character per typed character.
pub fn masked(input: &str) -> (r: String)
    ensures
        r@.len() == input@.len(),
        forall|i: int| 0 <= i < r@.len() ==> r@[i] == mask_char(),
{
    let n = input.unicode_len();
    let mut out = String::new();
    let mut i: usize = 0;
    while i < n
        invariant
            i <= n,
            n == input@.len(),
            out@.len() == i,
            forall|j: int| 0 <= j < out@.len() ==> out@[j] == mask_char(),
        decreases n - i,
    {
        push_char(&mut out, '●');
        i = i + 1;
    }
    out
}

} // verus!
