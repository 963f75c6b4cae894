//! Names derived from identifiers: snake case, capitalisation, title case.
use vstd::prelude::*;
use crate::text::{push_char, split_seq, split_text};

verus! {

/// Whether `c` has the Unicode `Uppercase` property (`char::is_uppercase`).
pub uninterp spec fn char_is_uppercase(c: char) -> bool;

/// The first character of the lowercase mapping of `c` (`char::to_lowercase`).
pub uninterp spec fn char_lower_first(c: char) -> char;

/// The uppercase mapping of `c` (`char::to_uppercase`), one or more characters.
pub uninterp spec fn char_upper(c: char) -> Seq<char>;

/// `char::is_uppercase`.
#[verifier::external_body]
fn is_uppercase(c: char) -> (r: bool)
    ensures
        r == char_is_uppercase(c),
{
    c.is_uppercase()
}

/// The first character that `char::to_lowercase` yields (it yields at least one).
#[verifier::external_body]
fn lower_first(c: char) -> (r: char)
    ensures
        r == char_lower_first(c),
{
    c.to_lowercase().next().unwrap_or(c)
}

/// `char::to_uppercase`, collected into a string.
#[verifier::external_body]
fn upper(c: char) -> (r: String)
    ensures
        r@ == char_upper(c),
{
    c.to_uppercase().collect()
}

/// `s` in snake case: each uppercase character becomes its lowercase form,
/// preceded by `_` unless it is the first character.
pub open spec fn spec_snake_case(s: Seq<char>) -> Seq<char>
    decreases s.len(),
{
    if s.len() == 0 {
        Seq::<char>::empty()
    } else {
        let prev = spec_snake_case(s.drop_last());
        let c = s.last();
        if char_is_uppercase(c) {
            if s.len() > 1 {
                prev.push('_').push(char_lower_first(c))
            } else {
                prev.push(char_lower_first(c))
            }
        } else {
            prev.push(c)
        }
    }
}

/// `s` with its first character in uppercase.
pub open spec fn spec_capitalize_first(s: Seq<char>) -> Seq<char> {
    if s.len() == 0 {
        Seq::<char>::empty()
    } else {
        char_upper(s[0]) + s.skip(1)
    }
}

/// The words `ws`, each capitalised, joined by spaces.
pub open spec fn spec_join_capitalized(ws: Seq<Seq<char>>) -> Seq<char>
    decreases ws.len(),
{
    if ws.len() == 0 {
        Seq::<char>::empty()
    } else if ws.len() == 1 {
        spec_capitalize_first(ws[0])
    } else {
        spec_join_capitalized(ws.drop_last()) + seq![' '] + spec_capitalize_first(ws.last())
    }
}

/// A field name like `user_name` as a title like `User Name`: the words
/// between underscores, each capitalised, joined by spaces.
pub open spec fn spec_title_case(name: Seq<char>) -> Seq<char> {
    spec_join_capitalized(split_seq(name, '_'))
}

/// Convert CamelCase to snake_case.
pub fn to_snake_case(s: &str) -> (r: String)
    ensures
        r@ == spec_snake_case(s@),
{
    let n = s.unicode_len();
    let mut out = String::new();
    let mut i: usize = 0;
    proof {
        assert(s@.take(0) =~= Seq::<char>::empty());
    }
    while i < n
        invariant
            n == s@.len(),
            i <= n,
            out@ == spec_snake_case(s@.take(i as int)),
        decreases n - i,
    {
        proof {
            assert(s@.take(i + 1).drop_last() =~= s@.take(i as int));
        }
        let c = s.get_char(i);
        if is_uppercase(c) {
            if i > 0 {
                push_char(&mut out, '_');
            }
            push_char(&mut out, lower_first(c));
        } else {
            push_char(&mut out, c);
        }
        i = i + 1;
    }
    proof {
        assert(s@.take(n as int) =~= s@);
    }
    out
}

/// Capitalize the first letter.
pub fn capitalize_first(s: &str) -> (r: String)
    ensures
        r@ == spec_capitalize_first(s@),
{
    let n = s.unicode_len();
    if n == 0 {
        return String::new();
    }
    let mut out = upper(s.get_char(0));
    out.append(s.substring_char(1, n));
    assert(s@.subrange(1, n as int) =~= s@.skip(1));
    out
}

/// A field name like `user_name` as a title like `User Name`.
pub fn title_case(name: &str) -> (r: String)
    ensures
        r@ == spec_title_case(name@),
{
    let words = split_text(name, '_');
    let mut out = String::new();
    let mut i: usize = 0;
    proof {
        assert(words.deep_view().take(0) =~= Seq::<Seq<char>>::empty());
    }
    while i < words.len()
        invariant
            i <= words@.len(),
            out@ == spec_join_capitalized(words.deep_view().take(i as int)),
        decreases words@.len() - i,
    {
        proof {
            assert(words.deep_view().take(i + 1).drop_last() =~= words.deep_view().take(i as int));
            assert(words.deep_view()[i as int] == words@[i as int]@);
        }
        if i > 0 {
            push_char(&mut out, ' ');
        }
        let w = capitalize_first(words[i]);
        out.append(w.as_str());
        proof {
            if i == 0 {
                assert(out@ =~= spec_join_capitalized(words.deep_view().take(1)));
            }
        }
        i = i + 1;
    }
    proof {
        assert(words.deep_view().take(words@.len() as int) =~= words.deep_view());
    }
    out
}

} // verus!
