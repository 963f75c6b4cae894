//! Character-level helpers on strings, stated over their `Seq<char>` views.
use vstd::prelude::*;

verus! {

/// The pieces of `s` between occurrences of `sep`, read left to right.
/// An empty text gives one empty piece; every separator starts a new piece.
pub open spec fn split_seq(s: Seq<char>, sep: char) -> Seq<Seq<char>>
    decreases s.len(),
{
    if s.len() == 0 {
        seq![Seq::<char>::empty()]
    } else {
        let prev = split_seq(s.drop_last(), sep);
        if s.last() == sep {
            prev.push(Seq::<char>::empty())
        } else {
            prev.update(prev.len() - 1, prev.last().push(s.last()))
        }
    }
}

/// The pieces of `pieces` that are not empty, in order.
pub open spec fn drop_empty(pieces: Seq<Seq<char>>) -> Seq<Seq<char>>
    decreases pieces.len(),
{
    if pieces.len() == 0 {
        Seq::<Seq<char>>::empty()
    } else {
        let rest = drop_empty(pieces.drop_last());
        if pieces.last().len() > 0 {
            rest.push(pieces.last())
        } else {
            rest
        }
    }
}

/// Index of the last occurrence of `c` in `s`, or -1 when there is none.
pub open spec fn last_index_of(s: Seq<char>, c: char) -> int
    decreases s.len(),
{
    if s.len() == 0 {
        -1
    } else if s.last() == c {
        s.len() - 1
    } else {
        last_index_of(s.drop_last(), c)
    }
}

/// Number of occurrences of `c` in `s`.
pub open spec fn count_char(s: Seq<char>, c: char) -> nat
    decreases s.len(),
{
    if s.len() == 0 {
        0
    } else {
        count_char(s.drop_last(), c) + if s.last() == c { 1nat } else { 0nat }
    }
}

/// `prefix` is an initial part of `s`.
pub open spec fn is_prefix(prefix: Seq<char>, s: Seq<char>) -> bool {
    prefix.len() <= s.len() && s.take(prefix.len() as int) == prefix
}

pub proof fn lemma_split_nonempty(s: Seq<char>, sep: char)
    ensures
        split_seq(s, sep).len() >= 1,
        split_seq(s, sep).len() == count_char(s, sep) + 1,
    decreases s.len(),
{
    if s.len() > 0 {
        lemma_split_nonempty(s.drop_last(), sep);
    }
}

pub proof fn lemma_last_index_bounds(s: Seq<char>, c: char)
    ensures
        -1 <= last_index_of(s, c) < s.len(),
        last_index_of(s, c) >= 0 ==> s[last_index_of(s, c)] == c,
        forall|j: int| last_index_of(s, c) < j < s.len() ==> s[j] != c,
    decreases s.len(),
{
    if s.len() > 0 {
        lemma_last_index_bounds(s.drop_last(), c);
        assert forall|j: int| last_index_of(s, c) < j < s.len() implies s[j] != c by {
            if j < s.len() - 1 {
                assert(s.drop_last()[j] == s[j]);
            }
        }
    }
}

/// Whether two texts hold the same characters.
pub fn str_eq(a: &str, b: &str) -> (r: bool)
    ensures
        r == (a@ == b@),
{
    let n = a.unicode_len();
    let m = b.unicode_len();
    if n != m {
        return false;
    }
    let mut i: usize = 0;
    while i < n
        invariant
            n == a@.len(),
            m == b@.len(),
            n == m,
            i <= n,
            forall|j: int| 0 <= j < i ==> a@[j] == b@[j],
        decreases n - i,
    {
        if a.get_char(i) != b.get_char(i) {
            return false;
        }
        i = i + 1;
    }
    assert(a@ =~= b@);
    true
}

/// Whether `s` begins with the characters of `prefix`.
pub fn starts_with(s: &str, prefix: &str) -> (r: bool)
    ensures
        r == is_prefix(prefix@, s@),
{
    let n = s.unicode_len();
    let m = prefix.unicode_len();
    if m > n {
        return false;
    }
    let mut i: usize = 0;
    while i < m
        invariant
            n == s@.len(),
            m == prefix@.len(),
            m <= n,
            i <= m,
            forall|j: int| 0 <= j < i ==> s@[j] == prefix@[j],
        decreases m - i,
    {
        if s.get_char(i) != prefix.get_char(i) {
            assert(s@.take(m as int)[i as int] != prefix@[i as int]);
            return false;
        }
        i = i + 1;
    }
    assert(s@.take(m as int) =~= prefix@);
    true
}

/// Index of the last occurrence of `c` in `s`, if any.
pub fn rfind_char(s: &str, c: char) -> (r: Option<usize>)
    ensures
        match r {
            Some(k) => k == last_index_of(s@, c),
            None => last_index_of(s@, c) == -1,
        },
{
    let n = s.unicode_len();
    let mut found: Option<usize> = None;
    let mut i: usize = 0;
    while i < n
        invariant
            n == s@.len(),
            i <= n,
            match found {
                Some(k) => k == last_index_of(s@.take(i as int), c),
                None => last_index_of(s@.take(i as int), c) == -1,
            },
        decreases n - i,
    {
        assert(s@.take(i + 1).drop_last() =~= s@.take(i as int));
        if s.get_char(i) == c {
            found = Some(i);
        }
        i = i + 1;
    }
    assert(s@.take(n as int) =~= s@);
    found
}

/// An owned copy of the characters `from..to` of `s`.
pub fn substring(s: &str, from: usize, to: usize) -> (r: String)
    requires
        from <= to <= s@.len(),
    ensures
        r@ == s@.subrange(from as int, to as int),
{
    s.substring_char(from, to).to_owned()
}

/// `a`, then `sep`, then `b`.
pub fn join3(a: &str, sep: &str, b: &str) -> (r: String)
    ensures
        r@ == a@ + sep@ + b@,
{
    let mut out = a.to_owned();
    out.append(sep);
    out.append(b);
    out
}

} // verus!

verus! {

/// The decimal digit character for `d` (below ten).
pub open spec fn digit_char(d: nat) -> char {
    (48 + d) as char
}

/// The decimal numeral of `n`, without leading zeros.
pub open spec fn decimal(n: nat) -> Seq<char>
    decreases n,
{
    if n < 10 {
        seq![digit_char(n)]
    } else {
        decimal(n / 10).push(digit_char(n % 10))
    }
}

/// The decimal numeral of `i`, with a leading `-` when it is negative.
pub open spec fn signed_decimal(i: int) -> Seq<char> {
    if i < 0 {
        seq!['-'] + decimal((-i) as nat)
    } else {
        decimal(i as nat)
    }
}

/// The digit character of `d`, which is below ten.
fn digit_of(d: u64) -> (c: char)
    requires
        d < 10,
    ensures
        c == digit_char(d as nat),
{
    let b: u8 = 48u8 + (d as u8);
    b as char
}

/// The decimal numeral of `n`, as `u64`'s `Display` writes it.
pub(crate) fn u64_to_text(n: u64) -> (r: String)
    ensures
        r@ == decimal(n as nat),
    decreases n,
{
    if n < 10 {
        let mut out = String::new();
        push_char(&mut out, digit_of(n));
        out
    } else {
        let mut out = u64_to_text(n / 10);
        push_char(&mut out, digit_of(n % 10));
        out
    }
}

/// The decimal numeral of `n`, as `usize`'s `Display` writes it.
pub(crate) fn usize_to_text(n: usize) -> (r: String)
    ensures
        r@ == decimal(n as nat),
{
    u64_to_text(n as u64)
}

/// The decimal numeral of `i`, signed, as `i64`'s `Display` writes it.
pub(crate) fn i64_to_text(i: i64) -> (r: String)
    ensures
        r@ == signed_decimal(i as int),
{
    if i < 0 {
        let magnitude: u64 = ((-(i + 1)) as u64) + 1;
        let digits = u64_to_text(magnitude);
        let mut out = String::new();
        push_char(&mut out, '-');
        out.append(digits.as_str());
        assert(out@ =~= seq!['-'] + decimal((-i) as nat));
        out
    } else {
        u64_to_text(i as u64)
    }
}

} // verus!

verus! {

/// `String::push`: appends one character.
#[verifier::external_body]
pub(crate) fn push_char(s: &mut String, c: char)
    ensures
        final(s)@ == old(s)@.push(c),
{
    s.push(c);
}

/// All the pieces of `s` between occurrences of `sep`, empty ones included.
pub fn split_text(s: &str, sep: char) -> (r: Vec<&str>)
    ensures
        r.deep_view() == split_seq(s@, sep),
{
    let n = s.unicode_len();
    let mut out: Vec<&str> = Vec::new();
    let mut start: usize = 0;
    let mut i: usize = 0;
    proof {
        assert(s@.take(0) =~= Seq::<char>::empty());
    }
    while i < n
        invariant
            n == s@.len(),
            start <= i <= n,
            out.deep_view() == split_seq(s@.take(i as int), sep).drop_last(),
            s@.subrange(start as int, i as int) == split_seq(s@.take(i as int), sep).last(),
        decreases n - i,
    {
        proof {
            assert(s@.take(i + 1).drop_last() =~= s@.take(i as int));
            lemma_split_nonempty(s@.take(i as int), sep);
        }
        let c = s.get_char(i);
        let ghost prev = split_seq(s@.take(i as int), sep);
        if c == sep {
            let piece = s.substring_char(start, i);
            out.push(piece);
            proof {
                assert(split_seq(s@.take(i + 1), sep) == prev.push(Seq::<char>::empty()));
                assert(prev.push(Seq::<char>::empty()).drop_last() =~= prev);
                assert(out.deep_view() =~= prev.drop_last().push(prev.last()));
                assert(prev =~= prev.drop_last().push(prev.last()));
                assert(s@.subrange(i + 1, i + 1) =~= Seq::<char>::empty());
            }
            start = i + 1;
        } else {
            proof {
                let next = split_seq(s@.take(i + 1), sep);
                assert(next == prev.update(prev.len() - 1, prev.last().push(c)));
                assert(next.drop_last() =~= prev.drop_last());
                assert(s@.subrange(start as int, i + 1) =~= prev.last().push(c));
            }
        }
        i = i + 1;
    }
    proof {
        assert(s@.take(n as int) =~= s@);
        lemma_split_nonempty(s@, sep);
    }
    let ghost whole = split_seq(s@, sep);
    let piece = s.substring_char(start, n);
    out.push(piece);
    proof {
        assert(whole =~= whole.drop_last().push(whole.last()));
        assert(out.deep_view() =~= whole);
    }
    out
}

} // verus!

verus! {

/// Whether `c` has Unicode's White_Space property, as `char::is_whitespace`
/// tests: the ASCII tab, line feed, vertical tab, form feed, carriage return
/// and space, and U+0085, U+00A0, U+1680, U+2000 to U+200A, U+2028, U+2029,
/// U+202F, U+205F and U+3000.
pub open spec fn char_is_whitespace(c: char) -> bool {
    let u = c as u32;
    (0x9 <= u <= 0xD) || u == 0x20 || u == 0x85 || u == 0xA0 || u == 0x1680
        || (0x2000 <= u <= 0x200A) || u == 0x2028 || u == 0x2029 || u == 0x202F
        || u == 0x205F || u == 0x3000
}

/// Whether `c` is white space (see [`char_is_whitespace`]).
pub(crate) fn is_whitespace(c: char) -> (r: bool)
    ensures
        r == char_is_whitespace(c),
{
    let u = c as u32;
    (0x9 <= u && u <= 0xD) || u == 0x20 || u == 0x85 || u == 0xA0 || u == 0x1680
        || (0x2000 <= u && u <= 0x200A) || u == 0x2028 || u == 0x2029 || u == 0x202F
        || u == 0x205F || u == 0x3000
}

/// `s` without leading and trailing white space.
pub open spec fn spec_trim(s: Seq<char>) -> Seq<char>
    decreases s.len(),
{
    if s.len() == 0 {
        s
    } else if char_is_whitespace(s[0]) {
        spec_trim(s.skip(1))
    } else if char_is_whitespace(s.last()) {
        spec_trim(s.drop_last())
    } else {
        s
    }
}

proof fn lemma_trim_tail(t: Seq<char>, b: int)
    requires
        0 <= b <= t.len(),
        t.len() > 0 ==> b > 0,
        b > 0 ==> !char_is_whitespace(t[0]) && !char_is_whitespace(t[b - 1]),
        forall|j: int| b <= j < t.len() ==> char_is_whitespace(t[j]),
    ensures
        spec_trim(t) == t.take(b),
    decreases t.len() - b,
{
    if t.len() == 0 {
        assert(t.take(b) =~= t);
    } else if b == t.len() {
        assert(t.take(b) =~= t);
        assert(t.last() == t[b - 1]);
    } else {
        let u = t.drop_last();
        assert(t.last() == t[t.len() - 1]);
        assert(u.take(b) =~= t.take(b));
        assert forall|j: int| b <= j < u.len() implies char_is_whitespace(u[j]) by {
            assert(u[j] == t[j]);
        }
        lemma_trim_tail(u, b);
    }
}

proof fn lemma_trim_head(s: Seq<char>, a: int, b: int)
    requires
        0 <= a <= b <= s.len(),
        forall|j: int| 0 <= j < a ==> char_is_whitespace(s[j]),
        a < b ==> !char_is_whitespace(s[a]) && !char_is_whitespace(s[b - 1]),
        a == b ==> forall|j: int| a <= j < s.len() ==> char_is_whitespace(s[j]),
        forall|j: int| b <= j < s.len() ==> char_is_whitespace(s[j]),
    ensures
        spec_trim(s) == s.subrange(a, b),
    decreases a,
{
    if a > 0 {
        let t = s.skip(1);
        assert forall|j: int| 0 <= j < a - 1 implies char_is_whitespace(t[j]) by {
            assert(t[j] == s[j + 1]);
        }
        assert forall|j: int| b - 1 <= j < t.len() implies char_is_whitespace(t[j]) by {
            assert(t[j] == s[j + 1]);
        }
        if a < b {
            assert(t[a - 1] == s[a] && t[b - 2] == s[b - 1]);
        } else {
            assert forall|j: int| a - 1 <= j < t.len() implies char_is_whitespace(t[j]) by {
                assert(t[j] == s[j + 1]);
            }
        }
        lemma_trim_head(t, a - 1, b - 1);
        assert(t.subrange(a - 1, b - 1) =~= s.subrange(a, b));
    } else {
        if a == b {
            lemma_trim_all_space(s);
            assert(s.subrange(a, b) =~= Seq::<char>::empty());
        } else {
            lemma_trim_tail(s, b);
            assert(s.take(b) =~= s.subrange(0, b));
        }
    }
}

proof fn lemma_trim_all_space(s: Seq<char>)
    requires
        forall|j: int| 0 <= j < s.len() ==> char_is_whitespace(s[j]),
    ensures
        spec_trim(s) == Seq::<char>::empty(),
    decreases s.len(),
{
    if s.len() > 0 {
        let t = s.skip(1);
        assert forall|j: int| 0 <= j < t.len() implies char_is_whitespace(t[j]) by {
            assert(t[j] == s[j + 1]);
        }
        lemma_trim_all_space(t);
    }
}

/// `s` without leading and trailing white space (`str::trim`).
pub fn trim(s: &str) -> (r: String)
    ensures
        r@ == spec_trim(s@),
{
    let n = s.unicode_len();
    let mut a: usize = 0;
    while a < n && is_whitespace(s.get_char(a))
        invariant
            n == s@.len(),
            a <= n,
            forall|j: int| 0 <= j < a ==> char_is_whitespace(s@[j]),
        decreases n - a,
    {
        a = a + 1;
    }
    let mut b: usize = n;
    while b > a && is_whitespace(s.get_char(b - 1))
        invariant
            n == s@.len(),
            a <= b <= n,
            forall|j: int| b <= j < n ==> char_is_whitespace(s@[j]),
        decreases b,
    {
        b = b - 1;
    }
    proof {
        if a < b {
            assert(!char_is_whitespace(s@[a as int]));
        } else {
            assert forall|j: int| a <= j < n implies char_is_whitespace(s@[j]) by {
                assert(b <= j);
            }
        }
        lemma_trim_head(s@, a as int, b as int);
    }
    substring(s, a, b)
}

/// Whether `c` separates the items of a list answer.
pub open spec fn is_list_sep(c: char) -> bool {
    c == ',' || c == '\n'
}

/// The pieces of `s` between list separators (`,` or a newline).
pub open spec fn split_list(s: Seq<char>) -> Seq<Seq<char>>
    decreases s.len(),
{
    if s.len() == 0 {
        seq![Seq::<char>::empty()]
    } else {
        let prev = split_list(s.drop_last());
        if is_list_sep(s.last()) {
            prev.push(Seq::<char>::empty())
        } else {
            prev.update(prev.len() - 1, prev.last().push(s.last()))
        }
    }
}

proof fn lemma_split_list_nonempty(s: Seq<char>)
    ensures
        split_list(s).len() >= 1,
    decreases s.len(),
{
    if s.len() > 0 {
        lemma_split_list_nonempty(s.drop_last());
    }
}

/// The trimmed pieces that are not empty.
pub open spec fn kept_items(pieces: Seq<Seq<char>>) -> Seq<Seq<char>>
    decreases pieces.len(),
{
    if pieces.len() == 0 {
        Seq::<Seq<char>>::empty()
    } else {
        let rest = kept_items(pieces.drop_last());
        let t = spec_trim(pieces.last());
        if t.len() > 0 {
            rest.push(t)
        } else {
            rest
        }
    }
}

/// The items of a list answer: the pieces between commas and newlines,
/// trimmed, the empty ones left out.
pub open spec fn spec_list_items(s: Seq<char>) -> Seq<Seq<char>> {
    kept_items(split_list(s))
}

/// The items of a list answer.
pub fn list_items(s: &str) -> (r: Vec<String>)
    ensures
        r.deep_view() == spec_list_items(s@),
{
    let n = s.unicode_len();
    let mut out: Vec<String> = Vec::new();
    let mut start: usize = 0;
    let mut i: usize = 0;
    proof {
        assert(s@.take(0) =~= Seq::<char>::empty());
    }
    while i < n
        invariant
            n == s@.len(),
            start <= i <= n,
            out.deep_view() == kept_items(split_list(s@.take(i as int)).drop_last()),
            s@.subrange(start as int, i as int) == split_list(s@.take(i as int)).last(),
        decreases n - i,
    {
        proof {
            assert(s@.take(i + 1).drop_last() =~= s@.take(i as int));
            lemma_split_list_nonempty(s@.take(i as int));
        }
        let c = s.get_char(i);
        let ghost prev = split_list(s@.take(i as int));
        if c == ',' || c == '\n' {
            let piece = trim(s.substring_char(start, i));
            let keep = piece.as_str().unicode_len() > 0;
            if keep {
                out.push(piece);
            }
            proof {
                assert(split_list(s@.take(i + 1)) == prev.push(Seq::<char>::empty()));
                assert(prev.push(Seq::<char>::empty()).drop_last() =~= prev);
                assert(prev =~= prev.drop_last().push(prev.last()));
                assert(out.deep_view() =~= kept_items(prev));
                assert(s@.subrange(i + 1, i + 1) =~= Seq::<char>::empty());
            }
            start = i + 1;
        } else {
            proof {
                let next = split_list(s@.take(i + 1));
                assert(next == prev.update(prev.len() - 1, prev.last().push(c)));
                assert(next.drop_last() =~= prev.drop_last());
                assert(s@.subrange(start as int, i + 1) =~= prev.last().push(c));
            }
        }
        i = i + 1;
    }
    proof {
        assert(s@.take(n as int) =~= s@);
        lemma_split_list_nonempty(s@);
    }
    let ghost whole = split_list(s@);
    let piece = trim(s.substring_char(start, n));
    if piece.as_str().unicode_len() > 0 {
        out.push(piece);
    }
    proof {
        assert(whole =~= whole.drop_last().push(whole.last()));
        assert(out.deep_view() =~= kept_items(whole));
    }
    out
}

/// The value of the decimal digits `s`.
pub open spec fn digits_value(s: Seq<char>) -> int
    decreases s.len(),
{
    if s.len() == 0 {
        0
    } else {
        digits_value(s.drop_last()) * 10 + (s.last() as int - 48)
    }
}

/// `s` is one or more ASCII decimal digits.
pub open spec fn all_digits(s: Seq<char>) -> bool {
    s.len() > 0 && forall|i: int| 0 <= i < s.len() ==> '0' <= #[trigger] s[i] <= '9'
}

/// `i64`'s `FromStr`: an optional `+` or `-`, then one or more decimal
/// digits, whose value fits in an `i64`; nothing else (no white space).
pub open spec fn spec_parse_i64(s: Seq<char>) -> Option<i64> {
    let neg = s.len() > 0 && s[0] == '-';
    let signed = s.len() > 0 && (s[0] == '-' || s[0] == '+');
    let body = if signed { s.skip(1) } else { s };
    let v = if neg { -digits_value(body) } else { digits_value(body) };
    if all_digits(body) && i64::MIN <= v <= i64::MAX {
        Some(v as i64)
    } else {
        None
    }
}

/// The value of a run of decimal digits is at least that of each of its
/// prefixes, and never negative.
proof fn lemma_digits_value_grows(t: Seq<char>, k: int)
    requires
        0 <= k <= t.len(),
        forall|j: int| 0 <= j < t.len() ==> '0' <= #[trigger] t[j] <= '9',
    ensures
        digits_value(t) >= digits_value(t.take(k)),
        digits_value(t) >= 0,
    decreases t.len(),
{
    if t.len() == 0 {
        assert(t.take(k) =~= t);
    } else if k == t.len() {
        assert(t.take(k) =~= t);
        lemma_digits_value_grows(t.drop_last(), 0);
    } else {
        lemma_digits_value_grows(t.drop_last(), k);
        assert(t.drop_last().take(k) =~= t.take(k));
    }
}

/// `str::parse::<i64>`, with the error dropped: see [`spec_parse_i64`].
pub(crate) fn parse_i64(s: &str) -> (r: Option<i64>)
    ensures
        r == spec_parse_i64(s@),
{
    let n = s.unicode_len();
    if n == 0 {
        return None;
    }
    let c0 = s.get_char(0);
    let neg = c0 == '-';
    let start: usize = if c0 == '-' || c0 == '+' { 1 } else { 0 };
    let ghost body = s@.skip(start as int);
    proof {
        assert(s@.skip(0) =~= s@);
    }
    if start >= n {
        return None;
    }
    let mut acc: u64 = 0;
    let mut i: usize = start;
    proof {
        assert(s@.subrange(start as int, start as int) =~= Seq::<char>::empty());
    }
    while i < n
        invariant
            n == s@.len(),
            start <= i <= n,
            start < n,
            body == s@.skip(start as int),
            body == (if s@[0] == '-' || s@[0] == '+' { s@.skip(1) } else { s@ }),
            forall|j: int| start <= j < i ==> '0' <= #[trigger] s@[j] <= '9',
            acc == digits_value(s@.subrange(start as int, i as int)),
            acc <= 9223372036854775808u64,
        decreases n - i,
    {
        let c = s.get_char(i);
        if !('0' <= c && c <= '9') {
            proof {
                assert(body[i - start] == c);
                assert(!('0' <= body[i - start] <= '9'));
            }
            return None;
        }
        let d: u64 = (c as u32 - 48) as u64;
        proof {
            assert(s@.subrange(start as int, i + 1).drop_last() =~= s@.subrange(start as int, i as int));
        }
        if acc > 922337203685477580u64 || (acc == 922337203685477580u64 && d > 8) {
            proof {
                if forall|j: int| 0 <= j < body.len() ==> '0' <= #[trigger] body[j] <= '9' {
                    lemma_digits_value_grows(body, i + 1 - start);
                    assert(body.take(i + 1 - start) =~= s@.subrange(start as int, i + 1));
                } else {
                    assert(!all_digits(body));
                }
            }
            return None;
        }
        acc = acc * 10 + d;
        i = i + 1;
    }
    proof {
        assert(s@.subrange(start as int, n as int) =~= body);
        assert(all_digits(body));
    }
    if neg {
        if acc == 9223372036854775808u64 {
            Some(i64::MIN)
        } else {
            Some(-(acc as i64))
        }
    } else if acc > 9223372036854775807u64 {
        None
    } else {
        Some(acc as i64)
    }
}

} // verus!
