//! Dot-separated paths that key the collected responses.
use vstd::prelude::*;
use vstd::std_specs::cmp::PartialEqSpecImpl;
use vstd::std_specs::convert::FromSpecImpl;
use crate::text::{
    drop_empty, is_prefix, join3, last_index_of, lemma_last_index_bounds,
    lemma_split_nonempty, rfind_char, split_seq, starts_with, str_eq, substring,
};

verus! {

/// The character that separates the segments of a path.
pub open spec fn dot() -> char {
    '.'
}

/// The path reached from `p` by appending the segment text `name`.
pub open spec fn spec_child(p: Seq<char>, name: Seq<char>) -> Seq<char> {
    if name.len() == 0 {
        p
    } else if p.len() == 0 {
        name
    } else {
        p + seq![dot()] + name
    }
}

/// The non-empty segments of `p`.
pub open spec fn spec_segments(p: Seq<char>) -> Seq<Seq<char>> {
    drop_empty(split_seq(p, dot()))
}

/// The number of segments of `p`.
pub open spec fn spec_path_len(p: Seq<char>) -> nat {
    spec_segments(p).len()
}

/// `p` with the leading segments `prefix` removed, if `p` is `prefix` or lies below it.
pub open spec fn spec_strip_prefix(p: Seq<char>, prefix: Seq<char>) -> Option<Seq<char>> {
    if p == prefix {
        Some(Seq::<char>::empty())
    } else if prefix.len() < p.len() && is_prefix(prefix, p) && p[prefix.len() as int] == dot() {
        Some(p.skip(prefix.len() as int + 1))
    } else {
        None
    }
}

/// The first non-empty segment of `p`.
pub open spec fn spec_first(p: Seq<char>) -> Option<Seq<char>> {
    if spec_segments(p).len() > 0 {
        Some(spec_segments(p)[0])
    } else {
        None
    }
}

/// The last segment of `p`.
pub open spec fn spec_last(p: Seq<char>) -> Option<Seq<char>> {
    if spec_segments(p).len() > 0 {
        Some(spec_segments(p).last())
    } else {
        None
    }
}

/// `p` up to its last dot; empty when `p` has no dot.
pub open spec fn spec_parent(p: Seq<char>) -> Seq<char> {
    let k = last_index_of(p, dot());
    if k >= 0 {
        p.take(k)
    } else {
        Seq::<char>::empty()
    }
}

/// A path to a response value, such as `address.street`.
///
/// Paths key the collected responses; nested fields are written with dots.
#[derive(Debug, Hash)]
pub struct ResponsePath {
    path: String,
}

impl View for ResponsePath {
    type V = Seq<char>;

    closed spec fn view(&self) -> Seq<char> {
        self.path@
    }
}

impl Clone for ResponsePath {
    fn clone(&self) -> (r: Self)
        ensures
            r == *self,
    {
        ResponsePath { path: self.path.clone() }
    }
}

impl PartialEq for ResponsePath {
    fn eq(&self, other: &Self) -> (r: bool) {
        str_eq(self.path.as_str(), other.path.as_str())
    }
}

impl PartialEqSpecImpl for ResponsePath {
    open spec fn obeys_eq_spec() -> bool {
        true
    }

    open spec fn eq_spec(&self, other: &Self) -> bool {
        self@ == other@
    }
}

impl Eq for ResponsePath {}

impl From<String> for ResponsePath {
    fn from(path: String) -> (r: Self)
        ensures
            r@ == path@,
    {
        ResponsePath { path }
    }
}

impl FromSpecImpl<String> for ResponsePath {
    open spec fn obeys_from_spec() -> bool {
        true
    }

    closed spec fn from_spec(path: String) -> Self {
        ResponsePath { path }
    }
}

impl From<&String> for ResponsePath {
    fn from(path: &String) -> (r: Self)
        ensures
            r@ == path@,
    {
        ResponsePath { path: path.clone() }
    }
}

impl FromSpecImpl<&String> for ResponsePath {
    open spec fn obeys_from_spec() -> bool {
        true
    }

    closed spec fn from_spec(path: &String) -> Self {
        ResponsePath { path: *path }
    }
}

impl From<&str> for ResponsePath {
    fn from(path: &str) -> (r: Self)
        ensures
            r@ == path@,
    {
        ResponsePath::new(path)
    }
}

/// A `String` is not determined by its characters in the specifications
/// (two strings with equal views need not be equal values), so the value of
/// `from` is stated by its view, in its own `ensures`, not by `from_spec`.
impl FromSpecImpl<&str> for ResponsePath {
    open spec fn obeys_from_spec() -> bool {
        false
    }

    closed spec fn from_spec(path: &str) -> Self {
        ResponsePath { path: choose|s: String| s@ == path@ }
    }
}

impl ResponsePath {
    /// A path holding exactly the given text.
    pub fn new(path: &str) -> (r: Self)
        ensures
            r@ == path@,
    {
        ResponsePath { path: path.to_owned() }
    }

    /// A path that takes ownership of the given text.
    pub fn from_string(path: String) -> (r: Self)
        ensures
            r@ == path@,
    {
        ResponsePath { path }
    }

    /// The empty path (used for top-level enums).
    pub fn empty() -> (r: Self)
        ensures
            r@ == Seq::<char>::empty(),
    {
        ResponsePath { path: String::new() }
    }

    /// This path extended by the segment `name`; an empty name leaves it unchanged.
    pub fn child(&self, name: &str) -> (r: Self)
        ensures
            r@ == spec_child(self@, name@),
    {
        if name.unicode_len() == 0 {
            self.clone()
        } else if self.path.as_str().unicode_len() == 0 {
            ResponsePath::new(name)
        } else {
            proof {
                reveal_strlit(".");
            }
            let joined = join3(self.path.as_str(), ".", name);
            assert(joined@ =~= self@ + seq![dot()] + name@);
            ResponsePath { path: joined }
        }
    }

    /// The path text.
    pub fn as_str(&self) -> (r: &str)
        ensures
            r@ == self@,
    {
        self.path.as_str()
    }

    /// Whether the path has no characters.
    pub fn is_empty(&self) -> (r: bool)
        ensures
            r == (self@.len() == 0),
    {
        self.path.as_str().unicode_len() == 0
    }

    /// The text of the path, as `Display` writes it.
    pub fn to_string(&self) -> (r: String)
        ensures
            r@ == self@,
    {
        self.path.clone()
    }

    /// The non-empty dot-separated segments, in order.
    pub fn segments(&self) -> (r: Vec<&str>)
        ensures
            r.deep_view() == spec_segments(self@),
    {
        let s = self.path.as_str();
        let n = s.unicode_len();
        let mut out: Vec<&str> = Vec::new();
        let mut start: usize = 0;
        let mut i: usize = 0;
        proof {
            assert(s@.take(0) =~= Seq::<char>::empty());
        }
        while i < n
            invariant
                n == s@.len(),
                s@ == self@,
                start <= i <= n,
                out.deep_view() == drop_empty(split_seq(s@.take(i as int), dot()).drop_last()),
                s@.subrange(start as int, i as int) == split_seq(s@.take(i as int), dot()).last(),
            decreases n - i,
        {
            proof {
                assert(s@.take(i + 1).drop_last() =~= s@.take(i as int));
                lemma_split_nonempty(s@.take(i as int), dot());
            }
            let c = s.get_char(i);
            if c == '.' {
                let ghost prev = split_seq(s@.take(i as int), dot());
                if start < i {
                    let piece = s.substring_char(start, i);
                    out.push(piece);
                }
                proof {
                    assert(split_seq(s@.take(i + 1), dot()) == prev.push(Seq::<char>::empty()));
                    assert(prev.push(Seq::<char>::empty()).drop_last() =~= prev);
                    assert(prev =~= prev.drop_last().push(prev.last()));
                    assert(out.deep_view() =~= drop_empty(prev));
                    assert(s@.subrange(i + 1, i + 1) =~= Seq::<char>::empty());
                }
                start = i + 1;
            } else {
                proof {
                    let prev = split_seq(s@.take(i as int), dot());
                    let next = split_seq(s@.take(i + 1), dot());
                    assert(next == prev.update(prev.len() - 1, prev.last().push(c)));
                    assert(next.drop_last() =~= prev.drop_last());
                    assert(s@.subrange(start as int, i + 1) =~= prev.last().push(c));
                }
            }
            i = i + 1;
        }
        proof {
            assert(s@.take(n as int) =~= s@);
            lemma_split_nonempty(s@, dot());
        }
        let ghost whole = split_seq(s@, dot());
        if start < n {
            let piece = s.substring_char(start, n);
            out.push(piece);
        }
        proof {
            assert(whole =~= whole.drop_last().push(whole.last()));
            assert(out.deep_view() =~= drop_empty(whole));
        }
        out
    }

    /// The number of segments.
    pub fn len(&self) -> (r: usize)
        ensures
            r == spec_path_len(self@),
    {
        self.segments().len()
    }

    /// The part of this path below the segment text `prefix`, if it lies there.
    pub fn strip_prefix(&self, prefix: &str) -> (r: Option<Self>)
        ensures
            match r {
                Some(q) => spec_strip_prefix(self@, prefix@) == Some(q@),
                None => spec_strip_prefix(self@, prefix@) is None,
            },
    {
        let s = self.path.as_str();
        if str_eq(s, prefix) {
            return Some(ResponsePath::empty());
        }
        let n = s.unicode_len();
        let m = prefix.unicode_len();
        if m < n && starts_with(s, prefix) && s.get_char(m) == '.' {
            let rest = substring(s, m + 1, n);
            assert(rest@ =~= self@.skip(m + 1));
            Some(ResponsePath { path: rest })
        } else {
            None
        }
    }

    /// The part of this path below the path `prefix`, if it lies there.
    pub fn strip_path_prefix(&self, prefix: &ResponsePath) -> (r: Option<Self>)
        ensures
            match r {
                Some(q) => spec_strip_prefix(self@, prefix@) == Some(q@),
                None => spec_strip_prefix(self@, prefix@) is None,
            },
    {
        self.strip_prefix(prefix.as_str())
    }

    /// The first non-empty segment, if any.
    pub fn first(&self) -> (r: Option<&str>)
        ensures
            match r {
                Some(t) => spec_first(self@) == Some(t@),
                None => spec_first(self@) is None,
            },
    {
        let segs = self.segments();
        if segs.len() > 0 {
            Some(segs[0])
        } else {
            None
        }
    }

    /// The last segment, if any.
    pub fn last(&self) -> (r: Option<&str>)
        ensures
            match r {
                Some(t) => spec_last(self@) == Some(t@),
                None => spec_last(self@) is None,
            },
    {
        let segs = self.segments();
        let n = segs.len();
        if n > 0 {
            Some(segs[n - 1])
        } else {
            None
        }
    }

    /// This path without its last segment; empty when it has only one.
    pub fn parent(&self) -> (r: Self)
        ensures
            r@ == spec_parent(self@),
    {
        let s = self.path.as_str();
        proof {
            lemma_last_index_bounds(s@, dot());
        }
        match rfind_char(s, '.') {
            Some(k) => {
                let p = substring(s, 0, k);
                assert(p@ =~= self@.take(k as int));
                ResponsePath { path: p }
            },
            None => ResponsePath::empty(),
        }
    }
}

} // verus!

verus! {

/// `name` is a single segment: it holds no dot.
pub open spec fn is_segment(name: Seq<char>) -> bool {
    forall|i: int| 0 <= i < name.len() ==> name[i] != dot()
}

proof fn lemma_split_append_segment(x: Seq<char>, b: Seq<char>)
    requires
        is_segment(b),
    ensures
        split_seq(x + b, dot()) == split_seq(x, dot()).update(
            split_seq(x, dot()).len() - 1,
            split_seq(x, dot()).last() + b,
        ),
    decreases b.len(),
{
    lemma_split_nonempty(x, dot());
    if b.len() == 0 {
        assert(x + b =~= x);
        assert(split_seq(x, dot()).last() + b =~= split_seq(x, dot()).last());
        assert(split_seq(x, dot()).update(
            split_seq(x, dot()).len() - 1,
            split_seq(x, dot()).last(),
        ) =~= split_seq(x, dot()));
    } else {
        let b0 = b.drop_last();
        assert(is_segment(b0)) by {
            assert forall|i: int| 0 <= i < b0.len() implies b0[i] != dot() by {
                assert(b0[i] == b[i]);
            }
        }
        lemma_split_append_segment(x, b0);
        assert((x + b).drop_last() =~= x + b0);
        assert((x + b).last() == b.last());
        assert(b.last() == b[b.len() - 1]);
        let prev = split_seq(x, dot());
        assert((prev.last() + b0).push(b.last()) =~= prev.last() + b);
        assert(split_seq(x + b, dot()) =~= prev.update(prev.len() - 1, prev.last() + b));
    }
}

proof fn lemma_last_index_append_segment(x: Seq<char>, b: Seq<char>)
    requires
        is_segment(b),
    ensures
        last_index_of(x + b, dot()) == last_index_of(x, dot()),
    decreases b.len(),
{
    if b.len() == 0 {
        assert(x + b =~= x);
    } else {
        let b0 = b.drop_last();
        assert(is_segment(b0)) by {
            assert forall|i: int| 0 <= i < b0.len() implies b0[i] != dot() by {
                assert(b0[i] == b[i]);
            }
        }
        lemma_last_index_append_segment(x, b0);
        assert((x + b).drop_last() =~= x + b0);
        assert((x + b).last() == b[b.len() - 1]);
    }
}

/// Stripping a path from one of its children gives back the child's segment text.
pub proof fn law_strip_prefix_undoes_child(p: Seq<char>, name: Seq<char>)
    requires
        p.len() > 0,
        name.len() > 0,
    ensures
        spec_strip_prefix(spec_child(p, name), p) == Some(name),
{
    let c = spec_child(p, name);
    assert(c.take(p.len() as int) =~= p);
    assert(c[p.len() as int] == dot());
    assert(c.skip(p.len() as int + 1) =~= name);
    assert(c != p) by {
        assert(c.len() != p.len());
    }
}

/// Every path stripped of itself is the empty path.
pub proof fn law_strip_prefix_self(p: Seq<char>)
    ensures
        spec_strip_prefix(p, p) == Some(Seq::<char>::empty()),
{
}

/// The parent of a child path is the path it was made from.
pub proof fn law_parent_of_child(p: Seq<char>, name: Seq<char>)
    requires
        p.len() > 0,
        name.len() > 0,
        is_segment(name),
    ensures
        spec_parent(spec_child(p, name)) == p,
{
    let x = p + seq![dot()];
    assert(spec_child(p, name) =~= x + name);
    lemma_last_index_append_segment(x, name);
    assert(x.drop_last() =~= p);
    assert(x.last() == dot());
    assert((x + name).take(p.len() as int) =~= p);
}

/// The last segment of a child path is the segment that was appended.
pub proof fn law_last_of_child(p: Seq<char>, name: Seq<char>)
    requires
        name.len() > 0,
        is_segment(name),
    ensures
        spec_last(spec_child(p, name)) == Some(name),
{
    law_segments_of_child(p, name);
}

/// Appending a segment appends it to the list of segments.
pub proof fn law_segments_of_child(p: Seq<char>, name: Seq<char>)
    requires
        name.len() > 0,
        is_segment(name),
    ensures
        spec_segments(spec_child(p, name)) == spec_segments(p).push(name),
{
    if p.len() == 0 {
        let e = Seq::<char>::empty();
        lemma_split_append_segment(e, name);
        assert(e + name =~= name);
        assert(split_seq(e, dot()).last() + name =~= name);
        let sn = split_seq(name, dot());
        assert(sn =~= seq![name]);
        assert(sn.drop_last() =~= Seq::<Seq<char>>::empty());
        assert(split_seq(e, dot()).drop_last() =~= Seq::<Seq<char>>::empty());
    } else {
        let x = p + seq![dot()];
        assert(spec_child(p, name) =~= x + name);
        lemma_split_append_segment(x, name);
        assert(x.drop_last() =~= p);
        lemma_split_nonempty(p, dot());
        let sp = split_seq(p, dot());
        let sx = split_seq(x, dot());
        assert(sx == sp.push(Seq::<char>::empty()));
        assert(Seq::<char>::empty() + name =~= name);
        let sc = sx.update(sx.len() - 1, name);
        assert(sc =~= sp.push(name));
        assert(sp.push(name).drop_last() =~= sp);
    }
}

/// A child path has one more segment than the path it was made from.
pub proof fn law_len_of_child(p: Seq<char>, name: Seq<char>)
    requires
        name.len() > 0,
        is_segment(name),
    ensures
        spec_path_len(spec_child(p, name)) == spec_path_len(p) + 1,
{
    law_segments_of_child(p, name);
}

} // verus!
