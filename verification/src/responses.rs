//! The collected answers of a survey, keyed by response path.
use vstd::prelude::*;
use crate::path::{dot, law_strip_prefix_undoes_child, spec_child, spec_strip_prefix, ResponsePath};
use crate::text::str_eq;
use crate::value::{spec_kind_name, ResponseValue, ValueView};

verus! {

/// An entry of the response table: a path and the value stored there.
pub type Entry = (ResponsePath, ResponseValue);

/// The map that a list of entries denotes; a later entry for a path wins.
pub open spec fn entries_map(s: Seq<Entry>) -> Map<Seq<char>, ValueView>
    decreases s.len(),
{
    if s.len() == 0 {
        Map::<Seq<char>, ValueView>::empty()
    } else {
        entries_map(s.drop_last()).insert(s.last().0@, s.last().1@)
    }
}

/// No two entries share a path.
pub open spec fn keys_unique(s: Seq<Entry>) -> bool {
    forall|i: int, j: int| 0 <= i < s.len() && 0 <= j < s.len() && i != j ==> s[i].0@ != s[j].0@
}

pub proof fn lemma_entries_map(s: Seq<Entry>)
    requires
        keys_unique(s),
    ensures
        forall|k: Seq<char>| #[trigger]
            entries_map(s).contains_key(k) <==> exists|i: int| 0 <= i < s.len() && s[i].0@ == k,
        forall|i: int|
            0 <= i < s.len() ==> #[trigger] entries_map(s).contains_key(s[i].0@) && entries_map(
                s,
            )[s[i].0@] == s[i].1@,
        entries_map(s).dom().finite(),
        entries_map(s).len() == s.len(),
    decreases s.len(),
{
    if s.len() > 0 {
        let t = s.drop_last();
        assert(keys_unique(t)) by {
            assert forall|i: int, j: int|
                0 <= i < t.len() && 0 <= j < t.len() && i != j implies t[i].0@ != t[j].0@ by {
                assert(t[i] == s[i] && t[j] == s[j]);
            }
        }
        lemma_entries_map(t);
        let last = s.last();
        assert(entries_map(s) == entries_map(t).insert(last.0@, last.1@));
        assert(!entries_map(t).contains_key(last.0@)) by {
            if entries_map(t).contains_key(last.0@) {
                let i = choose|i: int| 0 <= i < t.len() && t[i].0@ == last.0@;
                assert(s[i] == t[i]);
                assert(s[s.len() - 1] == last);
            }
        }
        assert forall|k: Seq<char>|
            entries_map(s).contains_key(k) <==> exists|i: int|
                0 <= i < s.len() && s[i].0@ == k by {
            if entries_map(s).contains_key(k) {
                if k == last.0@ {
                    assert(s[s.len() - 1].0@ == k);
                } else {
                    let i = choose|i: int| 0 <= i < t.len() && t[i].0@ == k;
                    assert(s[i] == t[i]);
                }
            }
            if exists|i: int| 0 <= i < s.len() && s[i].0@ == k {
                let i = choose|i: int| 0 <= i < s.len() && s[i].0@ == k;
                if i < s.len() - 1 {
                    assert(t[i] == s[i]);
                }
            }
        }
        assert forall|i: int| 0 <= i < s.len() implies #[trigger] entries_map(s).contains_key(
            s[i].0@,
        ) && entries_map(s)[s[i].0@] == s[i].1@ by {
            if i < s.len() - 1 {
                assert(t[i] == s[i]);
                assert(entries_map(t).contains_key(t[i].0@));
                assert(s[i].0@ != last.0@);
            } else {
                assert(s[i] == last);
            }
        }
    }
}

proof fn lemma_entries_map_update(s: Seq<Entry>, i: int, e: Entry)
    requires
        keys_unique(s),
        0 <= i < s.len(),
        e.0@ == s[i].0@,
    ensures
        keys_unique(s.update(i, e)),
        entries_map(s.update(i, e)) == entries_map(s).insert(e.0@, e.1@),
{
    let u = s.update(i, e);
    assert(keys_unique(u)) by {
        assert forall|a: int, b: int|
            0 <= a < u.len() && 0 <= b < u.len() && a != b implies u[a].0@ != u[b].0@ by {
            assert(u[a].0@ == s[a].0@ && u[b].0@ == s[b].0@);
        }
    }
    lemma_entries_map(s);
    lemma_entries_map(u);
    let m1 = entries_map(u);
    let m2 = entries_map(s).insert(e.0@, e.1@);
    assert forall|k: Seq<char>| m1.contains_key(k) <==> m2.contains_key(k) by {
        if m1.contains_key(k) {
            let j = choose|j: int| 0 <= j < u.len() && u[j].0@ == k;
            assert(s[j].0@ == k);
        }
        if m2.contains_key(k) && k != e.0@ {
            let j = choose|j: int| 0 <= j < s.len() && s[j].0@ == k;
            assert(u[j].0@ == k);
        }
        if k == e.0@ {
            assert(u[i].0@ == k);
        }
    }
    assert forall|k: Seq<char>| m1.contains_key(k) implies m1[k] == m2[k] by {
        let j = choose|j: int| 0 <= j < u.len() && u[j].0@ == k;
        if j == i {
            assert(u[j] == e);
        } else {
            assert(u[j] == s[j]);
        }
    }
    assert(m1 =~= m2);
}

proof fn lemma_entries_map_push(s: Seq<Entry>, e: Entry)
    requires
        keys_unique(s),
        !entries_map(s).contains_key(e.0@),
    ensures
        keys_unique(s.push(e)),
        entries_map(s.push(e)) == entries_map(s).insert(e.0@, e.1@),
{
    lemma_entries_map(s);
    let u = s.push(e);
    assert(u.drop_last() =~= s);
    assert(keys_unique(u)) by {
        assert forall|a: int, b: int|
            0 <= a < u.len() && 0 <= b < u.len() && a != b implies u[a].0@ != u[b].0@ by {
            if a < s.len() && b < s.len() {
                assert(u[a] == s[a] && u[b] == s[b]);
            } else if a < s.len() {
                assert(u[a] == s[a]);
                assert(entries_map(s).contains_key(s[a].0@));
            } else {
                assert(u[b] == s[b]);
                assert(entries_map(s).contains_key(s[b].0@));
            }
        }
    }
}

proof fn lemma_entries_map_remove(s: Seq<Entry>, i: int)
    requires
        keys_unique(s),
        0 <= i < s.len(),
    ensures
        keys_unique(s.remove(i)),
        entries_map(s.remove(i)) == entries_map(s).remove(s[i].0@),
{
    let u = s.remove(i);
    assert forall|a: int| 0 <= a < u.len() implies u[a] == s[if a < i { a } else { a + 1 }] by {
    }
    assert(keys_unique(u)) by {
        assert forall|a: int, b: int|
            0 <= a < u.len() && 0 <= b < u.len() && a != b implies u[a].0@ != u[b].0@ by {
            let a2 = if a < i { a } else { a + 1 };
            let b2 = if b < i { b } else { b + 1 };
            assert(u[a] == s[a2] && u[b] == s[b2]);
        }
    }
    lemma_entries_map(s);
    lemma_entries_map(u);
    let m1 = entries_map(u);
    let m2 = entries_map(s).remove(s[i].0@);
    assert forall|k: Seq<char>| m1.contains_key(k) <==> m2.contains_key(k) by {
        if m1.contains_key(k) {
            let j = choose|j: int| 0 <= j < u.len() && u[j].0@ == k;
            let j2 = if j < i { j } else { j + 1 };
            assert(u[j] == s[j2]);
        }
        if m2.contains_key(k) {
            let j = choose|j: int| 0 <= j < s.len() && s[j].0@ == k;
            assert(j != i);
            let j1 = if j < i { j } else { j - 1 };
            assert(u[j1] == s[j]);
        }
    }
    assert forall|k: Seq<char>| m1.contains_key(k) implies m1[k] == m2[k] by {
        let j = choose|j: int| 0 <= j < u.len() && u[j].0@ == k;
        let j2 = if j < i { j } else { j + 1 };
        assert(u[j] == s[j2]);
    }
    assert(m1 =~= m2);
}

/// `r` is the table `m` seen from below `prefix`: it holds exactly the paths
/// that some path of `m` strips to, each with the value of such a path.
/// (Only the empty path can be reached from two paths, `prefix` itself and
/// `prefix.`; which of the two values it then holds is left open.)
pub open spec fn is_filtered(
    m: Map<Seq<char>, ValueView>,
    prefix: Seq<char>,
    r: Map<Seq<char>, ValueView>,
) -> bool {
    &&& forall|k: Seq<char>| #[trigger]
        r.contains_key(k) <==> exists|p: Seq<char>|
            m.contains_key(p) && spec_strip_prefix(p, prefix) == Some(k)
    &&& forall|k: Seq<char>| #[trigger]
        r.contains_key(k) ==> exists|p: Seq<char>|
            m.contains_key(p) && spec_strip_prefix(p, prefix) == Some(k) && r[k] == m[p]
}

/// Why reading a typed value failed.
#[derive(Debug)]
pub enum ResponseError {
    /// No response is stored at the path.
    MissingPath(ResponsePath),
    /// The stored response has another kind than the one asked for.
    TypeMismatch { path: ResponsePath, expected: &'static str, actual: &'static str },
}

/// Collected responses from a survey, at most one per path.
#[derive(Debug)]
pub struct Responses {
    entries: Vec<Entry>,
}

impl View for Responses {
    type V = Map<Seq<char>, ValueView>;

    closed spec fn view(&self) -> Map<Seq<char>, ValueView> {
        entries_map(self.entries@)
    }
}

/// `e` is the error that a typed read at `k` of `m` owes when the stored
/// value is missing or of another kind than `want` (`kind_ok` tells whether
/// the stored value has the wanted kind).
pub open spec fn is_read_error(
    m: Map<Seq<char>, ValueView>,
    k: Seq<char>,
    want: Seq<char>,
    kind_ok: bool,
    e: ResponseError,
) -> bool {
    match e {
        ResponseError::MissingPath(p) => p@ == k && !m.contains_key(k),
        ResponseError::TypeMismatch { path, expected, actual } => {
            &&& path@ == k
            &&& m.contains_key(k)
            &&& !kind_ok
            &&& expected@ == want
            &&& actual@ == spec_kind_name(m[k])
        },
    }
}

/// Whether the value stored at `k` counts as answered: present, and not an
/// empty string.
pub open spec fn spec_has_value(m: Map<Seq<char>, ValueView>, k: Seq<char>) -> bool {
    m.contains_key(k) && match m[k] {
        ValueView::String(s) => s.len() > 0,
        _ => true,
    }
}

impl Clone for Responses {
    fn clone(&self) -> (r: Self)
        ensures
            r@ == self@,
    {
        let mut out = Responses::new();
        let mut i: usize = 0;
        proof {
            assert(self.entries@.take(0) =~= Seq::<Entry>::empty());
        }
        while i < self.entries.len()
            invariant
                i <= self.entries@.len(),
                out@ == entries_map(self.entries@.take(i as int)),
            decreases self.entries@.len() - i,
        {
            proof {
                assert(self.entries@.take(i + 1).drop_last() =~= self.entries@.take(i as int));
            }
            let path = self.entries[i].0.clone();
            let value = self.entries[i].1.clone();
            out.insert(path, value);
            i = i + 1;
        }
        proof {
            assert(self.entries@.take(self.entries@.len() as int) =~= self.entries@);
        }
        out
    }
}

impl Default for Responses {
    fn default() -> (r: Self)
        ensures
            r@ == Map::<Seq<char>, ValueView>::empty(),
    {
        Responses::new()
    }
}

impl Responses {
    #[verifier::type_invariant]
    closed spec fn inv(self) -> bool {
        keys_unique(self.entries@)
    }

    /// The entries, each path once.
    pub closed spec fn entries_seq(&self) -> Seq<Entry> {
        self.entries@
    }

    /// A new, empty collection.
    pub fn new() -> (r: Self)
        ensures
            r@ == Map::<Seq<char>, ValueView>::empty(),
    {
        Responses { entries: Vec::new() }
    }

    /// The index of the entry for `path`, if there is one.
    fn find(&self, path: &str) -> (r: Option<usize>)
        ensures
            match r {
                Some(i) => i < self.entries@.len() && self.entries@[i as int].0@ == path@,
                None => forall|j: int|
                    0 <= j < self.entries@.len() ==> self.entries@[j].0@ != path@,
            },
    {
        let mut i: usize = 0;
        while i < self.entries.len()
            invariant
                i <= self.entries@.len(),
                forall|j: int| 0 <= j < i ==> self.entries@[j].0@ != path@,
            decreases self.entries@.len() - i,
        {
            if str_eq(self.entries[i].0.as_str(), path) {
                return Some(i);
            }
            i = i + 1;
        }
        None
    }

    /// Store `value` at `path`, replacing what was there.
    pub fn insert(&mut self, path: ResponsePath, value: ResponseValue)
        ensures
            final(self)@ == old(self)@.insert(path@, value@),
    {
        proof {
            use_type_invariant(&*self);
            lemma_entries_map(self.entries@);
        }
        match self.find(path.as_str()) {
            Some(i) => {
                proof {
                    lemma_entries_map_update(self.entries@, i as int, (path, value));
                }
                let mut entries: Vec<Entry> = Vec::new();
                std::mem::swap(&mut entries, &mut self.entries);
                entries.set(i, (path, value));
                self.entries = entries;
            },
            None => {
                proof {
                    lemma_entries_map_push(self.entries@, (path, value));
                }
                let mut entries: Vec<Entry> = Vec::new();
                std::mem::swap(&mut entries, &mut self.entries);
                entries.push((path, value));
                self.entries = entries;
            },
        }
    }

    /// The value stored at `path`, if any.
    pub fn get(&self, path: &ResponsePath) -> (r: Option<&ResponseValue>)
        ensures
            r is Some <==> self@.contains_key(path@),
            r is Some ==> r->0@ == self@[path@],
    {
        proof {
            use_type_invariant(self);
            lemma_entries_map(self.entries@);
        }
        match self.find(path.as_str()) {
            Some(i) => {
                assert(entries_map(self.entries@).contains_key(self.entries@[i as int].0@));
                Some(&self.entries[i].1)
            },
            None => None,
        }
    }

    /// Whether a value is stored at `path`.
    pub fn contains(&self, path: &ResponsePath) -> (r: bool)
        ensures
            r == self@.contains_key(path@),
    {
        self.get(path).is_some()
    }

    /// Remove and return the value stored at `path`.
    pub fn remove(&mut self, path: &ResponsePath) -> (r: Option<ResponseValue>)
        ensures
            final(self)@ == old(self)@.remove(path@),
            r is Some <==> old(self)@.contains_key(path@),
            r is Some ==> r->0@ == old(self)@[path@],
    {
        proof {
            use_type_invariant(&*self);
            lemma_entries_map(self.entries@);
        }
        match self.find(path.as_str()) {
            Some(i) => {
                proof {
                    lemma_entries_map_remove(self.entries@, i as int);
                    assert(entries_map(self.entries@).contains_key(self.entries@[i as int].0@));
                }
                let mut entries: Vec<Entry> = Vec::new();
                std::mem::swap(&mut entries, &mut self.entries);
                let (_p, v) = entries.remove(i);
                self.entries = entries;
                Some(v)
            },
            None => {
                assert(self@.remove(path@) =~= self@);
                None
            },
        }
    }

    /// The stored entries, each path once.
    pub fn iter(&self) -> (r: &[Entry])
        ensures
            r@ == self.entries_seq(),
            keys_unique(r@),
            entries_map(r@) == self@,
    {
        proof {
            use_type_invariant(self);
        }
        self.entries.as_slice()
    }

    /// The number of stored responses.
    pub fn len(&self) -> (r: usize)
        ensures
            r == self@.len(),
            self@.dom().finite(),
    {
        proof {
            use_type_invariant(self);
            lemma_entries_map(self.entries@);
        }
        self.entries.len()
    }

    /// Whether no response is stored.
    pub fn is_empty(&self) -> (r: bool)
        ensures
            r == (self@.len() == 0),
    {
        self.len() == 0
    }

    /// Add all responses of `other`, which win over those already here.
    pub fn extend(&mut self, other: Responses)
        ensures
            final(self)@ == old(self)@.union_prefer_right(other@),
    {
        proof {
            use_type_invariant(&other);
        }
        let ghost es = other.entries@;
        let ghost start = self@;
        let n = other.entries.len();
        let mut i: usize = 0;
        proof {
            assert(es.take(0) =~= Seq::<Entry>::empty());
            assert(start.union_prefer_right(Map::<Seq<char>, ValueView>::empty()) =~= start);
        }
        while i < n
            invariant
                n == es.len(),
                es == other.entries@,
                i <= n,
                self@ == start.union_prefer_right(entries_map(es.take(i as int))),
            decreases n - i,
        {
            let p = other.entries[i].0.clone();
            let v = other.entries[i].1.clone();
            proof {
                assert(es.take(i + 1).drop_last() =~= es.take(i as int));
                assert(es.take(i + 1).last() == es[i as int]);
                assert(start.union_prefer_right(entries_map(es.take(i + 1))) =~= start.union_prefer_right(
                    entries_map(es.take(i as int)),
                ).insert(p@, v@));
            }
            self.insert(p, v);
            i = i + 1;
        }
        proof {
            assert(es.take(n as int) =~= es);
        }
    }

    /// The responses stored below `prefix`, with `prefix` stripped from their paths.
    pub fn filter_prefix(&self, prefix: &ResponsePath) -> (r: Self)
        ensures
            is_filtered(self@, prefix@, r@),
    {
        proof {
            use_type_invariant(self);
            lemma_entries_map(self.entries@);
        }
        let ghost es = self.entries@;
        let mut out = Responses::new();
        let mut i: usize = 0;
        while i < self.entries.len()
            invariant
                es == self.entries@,
                keys_unique(es),
                i <= es.len(),
                forall|k: Seq<char>| #[trigger]
                    out@.contains_key(k) <==> exists|j: int|
                        0 <= j < i && spec_strip_prefix(es[j].0@, prefix@) == Some(k),
                forall|k: Seq<char>| #[trigger]
                    out@.contains_key(k) ==> exists|j: int|
                        0 <= j < i && spec_strip_prefix(es[j].0@, prefix@) == Some(k) && out@[k]
                            == es[j].1@,
            decreases es.len() - i,
        {
            let entry = &self.entries[i];
            match entry.0.strip_path_prefix(prefix) {
                Some(stripped) => {
                    let ghost k0 = stripped@;
                    let ghost before = out@;
                    out.insert(stripped, entry.1.clone());
                    proof {
                        assert forall|k: Seq<char>| #[trigger]
                            out@.contains_key(k) <==> exists|j: int|
                                0 <= j < i + 1 && spec_strip_prefix(es[j].0@, prefix@) == Some(
                                    k,
                                ) by {
                            if k == k0 {
                                assert(spec_strip_prefix(es[i as int].0@, prefix@) == Some(k));
                            } else if exists|j: int|
                                0 <= j < i + 1 && spec_strip_prefix(es[j].0@, prefix@) == Some(k) {
                                let j = choose|j: int|
                                    0 <= j < i + 1 && spec_strip_prefix(es[j].0@, prefix@) == Some(
                                        k,
                                    );
                                assert(j != i);
                            }
                        }
                        assert forall|k: Seq<char>| #[trigger]
                            out@.contains_key(k) implies exists|j: int|
                                0 <= j < i + 1 && spec_strip_prefix(es[j].0@, prefix@) == Some(k)
                                    && out@[k] == es[j].1@ by {
                            if k == k0 {
                                assert(spec_strip_prefix(es[i as int].0@, prefix@) == Some(k));
                            } else {
                                assert(before.contains_key(k));
                            }
                        }
                    }
                },
                None => {
                    proof {
                        assert forall|k: Seq<char>| #[trigger]
                            out@.contains_key(k) <==> exists|j: int|
                                0 <= j < i + 1 && spec_strip_prefix(es[j].0@, prefix@) == Some(
                                    k,
                                ) by {
                            if exists|j: int|
                                0 <= j < i + 1 && spec_strip_prefix(es[j].0@, prefix@) == Some(k) {
                                let j = choose|j: int|
                                    0 <= j < i + 1 && spec_strip_prefix(es[j].0@, prefix@) == Some(
                                        k,
                                    );
                                assert(j != i);
                            }
                        }
                    }
                },
            }
            i = i + 1;
        }
        proof {
            assert forall|k: Seq<char>| #[trigger]
                out@.contains_key(k) <==> exists|p: Seq<char>|
                    self@.contains_key(p) && spec_strip_prefix(p, prefix@) == Some(k) by {
                if out@.contains_key(k) {
                    let j = choose|j: int|
                        0 <= j < es.len() && spec_strip_prefix(es[j].0@, prefix@) == Some(k);
                    assert(self@.contains_key(es[j].0@));
                }
                if exists|p: Seq<char>|
                    self@.contains_key(p) && spec_strip_prefix(p, prefix@) == Some(k) {
                    let p = choose|p: Seq<char>|
                        self@.contains_key(p) && spec_strip_prefix(p, prefix@) == Some(k);
                    let j = choose|j: int| 0 <= j < es.len() && es[j].0@ == p;
                    assert(spec_strip_prefix(es[j].0@, prefix@) == Some(k));
                }
            }
            assert forall|k: Seq<char>| #[trigger]
                out@.contains_key(k) implies exists|p: Seq<char>|
                    self@.contains_key(p) && spec_strip_prefix(p, prefix@) == Some(k) && out@[k]
                        == self@[p] by {
                let j = choose|j: int|
                    0 <= j < es.len() && spec_strip_prefix(es[j].0@, prefix@) == Some(k) && out@[k]
                        == es[j].1@;
                assert(self@.contains_key(es[j].0@));
            }
        }
        out
    }

    /// The value at `path` as a string, or why it cannot be read as one.
    pub fn get_string(&self, path: &ResponsePath) -> (r: Result<&str, ResponseError>)
        ensures
            match r {
                Ok(x) => self@.contains_key(path@) && self@[path@] == ValueView::String(x@),
                Err(e) => is_read_error(self@, path@, "String"@, self@[path@] is String, e),
            },
    {
        match self.get(path) {
            Some(ResponseValue::String(v)) => Ok(v.as_str()),
            Some(other) => Err(
                ResponseError::TypeMismatch {
                    path: path.clone(),
                    expected: "String",
                    actual: other.kind_name(),
                },
            ),
            None => Err(ResponseError::MissingPath(path.clone())),
        }
    }

    /// The value at `path` as an integer, or why it cannot be read as one.
    pub fn get_int(&self, path: &ResponsePath) -> (r: Result<i64, ResponseError>)
        ensures
            match r {
                Ok(x) => self@.contains_key(path@) && self@[path@] == ValueView::Int(x),
                Err(e) => is_read_error(self@, path@, "Int"@, self@[path@] is Int, e),
            },
    {
        match self.get(path) {
            Some(ResponseValue::Int(v)) => Ok(*v),
            Some(other) => Err(
                ResponseError::TypeMismatch {
                    path: path.clone(),
                    expected: "Int",
                    actual: other.kind_name(),
                },
            ),
            None => Err(ResponseError::MissingPath(path.clone())),
        }
    }

    /// The value at `path` as a floating-point value (as its bit pattern), or why it cannot be read as one.
    pub fn get_float(&self, path: &ResponsePath) -> (r: Result<u64, ResponseError>)
        ensures
            match r {
                Ok(x) => self@.contains_key(path@) && self@[path@] == ValueView::Float(x),
                Err(e) => is_read_error(self@, path@, "Float"@, self@[path@] is Float, e),
            },
    {
        match self.get(path) {
            Some(ResponseValue::Float(v)) => Ok(*v),
            Some(other) => Err(
                ResponseError::TypeMismatch {
                    path: path.clone(),
                    expected: "Float",
                    actual: other.kind_name(),
                },
            ),
            None => Err(ResponseError::MissingPath(path.clone())),
        }
    }

    /// The value at `path` as a boolean, or why it cannot be read as one.
    pub fn get_bool(&self, path: &ResponsePath) -> (r: Result<bool, ResponseError>)
        ensures
            match r {
                Ok(x) => self@.contains_key(path@) && self@[path@] == ValueView::Bool(x),
                Err(e) => is_read_error(self@, path@, "Bool"@, self@[path@] is Bool, e),
            },
    {
        match self.get(path) {
            Some(ResponseValue::Bool(v)) => Ok(*v),
            Some(other) => Err(
                ResponseError::TypeMismatch {
                    path: path.clone(),
                    expected: "Bool",
                    actual: other.kind_name(),
                },
            ),
            None => Err(ResponseError::MissingPath(path.clone())),
        }
    }

    /// The value at `path` as a chosen variant index, or why it cannot be read as one.
    pub fn get_chosen_variant(&self, path: &ResponsePath) -> (r: Result<usize, ResponseError>)
        ensures
            match r {
                Ok(x) => self@.contains_key(path@) && self@[path@] == ValueView::ChosenVariant(x),
                Err(e) => is_read_error(self@, path@, "ChosenVariant"@, self@[path@] is ChosenVariant, e),
            },
    {
        match self.get(path) {
            Some(ResponseValue::ChosenVariant(v)) => Ok(*v),
            Some(other) => Err(
                ResponseError::TypeMismatch {
                    path: path.clone(),
                    expected: "ChosenVariant",
                    actual: other.kind_name(),
                },
            ),
            None => Err(ResponseError::MissingPath(path.clone())),
        }
    }

    /// The value at `path` as the chosen variant indices, or why it cannot be read as one.
    pub fn get_chosen_variants(&self, path: &ResponsePath) -> (r: Result<&[usize], ResponseError>)
        ensures
            match r {
                Ok(x) => self@.contains_key(path@) && self@[path@] == ValueView::ChosenVariants(x@),
                Err(e) => is_read_error(self@, path@, "ChosenVariants"@, self@[path@] is ChosenVariants, e),
            },
    {
        match self.get(path) {
            Some(ResponseValue::ChosenVariants(v)) => Ok(v.as_slice()),
            Some(other) => Err(
                ResponseError::TypeMismatch {
                    path: path.clone(),
                    expected: "ChosenVariants",
                    actual: other.kind_name(),
                },
            ),
            None => Err(ResponseError::MissingPath(path.clone())),
        }
    }

    /// The value at `path` as a list of strings, or why it cannot be read as one.
    pub fn get_string_list(&self, path: &ResponsePath) -> (r: Result<&[String], ResponseError>)
        ensures
            match r {
                Ok(x) => self@.contains_key(path@) && self@[path@] == ValueView::StringList(x.deep_view()),
                Err(e) => is_read_error(self@, path@, "StringList"@, self@[path@] is StringList, e),
            },
    {
        match self.get(path) {
            Some(ResponseValue::StringList(v)) => Ok(v.as_slice()),
            Some(other) => Err(
                ResponseError::TypeMismatch {
                    path: path.clone(),
                    expected: "StringList",
                    actual: other.kind_name(),
                },
            ),
            None => Err(ResponseError::MissingPath(path.clone())),
        }
    }

    /// The value at `path` as a list of integers, or why it cannot be read as one.
    pub fn get_int_list(&self, path: &ResponsePath) -> (r: Result<&[i64], ResponseError>)
        ensures
            match r {
                Ok(x) => self@.contains_key(path@) && self@[path@] == ValueView::IntList(x@),
                Err(e) => is_read_error(self@, path@, "IntList"@, self@[path@] is IntList, e),
            },
    {
        match self.get(path) {
            Some(ResponseValue::IntList(v)) => Ok(v.as_slice()),
            Some(other) => Err(
                ResponseError::TypeMismatch {
                    path: path.clone(),
                    expected: "IntList",
                    actual: other.kind_name(),
                },
            ),
            None => Err(ResponseError::MissingPath(path.clone())),
        }
    }

    /// The value at `path` as a list of floating-point values (as bit patterns), or why it cannot be read as one.
    pub fn get_float_list(&self, path: &ResponsePath) -> (r: Result<&[u64], ResponseError>)
        ensures
            match r {
                Ok(x) => self@.contains_key(path@) && self@[path@] == ValueView::FloatList(x@),
                Err(e) => is_read_error(self@, path@, "FloatList"@, self@[path@] is FloatList, e),
            },
    {
        match self.get(path) {
            Some(ResponseValue::FloatList(v)) => Ok(v.as_slice()),
            Some(other) => Err(
                ResponseError::TypeMismatch {
                    path: path.clone(),
                    expected: "FloatList",
                    actual: other.kind_name(),
                },
            ),
            None => Err(ResponseError::MissingPath(path.clone())),
        }
    }

    /// Whether the response at `path` holds something: it is present and is
    /// not an empty string (an optional field that was skipped).
    pub fn has_value(&self, path: &ResponsePath) -> (r: bool)
        ensures
            r == spec_has_value(self@, path@),
    {
        match self.get(path) {
            Some(ResponseValue::String(s)) => s.as_str().unicode_len() > 0,
            Some(_) => true,
            None => false,
        }
    }
}

} // verus!

verus! {

/// Reading a path after storing a value there gives that value back, and
/// every other path keeps what it held.
pub proof fn law_get_after_insert(m: Map<Seq<char>, ValueView>, k: Seq<char>, v: ValueView, other: Seq<char>)
    requires
        other != k,
    ensures
        m.insert(k, v).contains_key(k),
        m.insert(k, v)[k] == v,
        m.insert(k, v).contains_key(other) == m.contains_key(other),
        m.contains_key(other) ==> m.insert(k, v)[other] == m[other],
{
}

/// After a removal the path holds nothing, and every other path keeps what it held.
pub proof fn law_remove_then_absent(m: Map<Seq<char>, ValueView>, k: Seq<char>, other: Seq<char>)
    requires
        other != k,
    ensures
        !m.remove(k).contains_key(k),
        m.remove(k).contains_key(other) == m.contains_key(other),
        m.contains_key(other) ==> m.remove(k)[other] == m[other],
{
}

proof fn lemma_strip_nonempty_is_child(p: Seq<char>, prefix: Seq<char>, k: Seq<char>)
    requires
        spec_strip_prefix(p, prefix) == Some(k),
        k.len() > 0,
        prefix.len() > 0,
    ensures
        p == spec_child(prefix, k),
{
    assert(p != prefix);
    assert(p =~= prefix + seq![dot()] + k);
}

/// Seen from below a non-empty prefix, a non-empty path `k` holds exactly
/// what the full path `prefix.k` held in the unfiltered responses.
pub proof fn law_filter_prefix_reads_child(
    m: Map<Seq<char>, ValueView>,
    prefix: Seq<char>,
    r: Map<Seq<char>, ValueView>,
    k: Seq<char>,
)
    requires
        is_filtered(m, prefix, r),
        prefix.len() > 0,
        k.len() > 0,
    ensures
        r.contains_key(k) == m.contains_key(spec_child(prefix, k)),
        r.contains_key(k) ==> r[k] == m[spec_child(prefix, k)],
{
    law_strip_prefix_undoes_child(prefix, k);
    if r.contains_key(k) {
        let p = choose|p: Seq<char>|
            m.contains_key(p) && spec_strip_prefix(p, prefix) == Some(k) && r[k] == m[p];
        lemma_strip_nonempty_is_child(p, prefix, k);
    }
    if m.contains_key(spec_child(prefix, k)) {
        assert(spec_strip_prefix(spec_child(prefix, k), prefix) == Some(k));
        assert(r.contains_key(k));
    }
}

/// Paths that do not lie below the prefix never show up in the filtered view:
/// every path of the result comes from a path of the unfiltered responses.
pub proof fn law_filter_prefix_only_from_below(
    m: Map<Seq<char>, ValueView>,
    prefix: Seq<char>,
    r: Map<Seq<char>, ValueView>,
)
    requires
        is_filtered(m, prefix, r),
        forall|p: Seq<char>| m.contains_key(p) ==> spec_strip_prefix(p, prefix) is None,
    ensures
        r == Map::<Seq<char>, ValueView>::empty(),
{
    assert forall|k: Seq<char>| !r.contains_key(k) by {
        if r.contains_key(k) {
            let p = choose|p: Seq<char>|
                m.contains_key(p) && spec_strip_prefix(p, prefix) == Some(k);
        }
    }
    assert(r =~= Map::<Seq<char>, ValueView>::empty());
}

/// Merging gives the values of the other collection wherever it has one, and
/// keeps the own values elsewhere.
pub proof fn law_extend_prefers_other(
    mine: Map<Seq<char>, ValueView>,
    other: Map<Seq<char>, ValueView>,
    k: Seq<char>,
)
    ensures
        mine.union_prefer_right(other).contains_key(k) == (mine.contains_key(k)
            || other.contains_key(k)),
        other.contains_key(k) ==> mine.union_prefer_right(other)[k] == other[k],
        !other.contains_key(k) && mine.contains_key(k) ==> mine.union_prefer_right(other)[k]
            == mine[k],
{
}

} // verus!
