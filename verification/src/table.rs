//! An ordered mapping with unique keys.
//!
//! Keys are strings; insertion order is preserved, so that persisted output is
//! deterministic. A table is built once by its producing stage and thereafter
//! only consumed, except by [`Table::merge`], which combines two tables with
//! left precedence.

use crate::text::str_eq;
use vstd::prelude::*;

verus! {

/// Whether some entry of `s` has key `k`.
pub open spec fn tbl_contains<V>(s: Seq<(Seq<char>, V)>, k: Seq<char>) -> bool {
    exists|i: int| 0 <= i < s.len() && s[i].0 == k
}

/// The position of the entry with key `k` (unique when keys are distinct).
pub open spec fn tbl_index_of<V>(s: Seq<(Seq<char>, V)>, k: Seq<char>) -> int {
    choose|i: int| 0 <= i < s.len() && s[i].0 == k
}

/// The value stored under key `k`, if any.
pub open spec fn tbl_get<V>(s: Seq<(Seq<char>, V)>, k: Seq<char>) -> Option<V> {
    if tbl_contains(s, k) {
        Some(s[tbl_index_of(s, k)].1)
    } else {
        None
    }
}

/// All keys of `s` are distinct.
pub open spec fn tbl_wf<V>(s: Seq<(Seq<char>, V)>) -> bool {
    forall|i: int, j: int| 0 <= i < j < s.len() ==> s[i].0 != s[j].0
}

/// Appending an entry under a fresh key extends the mapping and keeps every
/// other key's value.
pub proof fn lemma_push_get<V>(s: Seq<(Seq<char>, V)>, e: (Seq<char>, V), k: Seq<char>)
    requires
        tbl_wf(s),
        !tbl_contains(s, e.0),
    ensures
        tbl_wf(s.push(e)),
        k == e.0 ==> tbl_get(s.push(e), k) == Some(e.1),
        k != e.0 ==> tbl_get(s.push(e), k) == tbl_get(s, k),
{
    let t = s.push(e);
    assert(forall|i: int| 0 <= i < s.len() ==> t[i] == s[i]);
    assert(t[s.len() as int] == e);
    assert forall|i: int, j: int| 0 <= i < j < t.len() implies t[i].0 != t[j].0 by {
        if j == s.len() {
            assert(t[i] == s[i]);
        }
    }
    if k == e.0 {
        assert(tbl_contains(t, k));
        let i = tbl_index_of(t, k);
        if i < s.len() {
            assert(s[i].0 == k);
            assert(false);
        }
    } else {
        if tbl_contains(s, k) {
            let i = tbl_index_of(s, k);
            assert(t[i].0 == k);
            let j = tbl_index_of(t, k);
            assert(j == i);
        } else {
            if tbl_contains(t, k) {
                let j = tbl_index_of(t, k);
                assert(j == s.len());
                assert(false);
            }
        }
    }
}

/// Filtering one appended element keeps the filtered prefix and appends the
/// element exactly when the predicate holds of it.
pub proof fn lemma_filter_single<T>(s: Seq<T>, e: T, pred: spec_fn(T) -> bool)
    ensures
        (s + seq![e]).filter(pred) == if pred(e) {
            s.filter(pred).push(e)
        } else {
            s.filter(pred)
        },
{
    reveal(Seq::filter);
    let t = s + seq![e];
    assert(t.drop_last() =~= s);
    assert(t.last() == e);
    if pred(e) {
        assert(t.filter(pred) == s.filter(pred).push(e));
    } else {
        assert(t.filter(pred) == s.filter(pred));
    }
}

/// All keys of a raw key-value listing are distinct, as they are in a decoded
/// JSON object.
pub open spec fn input_keys_distinct<T>(s: Seq<(String, T)>) -> bool {
    forall|i: int, j: int| 0 <= i < j < s.len() ==> s[i].0@ != s[j].0@
}

/// An ordered table of values keyed by strings.
#[derive(Debug)]
pub struct Table<V> {
    entries: Vec<(String, V)>,
}

impl<V> View for Table<V> {
    type V = Seq<(Seq<char>, V)>;

    closed spec fn view(&self) -> Seq<(Seq<char>, V)> {
        self.entries@.map_values(|e: (String, V)| (e.0@, e.1))
    }
}

/// The result of merging `p` with `s`, with precedence to `p`: all of `p` in
/// order, then the entries of `s` whose keys `p` lacks, in order.
pub open spec fn spec_merged<V>(p: Seq<(Seq<char>, V)>, s: Seq<(Seq<char>, V)>) -> Seq<
    (Seq<char>, V),
>
    decreases s.len(),
{
    if s.len() == 0 {
        p
    } else if tbl_contains(p, s[0].0) {
        spec_merged(p, s.skip(1))
    } else {
        spec_merged(p.push(s[0]), s.skip(1))
    }
}

impl<V> Table<V> {
    /// All keys are distinct.
    pub open spec fn wf(&self) -> bool {
        tbl_wf(self@)
    }

    /// Creates an empty table.
    pub fn new() -> (r: Self)
        ensures
            r@ == Seq::<(Seq<char>, V)>::empty(),
            r.wf(),
    {
        Table { entries: Vec::new() }
    }

    pub fn len(&self) -> (r: usize)
        ensures
            r == self@.len(),
    {
        self.entries.len()
    }

    /// Whether an entry with key `k` is present.
    pub fn contains_key(&self, k: &str) -> (r: bool)
        ensures
            r == tbl_contains(self@, k@),
    {
        let n = self.entries.len();
        let mut i: usize = 0;
        while i < n
            invariant
                i <= n,
                n == self@.len(),
                self@ == self.entries@.map_values(|e: (String, V)| (e.0@, e.1)),
                forall|j: int| 0 <= j < i ==> self@[j].0 != k@,
            decreases n - i,
        {
            if str_eq(self.entries[i].0.as_str(), k) {
                assert(self@[i as int].0 == k@);
                return true;
            }
            i += 1;
        }
        false
    }

    /// The value stored under key `k`, if any.
    pub fn get(&self, k: &str) -> (r: Option<&V>)
        requires
            self.wf(),
        ensures
            match r {
                Some(v) => tbl_get(self@, k@) == Some(*v),
                None => tbl_get(self@, k@) is None,
            },
    {
        let n = self.entries.len();
        let mut i: usize = 0;
        while i < n
            invariant
                i <= n,
                n == self@.len(),
                self.wf(),
                self@ == self.entries@.map_values(|e: (String, V)| (e.0@, e.1)),
                forall|j: int| 0 <= j < i ==> self@[j].0 != k@,
            decreases n - i,
        {
            if str_eq(self.entries[i].0.as_str(), k) {
                proof {
                    assert(self@[i as int].0 == k@);
                    let j = tbl_index_of(self@, k@);
                    assert(0 <= j < self@.len() && self@[j].0 == k@);
                    assert(j == i);
                }
                return Some(&self.entries[i].1);
            }
            i += 1;
        }
        None
    }

    /// The keys in insertion order.
    #[verifier::loop_isolation(false)]
    pub fn keys(&self) -> (r: Vec<String>)
        ensures
            r@.len() == self@.len(),
            forall|i: int| 0 <= i < r@.len() ==> (#[trigger] r@[i])@ == self@[i].0,
    {
        let n = self.entries.len();
        let mut out: Vec<String> = Vec::new();
        let mut i: usize = 0;
        while i < n
            invariant
                i <= n,
                n == self@.len(),
                out@.len() == i,
                forall|j: int| 0 <= j < i ==> (#[trigger] out@[j])@ == self@[j].0,
            decreases n - i,
        {
            out.push(self.entries[i].0.clone());
            i += 1;
        }
        out
    }

    /// The entry at position `i`, in insertion order.
    pub fn entry_at(&self, i: usize) -> (r: (&String, &V))
        requires
            i < self@.len(),
        ensures
            r.0@ == self@[i as int].0,
            *r.1 == self@[i as int].1,
    {
        let e = &self.entries[i];
        (&e.0, &e.1)
    }

    /// Inserts `v` under `k` if `k` is absent; an existing entry is kept
    /// unchanged (the first occurrence of a key wins).
    pub fn insert(&mut self, k: String, v: V)
        requires
            old(self).wf(),
        ensures
            final(self).wf(),
            tbl_contains(old(self)@, k@) ==> final(self)@ == old(self)@,
            !tbl_contains(old(self)@, k@) ==> final(self)@ == old(self)@.push((k@, v)),
    {
        if !self.contains_key(k.as_str()) {
            proof {
                lemma_push_get(self@, (k@, v), k@);
            }
            let ghost before = self@;
            self.entries.push((k, v));
            proof {
                assert(self@ =~= before.push((k@, v)));
            }
        }
    }

    /// Builds a table from a raw key-value listing with distinct keys,
    /// preserving encounter order.
    #[verifier::loop_isolation(false)]
    pub fn from_entries(raw: Vec<(String, V)>) -> (r: Self)
        requires
            input_keys_distinct(raw@),
        ensures
            r.wf(),
            r@ == raw@.map_values(|e: (String, V)| (e.0@, e.1)),
    {
        let ghost raw0 = raw@;
        let mut rest = raw;
        let _total: usize = rest.len();
        let mut t = Table::<V>::new();
        let mut i: usize = 0;
        proof {
            assert(rest@.skip(0) =~= rest@);
            assert(raw0.take(0).map_values(|e: (String, V)| (e.0@, e.1)) =~= Seq::<
                (Seq<char>, V),
            >::empty());
        }
        while rest.len() > 0
            invariant
                i <= raw0.len(),
                rest@ == raw0.skip(i as int),
                t.wf(),
                t@ == raw0.take(i as int).map_values(|e: (String, V)| (e.0@, e.1)),
            decreases rest@.len(),
        {
            let ghost before = t@;
            let e = rest.remove(0);
            proof {
                assert(rest@ =~= raw0.skip(i as int + 1));
                assert(raw0[i as int] == e);
                if tbl_contains(t@, e.0@) {
                    let j = choose|j: int| 0 <= j < t@.len() && t@[j].0 == e.0@;
                    assert(raw0.take(i as int)[j] == raw0[j]);
                    assert(raw0[j].0@ != raw0[i as int].0@);
                    assert(false);
                }
            }
            let ghost ev = (e.0@, e.1);
            t.insert(e.0, e.1);
            proof {
                assert(t@ == before.push(ev));
                assert(raw0.take(i as int + 1).map_values(|x: (String, V)| (x.0@, x.1)) =~= raw0
                    .take(i as int)
                    .map_values(|x: (String, V)| (x.0@, x.1))
                    .push(ev));
            }
            i += 1;
        }
        proof {
            assert(raw0.take(i as int) =~= raw0);
        }
        t
    }

    /// Combines two tables with precedence to `primary`: every key of
    /// `primary` keeps `primary`'s value, and each key present only in
    /// `secondary` is appended in `secondary`'s order.
    pub fn merge(primary: Self, secondary: Self) -> (r: Self)
        requires
            primary.wf(),
        ensures
            r@ == spec_merged(primary@, secondary@),
            r.wf(),
    {
        let ghost p0 = primary@;
        let ghost s0 = secondary@;
        let mut out = primary;
        let mut rest = secondary;
        proof {
            assert(rest@.skip(0) =~= rest@);
        }
        while rest.entries.len() > 0
            invariant
                out.wf(),
                spec_merged(out@, rest@) == spec_merged(p0, s0),
            decreases rest.entries.len(),
        {
            let ghost rest_before = rest@;
            let e = rest.entries.remove(0);
            proof {
                assert(rest@ =~= rest_before.skip(1));
                assert(rest_before[0] == (e.0@, e.1));
            }
            if out.contains_key(e.0.as_str()) {
                proof {
                    assert(spec_merged(out@, rest_before) == spec_merged(out@, rest@));
                }
            } else {
                let ghost ev = (e.0@, e.1);
                proof {
                    lemma_push_get(out@, ev, ev.0);
                    assert(spec_merged(out@, rest_before) == spec_merged(out@.push(ev), rest@));
                }
                let ghost before = out@;
                out.entries.push(e);
                proof {
                    assert(out@ =~= before.push(ev));
                }
            }
        }
        proof {
            assert(spec_merged(out@, rest@) == out@);
        }
        out
    }
}

/// Merging preserves distinctness of keys.
pub proof fn lemma_merged_wf<V>(p: Seq<(Seq<char>, V)>, s: Seq<(Seq<char>, V)>)
    requires
        tbl_wf(p),
    ensures
        tbl_wf(spec_merged(p, s)),
    decreases s.len(),
{
    if s.len() == 0 {
    } else if tbl_contains(p, s[0].0) {
        lemma_merged_wf(p, s.skip(1));
    } else {
        lemma_push_get(p, s[0], s[0].0);
        lemma_merged_wf(p.push(s[0]), s.skip(1));
    }
}

/// Merge precedence: a key of `p` keeps `p`'s value; a key only in `s` takes
/// `s`'s value; a key in neither is absent from the merged table.
pub proof fn lemma_merge_precedence<V>(
    p: Seq<(Seq<char>, V)>,
    s: Seq<(Seq<char>, V)>,
    k: Seq<char>,
)
    requires
        tbl_wf(p),
        tbl_wf(s),
    ensures
        tbl_contains(p, k) ==> tbl_get(spec_merged(p, s), k) == tbl_get(p, k),
        !tbl_contains(p, k) && tbl_contains(s, k) ==> tbl_get(spec_merged(p, s), k) == tbl_get(
            s,
            k,
        ),
        !tbl_contains(p, k) && !tbl_contains(s, k) ==> !tbl_contains(spec_merged(p, s), k),
    decreases s.len(),
{
    if s.len() == 0 {
    } else {
        lemma_skip_get(s, k);
        if tbl_contains(p, s[0].0) {
            lemma_merge_precedence(p, s.skip(1), k);
            if !tbl_contains(p, k) && tbl_contains(s, k) && k == s[0].0 {
                assert(false);
            }
        } else {
            lemma_push_get(p, s[0], k);
            lemma_merge_precedence(p.push(s[0]), s.skip(1), k);
            if k == s[0].0 {
                if tbl_contains(s.skip(1), k) {
                    let i = tbl_index_of(s.skip(1), k);
                    assert(s[i + 1].0 == k);
                    assert(false);
                }
            }
        }
    }
}

/// Relates lookup in a table to lookup past its first entry.
pub proof fn lemma_skip_get<V>(s: Seq<(Seq<char>, V)>, k: Seq<char>)
    requires
        tbl_wf(s),
        s.len() > 0,
    ensures
        tbl_wf(s.skip(1)),
        k == s[0].0 ==> tbl_get(s, k) == Some(s[0].1) && !tbl_contains(s.skip(1), k),
        k != s[0].0 ==> tbl_get(s, k) == tbl_get(s.skip(1), k),
{
    let t = s.skip(1);
    assert(forall|i: int| 0 <= i < t.len() ==> t[i] == s[i + 1]);
    if k == s[0].0 {
        let i = tbl_index_of(s, k);
        assert(s[0].0 == k);
        assert(tbl_contains(s, k));
        assert(i == 0);
        if tbl_contains(t, k) {
            let j = tbl_index_of(t, k);
            assert(s[j + 1].0 == k);
            assert(false);
        }
    } else {
        if tbl_contains(t, k) {
            let j = tbl_index_of(t, k);
            assert(s[j + 1].0 == k);
            let i = tbl_index_of(s, k);
            assert(i == j + 1);
        } else if tbl_contains(s, k) {
            let i = tbl_index_of(s, k);
            assert(i > 0);
            assert(t[i - 1].0 == k);
            assert(false);
        }
    }
}

} // verus!
