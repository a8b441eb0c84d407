//! Filtering of rich-text style and term-description records: only entries
//! whose id carries the domain prefix are kept, and style values are reduced
//! to their hex-like color suffix.

use crate::table::input_keys_distinct;
use crate::table::lemma_filter_single;
use crate::table::tbl_contains;
use crate::table::Table;
use crate::text::concat;
use crate::text::find_char;
use crate::text::spec_starts_with;
use crate::text::starts_with;
use vstd::prelude::*;
use vstd::string::StrSliceExecFns;

verus! {

/// A raw term record; only its description is retained.
pub struct TermEntry {
    /// The descriptive text.
    pub description: String,
}

/// One fetched term-and-style document.
pub struct RawTermData {
    /// The raw style table.
    pub styles: Vec<(String, String)>,
    /// The raw term table.
    pub terms: Vec<(String, TermEntry)>,
}

/// The two-letter prefix marking an id as relevant to this domain.
pub open spec fn spec_domain_prefix() -> Seq<char> {
    "cc"@
}

/// Whether a style or term id is kept.
pub open spec fn spec_id_kept(id: Seq<char>) -> bool {
    spec_starts_with(id, spec_domain_prefix())
}

/// Whether `s` holds a `#` character.
pub open spec fn spec_has_hash(s: Seq<char>) -> bool {
    exists|i: int| 0 <= i < s.len() && s[i] == '#'
}

/// The position of the first `#` in `s`.
pub open spec fn spec_first_hash(s: Seq<char>) -> int {
    choose|i: int|
        0 <= i < s.len() && s[i] == '#' && (forall|j: int| 0 <= j < i ==> s[j] != '#')
}

/// The filtered style value: a `#`, then the first six characters after the
/// first `#` of the raw value.
pub open spec fn spec_style_value(s: Seq<char>) -> Seq<char> {
    let i = spec_first_hash(s);
    let end = if i + 7 <= s.len() {
        i + 7
    } else {
        s.len() as int
    };
    "#"@ + s.subrange(i + 1, end)
}

/// Which raw style entries are kept: the id carries the domain prefix and the
/// value holds a `#`.
pub open spec fn style_pred() -> spec_fn((String, String)) -> bool {
    |e: (String, String)| spec_id_kept(e.0@) && spec_has_hash(e.1@)
}

/// What it means for `v` to be the filtered style table of `raw`: exactly
/// the kept entries in encounter order, each value reduced to its color
/// suffix.
pub open spec fn is_style_table(v: Seq<(Seq<char>, String)>, raw: Seq<(String, String)>) -> bool {
    &&& v.len() == raw.filter(style_pred()).len()
    &&& forall|i: int|
        0 <= i < v.len() ==> (#[trigger] v[i]).0 == raw.filter(style_pred())[i].0@ && v[i].1@
            == spec_style_value(raw.filter(style_pred())[i].1@)
}

/// Reduces a raw style table to the kept entries with their color suffixes,
/// preserving encounter order.
#[verifier::loop_isolation(false)]
pub fn filter_styles(raw: Vec<(String, String)>) -> (t: Table<String>)
    requires
        input_keys_distinct(raw@),
    ensures
        t.wf(),
        is_style_table(t@, raw@),
{
    let ghost raw0 = raw@;
    let mut rest = raw;
    let _total: usize = rest.len();
    let mut t = Table::<String>::new();
    let mut i: usize = 0;
    proof {
        assert(rest@.skip(0) =~= rest@);
        assert(raw0.take(0).filter(style_pred()) =~= Seq::<(String, String)>::empty());
    }
    while rest.len() > 0
        invariant
            i <= raw0.len(),
            rest@ == raw0.skip(i as int),
            t.wf(),
            t@.len() == raw0.take(i as int).filter(style_pred()).len(),
            forall|j: int|
                0 <= j < t@.len() ==> (#[trigger] t@[j]).0 == raw0.take(i as int).filter(
                    style_pred(),
                )[j].0@ && t@[j].1@ == spec_style_value(
                    raw0.take(i as int).filter(style_pred())[j].1@,
                ),
            forall|j: int|
                0 <= j < t@.len() ==> exists|k: int| 0 <= k < i && #[trigger] t@[j].0 == raw0[k].0@,
        decreases rest@.len(),
    {
        let e = rest.remove(0);
        proof {
            assert(rest@ =~= raw0.skip(i as int + 1));
            assert(raw0[i as int] == e);
            assert(raw0.take(i as int + 1) =~= raw0.take(i as int) + seq![raw0[i as int]]);
            lemma_filter_single(raw0.take(i as int), raw0[i as int], style_pred());
        }
        let (id, value) = e;
        let ghost raw_entry = raw0[i as int];
        if starts_with(id.as_str(), "cc") {
            if let Some(hx) = find_char(value.as_str(), '#') {
                let len = value.as_str().unicode_len();
                let end = if len - hx - 1 > 6 {
                    hx + 7
                } else {
                    len
                };
                let suffix = value.as_str().substring_char(hx + 1, end);
                let filtered = concat("#", suffix);
                proof {
                    assert(spec_has_hash(value@));
                    assert(exists|ii: int|
                        0 <= ii < value@.len() && value@[ii] == '#' && (forall|j: int|
                            0 <= j < ii ==> value@[j] != '#')) by {
                        assert(0 <= hx < value@.len() && value@[hx as int] == '#' && (forall|j: int|
                            0 <= j < hx ==> value@[j] != '#'));
                    }
                    let si = spec_first_hash(value@);
                    assert(0 <= si < value@.len() && value@[si] == '#' && (forall|j: int|
                        0 <= j < si ==> value@[j] != '#'));
                    assert(si == hx as int);
                    assert(filtered@ == spec_style_value(raw_entry.1@));
                    if tbl_contains(t@, id@) {
                        let j = choose|j: int| 0 <= j < t@.len() && t@[j].0 == id@;
                        assert(raw0[j].0@ != raw0[i as int].0@);
                        assert(false);
                    }
                }
                let ghost t_before = t@;
                let ghost filtered_snap = filtered;
                t.insert(id, filtered);
                proof {
                    assert(t@ == t_before.push((raw_entry.0@, filtered_snap)));
                }
            } else {
                proof {
                    assert(!spec_has_hash(raw_entry.1@));
                }
            }
        }
        i += 1;
    }
    proof {
        assert(raw0.take(i as int) =~= raw0);
    }
    t
}

/// Which raw term entries are kept: the id carries the domain prefix.
pub open spec fn term_pred() -> spec_fn((String, TermEntry)) -> bool {
    |e: (String, TermEntry)| spec_id_kept(e.0@)
}

/// What it means for `v` to be the filtered term table of `raw`: exactly the
/// kept entries' descriptions, in encounter order.
pub open spec fn is_term_table(v: Seq<(Seq<char>, String)>, raw: Seq<(String, TermEntry)>) -> bool {
    &&& v.len() == raw.filter(term_pred()).len()
    &&& forall|i: int|
        0 <= i < v.len() ==> (#[trigger] v[i]).0 == raw.filter(term_pred())[i].0@ && v[i].1@
            == raw.filter(term_pred())[i].1.description@
}

/// Reduces a raw term table to the kept entries' descriptions, preserving
/// encounter order.
#[verifier::loop_isolation(false)]
pub fn filter_terms(raw: Vec<(String, TermEntry)>) -> (t: Table<String>)
    requires
        input_keys_distinct(raw@),
    ensures
        t.wf(),
        is_term_table(t@, raw@),
{
    let ghost raw0 = raw@;
    let mut rest = raw;
    let _total: usize = rest.len();
    let mut t = Table::<String>::new();
    let mut i: usize = 0;
    proof {
        assert(rest@.skip(0) =~= rest@);
        assert(raw0.take(0).filter(term_pred()) =~= Seq::<(String, TermEntry)>::empty());
    }
    while rest.len() > 0
        invariant
            i <= raw0.len(),
            rest@ == raw0.skip(i as int),
            t.wf(),
            t@.len() == raw0.take(i as int).filter(term_pred()).len(),
            forall|j: int|
                0 <= j < t@.len() ==> (#[trigger] t@[j]).0 == raw0.take(i as int).filter(
                    term_pred(),
                )[j].0@ && t@[j].1@ == raw0.take(i as int).filter(term_pred())[j].1.description@,
            forall|j: int|
                0 <= j < t@.len() ==> exists|k: int| 0 <= k < i && #[trigger] t@[j].0 == raw0[k].0@,
        decreases rest@.len(),
    {
        let e = rest.remove(0);
        proof {
            assert(rest@ =~= raw0.skip(i as int + 1));
            assert(raw0[i as int] == e);
            assert(raw0.take(i as int + 1) =~= raw0.take(i as int) + seq![raw0[i as int]]);
            lemma_filter_single(raw0.take(i as int), raw0[i as int], term_pred());
        }
        let (id, entry) = e;
        let ghost raw_entry = raw0[i as int];
        if starts_with(id.as_str(), "cc") {
            proof {
                if tbl_contains(t@, id@) {
                    let j = choose|j: int| 0 <= j < t@.len() && t@[j].0 == id@;
                    assert(raw0[j].0@ != raw0[i as int].0@);
                    assert(false);
                }
            }
            let ghost t_before = t@;
            let ghost desc_snap = entry.description;
            t.insert(id, entry.description);
            proof {
                assert(t@ == t_before.push((raw_entry.0@, desc_snap)));
            }
        }
        i += 1;
    }
    proof {
        assert(raw0.take(i as int) =~= raw0);
    }
    t
}

} // verus!
