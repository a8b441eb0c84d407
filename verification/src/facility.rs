//! Derivation of canonical facility records: the exclusion of structural
//! facilities, the fixed color palette keyed by the lower-cased id, and the
//! per-phase power and capacity arrays.

use crate::errors::PipelineError;
use crate::table::input_keys_distinct;
use crate::table::lemma_filter_single;
use crate::table::tbl_contains;
use crate::table::Table;
use crate::text::eq_lower;
use crate::text::spec_lower;
use vstd::prelude::*;
use vstd::string::StringExecFns;

verus! {

/// One upgrade phase of a facility, with its power draw and capacity.
#[derive(Clone, Copy)]
pub struct FacilityPhase {
    /// The phase's power draw.
    pub power: i64,
    /// The phase's capacity.
    pub capacity: i64,
}

/// A facility record as decoded from the raw upstream document.
pub struct RawFacility {
    /// The display name.
    pub name: String,
    /// The upgrade phases, in phase order.
    pub phases: Vec<FacilityPhase>,
}

/// A canonical facility record.
#[derive(Debug)]
pub struct FacilityRecord {
    /// The display name.
    pub name: String,
    /// The color tag resolved from the palette.
    pub color: String,
    /// Power draw by phase; same length as `capacity`.
    pub power: Vec<i64>,
    /// Capacity by phase; same length as `power`.
    pub capacity: Vec<i64>,
}

/// Whether a facility id names a structural, non-functional facility that is
/// dropped.
pub open spec fn spec_excluded(id: Seq<char>) -> bool {
    spec_lower(id) == "elevator"@ || spec_lower(id) == "corridor"@
}

/// The fixed color palette, keyed by the lower-cased facility id. It is
/// expected to be exhaustive over shipped facility ids.
pub open spec fn spec_facility_color(low: Seq<char>) -> Option<Seq<char>> {
    if low == "control"@ {
        Some("#005752"@)
    } else if low == "dormitory"@ {
        Some("#21cdcb"@)
    } else if low == "hire"@ {
        Some("#565656"@)
    } else if low == "manufacture"@ {
        Some("#ffd800"@)
    } else if low == "meeting"@ {
        Some("#dd653f"@)
    } else if low == "power"@ {
        Some("#8fc31f"@)
    } else if low == "trading"@ {
        Some("#0075a9"@)
    } else if low == "training"@ {
        Some("#7d0022"@)
    } else if low == "workshop"@ {
        Some("#e3eb00"@)
    } else {
        None
    }
}

/// Resolves the palette color of a facility id, case-insensitively.
pub fn facility_color(id: &str) -> (r: Option<&'static str>)
    ensures
        match r {
            Some(c) => spec_facility_color(spec_lower(id@)) == Some(c@),
            None => spec_facility_color(spec_lower(id@)) is None,
        },
{
    if eq_lower(id, "control") {
        Some("#005752")
    } else if eq_lower(id, "dormitory") {
        Some("#21cdcb")
    } else if eq_lower(id, "hire") {
        Some("#565656")
    } else if eq_lower(id, "manufacture") {
        Some("#ffd800")
    } else if eq_lower(id, "meeting") {
        Some("#dd653f")
    } else if eq_lower(id, "power") {
        Some("#8fc31f")
    } else if eq_lower(id, "trading") {
        Some("#0075a9")
    } else if eq_lower(id, "training") {
        Some("#7d0022")
    } else if eq_lower(id, "workshop") {
        Some("#e3eb00")
    } else {
        None
    }
}

/// Which raw facility entries are kept: those not in the exclusion set.
pub open spec fn facility_pred() -> spec_fn((String, RawFacility)) -> bool {
    |e: (String, RawFacility)| !spec_excluded(e.0@)
}

/// How a canonical facility record corresponds to the raw entry it came from.
pub open spec fn facility_rel(out: (Seq<char>, FacilityRecord), e: (String, RawFacility)) -> bool {
    &&& out.0 == e.0@
    &&& out.1.name@ == e.1.name@
    &&& Some(out.1.color@) == spec_facility_color(spec_lower(e.0@))
    &&& out.1.power@.len() == e.1.phases@.len()
    &&& out.1.capacity@.len() == e.1.phases@.len()
    &&& forall|j: int|
        0 <= j < e.1.phases@.len() ==> out.1.power@[j] == (#[trigger] e.1.phases@[j]).power
            && out.1.capacity@[j] == e.1.phases@[j].capacity
}

/// What it means for `v` to be the canonical facility table of the raw
/// listing `raw`: every kept id has a palette color, and `v` is exactly the
/// non-excluded entries in encounter order.
pub open spec fn is_facility_table(
    v: Seq<(Seq<char>, FacilityRecord)>,
    raw: Seq<(String, RawFacility)>,
) -> bool {
    &&& forall|i: int|
        0 <= i < raw.len() ==> spec_excluded((#[trigger] raw[i]).0@) || spec_facility_color(
            spec_lower(raw[i].0@),
        ) is Some
    &&& v.len() == raw.filter(facility_pred()).len()
    &&& forall|i: int|
        0 <= i < v.len() ==> facility_rel(#[trigger] v[i], raw.filter(facility_pred())[i])
}

/// The earliest non-excluded facility whose lower-cased id the palette lacks.
pub open spec fn first_unmapped(s: Seq<(String, RawFacility)>, i: int) -> bool {
    &&& 0 <= i < s.len()
    &&& !spec_excluded(s[i].0@)
    &&& spec_facility_color(spec_lower(s[i].0@)) is None
    &&& forall|j: int|
        0 <= j < i ==> spec_excluded((#[trigger] s[j]).0@) || spec_facility_color(
            spec_lower(s[j].0@),
        ) is Some
}

/// Derives the canonical facility table: excluded ids are dropped, every
/// other id's color is resolved from the palette (a missing mapping is a
/// fatal data-integrity error), and the power and capacity arrays are built
/// in phase order.
#[verifier::loop_isolation(false)]
pub fn normalize_facilities(raw: Vec<(String, RawFacility)>) -> (r: Result<
    Table<FacilityRecord>,
    PipelineError,
>)
    requires
        input_keys_distinct(raw@),
    ensures
        match r {
            Ok(t) => t.wf() && is_facility_table(t@, raw@),
            Err(e) => exists|i: int| #[trigger] first_unmapped(raw@, i) && (
            e matches PipelineError::MissingMapping(m) && m@ == raw@[i].0@),
        },
{
    let ghost raw0 = raw@;
    let mut rest = raw;
    let _total: usize = rest.len();
    let mut t = Table::<FacilityRecord>::new();
    let mut i: usize = 0;
    proof {
        assert(rest@.skip(0) =~= rest@);
        assert(raw0.take(0).filter(facility_pred()) =~= Seq::<(String, RawFacility)>::empty());
    }
    while rest.len() > 0
        invariant
            i <= raw0.len(),
            rest@ == raw0.skip(i as int),
            t.wf(),
            forall|j: int|
                0 <= j < i ==> spec_excluded((#[trigger] raw0[j]).0@) || spec_facility_color(
                    spec_lower(raw0[j].0@),
                ) is Some,
            t@.len() == raw0.take(i as int).filter(facility_pred()).len(),
            forall|j: int|
                0 <= j < t@.len() ==> facility_rel(
                    #[trigger] t@[j],
                    raw0.take(i as int).filter(facility_pred())[j],
                ),
            forall|j: int|
                0 <= j < t@.len() ==> exists|k: int| 0 <= k < i && #[trigger] t@[j].0 == raw0[k].0@,
        decreases rest@.len(),
    {
        let e = rest.remove(0);
        proof {
            assert(rest@ =~= raw0.skip(i as int + 1));
            assert(raw0[i as int] == e);
            assert(raw0.take(i as int + 1) =~= raw0.take(i as int) + seq![raw0[i as int]]);
            lemma_filter_single(raw0.take(i as int), raw0[i as int], facility_pred());
        }
        let (id, rf) = e;
        let ghost raw_entry = raw0[i as int];
        let excluded = eq_lower(id.as_str(), "elevator") || eq_lower(id.as_str(), "corridor");
        if !excluded {
            let color = match facility_color(id.as_str()) {
                Some(c) => String::from_str(c),
                None => {
                    proof {
                        assert(first_unmapped(raw0, i as int));
                    }
                    return Err(PipelineError::MissingMapping(id));
                },
            };
            let n = rf.phases.len();
            let mut power: Vec<i64> = Vec::new();
            let mut capacity: Vec<i64> = Vec::new();
            let mut j: usize = 0;
            while j < n
                invariant
                    j <= n,
                    n == rf.phases@.len(),
                    power@.len() == j,
                    capacity@.len() == j,
                    forall|q: int|
                        0 <= q < j ==> power@[q] == (#[trigger] rf.phases@[q]).power
                            && capacity@[q] == rf.phases@[q].capacity,
                decreases n - j,
            {
                let ph = rf.phases[j];
                power.push(ph.power);
                capacity.push(ph.capacity);
                j += 1;
            }
            let record = FacilityRecord { name: rf.name, color, power, capacity };
            let ghost record_snap = record;
            let ghost t_before = t@;
            proof {
                if tbl_contains(t@, id@) {
                    let q = choose|q: int| 0 <= q < t@.len() && t@[q].0 == id@;
                    assert(raw0[q].0@ != raw0[i as int].0@);
                    assert(false);
                }
            }
            t.insert(id, record);
            proof {
                assert(t@ == t_before.push((raw_entry.0@, record_snap)));
                assert(facility_rel(t@[t_before.len() as int], raw_entry));
            }
        }
        i += 1;
    }
    proof {
        assert(raw0.take(i as int) =~= raw0);
    }
    Ok(t)
}

} // verus!
