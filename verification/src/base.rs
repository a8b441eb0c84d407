//! Base-skill data: the skill metadata records and the flattening of the raw
//! nested unlock structure into the canonical per-operator assignment
//! sequence.

use crate::enums::parse_elite;
use crate::enums::spec_elite;
use crate::enums::RawEnumValue;
use crate::errors::PipelineError;
use crate::facility::RawFacility;
use crate::table::input_keys_distinct;
use crate::table::tbl_contains;
use crate::table::Table;
use crate::text::decimal;
use crate::text::spec_decimal;
use vstd::prelude::*;

verus! {

/// A skill-metadata record; all fields are opaque strings.
#[derive(Debug)]
pub struct Skill {
    /// The display name.
    pub name: String,
    /// The display description.
    pub description: String,
    /// The identifier of the skill's icon asset.
    pub icon_id: String,
}

/// One raw skill unlock: a skill id and the elite/level condition it unlocks
/// at.
pub struct RawSkillPhase {
    /// The unlocked skill's id.
    pub id: String,
    /// The elite tag in either upstream encoding.
    pub elite: RawEnumValue,
    /// The level at which the skill unlocks.
    pub level: u64,
}

/// The raw unlock structure of one operator: a list of phase sets, each a
/// list of skill unlocks.
pub struct RawBaseOperator {
    /// The nested phase sets.
    pub phases: Vec<Vec<RawSkillPhase>>,
}

/// One fetched base-data document: the raw per-operator unlock structures,
/// the skill metadata, and the raw facility listing.
pub struct RawBaseData {
    /// The raw unlock structure of each operator.
    pub ops: Vec<(String, RawBaseOperator)>,
    /// The skill-metadata records.
    pub skills: Vec<(String, Skill)>,
    /// The raw facility listing.
    pub rooms: Vec<(String, RawFacility)>,
}

/// A canonical skill unlock: skill id, elite tier and positive level.
#[derive(Debug)]
pub struct SkillUnlock {
    /// The unlocked skill's id.
    pub id: String,
    /// The elite tier, between zero and two.
    pub elite: u8,
    /// The positive level.
    pub level: u8,
}

/// The flattening of nested phase sets, in encounter order. Empty phase sets
/// contribute nothing and so are dropped.
pub open spec fn spec_flat(phases: Seq<Vec<RawSkillPhase>>) -> Seq<RawSkillPhase>
    decreases phases.len(),
{
    if phases.len() == 0 {
        Seq::empty()
    } else {
        phases[0]@ + spec_flat(phases.skip(1))
    }
}

/// Flattening distributes over concatenation.
pub proof fn lemma_flat_app(a: Seq<Vec<RawSkillPhase>>, b: Seq<Vec<RawSkillPhase>>)
    ensures
        spec_flat(a + b) == spec_flat(a) + spec_flat(b),
    decreases a.len(),
{
    if a.len() == 0 {
        assert(a + b =~= b);
        assert(spec_flat(a) + spec_flat(b) =~= spec_flat(b));
    } else {
        assert((a + b).skip(1) =~= a.skip(1) + b);
        assert((a + b)[0] == a[0]);
        lemma_flat_app(a.skip(1), b);
        assert(a[0]@ + (spec_flat(a.skip(1)) + spec_flat(b)) =~= (a[0]@ + spec_flat(a.skip(1)))
            + spec_flat(b));
    }
}

/// A raw unlock is valid when its elite tag decodes and its level is positive
/// and fits the canonical width.
pub open spec fn phase_valid(p: RawSkillPhase) -> bool {
    spec_elite(&p.elite) is Some && 1 <= p.level <= u8::MAX
}

/// The earliest invalid unlock of a flattened sequence.
pub open spec fn first_bad_phase(s: Seq<RawSkillPhase>, k: int) -> bool {
    &&& 0 <= k < s.len()
    &&& !phase_valid(s[k])
    &&& forall|j: int| 0 <= j < k ==> phase_valid(#[trigger] s[j])
}

/// The error reported for an invalid raw unlock: the elite tag is examined
/// first, then the level.
pub open spec fn phase_error_matches(p: RawSkillPhase, e: PipelineError) -> bool {
    if spec_elite(&p.elite) is None {
        e matches PipelineError::InvalidEnumValue(m) && m@ == p.elite.spec_text()
    } else {
        e matches PipelineError::Decode(m) && m@ == spec_decimal(p.level as nat)
    }
}

/// How a canonical unlock corresponds to the raw unlock it came from.
pub open spec fn unlock_rel(u: SkillUnlock, p: RawSkillPhase) -> bool {
    &&& u.id@ == p.id@
    &&& Some(u.elite) == spec_elite(&p.elite)
    &&& u.level == p.level
}

/// Every unlock of an operator's flattened sequence is valid.
pub open spec fn assign_valid(op: RawBaseOperator) -> bool {
    forall|k: int|
        0 <= k < spec_flat(op.phases@).len() ==> phase_valid(#[trigger] spec_flat(op.phases@)[k])
}

/// How a canonical assignment sequence corresponds to the raw operator it came
/// from.
pub open spec fn assign_rel(v: Seq<SkillUnlock>, op: RawBaseOperator) -> bool {
    &&& v.len() == spec_flat(op.phases@).len()
    &&& forall|k: int| 0 <= k < v.len() ==> unlock_rel(#[trigger] v[k], spec_flat(op.phases@)[k])
}

/// Flattens one operator's nested phase sets into its canonical ordered
/// assignment sequence, decoding each unlock's elite tag and level.
#[verifier::loop_isolation(false)]
pub fn flatten_assignments(op: RawBaseOperator) -> (r: Result<Vec<SkillUnlock>, PipelineError>)
    ensures
        match r {
            Ok(v) => assign_valid(op) && assign_rel(v@, op),
            Err(e) => exists|k: int| #[trigger] first_bad_phase(spec_flat(op.phases@), k)
                && phase_error_matches(spec_flat(op.phases@)[k], e),
        },
{
    let ghost sets0 = op.phases@;
    let ghost flat = spec_flat(sets0);
    let mut sets = op.phases;
    let _sets_total: usize = sets.len();
    let mut out: Vec<SkillUnlock> = Vec::new();
    let mut i: usize = 0;
    proof {
        assert(sets@.skip(0) =~= sets@);
        assert(sets0.take(0) =~= Seq::<Vec<RawSkillPhase>>::empty());
    }
    while sets.len() > 0
        invariant
            i <= sets0.len(),
            sets@ == sets0.skip(i as int),
            out@.len() == spec_flat(sets0.take(i as int)).len(),
            forall|j: int|
                0 <= j < out@.len() ==> phase_valid(
                    #[trigger] spec_flat(sets0.take(i as int))[j],
                ) && unlock_rel(out@[j], spec_flat(sets0.take(i as int))[j]),
        decreases sets@.len(),
    {
        let ghost prefix = spec_flat(sets0.take(i as int));
        let cur = sets.remove(0);
        let ghost cur0 = cur@;
        let ghost base = out@.len() as int;
        proof {
            assert(sets@ =~= sets0.skip(i as int + 1));
            assert(sets0[i as int]@ == cur0);
            assert(sets0.take(i as int + 1) =~= sets0.take(i as int) + seq![sets0[i as int]]);
            lemma_flat_app(sets0.take(i as int), seq![sets0[i as int]]);
            assert(spec_flat(seq![sets0[i as int]]) =~= cur0) by {
                assert(seq![sets0[i as int]].skip(1) =~= Seq::<Vec<RawSkillPhase>>::empty());
                assert(spec_flat(seq![sets0[i as int]]) == cur0 + spec_flat(
                    Seq::<Vec<RawSkillPhase>>::empty(),
                ));
            }
            assert(spec_flat(sets0.take(i as int + 1)) =~= prefix + cur0);
            assert(sets0 =~= sets0.take(i as int + 1) + sets0.skip(i as int + 1));
            lemma_flat_app(sets0.take(i as int + 1), sets0.skip(i as int + 1));
            assert(flat =~= (prefix + cur0) + spec_flat(sets0.skip(i as int + 1)));
        }
        let mut rest = cur;
        let _rest_total: usize = rest.len();
        let mut k: usize = 0;
        proof {
            assert(rest@.skip(0) =~= rest@);
        }
        while rest.len() > 0
            invariant
                k <= cur0.len(),
                rest@ == cur0.skip(k as int),
                out@.len() == base + k,
                forall|j: int|
                    0 <= j < base + k ==> phase_valid(#[trigger] flat[j]) && unlock_rel(
                        out@[j],
                        flat[j],
                    ),
            decreases rest@.len(),
        {
            let p = rest.remove(0);
            proof {
                assert(rest@ =~= cur0.skip(k as int + 1));
                assert(cur0[k as int] == p);
                assert(flat[base + k] == cur0[k as int]);
            }
            let elite = match parse_elite(&p.elite) {
                Ok(v) => v,
                Err(pe) => {
                    proof {
                        assert(first_bad_phase(flat, base + k));
                    }
                    return Err(pe);
                },
            };
            if p.level < 1 || p.level > 255 {
                proof {
                    assert(!phase_valid(flat[base + k]));
                    assert(first_bad_phase(flat, base + k));
                }
                return Err(PipelineError::Decode(decimal(p.level)));
            }
            let ghost out_before = out@;
            let level = p.level as u8;
            let u = SkillUnlock { id: p.id, elite, level };
            let ghost u_snap = u;
            out.push(u);
            proof {
                assert(out@ == out_before.push(u_snap));
                assert(unlock_rel(out@[base + k], flat[base + k]));
            }
            k += 1;
        }
        proof {
            assert(cur0.skip(k as int) =~= Seq::<RawSkillPhase>::empty());
            assert(k == cur0.len());
            assert(out@.len() == spec_flat(sets0.take(i as int + 1)).len());
            assert(forall|j: int|
                0 <= j < base + k ==> #[trigger] spec_flat(sets0.take(i as int + 1))[j]
                    == flat[j]);
        }
        i += 1;
    }
    proof {
        assert(sets0.take(i as int) =~= sets0);
    }
    Ok(out)
}

/// What it means for `v` to be the canonical assignment table of the raw
/// unlock structure `raw`: every unlock decodes, and each operator's entry is
/// its flattened assignment sequence, in encounter order.
pub open spec fn is_assignment_table(
    v: Seq<(Seq<char>, Vec<SkillUnlock>)>,
    raw: Seq<(String, RawBaseOperator)>,
) -> bool {
    &&& forall|i: int| 0 <= i < raw.len() ==> assign_valid(#[trigger] raw[i].1)
    &&& v.len() == raw.len()
    &&& forall|i: int|
        0 <= i < v.len() ==> (#[trigger] v[i]).0 == raw[i].0@ && assign_rel(v[i].1@, raw[i].1)
}

/// The earliest operator whose flattened unlocks contain an invalid one.
pub open spec fn first_invalid_assign(s: Seq<(String, RawBaseOperator)>, i: int) -> bool {
    &&& 0 <= i < s.len()
    &&& !assign_valid(s[i].1)
    &&& forall|j: int| 0 <= j < i ==> assign_valid(#[trigger] s[j].1)
}

/// The error reported for an operator whose flattened unlocks contain an
/// invalid one.
pub open spec fn assign_error_matches(op: RawBaseOperator, e: PipelineError) -> bool {
    exists|k: int| #[trigger] first_bad_phase(spec_flat(op.phases@), k) && phase_error_matches(
        spec_flat(op.phases@)[k],
        e,
    )
}

/// Decodes the raw per-operator unlock structure into the canonical
/// assignment table, preserving encounter order.
#[verifier::loop_isolation(false)]
pub fn normalize_assignments(raw: Vec<(String, RawBaseOperator)>) -> (r: Result<
    Table<Vec<SkillUnlock>>,
    PipelineError,
>)
    requires
        input_keys_distinct(raw@),
    ensures
        match r {
            Ok(t) => t.wf() && is_assignment_table(t@, raw@),
            Err(e) => exists|i: int| #[trigger] first_invalid_assign(raw@, i)
                && assign_error_matches(raw@[i].1, e),
        },
{
    let ghost raw0 = raw@;
    let mut rest = raw;
    let _total: usize = rest.len();
    let mut t = Table::<Vec<SkillUnlock>>::new();
    let mut i: usize = 0;
    proof {
        assert(rest@.skip(0) =~= rest@);
    }
    while rest.len() > 0
        invariant
            i <= raw0.len(),
            rest@ == raw0.skip(i as int),
            t.wf(),
            t@.len() == i,
            forall|j: int| 0 <= j < i ==> assign_valid(#[trigger] raw0[j].1),
            forall|j: int|
                0 <= j < i ==> (#[trigger] t@[j]).0 == raw0[j].0@ && assign_rel(
                    t@[j].1@,
                    raw0[j].1,
                ),
        decreases rest@.len(),
    {
        let e = rest.remove(0);
        proof {
            assert(rest@ =~= raw0.skip(i as int + 1));
            assert(raw0[i as int] == e);
        }
        let (id, rop) = e;
        let ghost raw_entry = raw0[i as int];
        let unlocks = match flatten_assignments(rop) {
            Ok(v) => v,
            Err(pe) => {
                proof {
                    assert(first_invalid_assign(raw0, i as int));
                }
                return Err(pe);
            },
        };
        let ghost t_before = t@;
        let ghost unlocks_snap = unlocks;
        proof {
            if tbl_contains(t@, id@) {
                let j = choose|j: int| 0 <= j < t@.len() && t@[j].0 == id@;
                assert(raw0[j].0@ != raw0[i as int].0@);
                assert(false);
            }
        }
        t.insert(id, unlocks);
        proof {
            assert(t@ == t_before.push((raw_entry.0@, unlocks_snap)));
        }
        i += 1;
    }
    proof {
        assert(raw0.skip(i as int) =~= rest@);
    }
    Ok(t)
}

} // verus!
