//! The cross-reference join of operator identity records with their unlocked
//! base-skill assignments, keyed by operator id.

use crate::base::SkillUnlock;
use crate::errors::PipelineError;
use crate::operator::Operator;
use crate::table::tbl_contains;
use crate::table::tbl_get;
use crate::table::Table;
use vstd::prelude::*;

verus! {

/// One output record of the join: the operator's name and rarity together
/// with its exact assignment sequence.
#[derive(Debug)]
pub struct JoinedOperator {
    /// The display name.
    pub name: String,
    /// The canonical rarity tier.
    pub rarity: u8,
    /// The assignment sequence looked up by the operator's id.
    pub skills: Vec<SkillUnlock>,
}

/// Copies an assignment sequence element by element.
#[verifier::loop_isolation(false)]
fn copy_unlocks(v: &Vec<SkillUnlock>) -> (r: Vec<SkillUnlock>)
    ensures
        r@ == v@,
{
    let mut out: Vec<SkillUnlock> = Vec::new();
    let n = v.len();
    let mut i: usize = 0;
    while i < n
        invariant
            i <= n,
            n == v@.len(),
            out@.len() == i,
            forall|j: int| 0 <= j < i ==> out@[j] == v@[j],
        decreases n - i,
    {
        let u = &v[i];
        out.push(SkillUnlock { id: u.id.clone(), elite: u.elite, level: u.level });
        i += 1;
    }
    proof {
        assert(out@ =~= v@);
    }
    out
}

/// What it means for `out` to be the join of `ops` with `assigns`: one
/// output per operator, in order, each carrying the assignment sequence
/// stored under its id.
pub open spec fn is_join_of(
    out: Seq<(Seq<char>, JoinedOperator)>,
    ops: Seq<(Seq<char>, Operator)>,
    assigns: Seq<(Seq<char>, Vec<SkillUnlock>)>,
) -> bool {
    &&& forall|i: int| 0 <= i < ops.len() ==> tbl_contains(assigns, (#[trigger] ops[i]).0)
    &&& out.len() == ops.len()
    &&& forall|i: int|
        0 <= i < out.len() ==> {
            let o = #[trigger] out[i];
            &&& o.0 == ops[i].0
            &&& o.1.name@ == ops[i].1.name@
            &&& o.1.rarity == ops[i].1.rarity
            &&& tbl_get(assigns, ops[i].0) matches Some(v) && o.1.skills@ == v@
        }
}

/// The earliest operator of `ops` that `assigns` has no entry for.
pub open spec fn first_unassigned(
    ops: Seq<(Seq<char>, Operator)>,
    assigns: Seq<(Seq<char>, Vec<SkillUnlock>)>,
    i: int,
) -> bool {
    &&& 0 <= i < ops.len()
    &&& !tbl_contains(assigns, ops[i].0)
    &&& forall|j: int| 0 <= j < i ==> tbl_contains(assigns, (#[trigger] ops[j]).0)
}

/// Joins each operator with the assignment sequence stored under its id.
///
/// The upstream data is assumed complete for every operator that passed the
/// scope filter, so a missing assignment is a fatal integrity error naming
/// the offending id, never an empty-skills record.
#[verifier::loop_isolation(false)]
pub fn join_operators(ops: &Table<Operator>, assigns: &Table<Vec<SkillUnlock>>) -> (r: Result<
    Table<JoinedOperator>,
    PipelineError,
>)
    requires
        ops.wf(),
        assigns.wf(),
    ensures
        match r {
            Ok(t) => t.wf() && is_join_of(t@, ops@, assigns@),
            Err(e) => exists|i: int| #[trigger] first_unassigned(ops@, assigns@, i) && (
            e matches PipelineError::IntegrityViolation(m) && m@ == ops@[i].0),
        },
{
    let n = ops.len();
    let mut t = Table::<JoinedOperator>::new();
    let mut i: usize = 0;
    while i < n
        invariant
            i <= n,
            n == ops@.len(),
            t.wf(),
            t@.len() == i,
            forall|j: int| 0 <= j < i ==> tbl_contains(assigns@, (#[trigger] ops@[j]).0),
            forall|j: int|
                0 <= j < i ==> {
                    let out = #[trigger] t@[j];
                    &&& out.0 == ops@[j].0
                    &&& out.1.name@ == ops@[j].1.name@
                    &&& out.1.rarity == ops@[j].1.rarity
                    &&& tbl_get(assigns@, ops@[j].0) matches Some(v) && out.1.skills@ == v@
                },
        decreases n - i,
    {
        let (id, op) = ops.entry_at(i);
        let unlocks = match assigns.get(id.as_str()) {
            Some(v) => v,
            None => {
                proof {
                    assert(first_unassigned(ops@, assigns@, i as int));
                }
                return Err(PipelineError::IntegrityViolation(id.clone()));
            },
        };
        let skills = copy_unlocks(unlocks);
        let joined = JoinedOperator { name: op.name.clone(), rarity: op.rarity, skills };
        let ghost joined_snap = joined;
        let ghost t_before = t@;
        proof {
            if tbl_contains(t@, ops@[i as int].0) {
                let j = choose|j: int| 0 <= j < t@.len() && t@[j].0 == ops@[i as int].0;
                assert(ops@[j].0 == ops@[i as int].0);
                assert(false);
            }
        }
        t.insert(id.clone(), joined);
        proof {
            assert(t@ == t_before.push((ops@[i as int].0, joined_snap)));
        }
        i += 1;
    }
    Ok(t)
}

} // verus!
