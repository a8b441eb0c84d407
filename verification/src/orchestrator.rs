//! The orchestrator: a state machine that converges the fetched documents of
//! both locales, normalizes, merges and joins them, and decides what to
//! persist and which asset batches to fan out.
//!
//! The caller performs the outside work — the five fetches, each persist and
//! each asset batch — and reports every outcome back through [`Orchestrator::step`].
//! On a branch's failure the others still run to completion (the errors are
//! collected), and the run finishes successfully only when no branch failed.

use crate::assets::icon_ids_of;
use crate::assets::skill_icon_ids;
use crate::assets::spec_dedup_from;
use crate::assets::AssetFamily;
use crate::base::is_assignment_table;
use crate::base::normalize_assignments;
use crate::base::RawBaseData;
use crate::base::RawBaseOperator;
use crate::base::Skill;
use crate::base::SkillUnlock;
use crate::errors::PipelineError;
use crate::facility::is_facility_table;
use crate::facility::normalize_facilities;
use crate::facility::FacilityRecord;
use crate::facility::RawFacility;
use crate::join::is_join_of;
use crate::join::join_operators;
use crate::join::JoinedOperator;
use crate::operator::is_operator_table;
use crate::operator::normalize_operators;
use crate::operator::Operator;
use crate::operator::RawOperator;
use crate::server::Server;
use crate::table::input_keys_distinct;
use crate::table::spec_merged;
use crate::table::Table;
use crate::terms::filter_styles;
use crate::terms::filter_terms;
use crate::terms::is_style_table;
use crate::terms::is_term_table;
use crate::terms::RawTermData;
use crate::terms::TermEntry;
use vstd::prelude::*;

verus! {

/// Where one fetched document stands.
pub enum FetchSlot<T> {
    /// Not yet reported.
    Pending,
    /// Fetched and waiting for the branches that consume it.
    Ready(T),
    /// Consumed by its branches.
    Consumed,
    /// The fetch failed; the branches that needed it were abandoned.
    Failed,
}

impl<T> FetchSlot<T> {
    /// Moves the fetched document out, leaving the slot consumed.
    fn take(&mut self) -> (r: T)
        requires
            *old(self) is Ready,
        ensures
            *final(self) is Consumed,
            *old(self) matches FetchSlot::Ready(v) && r == v,
    {
        let mut tmp = FetchSlot::<T>::Consumed;
        core::mem::swap(self, &mut tmp);
        match tmp {
            FetchSlot::Ready(v) => v,
            _ => vstd::pervasive::unreached(),
        }
    }
}

/// Where one output branch — a persisted table or an asset batch — stands.
#[derive(Clone, Copy, PartialEq, Eq, Structural, Debug)]
pub enum BranchState {
    /// Its inputs have not all arrived.
    Waiting,
    /// Its outside work was handed to the caller.
    Running,
    /// Its outside work succeeded.
    Done,
    /// It failed; the error is in the collected list.
    Failed,
    /// An input it needed failed, so it never ran.
    Abandoned,
}

/// A branch that will do no further work.
pub open spec fn terminal(b: BranchState) -> bool {
    b is Done || b is Failed || b is Abandoned
}

/// The persisted record families.
#[derive(Clone, Copy, PartialEq, Eq, Structural, Debug)]
pub enum OutputFamily {
    Operators,
    Skills,
    Terms,
    Styles,
    Facilities,
}

/// One outcome the caller reports to the orchestrator.
pub enum OrchEvent {
    /// The primary-locale operator roster arrived, or its fetch failed.
    OpsFetched(Result<Vec<(String, RawOperator)>, PipelineError>),
    /// A locale's base-data document arrived, or its fetch failed.
    BaseFetched(Server, Result<RawBaseData, PipelineError>),
    /// A locale's term document arrived, or its fetch failed.
    TermsFetched(Server, Result<RawTermData, PipelineError>),
    /// A persist the orchestrator asked for completed.
    Persisted(OutputFamily, Result<(), PipelineError>),
    /// An asset batch the orchestrator asked for completed.
    AssetsDone(AssetFamily, Result<(), PipelineError>),
}

/// The table a persist action carries.
pub enum PersistPayload {
    Operators(Table<JoinedOperator>),
    Skills(Table<Skill>),
    Terms(Table<String>),
    Styles(Table<String>),
    Facilities(Table<FacilityRecord>),
}

/// What the orchestrator asks the caller to do.
pub enum OrchAction {
    /// Persist a record family's table.
    Persist(OutputFamily, PersistPayload),
    /// Materialize the assets of the given ids for a family.
    RunAssets(AssetFamily, Vec<String>),
    /// Every branch settled; `true` when no branch failed.
    Finish(bool),
}

/// Every raw listing of a reported document has distinct keys, as decoded
/// JSON objects do.
pub open spec fn event_wf(e: &OrchEvent) -> bool {
    match e {
        OrchEvent::OpsFetched(Ok(v)) => input_keys_distinct(v@),
        OrchEvent::BaseFetched(_, Ok(d)) => input_keys_distinct(d.ops@) && input_keys_distinct(
            d.skills@,
        ) && input_keys_distinct(d.rooms@),
        OrchEvent::TermsFetched(_, Ok(d)) => input_keys_distinct(d.styles@)
            && input_keys_distinct(d.terms@),
        _ => true,
    }
}

/// The view of a raw skill-metadata listing as table entries.
pub open spec fn skill_entries(v: Seq<(String, Skill)>) -> Seq<(Seq<char>, Skill)> {
    v.map_values(|e: (String, Skill)| (e.0@, e.1))
}

/// Whether `ids` are exactly the keys of `v`, in order.
pub open spec fn are_keys_of<X>(ids: Seq<String>, v: Seq<(Seq<char>, X)>) -> bool {
    ids.len() == v.len() && forall|i: int| 0 <= i < ids.len() ==> (#[trigger] ids[i])@ == v[i].0
}

/// The structured-concurrency tree, with one slot per fetched document and
/// one state per output branch.
pub struct Orchestrator {
    /// The primary-locale operator roster.
    pub ops_raw: FetchSlot<Vec<(String, RawOperator)>>,
    /// The primary locale's raw unlock structures.
    pub assigns_primary: FetchSlot<Vec<(String, RawBaseOperator)>>,
    /// The primary locale's skill metadata.
    pub skills_primary: FetchSlot<Vec<(String, Skill)>>,
    /// The secondary locale's skill metadata.
    pub skills_secondary: FetchSlot<Vec<(String, Skill)>>,
    /// The secondary locale's raw facility listing.
    pub rooms_secondary: FetchSlot<Vec<(String, RawFacility)>>,
    /// The primary locale's raw style table.
    pub styles_primary: FetchSlot<Vec<(String, String)>>,
    /// The primary locale's raw term table.
    pub terms_primary: FetchSlot<Vec<(String, TermEntry)>>,
    /// The secondary locale's raw term table.
    pub terms_secondary: FetchSlot<Vec<(String, TermEntry)>>,
    /// The joined operator table's persist.
    pub operator_out: BranchState,
    /// The merged skill table's persist.
    pub skill_out: BranchState,
    /// The merged term table's persist.
    pub term_out: BranchState,
    /// The style table's persist.
    pub style_out: BranchState,
    /// The facility table's persist.
    pub facility_out: BranchState,
    /// The operator-avatar asset batch.
    pub operator_assets: BranchState,
    /// The skill-icon asset batch.
    pub skill_assets: BranchState,
    /// The facility-icon asset batch.
    pub facility_assets: BranchState,
    /// Every error any branch reported, in arrival order.
    pub errors: Vec<PipelineError>,
    /// Whether the run has been declared over.
    pub finished: bool,
}

/// Every document a slot still holds has distinct keys; established when an
/// event is taken in and kept as slots are consumed.
pub open spec fn slots_wf(o: &Orchestrator) -> bool {
    &&& (o.ops_raw matches FetchSlot::Ready(v) ==> input_keys_distinct(v@))
    &&& (o.assigns_primary matches FetchSlot::Ready(v) ==> input_keys_distinct(v@))
    &&& (o.skills_primary matches FetchSlot::Ready(v) ==> input_keys_distinct(v@))
    &&& (o.skills_secondary matches FetchSlot::Ready(v) ==> input_keys_distinct(v@))
    &&& (o.rooms_secondary matches FetchSlot::Ready(v) ==> input_keys_distinct(v@))
    &&& (o.styles_primary matches FetchSlot::Ready(v) ==> input_keys_distinct(v@))
    &&& (o.terms_primary matches FetchSlot::Ready(v) ==> input_keys_distinct(v@))
    &&& (o.terms_secondary matches FetchSlot::Ready(v) ==> input_keys_distinct(v@))
}

/// The state after an event's document, if any, has been stored in its
/// slots: an arriving document fills pending slots and nothing else changes.
/// Actions emitted by a step are correct with respect to this state, since a
/// step may consume a document the very event delivered.
pub open spec fn after_intake(o: Orchestrator, e: OrchEvent) -> Orchestrator {
    match e {
        OrchEvent::OpsFetched(Ok(v)) => if o.ops_raw is Pending {
            Orchestrator { ops_raw: FetchSlot::Ready(v), ..o }
        } else {
            o
        },
        OrchEvent::BaseFetched(Server::CN, Ok(d)) => if o.assigns_primary is Pending
            && o.skills_primary is Pending {
            Orchestrator {
                assigns_primary: FetchSlot::Ready(d.ops),
                skills_primary: FetchSlot::Ready(d.skills),
                ..o
            }
        } else {
            o
        },
        OrchEvent::BaseFetched(Server::US, Ok(d)) => if o.skills_secondary is Pending
            && o.rooms_secondary is Pending {
            Orchestrator {
                skills_secondary: FetchSlot::Ready(d.skills),
                rooms_secondary: FetchSlot::Ready(d.rooms),
                ..o
            }
        } else {
            o
        },
        OrchEvent::TermsFetched(Server::CN, Ok(d)) => if o.styles_primary is Pending
            && o.terms_primary is Pending {
            Orchestrator {
                styles_primary: FetchSlot::Ready(d.styles),
                terms_primary: FetchSlot::Ready(d.terms),
                ..o
            }
        } else {
            o
        },
        OrchEvent::TermsFetched(Server::US, Ok(d)) => if o.terms_secondary is Pending {
            Orchestrator { terms_secondary: FetchSlot::Ready(d.terms), ..o }
        } else {
            o
        },
        _ => o,
    }
}

/// No action of `s` declares the run over.
pub open spec fn no_finish(s: Seq<OrchAction>) -> bool {
    forall|k: int| 0 <= k < s.len() ==> !((#[trigger] s[k]) is Finish)
}

/// The run is declared over exactly when every branch has settled.
pub open spec fn orch_wf(o: &Orchestrator) -> bool {
    o.finished == spec_settled(o)
}

/// All branches settled: each is done, failed, or abandoned.
pub open spec fn spec_settled(o: &Orchestrator) -> bool {
    &&& terminal(o.operator_out)
    &&& terminal(o.skill_out)
    &&& terminal(o.term_out)
    &&& terminal(o.style_out)
    &&& terminal(o.facility_out)
    &&& terminal(o.operator_assets)
    &&& terminal(o.skill_assets)
    &&& terminal(o.facility_assets)
}

/// Whether some action of `a` persists the given record family.
pub open spec fn has_persist(a: Seq<OrchAction>, f: OutputFamily) -> bool {
    exists|k: int|
        0 <= k < a.len() && ((#[trigger] a[k]) matches OrchAction::Persist(g, _) && g == f)
}

/// Whether some action of `a` fans out the given asset family.
pub open spec fn has_assets(a: Seq<OrchAction>, f: AssetFamily) -> bool {
    exists|k: int|
        0 <= k < a.len() && ((#[trigger] a[k]) matches OrchAction::RunAssets(g, _) && g == f)
}

/// Whether this event completes the operator branch's inputs: at least one
/// of its slots was still pending and the intake leaves both ready.
pub open spec fn completes_operator_inputs(o: &Orchestrator, e: &OrchEvent) -> bool {
    &&& (o.ops_raw is Pending || o.assigns_primary is Pending)
    &&& after_intake(*o, *e).ops_raw is Ready
    &&& after_intake(*o, *e).assigns_primary is Ready
}

/// Whether this event completes the skill branch's inputs.
pub open spec fn completes_skill_inputs(o: &Orchestrator, e: &OrchEvent) -> bool {
    &&& (o.skills_primary is Pending || o.skills_secondary is Pending)
    &&& after_intake(*o, *e).skills_primary is Ready
    &&& after_intake(*o, *e).skills_secondary is Ready
}

/// Whether this event delivers the facility branch's input.
pub open spec fn completes_facility_inputs(o: &Orchestrator, e: &OrchEvent) -> bool {
    o.rooms_secondary is Pending && after_intake(*o, *e).rooms_secondary is Ready
}

/// Whether this event delivers the style branch's input.
pub open spec fn completes_style_inputs(o: &Orchestrator, e: &OrchEvent) -> bool {
    o.styles_primary is Pending && after_intake(*o, *e).styles_primary is Ready
}

/// Whether this event completes the term branch's inputs.
pub open spec fn completes_term_inputs(o: &Orchestrator, e: &OrchEvent) -> bool {
    &&& (o.terms_primary is Pending || o.terms_secondary is Pending)
    &&& after_intake(*o, *e).terms_primary is Ready
    &&& after_intake(*o, *e).terms_secondary is Ready
}

/// The state of a persist branch, by family.
pub open spec fn out_branch(o: &Orchestrator, f: OutputFamily) -> BranchState {
    match f {
        OutputFamily::Operators => o.operator_out,
        OutputFamily::Skills => o.skill_out,
        OutputFamily::Terms => o.term_out,
        OutputFamily::Styles => o.style_out,
        OutputFamily::Facilities => o.facility_out,
    }
}

/// The state of an asset branch, by family; the item family has no branch of
/// its own.
pub open spec fn asset_branch(o: &Orchestrator, f: AssetFamily) -> Option<BranchState> {
    match f {
        AssetFamily::OperatorAvatar => Some(o.operator_assets),
        AssetFamily::SkillIcon => Some(o.skill_assets),
        AssetFamily::FacilityIcon => Some(o.facility_assets),
        AssetFamily::ItemIcon => None,
    }
}

/// What each emitted action is allowed to carry, given the documents the
/// orchestrator held when the step began.
pub open spec fn action_ok(act: &OrchAction, pre: &Orchestrator, post: &Orchestrator) -> bool {
    match act {
        OrchAction::Persist(family, payload) => match payload {
            PersistPayload::Operators(t) => {
                &&& *family is Operators
                &&& pre.ops_raw is Ready
                &&& pre.assigns_primary is Ready
                &&& exists|ov: Seq<(Seq<char>, Operator)>, av: Seq<(Seq<char>, Vec<SkillUnlock>)>|
                    is_operator_table(ov, pre.ops_raw->Ready_0@) && is_assignment_table(
                        av,
                        pre.assigns_primary->Ready_0@,
                    ) && #[trigger] is_join_of(t@, ov, av)
            },
            PersistPayload::Skills(t) => {
                &&& *family is Skills
                &&& pre.skills_primary is Ready
                &&& pre.skills_secondary is Ready
                &&& t@ == spec_merged(
                    skill_entries(pre.skills_primary->Ready_0@),
                    skill_entries(pre.skills_secondary->Ready_0@),
                )
            },
            PersistPayload::Terms(t) => {
                &&& *family is Terms
                &&& pre.terms_primary is Ready
                &&& pre.terms_secondary is Ready
                &&& exists|tp: Seq<(Seq<char>, String)>, ts: Seq<(Seq<char>, String)>|
                    is_term_table(tp, pre.terms_primary->Ready_0@) && is_term_table(
                        ts,
                        pre.terms_secondary->Ready_0@,
                    ) && t@ == #[trigger] spec_merged(tp, ts)
            },
            PersistPayload::Styles(t) => {
                &&& *family is Styles
                &&& pre.styles_primary is Ready
                &&& is_style_table(t@, pre.styles_primary->Ready_0@)
            },
            PersistPayload::Facilities(t) => {
                &&& *family is Facilities
                &&& pre.rooms_secondary is Ready
                &&& is_facility_table(t@, pre.rooms_secondary->Ready_0@)
            },
        },
        OrchAction::RunAssets(family, ids) => match family {
            AssetFamily::OperatorAvatar => {
                &&& pre.ops_raw is Ready
                &&& pre.assigns_primary is Ready
                &&& exists|
                    jv: Seq<(Seq<char>, JoinedOperator)>,
                    ov: Seq<(Seq<char>, Operator)>,
                    av: Seq<(Seq<char>, Vec<SkillUnlock>)>,
                |
                    is_operator_table(ov, pre.ops_raw->Ready_0@) && is_assignment_table(
                        av,
                        pre.assigns_primary->Ready_0@,
                    ) && #[trigger] is_join_of(jv, ov, av) && are_keys_of(ids@, jv)
            },
            AssetFamily::SkillIcon => {
                &&& pre.skills_primary is Ready
                &&& pre.skills_secondary is Ready
                &&& ids@.map_values(|x: String| x@) == spec_dedup_from(
                    Seq::<Seq<char>>::empty(),
                    icon_ids_of(
                        spec_merged(
                            skill_entries(pre.skills_primary->Ready_0@),
                            skill_entries(pre.skills_secondary->Ready_0@),
                        ),
                    ),
                )
            },
            AssetFamily::FacilityIcon => {
                &&& pre.rooms_secondary is Ready
                &&& exists|fv: Seq<(Seq<char>, FacilityRecord)>|
                    #[trigger] is_facility_table(fv, pre.rooms_secondary->Ready_0@) && are_keys_of(
                        ids@,
                        fv,
                    )
            },
            AssetFamily::ItemIcon => false,
        },
        OrchAction::Finish(ok) => post.finished && spec_settled(post) && *ok == (post.errors@.len()
            == 0),
    }
}

/// Packaging of the operator persist payload's correctness.
pub open spec fn operators_payload_ok(
    tv: Seq<(Seq<char>, JoinedOperator)>,
    vraw: Seq<(String, RawOperator)>,
    araw: Seq<(String, RawBaseOperator)>,
) -> bool {
    exists|ov: Seq<(Seq<char>, Operator)>, av: Seq<(Seq<char>, Vec<SkillUnlock>)>|
        is_operator_table(ov, vraw) && is_assignment_table(av, araw) && #[trigger] is_join_of(
            tv,
            ov,
            av,
        )
}

/// An operator persist action built from ready documents is well-formed.
proof fn lemma_operators_persist_ok(act: &OrchAction, pre: &Orchestrator, post: &Orchestrator)
    requires
        act matches OrchAction::Persist(f, p) && *f is Operators && (
        p matches PersistPayload::Operators(t) && operators_payload_ok(
            t@,
            pre.ops_raw->Ready_0@,
            pre.assigns_primary->Ready_0@,
        )),
        pre.ops_raw is Ready,
        pre.assigns_primary is Ready,
    ensures
        action_ok(act, pre, post),
{
}

/// An operator asset action whose ids key a well-formed join is well-formed.
proof fn lemma_operator_assets_ok(act: &OrchAction, pre: &Orchestrator, post: &Orchestrator)
    requires
        act matches OrchAction::RunAssets(f, ids) && *f is OperatorAvatar && exists|
            jv: Seq<(Seq<char>, JoinedOperator)>,
        |
            #[trigger] operators_payload_ok(
                jv,
                pre.ops_raw->Ready_0@,
                pre.assigns_primary->Ready_0@,
            ) && are_keys_of(ids@, jv),
        pre.ops_raw is Ready,
        pre.assigns_primary is Ready,
    ensures
        action_ok(act, pre, post),
{
}

/// A non-finishing action's correctness does not depend on the post state.
proof fn lemma_action_ok_post_free(
    act: &OrchAction,
    pre: &Orchestrator,
    p1: &Orchestrator,
    p2: &Orchestrator,
)
    requires
        action_ok(act, pre, p1),
        !p1.finished,
    ensures
        action_ok(act, pre, p2),
{
}

/// Actions emitted before further state changes stay correct: a prefix of
/// well-formed actions keeps its correctness under any later non-finished
/// post state.
proof fn lemma_earlier_actions_stay_ok(
    start: int,
    before: Seq<OrchAction>,
    after: Seq<OrchAction>,
    pre: &Orchestrator,
    p1: &Orchestrator,
    p2: &Orchestrator,
)
    requires
        0 <= start,
        before.is_prefix_of(after),
        forall|k: int| start <= k < before.len() ==> action_ok(&(#[trigger] before[k]), pre, p1),
        !p1.finished,
    ensures
        forall|k: int| start <= k < before.len() ==> action_ok(&(#[trigger] after[k]), pre, p2),
{
    assert forall|k: int|
        start <= k < before.len() implies action_ok(&(#[trigger] after[k]), pre, p2) by {
        assert(after[k] == before[k]);
        lemma_action_ok_post_free(&before[k], pre, p1, p2);
    }
}

/// Emitted actions survive later appends: a persist or asset action found in
/// a prefix is still found in the extended list.
proof fn lemma_actions_extend(before: Seq<OrchAction>, after: Seq<OrchAction>)
    requires
        before.is_prefix_of(after),
    ensures
        forall|f: OutputFamily| #[trigger] has_persist(before, f) ==> has_persist(after, f),
        forall|f: AssetFamily| #[trigger] has_assets(before, f) ==> has_assets(after, f),
{
    assert(before =~= after.subrange(0, before.len() as int));
    assert forall|f: OutputFamily| #[trigger] has_persist(before, f) implies has_persist(
        after,
        f,
    ) by {
        let k = choose|k: int|
            0 <= k < before.len() && ((#[trigger] before[k]) matches OrchAction::Persist(g, _)
                && g == f);
        assert(after.subrange(0, before.len() as int)[k] == after[k]);
        assert(after[k] == before[k]);
    }
    assert forall|f: AssetFamily| #[trigger] has_assets(before, f) implies has_assets(
        after,
        f,
    ) by {
        let k = choose|k: int|
            0 <= k < before.len() && ((#[trigger] before[k]) matches OrchAction::RunAssets(g, _)
                && g == f);
        assert(after.subrange(0, before.len() as int)[k] == after[k]);
        assert(after[k] == before[k]);
    }
}

impl Orchestrator {
    /// A fresh run: every document pending, every branch waiting.
    pub fn new() -> (r: Orchestrator)
        ensures
            r.ops_raw is Pending,
            r.assigns_primary is Pending,
            r.skills_primary is Pending,
            r.skills_secondary is Pending,
            r.rooms_secondary is Pending,
            r.styles_primary is Pending,
            r.terms_primary is Pending,
            r.terms_secondary is Pending,
            r.operator_out is Waiting,
            r.skill_out is Waiting,
            r.term_out is Waiting,
            r.style_out is Waiting,
            r.facility_out is Waiting,
            r.operator_assets is Waiting,
            r.skill_assets is Waiting,
            r.facility_assets is Waiting,
            r.errors@.len() == 0,
            !r.finished,
    {
        Orchestrator {
            ops_raw: FetchSlot::Pending,
            assigns_primary: FetchSlot::Pending,
            skills_primary: FetchSlot::Pending,
            skills_secondary: FetchSlot::Pending,
            rooms_secondary: FetchSlot::Pending,
            styles_primary: FetchSlot::Pending,
            terms_primary: FetchSlot::Pending,
            terms_secondary: FetchSlot::Pending,
            operator_out: BranchState::Waiting,
            skill_out: BranchState::Waiting,
            term_out: BranchState::Waiting,
            style_out: BranchState::Waiting,
            facility_out: BranchState::Waiting,
            operator_assets: BranchState::Waiting,
            skill_assets: BranchState::Waiting,
            facility_assets: BranchState::Waiting,
            errors: Vec::new(),
            finished: false,
        }
    }

    /// Runs the operator branch once the roster and the primary unlocks are
    /// both in: normalize, join, then hand out the persist and the avatar
    /// batch. `pre` is the ghost anchor the emitted actions are judged
    /// against; [`Orchestrator::step`] passes the state right after intake.
    #[verifier::spinoff_prover]
    #[verifier::rlimit(60)]
    pub fn try_operator(&mut self, pre: Ghost<Orchestrator>, acts: &mut Vec<OrchAction>)
        requires
            pre@.ops_raw == old(self).ops_raw,
            pre@.assigns_primary == old(self).assigns_primary,
            slots_wf(old(self)),
            old(self).ops_raw is Ready,
            old(self).assigns_primary is Ready,
        ensures
            final(self).ops_raw is Consumed,
            final(self).assigns_primary is Consumed,
            old(self).errors@.is_prefix_of(final(self).errors@),
            final(self).skills_primary == old(self).skills_primary,
            final(self).skills_secondary == old(self).skills_secondary,
            final(self).rooms_secondary == old(self).rooms_secondary,
            final(self).styles_primary == old(self).styles_primary,
            final(self).terms_primary == old(self).terms_primary,
            final(self).terms_secondary == old(self).terms_secondary,
            final(self).skill_out == old(self).skill_out,
            final(self).term_out == old(self).term_out,
            final(self).style_out == old(self).style_out,
            final(self).facility_out == old(self).facility_out,
            final(self).skill_assets == old(self).skill_assets,
            final(self).facility_assets == old(self).facility_assets,
            final(self).finished == old(self).finished,
            old(acts)@.is_prefix_of(final(acts)@),
            forall|k: int|
                old(acts)@.len() <= k < final(acts)@.len() ==> action_ok(
                    &(#[trigger] final(acts)@[k]),
                    &pre@,
                    final(self),
                ),
            no_finish(old(acts)@) ==> no_finish(final(acts)@),
            ({
                ||| (final(self).operator_out is Running && final(self).operator_assets is Running
                    && final(acts)@.len() == old(acts)@.len() + 2 && (final(acts)@[old(acts)@.len() as int] matches OrchAction::Persist(f, p) && f is Operators
                    && p is Operators) && (final(acts)@[old(acts)@.len() as int + 1] matches
                OrchAction::RunAssets(g, _) && g is OperatorAvatar))
                ||| (final(self).operator_out is Failed && final(self).operator_assets
                    is Abandoned && final(acts)@ == old(acts)@ && final(self).errors@.len() == old(self).errors@.len() + 1)
            }),
    {
        let vraw = self.ops_raw.take();
        let araw = self.assigns_primary.take();
        let ghost vraw_snap = vraw@;
        let ghost araw_snap = araw@;
        let ops_table = match normalize_operators(vraw) {
            Ok(t) => t,
            Err(e) => {
                self.errors.push(e);
                self.operator_out = BranchState::Failed;
                self.operator_assets = BranchState::Abandoned;
                return ;
            },
        };
        let assign_table = match normalize_assignments(araw) {
            Ok(t) => t,
            Err(e) => {
                self.errors.push(e);
                self.operator_out = BranchState::Failed;
                self.operator_assets = BranchState::Abandoned;
                return ;
            },
        };
        let joined = match join_operators(&ops_table, &assign_table) {
            Ok(t) => t,
            Err(e) => {
                self.errors.push(e);
                self.operator_out = BranchState::Failed;
                self.operator_assets = BranchState::Abandoned;
                return ;
            },
        };
        let ids = joined.keys();
        self.operator_out = BranchState::Running;
        self.operator_assets = BranchState::Running;
        let ghost jv = joined@;
        let ghost ov = ops_table@;
        let ghost av = assign_table@;
        let ghost ids_snap = ids@;
        acts.push(OrchAction::Persist(OutputFamily::Operators, PersistPayload::Operators(joined)));
        acts.push(OrchAction::RunAssets(AssetFamily::OperatorAvatar, ids));
        proof {
            assert(is_join_of(jv, ov, av));
            assert(are_keys_of(ids_snap, jv));
            assert(operators_payload_ok(jv, vraw_snap, araw_snap));
            assert(pre@.ops_raw->Ready_0@ == vraw_snap);
            assert(pre@.assigns_primary->Ready_0@ == araw_snap);
            assert(exists|jv2: Seq<(Seq<char>, JoinedOperator)>|
                #[trigger] operators_payload_ok(jv2, vraw_snap, araw_snap) && are_keys_of(
                    ids_snap,
                    jv2,
                ));
            lemma_operators_persist_ok(&acts@[acts@.len() - 2], &pre@, self);
            lemma_operator_assets_ok(&acts@[acts@.len() - 1], &pre@, self);
        }
    }

    /// Runs the skill branch once both locales' skill metadata is in.
    pub fn try_skills(&mut self, pre: Ghost<Orchestrator>, acts: &mut Vec<OrchAction>)
        requires
            pre@.skills_primary == old(self).skills_primary,
            pre@.skills_secondary == old(self).skills_secondary,
            slots_wf(old(self)),
            old(self).skills_primary is Ready,
            old(self).skills_secondary is Ready,
        ensures
            final(self).skills_primary is Consumed,
            final(self).skills_secondary is Consumed,
            final(self).errors == old(self).errors,
            final(self).ops_raw == old(self).ops_raw,
            final(self).assigns_primary == old(self).assigns_primary,
            final(self).rooms_secondary == old(self).rooms_secondary,
            final(self).styles_primary == old(self).styles_primary,
            final(self).terms_primary == old(self).terms_primary,
            final(self).terms_secondary == old(self).terms_secondary,
            final(self).operator_out == old(self).operator_out,
            final(self).term_out == old(self).term_out,
            final(self).style_out == old(self).style_out,
            final(self).facility_out == old(self).facility_out,
            final(self).operator_assets == old(self).operator_assets,
            final(self).facility_assets == old(self).facility_assets,
            final(self).finished == old(self).finished,
            old(acts)@.is_prefix_of(final(acts)@),
            forall|k: int|
                old(acts)@.len() <= k < final(acts)@.len() ==> action_ok(
                    &(#[trigger] final(acts)@[k]),
                    &pre@,
                    final(self),
                ),
            no_finish(old(acts)@) ==> no_finish(final(acts)@),
            final(self).skill_out is Running,
            final(self).skill_assets is Running,
            final(acts)@.len() == old(acts)@.len() + 2,
            (final(acts)@[old(acts)@.len() as int] matches OrchAction::Persist(f, p) && f
                is Skills && p is Skills),
            (final(acts)@[old(acts)@.len() as int + 1] matches OrchAction::RunAssets(g, _) && g
                is SkillIcon),
    {
        let praw = self.skills_primary.take();
        let sraw = self.skills_secondary.take();
        let primary = Table::<Skill>::from_entries(praw);
        let secondary = Table::<Skill>::from_entries(sraw);
        let merged = Table::<Skill>::merge(primary, secondary);
        let ids = skill_icon_ids(&merged);
        self.skill_out = BranchState::Running;
        self.skill_assets = BranchState::Running;
        acts.push(OrchAction::Persist(OutputFamily::Skills, PersistPayload::Skills(merged)));
        acts.push(OrchAction::RunAssets(AssetFamily::SkillIcon, ids));
    }

    /// Runs the facility branch from the secondary locale's listing.
    pub fn try_facilities(&mut self, pre: Ghost<Orchestrator>, acts: &mut Vec<OrchAction>)
        requires
            pre@.rooms_secondary == old(self).rooms_secondary,
            slots_wf(old(self)),
            old(self).rooms_secondary is Ready,
        ensures
            final(self).rooms_secondary is Consumed,
            old(self).errors@.is_prefix_of(final(self).errors@),
            final(self).ops_raw == old(self).ops_raw,
            final(self).assigns_primary == old(self).assigns_primary,
            final(self).skills_primary == old(self).skills_primary,
            final(self).skills_secondary == old(self).skills_secondary,
            final(self).styles_primary == old(self).styles_primary,
            final(self).terms_primary == old(self).terms_primary,
            final(self).terms_secondary == old(self).terms_secondary,
            final(self).operator_out == old(self).operator_out,
            final(self).skill_out == old(self).skill_out,
            final(self).term_out == old(self).term_out,
            final(self).style_out == old(self).style_out,
            final(self).operator_assets == old(self).operator_assets,
            final(self).skill_assets == old(self).skill_assets,
            final(self).finished == old(self).finished,
            old(acts)@.is_prefix_of(final(acts)@),
            forall|k: int|
                old(acts)@.len() <= k < final(acts)@.len() ==> action_ok(
                    &(#[trigger] final(acts)@[k]),
                    &pre@,
                    final(self),
                ),
            no_finish(old(acts)@) ==> no_finish(final(acts)@),
            ({
                ||| (final(self).facility_out is Running && final(self).facility_assets is Running
                    && final(acts)@.len() == old(acts)@.len() + 2 && (final(acts)@[old(acts)@.len() as int] matches OrchAction::Persist(f, p) && f is Facilities
                    && p is Facilities) && (final(acts)@[old(acts)@.len() as int + 1] matches
                OrchAction::RunAssets(g, _) && g is FacilityIcon))
                ||| (final(self).facility_out is Failed && final(self).facility_assets
                    is Abandoned && final(acts)@ == old(acts)@ && final(self).errors@.len() == old(self).errors@.len() + 1)
            }),
    {
        let rraw = self.rooms_secondary.take();
        let ghost rraw_snap = rraw@;
        let facilities = match normalize_facilities(rraw) {
            Ok(t) => t,
            Err(e) => {
                self.errors.push(e);
                self.facility_out = BranchState::Failed;
                self.facility_assets = BranchState::Abandoned;
                return ;
            },
        };
        let ids = facilities.keys();
        self.facility_out = BranchState::Running;
        self.facility_assets = BranchState::Running;
        let ghost fv = facilities@;
        let ghost ids_snap = ids@;
        acts.push(
            OrchAction::Persist(OutputFamily::Facilities, PersistPayload::Facilities(facilities)),
        );
        acts.push(OrchAction::RunAssets(AssetFamily::FacilityIcon, ids));
        proof {
            assert(are_keys_of(ids_snap, fv));
            assert(exists|fv2: Seq<(Seq<char>, FacilityRecord)>|
                #[trigger] is_facility_table(fv2, rraw_snap) && are_keys_of(ids_snap, fv2));
            assert(pre@.rooms_secondary->Ready_0@ == rraw_snap);
        }
    }

    /// Runs the style branch from the primary locale's styles.
    pub fn try_styles(&mut self, pre: Ghost<Orchestrator>, acts: &mut Vec<OrchAction>)
        requires
            pre@.styles_primary == old(self).styles_primary,
            slots_wf(old(self)),
            old(self).styles_primary is Ready,
        ensures
            final(self).styles_primary is Consumed,
            final(self).errors == old(self).errors,
            final(self).ops_raw == old(self).ops_raw,
            final(self).assigns_primary == old(self).assigns_primary,
            final(self).skills_primary == old(self).skills_primary,
            final(self).skills_secondary == old(self).skills_secondary,
            final(self).rooms_secondary == old(self).rooms_secondary,
            final(self).terms_primary == old(self).terms_primary,
            final(self).terms_secondary == old(self).terms_secondary,
            final(self).operator_out == old(self).operator_out,
            final(self).skill_out == old(self).skill_out,
            final(self).term_out == old(self).term_out,
            final(self).facility_out == old(self).facility_out,
            final(self).operator_assets == old(self).operator_assets,
            final(self).skill_assets == old(self).skill_assets,
            final(self).facility_assets == old(self).facility_assets,
            final(self).finished == old(self).finished,
            old(acts)@.is_prefix_of(final(acts)@),
            forall|k: int|
                old(acts)@.len() <= k < final(acts)@.len() ==> action_ok(
                    &(#[trigger] final(acts)@[k]),
                    &pre@,
                    final(self),
                ),
            no_finish(old(acts)@) ==> no_finish(final(acts)@),
            final(self).style_out is Running,
            final(acts)@.len() == old(acts)@.len() + 1,
            (final(acts)@[old(acts)@.len() as int] matches OrchAction::Persist(f, p) && f
                is Styles && p is Styles),
    {
        let sraw = self.styles_primary.take();
        let styles = filter_styles(sraw);
        self.style_out = BranchState::Running;
        acts.push(OrchAction::Persist(OutputFamily::Styles, PersistPayload::Styles(styles)));
    }

    /// Runs the term branch once both locales' terms are in.
    pub fn try_terms(&mut self, pre: Ghost<Orchestrator>, acts: &mut Vec<OrchAction>)
        requires
            pre@.terms_primary == old(self).terms_primary,
            pre@.terms_secondary == old(self).terms_secondary,
            slots_wf(old(self)),
            old(self).terms_primary is Ready,
            old(self).terms_secondary is Ready,
        ensures
            final(self).terms_primary is Consumed,
            final(self).terms_secondary is Consumed,
            final(self).errors == old(self).errors,
            final(self).ops_raw == old(self).ops_raw,
            final(self).assigns_primary == old(self).assigns_primary,
            final(self).skills_primary == old(self).skills_primary,
            final(self).skills_secondary == old(self).skills_secondary,
            final(self).rooms_secondary == old(self).rooms_secondary,
            final(self).styles_primary == old(self).styles_primary,
            final(self).operator_out == old(self).operator_out,
            final(self).skill_out == old(self).skill_out,
            final(self).style_out == old(self).style_out,
            final(self).facility_out == old(self).facility_out,
            final(self).operator_assets == old(self).operator_assets,
            final(self).skill_assets == old(self).skill_assets,
            final(self).facility_assets == old(self).facility_assets,
            final(self).finished == old(self).finished,
            old(acts)@.is_prefix_of(final(acts)@),
            forall|k: int|
                old(acts)@.len() <= k < final(acts)@.len() ==> action_ok(
                    &(#[trigger] final(acts)@[k]),
                    &pre@,
                    final(self),
                ),
            no_finish(old(acts)@) ==> no_finish(final(acts)@),
            final(self).term_out is Running,
            final(acts)@.len() == old(acts)@.len() + 1,
            (final(acts)@[old(acts)@.len() as int] matches OrchAction::Persist(f, p) && f
                is Terms && p is Terms),
    {
        let praw = self.terms_primary.take();
        let sraw = self.terms_secondary.take();
        let ghost praw_snap = praw@;
        let ghost sraw_snap = sraw@;
        let primary = filter_terms(praw);
        let secondary = filter_terms(sraw);
        let ghost tp = primary@;
        let ghost ts = secondary@;
        let merged = Table::<String>::merge(primary, secondary);
        let ghost mv = merged@;
        self.term_out = BranchState::Running;
        acts.push(OrchAction::Persist(OutputFamily::Terms, PersistPayload::Terms(merged)));
        proof {
            assert(exists|tp2: Seq<(Seq<char>, String)>, ts2: Seq<(Seq<char>, String)>|
                is_term_table(tp2, praw_snap) && is_term_table(ts2, sraw_snap) && mv
                    == #[trigger] spec_merged(tp2, ts2));
        }
    }

    /// Advances the run by one reported outcome.
    ///
    /// Every returned action's payload is pinned against the state right
    /// after the event's document was taken in (see [`after_intake`] and
    /// [`action_ok`]): what is persisted is exactly the normalized, merged or
    /// joined form of the documents that had arrived.
    ///
    /// A fetched document fills its slots; when a merge or join step's inputs
    /// have all arrived it runs at once, and the returned actions carry what
    /// to persist and which asset batches to fan out. A failed fetch abandons
    /// exactly the branches that needed the document; the others still run.
    /// Completion reports of persists and asset batches settle their
    /// branches, and once every branch has settled the run finishes, with
    /// success exactly when no error was collected.
    pub fn step(&mut self, event: OrchEvent) -> (a: Vec<OrchAction>)
        requires
            event_wf(&event),
            slots_wf(old(self)),
            orch_wf(old(self)),
        ensures
            slots_wf(final(self)),
            orch_wf(final(self)),
            old(self).errors@.is_prefix_of(final(self).errors@),
            old(self).finished ==> *final(self) == *old(self) && a@.len() == 0,
            final(self).finished ==> spec_settled(final(self)),
            old(self).finished ==> final(self).finished,
            (!old(self).finished && final(self).finished) ==> a@.len() >= 1 && (a@[a@.len()
                - 1] matches OrchAction::Finish(ok) && ok == (final(self).errors@.len() == 0)),
            forall|k: int|
                0 <= k < a@.len() ==> ((#[trigger] a@[k]) matches OrchAction::Finish(ok)
                    ==> final(self).finished && spec_settled(final(self)) && ok == (final(self).errors@.len() == 0)),
            forall|k: int|
                0 <= k < a@.len() ==> action_ok(
                    &(#[trigger] a@[k]),
                    &after_intake(*old(self), event),
                    final(self),
                ),
            // Intake is owed: a fetched document leaves its pending slots,
            // and a failed fetch abandons exactly the branches that needed
            // the document, recording the error.
            event matches OrchEvent::OpsFetched(res) ==> (!old(self).finished
                && old(self).ops_raw is Pending ==> match res {
                Ok(_) => !(final(self).ops_raw is Pending),
                Err(_) => final(self).ops_raw is Failed && final(self).operator_out is Abandoned
                    && final(self).operator_assets is Abandoned && final(self).errors@.len()
                    == old(self).errors@.len() + 1,
            }),
            event matches OrchEvent::BaseFetched(locale, res) ==> (!old(self).finished ==> {
                &&& (locale is CN && old(self).assigns_primary is Pending
                    && old(self).skills_primary is Pending ==> match res {
                    Ok(_) => !(final(self).assigns_primary is Pending)
                        && !(final(self).skills_primary is Pending),
                    Err(_) => final(self).assigns_primary is Failed
                        && final(self).skills_primary is Failed
                        && final(self).operator_out is Abandoned
                        && final(self).operator_assets is Abandoned
                        && final(self).skill_out is Abandoned
                        && final(self).skill_assets is Abandoned
                        && final(self).errors@.len() == old(self).errors@.len() + 1,
                })
                &&& (locale is US && old(self).skills_secondary is Pending
                    && old(self).rooms_secondary is Pending ==> match res {
                    Ok(_) => !(final(self).skills_secondary is Pending)
                        && !(final(self).rooms_secondary is Pending),
                    Err(_) => final(self).skills_secondary is Failed
                        && final(self).rooms_secondary is Failed
                        && final(self).skill_out is Abandoned
                        && final(self).skill_assets is Abandoned
                        && final(self).facility_out is Abandoned
                        && final(self).facility_assets is Abandoned
                        && final(self).errors@.len() == old(self).errors@.len() + 1,
                })
            }),
            event matches OrchEvent::TermsFetched(locale, res) ==> (!old(self).finished ==> {
                &&& (locale is CN && old(self).styles_primary is Pending
                    && old(self).terms_primary is Pending ==> match res {
                    Ok(_) => !(final(self).styles_primary is Pending)
                        && !(final(self).terms_primary is Pending),
                    Err(_) => final(self).styles_primary is Failed
                        && final(self).terms_primary is Failed
                        && final(self).style_out is Abandoned
                        && final(self).term_out is Abandoned
                        && final(self).errors@.len() == old(self).errors@.len() + 1,
                })
                &&& (locale is US && old(self).terms_secondary is Pending ==> match res {
                    Ok(_) => !(final(self).terms_secondary is Pending),
                    Err(_) => final(self).terms_secondary is Failed
                        && final(self).term_out is Abandoned
                        && final(self).errors@.len() == old(self).errors@.len() + 1,
                })
            }),
            // Branch work is owed: an event that completes a branch's inputs
            // either starts the branch, its actions among the returned ones,
            // or fails it fatally with the error recorded.
            !old(self).finished && completes_operator_inputs(old(self), &event) ==> ({
                ||| (final(self).operator_out is Running && final(self).operator_assets is Running
                    && has_persist(a@, OutputFamily::Operators) && has_assets(
                    a@,
                    AssetFamily::OperatorAvatar,
                ))
                ||| (final(self).operator_out is Failed && final(self).operator_assets
                    is Abandoned && final(self).errors@.len() == old(self).errors@.len() + 1)
            }),
            !old(self).finished && completes_skill_inputs(old(self), &event) ==> final(self).skill_out is Running && final(self).skill_assets is Running && has_persist(
                a@,
                OutputFamily::Skills,
            ) && has_assets(a@, AssetFamily::SkillIcon),
            !old(self).finished && completes_facility_inputs(old(self), &event) ==> ({
                ||| (final(self).facility_out is Running && final(self).facility_assets is Running
                    && has_persist(a@, OutputFamily::Facilities) && has_assets(
                    a@,
                    AssetFamily::FacilityIcon,
                ))
                ||| (final(self).facility_out is Failed && final(self).facility_assets
                    is Abandoned && final(self).errors@.len() == old(self).errors@.len() + 1)
            }),
            !old(self).finished && completes_style_inputs(old(self), &event) ==> final(self).style_out is Running && has_persist(a@, OutputFamily::Styles),
            !old(self).finished && completes_term_inputs(old(self), &event) ==> final(self).term_out is Running && has_persist(a@, OutputFamily::Terms),
            // Completion reports settle exactly their running branch.
            event matches OrchEvent::Persisted(f, res) ==> (!old(self).finished ==> {
                &&& (out_branch(old(self), f) == BranchState::Running ==> match res {
                    Ok(_) => out_branch(final(self), f) == BranchState::Done,
                    Err(e) => out_branch(final(self), f) == BranchState::Failed && final(self).errors@ == old(self).errors@.push(e),
                })
                &&& (out_branch(old(self), f) != BranchState::Running ==> out_branch(
                    final(self),
                    f,
                ) == out_branch(old(self), f) && final(self).errors == old(self).errors)
            }),
            event matches OrchEvent::AssetsDone(f, res) ==> (!old(self).finished ==> {
                &&& (asset_branch(old(self), f) == Some(BranchState::Running) ==> match res {
                    Ok(_) => asset_branch(final(self), f) == Some(BranchState::Done),
                    Err(e) => asset_branch(final(self), f) == Some(BranchState::Failed) && final(self).errors@ == old(self).errors@.push(e),
                })
                &&& (asset_branch(old(self), f) != Some(BranchState::Running) ==> asset_branch(
                    final(self),
                    f,
                ) == asset_branch(old(self), f) && final(self).errors == old(self).errors)
            }),
    {
        let mut acts: Vec<OrchAction> = Vec::new();
        if self.finished {
            return acts;
        }
        let ghost ev0 = event;
        match event {
            OrchEvent::Persisted(family, res) => self.apply_persist_ack(family, res),
            OrchEvent::AssetsDone(family, res) => self.apply_assets_ack(family, res),
            other => self.dispatch(other, &mut acts),
        }
        let ghost mid = *self;
        let ghost mid_acts = acts@;
        let settled = branch_terminal(self.operator_out) && branch_terminal(self.skill_out)
            && branch_terminal(self.term_out) && branch_terminal(self.style_out)
            && branch_terminal(self.facility_out) && branch_terminal(self.operator_assets)
            && branch_terminal(self.skill_assets) && branch_terminal(self.facility_assets);
        if settled {
            self.finished = true;
            let ok = self.errors.len() == 0;
            acts.push(OrchAction::Finish(ok));
        }
        proof {
            lemma_earlier_actions_stay_ok(
                0,
                mid_acts,
                acts@,
                &after_intake(*old(self), ev0),
                &mid,
                self,
            );
        }
        acts
    }

    /// Applies one event's intake and branch work; never finishes the run.
    #[verifier::spinoff_prover]
    #[verifier::rlimit(100)]
    fn dispatch(&mut self, event: OrchEvent, acts: &mut Vec<OrchAction>)
        requires
            event_wf(&event),
            slots_wf(old(self)),
            !old(self).finished,
        ensures
            slots_wf(final(self)),
            old(self).errors@.is_prefix_of(final(self).errors@),
            final(self).finished == old(self).finished,
            old(acts)@.is_prefix_of(final(acts)@),
            no_finish(old(acts)@) ==> no_finish(final(acts)@),
            forall|k: int|
                old(acts)@.len() <= k < final(acts)@.len() ==> action_ok(
                    &(#[trigger] final(acts)@[k]),
                    &after_intake(*old(self), event),
                    final(self),
                ),
            event matches OrchEvent::OpsFetched(res) ==> (old(self).ops_raw is Pending
                ==> match res {
                Ok(_) => !(final(self).ops_raw is Pending),
                Err(_) => final(self).ops_raw is Failed && final(self).operator_out is Abandoned
                    && final(self).operator_assets is Abandoned && final(self).errors@.len()
                    == old(self).errors@.len() + 1,
            }),
            event matches OrchEvent::BaseFetched(locale, res) ==> {
                &&& (locale is CN && old(self).assigns_primary is Pending
                    && old(self).skills_primary is Pending ==> match res {
                    Ok(_) => !(final(self).assigns_primary is Pending)
                        && !(final(self).skills_primary is Pending),
                    Err(_) => final(self).assigns_primary is Failed
                        && final(self).skills_primary is Failed
                        && final(self).operator_out is Abandoned
                        && final(self).operator_assets is Abandoned
                        && final(self).skill_out is Abandoned
                        && final(self).skill_assets is Abandoned
                        && final(self).errors@.len() == old(self).errors@.len() + 1,
                })
                &&& (locale is US && old(self).skills_secondary is Pending
                    && old(self).rooms_secondary is Pending ==> match res {
                    Ok(_) => !(final(self).skills_secondary is Pending)
                        && !(final(self).rooms_secondary is Pending),
                    Err(_) => final(self).skills_secondary is Failed
                        && final(self).rooms_secondary is Failed
                        && final(self).skill_out is Abandoned
                        && final(self).skill_assets is Abandoned
                        && final(self).facility_out is Abandoned
                        && final(self).facility_assets is Abandoned
                        && final(self).errors@.len() == old(self).errors@.len() + 1,
                })
            },
            event matches OrchEvent::TermsFetched(locale, res) ==> {
                &&& (locale is CN && old(self).styles_primary is Pending
                    && old(self).terms_primary is Pending ==> match res {
                    Ok(_) => !(final(self).styles_primary is Pending)
                        && !(final(self).terms_primary is Pending),
                    Err(_) => final(self).styles_primary is Failed
                        && final(self).terms_primary is Failed
                        && final(self).style_out is Abandoned
                        && final(self).term_out is Abandoned
                        && final(self).errors@.len() == old(self).errors@.len() + 1,
                })
                &&& (locale is US && old(self).terms_secondary is Pending ==> match res {
                    Ok(_) => !(final(self).terms_secondary is Pending),
                    Err(_) => final(self).terms_secondary is Failed
                        && final(self).term_out is Abandoned
                        && final(self).errors@.len() == old(self).errors@.len() + 1,
                })
            },
            completes_operator_inputs(old(self), &event) ==> ({
                ||| (final(self).operator_out is Running && final(self).operator_assets is Running
                    && has_persist(final(acts)@, OutputFamily::Operators) && has_assets(
                    final(acts)@,
                    AssetFamily::OperatorAvatar,
                ))
                ||| (final(self).operator_out is Failed && final(self).operator_assets
                    is Abandoned && final(self).errors@.len() == old(self).errors@.len() + 1)
            }),
            completes_skill_inputs(old(self), &event) ==> final(self).skill_out is Running
                && final(self).skill_assets is Running && has_persist(
                final(acts)@,
                OutputFamily::Skills,
            ) && has_assets(final(acts)@, AssetFamily::SkillIcon),
            completes_facility_inputs(old(self), &event) ==> ({
                ||| (final(self).facility_out is Running && final(self).facility_assets is Running
                    && has_persist(final(acts)@, OutputFamily::Facilities) && has_assets(
                    final(acts)@,
                    AssetFamily::FacilityIcon,
                ))
                ||| (final(self).facility_out is Failed && final(self).facility_assets
                    is Abandoned && final(self).errors@.len() == old(self).errors@.len() + 1)
            }),
            completes_style_inputs(old(self), &event) ==> final(self).style_out is Running
                && has_persist(final(acts)@, OutputFamily::Styles),
            completes_term_inputs(old(self), &event) ==> final(self).term_out is Running
                && has_persist(final(acts)@, OutputFamily::Terms),
    {
        let ghost ev0 = event;
        match event {
            OrchEvent::OpsFetched(res) => {
                if matches!(self.ops_raw, FetchSlot::Pending) {
                    match res {
                        Ok(v) => {
                            self.ops_raw = FetchSlot::Ready(v);
                            if matches!(self.assigns_primary, FetchSlot::Ready(_)) {
                                self.try_operator(Ghost(after_intake(*old(self), ev0)), acts);
                            }
                        },
                        Err(e) => {
                            self.ops_raw = FetchSlot::Failed;
                            self.errors.push(e);
                            self.operator_out = BranchState::Abandoned;
                            self.operator_assets = BranchState::Abandoned;
                        },
                    }
                }
            },
            OrchEvent::BaseFetched(locale, res) => match locale {
                Server::CN => {
                    if matches!(self.assigns_primary, FetchSlot::Pending) && matches!(
                        self.skills_primary,
                        FetchSlot::Pending,
                    ) {
                        match res {
                            Ok(d) => {
                                self.assigns_primary = FetchSlot::Ready(d.ops);
                                self.skills_primary = FetchSlot::Ready(d.skills);
                                if matches!(self.ops_raw, FetchSlot::Ready(_)) {
                                    self.try_operator(Ghost(after_intake(*old(self), ev0)), acts);
                                }
                                let ghost mid = *self;
                                let ghost mid_acts = acts@;
                                if matches!(self.skills_secondary, FetchSlot::Ready(_)) {
                                    self.try_skills(Ghost(after_intake(*old(self), ev0)), acts);
                                }
                                proof {
                                    lemma_earlier_actions_stay_ok(
                                        old(acts)@.len() as int,
                                        mid_acts,
                                        acts@,
                                        &after_intake(*old(self), ev0),
                                        &mid,
                                        self,
                                    );
                                }
                            },
                            Err(e) => {
                                self.assigns_primary = FetchSlot::Failed;
                                self.skills_primary = FetchSlot::Failed;
                                self.errors.push(e);
                                self.operator_out = BranchState::Abandoned;
                                self.operator_assets = BranchState::Abandoned;
                                self.skill_out = BranchState::Abandoned;
                                self.skill_assets = BranchState::Abandoned;
                            },
                        }
                    }
                },
                Server::US => {
                    if matches!(self.skills_secondary, FetchSlot::Pending) && matches!(
                        self.rooms_secondary,
                        FetchSlot::Pending,
                    ) {
                        match res {
                            Ok(d) => {
                                self.skills_secondary = FetchSlot::Ready(d.skills);
                                self.rooms_secondary = FetchSlot::Ready(d.rooms);
                                if matches!(self.skills_primary, FetchSlot::Ready(_)) {
                                    self.try_skills(Ghost(after_intake(*old(self), ev0)), acts);
                                }
                                let ghost mid = *self;
                                let ghost mid_acts = acts@;
                                self.try_facilities(Ghost(after_intake(*old(self), ev0)), acts);
                                proof {
                                    lemma_earlier_actions_stay_ok(
                                        old(acts)@.len() as int,
                                        mid_acts,
                                        acts@,
                                        &after_intake(*old(self), ev0),
                                        &mid,
                                        self,
                                    );
                                }
                            },
                            Err(e) => {
                                self.skills_secondary = FetchSlot::Failed;
                                self.rooms_secondary = FetchSlot::Failed;
                                self.errors.push(e);
                                self.skill_out = BranchState::Abandoned;
                                self.skill_assets = BranchState::Abandoned;
                                self.facility_out = BranchState::Abandoned;
                                self.facility_assets = BranchState::Abandoned;
                            },
                        }
                    }
                },
            },
            OrchEvent::TermsFetched(locale, res) => match locale {
                Server::CN => {
                    if matches!(self.styles_primary, FetchSlot::Pending) && matches!(
                        self.terms_primary,
                        FetchSlot::Pending,
                    ) {
                        match res {
                            Ok(d) => {
                                self.styles_primary = FetchSlot::Ready(d.styles);
                                self.terms_primary = FetchSlot::Ready(d.terms);
                                self.try_styles(Ghost(after_intake(*old(self), ev0)), acts);
                                let ghost mid = *self;
                                let ghost mid_acts = acts@;
                                if matches!(self.terms_secondary, FetchSlot::Ready(_)) {
                                    self.try_terms(Ghost(after_intake(*old(self), ev0)), acts);
                                }
                                proof {
                                    lemma_earlier_actions_stay_ok(
                                        old(acts)@.len() as int,
                                        mid_acts,
                                        acts@,
                                        &after_intake(*old(self), ev0),
                                        &mid,
                                        self,
                                    );
                                }
                            },
                            Err(e) => {
                                self.styles_primary = FetchSlot::Failed;
                                self.terms_primary = FetchSlot::Failed;
                                self.errors.push(e);
                                self.style_out = BranchState::Abandoned;
                                self.term_out = BranchState::Abandoned;
                            },
                        }
                    }
                },
                Server::US => {
                    if matches!(self.terms_secondary, FetchSlot::Pending) {
                        match res {
                            Ok(d) => {
                                self.terms_secondary = FetchSlot::Ready(d.terms);
                                if matches!(self.terms_primary, FetchSlot::Ready(_)) {
                                    self.try_terms(Ghost(after_intake(*old(self), ev0)), acts);
                                }
                            },
                            Err(e) => {
                                self.terms_secondary = FetchSlot::Failed;
                                self.errors.push(e);
                                self.term_out = BranchState::Abandoned;
                            },
                        }
                    }
                },
            },
            OrchEvent::Persisted(_, _) => {},
            OrchEvent::AssetsDone(_, _) => {},
        }
    }

    /// Settles one persist branch from its reported outcome; a report for a
    /// branch that is not running changes nothing, and an error is recorded
    /// only when it settles a running branch.
    fn apply_persist_ack(&mut self, family: OutputFamily, res: Result<(), PipelineError>)
        ensures
            final(self).ops_raw == old(self).ops_raw,
            final(self).assigns_primary == old(self).assigns_primary,
            final(self).skills_primary == old(self).skills_primary,
            final(self).skills_secondary == old(self).skills_secondary,
            final(self).rooms_secondary == old(self).rooms_secondary,
            final(self).styles_primary == old(self).styles_primary,
            final(self).terms_primary == old(self).terms_primary,
            final(self).terms_secondary == old(self).terms_secondary,
            final(self).operator_assets == old(self).operator_assets,
            final(self).skill_assets == old(self).skill_assets,
            final(self).facility_assets == old(self).facility_assets,
            final(self).finished == old(self).finished,
            forall|g: OutputFamily|
                g != family ==> out_branch(final(self), g) == #[trigger] out_branch(old(self), g),
            out_branch(old(self), family) == BranchState::Running ==> match res {
                Ok(_) => out_branch(final(self), family) == BranchState::Done && final(self).errors == old(self).errors,
                Err(e) => out_branch(final(self), family) == BranchState::Failed && final(self).errors@ == old(self).errors@.push(e),
            },
            out_branch(old(self), family) != BranchState::Running ==> out_branch(
                final(self),
                family,
            ) == out_branch(old(self), family) && final(self).errors == old(self).errors,
    {
        match family {
            OutputFamily::Operators => {
                if matches!(self.operator_out, BranchState::Running) {
                    self.operator_out = Self::settle_result(&mut self.errors, res);
                }
            },
            OutputFamily::Skills => {
                if matches!(self.skill_out, BranchState::Running) {
                    self.skill_out = Self::settle_result(&mut self.errors, res);
                }
            },
            OutputFamily::Terms => {
                if matches!(self.term_out, BranchState::Running) {
                    self.term_out = Self::settle_result(&mut self.errors, res);
                }
            },
            OutputFamily::Styles => {
                if matches!(self.style_out, BranchState::Running) {
                    self.style_out = Self::settle_result(&mut self.errors, res);
                }
            },
            OutputFamily::Facilities => {
                if matches!(self.facility_out, BranchState::Running) {
                    self.facility_out = Self::settle_result(&mut self.errors, res);
                }
            },
        }
    }

    /// Settles one asset branch from its reported outcome; the item family
    /// has no branch and its reports change nothing.
    fn apply_assets_ack(&mut self, family: AssetFamily, res: Result<(), PipelineError>)
        ensures
            final(self).ops_raw == old(self).ops_raw,
            final(self).assigns_primary == old(self).assigns_primary,
            final(self).skills_primary == old(self).skills_primary,
            final(self).skills_secondary == old(self).skills_secondary,
            final(self).rooms_secondary == old(self).rooms_secondary,
            final(self).styles_primary == old(self).styles_primary,
            final(self).terms_primary == old(self).terms_primary,
            final(self).terms_secondary == old(self).terms_secondary,
            final(self).operator_out == old(self).operator_out,
            final(self).skill_out == old(self).skill_out,
            final(self).term_out == old(self).term_out,
            final(self).style_out == old(self).style_out,
            final(self).facility_out == old(self).facility_out,
            final(self).finished == old(self).finished,
            forall|g: AssetFamily|
                g != family ==> asset_branch(final(self), g) == #[trigger] asset_branch(
                    old(self),
                    g,
                ),
            asset_branch(old(self), family) == Some(BranchState::Running) ==> match res {
                Ok(_) => asset_branch(final(self), family) == Some(BranchState::Done) && final(self).errors == old(self).errors,
                Err(e) => asset_branch(final(self), family) == Some(BranchState::Failed) && final(self).errors@ == old(self).errors@.push(e),
            },
            asset_branch(old(self), family) != Some(BranchState::Running) ==> asset_branch(
                final(self),
                family,
            ) == asset_branch(old(self), family) && final(self).errors == old(self).errors,
    {
        match family {
            AssetFamily::OperatorAvatar => {
                if matches!(self.operator_assets, BranchState::Running) {
                    self.operator_assets = Self::settle_result(&mut self.errors, res);
                }
            },
            AssetFamily::SkillIcon => {
                if matches!(self.skill_assets, BranchState::Running) {
                    self.skill_assets = Self::settle_result(&mut self.errors, res);
                }
            },
            AssetFamily::FacilityIcon => {
                if matches!(self.facility_assets, BranchState::Running) {
                    self.facility_assets = Self::settle_result(&mut self.errors, res);
                }
            },
            AssetFamily::ItemIcon => {},
        }
    }

    /// A reported outcome settles a running branch as done or failed; an
    /// error is appended to the collected list.
    fn settle_result(errors: &mut Vec<PipelineError>, res: Result<(), PipelineError>) -> (r:
        BranchState)
        ensures
            match res {
                Ok(_) => r == BranchState::Done && *final(errors) == *old(errors),
                Err(e) => r == BranchState::Failed && final(errors)@ == old(errors)@.push(e),
            },
    {
        match res {
            Ok(_) => BranchState::Done,
            Err(e) => {
                errors.push(e);
                BranchState::Failed
            },
        }
    }
}

/// Whether a branch will do no further work.
fn branch_terminal(b: BranchState) -> (r: bool)
    ensures
        r == terminal(b),
{
    matches!(b, BranchState::Done | BranchState::Failed | BranchState::Abandoned)
}

} // verus!
