//! The asset pipeline's verified core: target paths and remote locations,
//! the de-duplicated id lists each record family fans out over, and the
//! per-asset lifecycle as a state machine whose outside work — the existence
//! check, the fetch and the write — is performed by the caller between steps.

use crate::base::Skill;
use crate::errors::PipelineError;
use crate::table::Table;
use crate::text::concat;
use crate::text::str_eq;
use crate::transcode::decoded_dims;
use crate::transcode::process_image;
use crate::transcode::spec_target_dims;
use crate::transcode::spec_transcode_ok;
use crate::transcode::webp_of;
use crate::transcode::ProcessedAsset;
use vstd::prelude::*;

verus! {

/// The record families that fan out image-asset work.
#[derive(Clone, Copy, PartialEq, Eq, Structural, Debug)]
pub enum AssetFamily {
    OperatorAvatar,
    SkillIcon,
    ItemIcon,
    FacilityIcon,
}

impl AssetFamily {
    /// The remote directory this family's source images sit under.
    pub open spec fn spec_remote_dir(&self) -> Seq<char> {
        match self {
            AssetFamily::OperatorAvatar => "torappu/dynamicassets/arts/charavatars"@,
            AssetFamily::SkillIcon => "torappu/dynamicassets/arts/building/skills"@,
            AssetFamily::ItemIcon => "torappu/dynamicassets/arts/items/icons"@,
            AssetFamily::FacilityIcon => "torappu/dynamicassets/arts/building/rooms"@,
        }
    }

    pub fn remote_dir(&self) -> (r: &'static str)
        ensures
            r@ == self.spec_remote_dir(),
    {
        match self {
            AssetFamily::OperatorAvatar => "torappu/dynamicassets/arts/charavatars",
            AssetFamily::SkillIcon => "torappu/dynamicassets/arts/building/skills",
            AssetFamily::ItemIcon => "torappu/dynamicassets/arts/items/icons",
            AssetFamily::FacilityIcon => "torappu/dynamicassets/arts/building/rooms",
        }
    }
}

/// The fixed base location all source images are fetched from.
pub open spec fn spec_asset_base() -> Seq<char> {
    "https://raw.githubusercontent.com/astral4/arkdata/main/assets"@
}

/// The remote location of one source image: the fixed asset base, the
/// family's directory and the id, with the source extension.
pub fn asset_url(family: &AssetFamily, id: &str) -> (r: String)
    ensures
        r@ == spec_asset_base() + "/"@ + family.spec_remote_dir() + "/"@ + id@ + ".png"@,
{
    let base = concat("https://raw.githubusercontent.com/astral4/arkdata/main/assets", "/");
    let with_dir = concat(base.as_str(), family.remote_dir());
    let with_sep = concat(with_dir.as_str(), "/");
    let with_id = concat(with_sep.as_str(), id);
    concat(with_id.as_str(), ".png")
}

/// The target path of one materialized asset: the target directory and the
/// id, with the output extension.
pub fn asset_target_path(dir: &str, id: &str) -> (r: String)
    ensures
        r@ == dir@ + "/"@ + id@ + ".webp"@,
{
    let with_sep = concat(dir, "/");
    let with_id = concat(with_sep.as_str(), id);
    concat(with_id.as_str(), ".webp")
}

/// The icon ids of a skill table, in encounter order.
pub open spec fn icon_ids_of(t: Seq<(Seq<char>, Skill)>) -> Seq<Seq<char>> {
    t.map_values(|e: (Seq<char>, Skill)| e.1.icon_id@)
}

/// First-occurrence de-duplication of `s`, appended to `acc`.
pub open spec fn spec_dedup_from(acc: Seq<Seq<char>>, s: Seq<Seq<char>>) -> Seq<Seq<char>>
    decreases s.len(),
{
    if s.len() == 0 {
        acc
    } else if acc.contains(s[0]) {
        spec_dedup_from(acc, s.skip(1))
    } else {
        spec_dedup_from(acc.push(s[0]), s.skip(1))
    }
}

/// Whether some element of `v` has content `s`.
fn vec_contains_str(v: &Vec<String>, s: &str) -> (r: bool)
    ensures
        r == v@.map_values(|x: String| x@).contains(s@),
{
    let n = v.len();
    let mut i: usize = 0;
    while i < n
        invariant
            i <= n,
            n == v@.len(),
            forall|j: int| 0 <= j < i ==> (#[trigger] v@[j])@ != s@,
        decreases n - i,
    {
        if str_eq(v[i].as_str(), s) {
            proof {
                assert(v@.map_values(|x: String| x@)[i as int] == s@);
            }
            return true;
        }
        i += 1;
    }
    proof {
        let m = v@.map_values(|x: String| x@);
        assert forall|j: int| 0 <= j < m.len() implies m[j] != s@ by {
            assert(m[j] == (v@[j])@);
        }
        assert(!m.contains(s@));
    }
    false
}

/// The icon ids a skill table fans out over, with duplicates dropped so that
/// each concurrent task owns a distinct target path; first occurrences keep
/// their order.
#[verifier::loop_isolation(false)]
pub fn skill_icon_ids(skills: &Table<Skill>) -> (r: Vec<String>)
    ensures
        r@.map_values(|x: String| x@) == spec_dedup_from(
            Seq::<Seq<char>>::empty(),
            icon_ids_of(skills@),
        ),
{
    let ghost ids0 = icon_ids_of(skills@);
    let n = skills.len();
    let mut out: Vec<String> = Vec::new();
    let mut i: usize = 0;
    proof {
        assert(ids0.skip(0) =~= ids0);
        assert(out@.map_values(|x: String| x@) =~= Seq::<Seq<char>>::empty());
    }
    while i < n
        invariant
            i <= n,
            n == skills@.len(),
            spec_dedup_from(out@.map_values(|x: String| x@), ids0.skip(i as int))
                == spec_dedup_from(Seq::<Seq<char>>::empty(), ids0),
        decreases n - i,
    {
        let ghost acc = out@.map_values(|x: String| x@);
        let (_, skill) = skills.entry_at(i);
        proof {
            assert(ids0.skip(i as int)[0] == ids0[i as int]);
            assert(ids0.skip(i as int).skip(1) =~= ids0.skip(i as int + 1));
        }
        if !vec_contains_str(&out, skill.icon_id.as_str()) {
            let ghost id_view = skill.icon_id@;
            out.push(skill.icon_id.clone());
            proof {
                assert(out@.map_values(|x: String| x@) =~= acc.push(id_view));
            }
        }
        i += 1;
    }
    proof {
        assert(ids0.skip(i as int) =~= Seq::<Seq<char>>::empty());
    }
    out
}

/// Where a per-asset task stands in its lifecycle.
#[derive(Clone, Copy, PartialEq, Eq, Structural, Debug)]
pub enum AssetState {
    /// Waiting for the existence check of the target path.
    Checking,
    /// Waiting for the fetched source bytes.
    Fetching,
    /// Waiting for the encoded bytes to be written.
    Writing,
    /// Terminal: materialized, or already present.
    Done,
    /// Terminal: failed with the first error encountered.
    Failed,
}

/// What the caller reports back to a task: the result of the outside work the
/// last action asked for.
pub enum AssetEvent {
    /// Whether a file already exists at the target path.
    Checked(bool),
    /// The fetched source bytes, or the transport or status failure.
    Fetched(Result<Vec<u8>, PipelineError>),
    /// The outcome of writing the encoded bytes.
    Written(Result<(), PipelineError>),
}

/// What a task asks the caller to do next.
pub enum AssetAction {
    /// Fetch the source bytes from the asset's remote location.
    Fetch,
    /// Write the transcoded asset to the target path.
    Write(ProcessedAsset),
    /// The task reached a terminal state.
    Finished,
    /// The event did not match the state; nothing to do.
    Idle,
}

/// Whether an event is the one the task's state waits for.
pub open spec fn event_expected(state: AssetState, event: &AssetEvent) -> bool {
    match state {
        AssetState::Checking => event is Checked,
        AssetState::Fetching => event is Fetched,
        AssetState::Writing => event is Written,
        AssetState::Done => false,
        AssetState::Failed => false,
    }
}

/// One per-asset materialization task.
///
/// The task never asks for a fetch or a write once the target file was
/// reported present, and a terminal state is absorbing: re-running the
/// pipeline over already-materialized assets performs no network activity and
/// leaves the files untouched.
pub struct AssetTask {
    /// Where the task stands.
    pub state: AssetState,
    /// The first error encountered, in a failed task.
    pub error: Option<PipelineError>,
}

impl AssetTask {
    /// A failed task carries an error; no other does.
    pub open spec fn wf(&self) -> bool {
        (self.state is Failed) == (self.error is Some)
    }

    /// A fresh task, waiting for the existence check.
    pub fn start() -> (r: AssetTask)
        ensures
            r.state is Checking,
            r.error is None,
            r.wf(),
    {
        AssetTask { state: AssetState::Checking, error: None }
    }

    /// Advances the task by one reported event and says what to do next.
    pub fn step(&mut self, event: AssetEvent, min_size: u32, quality: u8) -> (a: AssetAction)
        requires
            old(self).wf(),
        ensures
            final(self).wf(),
            // A terminal or mismatched event changes nothing.
            !event_expected(old(self).state, &event) ==> *final(self) == *old(self) && a is Idle,
            // An already-present file is terminal success with no fetch and
            // no write: the idempotent cache.
            event matches AssetEvent::Checked(true) ==> (old(self).state is Checking
                ==> final(self).state is Done && a is Finished),
            event matches AssetEvent::Checked(false) ==> (old(self).state is Checking
                ==> final(self).state is Fetching && a is Fetch),
            event matches AssetEvent::Fetched(fr) ==> (old(self).state is Fetching ==> match fr {
                Ok(bytes) => {
                    &&& (a is Write) == spec_transcode_ok(bytes@, min_size, quality)
                    &&& (a matches AssetAction::Write(p) ==> final(self).state is Writing && (
                    decoded_dims(bytes@) matches Some(d) && (p.width as int, p.height as int)
                        == spec_target_dims(d.0, d.1, min_size)) && webp_of(
                        bytes@,
                        p.width,
                        p.height,
                        quality,
                    ) == Some(p.bytes@))
                    &&& (a is Finished ==> final(self).state is Failed && (final(self).error
                        matches Some(e) && (e is Decode || e is Encode)))
                    &&& (a is Write || a is Finished)
                },
                Err(f) => final(self).state is Failed && final(self).error == Some(f) && a
                    is Finished,
            }),
            event matches AssetEvent::Written(wr) ==> (old(self).state is Writing ==> match wr {
                Ok(u) => final(self).state is Done && a is Finished,
                Err(f) => final(self).state is Failed && final(self).error == Some(f) && a
                    is Finished,
            }),
    {
        let st = self.state;
        match (st, event) {
            (AssetState::Checking, AssetEvent::Checked(true)) => {
                self.state = AssetState::Done;
                AssetAction::Finished
            },
            (AssetState::Checking, AssetEvent::Checked(false)) => {
                self.state = AssetState::Fetching;
                AssetAction::Fetch
            },
            (AssetState::Fetching, AssetEvent::Fetched(Ok(bytes))) => {
                match process_image(&bytes, min_size, quality) {
                    Ok(p) => {
                        self.state = AssetState::Writing;
                        AssetAction::Write(p)
                    },
                    Err(e) => {
                        self.state = AssetState::Failed;
                        self.error = Some(e);
                        AssetAction::Finished
                    },
                }
            },
            (AssetState::Fetching, AssetEvent::Fetched(Err(f))) => {
                self.state = AssetState::Failed;
                self.error = Some(f);
                AssetAction::Finished
            },
            (AssetState::Writing, AssetEvent::Written(Ok(()))) => {
                self.state = AssetState::Done;
                AssetAction::Finished
            },
            (AssetState::Writing, AssetEvent::Written(Err(f))) => {
                self.state = AssetState::Failed;
                self.error = Some(f);
                AssetAction::Finished
            },
            (_, _) => AssetAction::Idle,
        }
    }
}

} // verus!
