//! The download orchestrator's decision core: one state machine per
//! requested file, walking an ordered mirror list. Every mirror-level
//! failure — transport, manifest parse, a name missing from the
//! manifest, a digest mismatch — advances to the next mirror; a
//! verified download ends the walk; only an exhausted mirror list
//! fails the file. The surrounding loop that performs network and
//! file work feeds events in and carries the chosen actions out.

use vstd::prelude::*;

use crate::fetch::bytes_eq;

verus! {

/// Where one file stands in its mirror walk.
#[derive(Debug, Clone, Copy, PartialEq, Eq, Structural)]
pub enum FileState {
    /// Not yet started.
    Pending,
    /// Trying the mirror with this index.
    Verifying { mirror: usize },
    /// A verified download completed, using the mirror with this
    /// index.
    Done { mirror: usize },
    /// Every mirror was tried and failed.
    Failed,
}

/// How one mirror attempt ended.
#[derive(Debug, Clone, Copy, PartialEq, Eq, Structural)]
pub enum MirrorOutcome {
    /// The file was downloaded and its digest matched the manifest.
    Fetched,
    /// The transport failed or timed out.
    NetworkFailure,
    /// The mirror's manifest or listing did not parse.
    ParseFailure,
    /// The file is absent from the mirror's checksum manifest.
    UnknownFile,
    /// The downloaded bytes did not hash to the manifest's digest.
    DigestMismatch,
}

/// Whether an outcome ends the file's walk successfully. Every other
/// outcome is a mirror-level failure and advances the walk.
pub open spec fn spec_outcome_success(o: MirrorOutcome) -> bool {
    o == MirrorOutcome::Fetched
}

/// The mirror the state asks to be tried next, if any. `Done` and
/// `Failed` ask for nothing: no mirror is contacted after success or
/// exhaustion.
pub open spec fn spec_next_attempt(s: FileState) -> Option<int> {
    match s {
        FileState::Verifying { mirror } => Some(mirror as int),
        _ => None,
    }
}

/// The successor state: starting hands `Pending` to the first mirror;
/// a success in `Verifying` records the serving mirror; a failure
/// advances to the next mirror, or to `Failed` past the last one.
/// `Done` and `Failed` absorb every event.
pub open spec fn spec_step(s: FileState, mirror_count: usize, o: MirrorOutcome) -> FileState {
    match s {
        FileState::Pending => s,
        FileState::Verifying { mirror } => {
            if spec_outcome_success(o) {
                FileState::Done { mirror }
            } else if mirror + 1 < mirror_count {
                FileState::Verifying { mirror: (mirror + 1) as usize }
            } else {
                FileState::Failed
            }
        },
        FileState::Done { .. } => s,
        FileState::Failed => s,
    }
}

/// The state a walk reaches after a run of outcomes, fed in order.
pub open spec fn spec_run(s: FileState, mirror_count: usize, os: Seq<MirrorOutcome>) -> FileState
    decreases os.len(),
{
    if os.len() == 0 {
        s
    } else {
        spec_run(spec_step(s, mirror_count, os.first()), mirror_count, os.drop_first())
    }
}

/// Starts a file's walk at the first mirror; with no mirrors at all
/// the file fails at once.
pub fn start(mirror_count: usize) -> (r: FileState)
    ensures
        mirror_count > 0 ==> r == (FileState::Verifying { mirror: 0 }),
        mirror_count == 0 ==> r == FileState::Failed,
{
    if mirror_count > 0 {
        FileState::Verifying { mirror: 0 }
    } else {
        FileState::Failed
    }
}

/// Advances a file's walk by one mirror attempt's outcome.
pub fn step(s: FileState, mirror_count: usize, o: MirrorOutcome) -> (r: FileState)
    ensures
        r == spec_step(s, mirror_count, o),
{
    match s {
        FileState::Pending => s,
        FileState::Verifying { mirror } => {
            if matches!(o, MirrorOutcome::Fetched) {
                FileState::Done { mirror }
            } else if mirror < usize::MAX && mirror + 1 < mirror_count {
                FileState::Verifying { mirror: mirror + 1 }
            } else {
                FileState::Failed
            }
        },
        FileState::Done { mirror } => FileState::Done { mirror },
        FileState::Failed => FileState::Failed,
    }
}

/// When the first `n - 1` mirrors fail and the last one serves a
/// verified download, the walk ends `Done` on that last mirror, and a
/// finished walk asks for no further mirror.
pub proof fn lemma_mirror_fallback(mirror_count: usize, os: Seq<MirrorOutcome>)
    requires
        0 < mirror_count,
        os.len() == mirror_count,
        forall|i: int| 0 <= i < mirror_count - 1 ==> !spec_outcome_success(#[trigger] os[i]),
        spec_outcome_success(os[mirror_count - 1]),
    ensures
        spec_run(FileState::Verifying { mirror: 0 }, mirror_count, os) == (FileState::Done {
            mirror: (mirror_count - 1) as usize,
        }),
        spec_next_attempt(spec_run(FileState::Verifying { mirror: 0 }, mirror_count, os))
            is None,
{
    lemma_fallback_from(0, mirror_count, os);
}

/// A finished or failed walk never changes again, whatever else is
/// fed to it.
pub proof fn lemma_terminal_states_absorb(s: FileState, mirror_count: usize, o: MirrorOutcome)
    requires
        s is Done || s is Failed,
    ensures
        spec_step(s, mirror_count, o) == s,
{
}

/// A finished or failed walk stays where it is across any whole run
/// of further outcomes.
pub proof fn lemma_terminal_states_absorb_run(
    s: FileState,
    mirror_count: usize,
    os: Seq<MirrorOutcome>,
)
    requires
        s is Done || s is Failed,
    ensures
        spec_run(s, mirror_count, os) == s,
    decreases os.len(),
{
    if os.len() > 0 {
        lemma_terminal_states_absorb_run(s, mirror_count, os.drop_first());
    }
}

/// The walk from mirror `k`, over the outcomes for mirrors `k` and
/// beyond, ends `Done` on the last mirror when only the last outcome
/// succeeds.
proof fn lemma_fallback_from(k: int, mirror_count: usize, os: Seq<MirrorOutcome>)
    requires
        0 <= k < mirror_count,
        os.len() == mirror_count - k,
        forall|i: int| 0 <= i < os.len() - 1 ==> !spec_outcome_success(#[trigger] os[i]),
        spec_outcome_success(os[os.len() - 1]),
    ensures
        spec_run(FileState::Verifying { mirror: k as usize }, mirror_count, os)
            == (FileState::Done { mirror: (mirror_count - 1) as usize }),
    decreases os.len(),
{
    let s0 = FileState::Verifying { mirror: k as usize };
    if os.len() == 1 {
        assert(spec_outcome_success(os.first()));
        assert(spec_step(s0, mirror_count, os.first()) == (FileState::Done {
            mirror: k as usize,
        }));
        assert(k == mirror_count - 1);
    } else {
        assert(!spec_outcome_success(os.first()));
        assert(k + 1 < mirror_count);
        assert(spec_step(s0, mirror_count, os.first()) == (FileState::Verifying {
            mirror: (k + 1) as usize,
        }));
        let rest = os.drop_first();
        assert forall|i: int| 0 <= i < rest.len() - 1 implies
            !spec_outcome_success(#[trigger] rest[i]) by {
            assert(rest[i] == os[i + 1]);
        }
        assert(rest[rest.len() - 1] == os[os.len() - 1]);
        lemma_fallback_from(k + 1, mirror_count, rest);
    }
}

/// What to do about one file before touching the network.
#[derive(Debug, Clone, Copy, PartialEq, Eq, Structural)]
pub enum FetchPlan {
    /// The destination already holds bytes whose digest matches the
    /// manifest: yield the existing file and perform no network read.
    UseExisting,
    /// The file is missing or stale: download it.
    Download,
}

/// Decides whether a file already present at the destination can be
/// yielded as it is: exactly when its digest equals the manifest's
/// entry. Re-running against a populated directory therefore touches
/// the network only for files that are missing or do not verify.
pub fn plan_fetch(existing_digest: Option<&Vec<u8>>, expected_digest: &Vec<u8>) -> (r: FetchPlan)
    ensures
        r == FetchPlan::UseExisting <==> (existing_digest matches Some(d) && d@
            == expected_digest@),
{
    match existing_digest {
        Some(d) => {
            if bytes_eq(d.as_slice(), expected_digest.as_slice()) {
                FetchPlan::UseExisting
            } else {
                FetchPlan::Download
            }
        },
        None => FetchPlan::Download,
    }
}

} // verus!
