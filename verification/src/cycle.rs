//! The per-remote retry state machine for pushes against a live remote.
//!
//! Against a real remote the ref can move between the probe and the push:
//! the push is a compare-and-swap conditioned on the tip the most recent
//! probe observed, and a rejection re-runs the whole probe-merge-push cycle
//! up to a fixed retry budget before surfacing a conflict for that remote
//! alone.  The machine here makes those decisions; the caller performs the
//! probe, merge and push it asks for and feeds the result back in.

use vstd::prelude::*;

use crate::orchestrator::{SyncError, SyncOutcome};
use crate::relation::{decide_spec, decide_action, NotesAction, RefRelationship};

verus! {

/// How many probe-merge-push attempts one invocation makes before giving
/// up with a conflict.
pub const MAX_SYNC_ATTEMPTS: u64 = 3;

/// Where one remote's cycle stands.  `attempts` counts the compare-and-swap
/// rejections so far.
#[derive(Clone, Copy, Debug, PartialEq, Eq, Structural)]
pub enum CycleState {
    /// Waiting for the probe result.
    Probing { attempts: u64 },
    /// Waiting for the merge result; `observed` is the remote tip the
    /// probe of this attempt saw.
    Merging { attempts: u64, observed: Option<u64> },
    /// Waiting for the push result; the push must be conditioned on
    /// `observed`.
    Pushing { attempts: u64, observed: Option<u64>, forced: bool },
    /// Terminal for this invocation.
    Done { outcome: SyncOutcome },
}

/// What the caller must do next.
#[derive(Clone, Copy, Debug, PartialEq, Eq, Structural)]
pub enum CycleAction {
    /// Look up the remote's notes ref and classify it, without transfer.
    DoProbe,
    /// Merge the local and observed remote histories.
    DoMerge,
    /// Push, conditioned on the remote ref still being `expect`.
    DoPush { expect: Option<u64>, forced: bool },
    /// Nothing further; report this outcome.
    Report { outcome: SyncOutcome },
}

/// What a probe reported: the remote never answered, or a relationship
/// plus the raw tip observed (`None` exactly when the remote has no notes
/// ref).
#[derive(Clone, Copy, Debug, PartialEq, Eq, Structural)]
pub enum ProbeReport {
    /// The lookup could not complete.
    Unreachable,
    /// The remote answered.
    Observed { rel: RefRelationship, tip: Option<u64> },
}

impl ProbeReport {
    /// A report is consistent when the tip is absent exactly for the
    /// `Absent` relationship.
    pub open spec fn consistent(self) -> bool {
        self matches ProbeReport::Observed { rel, tip } ==> ((tip is None) <==> (rel is Absent))
    }
}

/// What a merge attempt reported.
#[derive(Clone, Copy, Debug, PartialEq, Eq, Structural)]
pub enum MergeReport {
    /// A merged tip was materialized and the local ref advanced to it.
    Merged,
    /// The store could not materialize the merge; nothing was written.
    Failed,
}

/// What a compare-and-swap push reported.
#[derive(Clone, Copy, Debug, PartialEq, Eq, Structural)]
pub enum PushReport {
    /// The remote accepted the update.
    Accepted,
    /// The remote ref no longer matched the expected tip: a concurrent
    /// pusher won the race.
    Rejected,
    /// The remote stopped answering.
    Unreachable,
}

impl CycleState {
    /// The attempt counter never reaches the budget while the cycle runs.
    pub open spec fn wf(self) -> bool {
        match self {
            CycleState::Probing { attempts } => attempts < MAX_SYNC_ATTEMPTS,
            CycleState::Merging { attempts, .. } => attempts < MAX_SYNC_ATTEMPTS,
            CycleState::Pushing { attempts, .. } => attempts < MAX_SYNC_ATTEMPTS,
            CycleState::Done { .. } => true,
        }
    }

    /// A measure that every step strictly decreases: the machine always
    /// terminates, even under sustained contention.
    pub open spec fn measure(self) -> int {
        match self {
            CycleState::Probing { attempts } => (MAX_SYNC_ATTEMPTS - attempts) * 3,
            CycleState::Merging { attempts, .. } => (MAX_SYNC_ATTEMPTS - attempts) * 3 - 1,
            CycleState::Pushing { attempts, .. } => (MAX_SYNC_ATTEMPTS - attempts) * 3 - 2,
            CycleState::Done { .. } => 0,
        }
    }
}

/// The state a fresh cycle starts in.
pub fn start_cycle() -> (s: CycleState)
    ensures
        s == (CycleState::Probing { attempts: 0 }),
        s.wf(),
{
    CycleState::Probing { attempts: 0 }
}

/// The transition out of `Probing`.
pub open spec fn on_probe_spec(attempts: u64, report: ProbeReport) -> (CycleState, CycleAction) {
    match report {
        ProbeReport::Unreachable => {
            let outcome = SyncOutcome::Skipped { reason: SyncError::RemoteUnreachable };
            (CycleState::Done { outcome }, CycleAction::Report { outcome })
        },
        ProbeReport::Observed { rel, tip } => match decide_spec(rel) {
            NotesAction::Nothing => {
                let outcome = SyncOutcome::Succeeded { pushed: false, forced: false };
                (CycleState::Done { outcome }, CycleAction::Report { outcome })
            },
            NotesAction::PushForced => (
                CycleState::Pushing { attempts, observed: tip, forced: true },
                CycleAction::DoPush { expect: tip, forced: true },
            ),
            NotesAction::PushPlain => (
                CycleState::Pushing { attempts, observed: tip, forced: false },
                CycleAction::DoPush { expect: tip, forced: false },
            ),
            NotesAction::MergeThenPush => (
                CycleState::Merging { attempts, observed: tip },
                CycleAction::DoMerge,
            ),
        },
    }
}

/// Feed a probe result in.  The push this can ask for is conditioned on
/// exactly the tip this probe observed, and it is forced exactly when the
/// relationship was `Absent`.
pub fn on_probe(state: CycleState, report: ProbeReport) -> (r: (CycleState, CycleAction))
    requires
        state matches CycleState::Probing { .. },
        state.wf(),
    ensures
        state matches CycleState::Probing { attempts } ==> r == on_probe_spec(attempts, report),
        r.0.wf(),
        r.0.measure() < state.measure(),
        // freshness: a push is conditioned on exactly the tip this probe
        // saw, and it is forced exactly on `Absent`
        r.1 matches CycleAction::DoPush { expect, forced } ==> (
        report matches ProbeReport::Observed { rel, tip } ==> (expect == tip && (forced <==> rel
            is Absent))),
        // of a consistent report, a forced push is conditioned on the ref
        // still being absent: even the force never overwrites unseen state
        report.consistent() ==> (r.1 matches CycleAction::DoPush { expect, forced } ==> (forced
            ==> expect is None)),
{
    let attempts = match state {
        CycleState::Probing { attempts } => attempts,
        _ => 0,
    };
    match report {
        ProbeReport::Unreachable => {
            let outcome = SyncOutcome::Skipped { reason: SyncError::RemoteUnreachable };
            (CycleState::Done { outcome }, CycleAction::Report { outcome })
        },
        ProbeReport::Observed { rel, tip } => match decide_action(rel) {
            NotesAction::Nothing => {
                let outcome = SyncOutcome::Succeeded { pushed: false, forced: false };
                (CycleState::Done { outcome }, CycleAction::Report { outcome })
            },
            NotesAction::PushForced => (
                CycleState::Pushing { attempts, observed: tip, forced: true },
                CycleAction::DoPush { expect: tip, forced: true },
            ),
            NotesAction::PushPlain => (
                CycleState::Pushing { attempts, observed: tip, forced: false },
                CycleAction::DoPush { expect: tip, forced: false },
            ),
            NotesAction::MergeThenPush => (
                CycleState::Merging { attempts, observed: tip },
                CycleAction::DoMerge,
            ),
        },
    }
}

/// Feed a merge result in.  A completed merge moves on to a plain push
/// still conditioned on the tip the probe of this attempt observed; a
/// failed merge ends the cycle for this remote with the local ref
/// untouched.
pub fn on_merge(state: CycleState, report: MergeReport) -> (r: (CycleState, CycleAction))
    requires
        state matches CycleState::Merging { .. },
        state.wf(),
    ensures
        r.0.wf(),
        r.0.measure() < state.measure(),
        // a terminal state is always announced
        r.0 matches CycleState::Done { outcome } ==> r.1 == (CycleAction::Report { outcome }),
        // a merge result is never pushed with force, and the push is
        // conditioned on the tip observed by the most recent probe, never
        // a stale one
        r.1 matches CycleAction::DoPush { expect, forced } ==> (!forced && (
        state matches CycleState::Merging { observed, .. } ==> expect == observed)),
        report is Failed ==> r.0 == (CycleState::Done {
            outcome: SyncOutcome::Failed { reason: SyncError::MergeFailed },
        }),
        report is Merged ==> (state matches CycleState::Merging { attempts, observed } ==> r == (
            (
                CycleState::Pushing { attempts, observed, forced: false },
                CycleAction::DoPush { expect: observed, forced: false },
            )
        )),
{
    let (attempts, observed) = match state {
        CycleState::Merging { attempts, observed } => (attempts, observed),
        _ => (0, None),
    };
    match report {
        MergeReport::Failed => {
            let outcome = SyncOutcome::Failed { reason: SyncError::MergeFailed };
            (CycleState::Done { outcome }, CycleAction::Report { outcome })
        },
        MergeReport::Merged => (
            CycleState::Pushing { attempts, observed, forced: false },
            CycleAction::DoPush { expect: observed, forced: false },
        ),
    }
}

/// Feed a push result in.  Acceptance ends the cycle; a compare-and-swap
/// rejection loops back to a fresh probe while attempts remain, and
/// surfaces `SyncConflict` for this remote once the budget is spent.
pub fn on_push(state: CycleState, report: PushReport) -> (r: (CycleState, CycleAction))
    requires
        state matches CycleState::Pushing { .. },
        state.wf(),
    ensures
        r.0.wf(),
        r.0.measure() < state.measure(),
        // a terminal state is always announced
        r.0 matches CycleState::Done { outcome } ==> r.1 == (CycleAction::Report { outcome }),
        report is Accepted ==> (state matches CycleState::Pushing { forced, .. } ==> r.0 == (
            CycleState::Done { outcome: SyncOutcome::Succeeded { pushed: true, forced } }
        )),
        report is Unreachable ==> r.0 == (CycleState::Done {
            outcome: SyncOutcome::Skipped { reason: SyncError::RemoteUnreachable },
        }),
        // a rejection retries the whole cycle with the counter advanced,
        // until the budget is spent
        report is Rejected ==> (state matches CycleState::Pushing { attempts, .. } ==> (attempts
            + 1 < MAX_SYNC_ATTEMPTS ==> r == (
            (
                CycleState::Probing { attempts: (attempts + 1) as u64 },
                CycleAction::DoProbe,
            )
        ))),
        report is Rejected ==> (state matches CycleState::Pushing { attempts, .. } ==> (attempts
            + 1 >= MAX_SYNC_ATTEMPTS ==> r.0 == (CycleState::Done {
            outcome: SyncOutcome::Failed { reason: SyncError::SyncConflict },
        }))),
{
    let (attempts, forced) = match state {
        CycleState::Pushing { attempts, forced, .. } => (attempts, forced),
        _ => (0, false),
    };
    match report {
        PushReport::Accepted => {
            let outcome = SyncOutcome::Succeeded { pushed: true, forced };
            (CycleState::Done { outcome }, CycleAction::Report { outcome })
        },
        PushReport::Unreachable => {
            let outcome = SyncOutcome::Skipped { reason: SyncError::RemoteUnreachable };
            (CycleState::Done { outcome }, CycleAction::Report { outcome })
        },
        PushReport::Rejected => {
            if attempts + 1 < MAX_SYNC_ATTEMPTS {
                (CycleState::Probing { attempts: attempts + 1 }, CycleAction::DoProbe)
            } else {
                let outcome = SyncOutcome::Failed { reason: SyncError::SyncConflict };
                (CycleState::Done { outcome }, CycleAction::Report { outcome })
            }
        },
    }
}

} // verus!
