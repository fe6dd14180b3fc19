//! Tests for the per-remote compare-and-swap retry machine.

use git_ai::cycle::{
    on_merge, on_probe, on_push, start_cycle, CycleAction, CycleState, MergeReport, ProbeReport,
    PushReport, MAX_SYNC_ATTEMPTS,
};
use git_ai::orchestrator::{SyncError, SyncOutcome};
use git_ai::relation::RefRelationship;

#[test]
fn test_cycle_forced_first_push() {
    // an absent remote ref leads to one forced push conditioned on nothing
    let state = start_cycle();
    let (state, action) = on_probe(
        state,
        ProbeReport::Observed { rel: RefRelationship::Absent, tip: None },
    );
    assert_eq!(action, CycleAction::DoPush { expect: None, forced: true });
    let (state, _) = on_push(state, PushReport::Accepted);
    assert_eq!(
        state,
        CycleState::Done { outcome: SyncOutcome::Succeeded { pushed: true, forced: true } }
    );
}

#[test]
fn test_cycle_merge_then_plain_push() {
    // a diverged remote is merged, then pushed plain, conditioned on the
    // tip the probe observed
    let state = start_cycle();
    let (state, action) = on_probe(
        state,
        ProbeReport::Observed { rel: RefRelationship::Diverged, tip: Some(5) },
    );
    assert_eq!(action, CycleAction::DoMerge);
    let (state, action) = on_merge(state, MergeReport::Merged);
    assert_eq!(action, CycleAction::DoPush { expect: Some(5), forced: false });
    let (state, _) = on_push(state, PushReport::Accepted);
    assert_eq!(
        state,
        CycleState::Done { outcome: SyncOutcome::Succeeded { pushed: true, forced: false } }
    );
}

#[test]
fn test_cycle_conflict_after_budget() {
    // sustained compare-and-swap rejections retry the whole cycle up to
    // the budget, then surface a conflict for this remote alone
    let mut state = start_cycle();
    let mut rejections = 0;
    loop {
        let (after_probe, action) = on_probe(
            state,
            ProbeReport::Observed { rel: RefRelationship::LocalAhead, tip: Some(7) },
        );
        assert!(matches!(action, CycleAction::DoPush { forced: false, .. }));
        let (after_push, action) = on_push(after_probe, PushReport::Rejected);
        rejections += 1;
        match after_push {
            CycleState::Probing { attempts } => {
                assert_eq!(attempts as usize, rejections);
                assert_eq!(action, CycleAction::DoProbe);
                state = after_push;
            }
            CycleState::Done { outcome } => {
                assert_eq!(
                    outcome,
                    SyncOutcome::Failed { reason: SyncError::SyncConflict }
                );
                break;
            }
            other => panic!("unexpected state {:?}", other),
        }
    }
    assert_eq!(rejections as u64, MAX_SYNC_ATTEMPTS);
}

#[test]
fn test_cycle_unreachable_skips() {
    let state = start_cycle();
    let (state, action) = on_probe(state, ProbeReport::Unreachable);
    let skipped = SyncOutcome::Skipped { reason: SyncError::RemoteUnreachable };
    assert_eq!(state, CycleState::Done { outcome: skipped });
    assert_eq!(action, CycleAction::Report { outcome: skipped });
}

#[test]
fn test_cycle_merge_failure_leaves_local_untouched() {
    let state = start_cycle();
    let (state, _) = on_probe(
        state,
        ProbeReport::Observed { rel: RefRelationship::RemoteAhead, tip: Some(3) },
    );
    let (state, _) = on_merge(state, MergeReport::Failed);
    assert_eq!(
        state,
        CycleState::Done { outcome: SyncOutcome::Failed { reason: SyncError::MergeFailed } }
    );
}

#[test]
fn test_cycle_equal_reports_immediately() {
    let state = start_cycle();
    let (state, action) = on_probe(
        state,
        ProbeReport::Observed { rel: RefRelationship::Equal, tip: Some(9) },
    );
    let done = SyncOutcome::Succeeded { pushed: false, forced: false };
    assert_eq!(state, CycleState::Done { outcome: done });
    assert_eq!(action, CycleAction::Report { outcome: done });
}
