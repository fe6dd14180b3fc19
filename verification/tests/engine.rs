//! Scenario tests for the sync engine against the replication model.

use git_ai::interceptor::{augment, notes_ref_name, notes_refspec, PushRequest, RefspecEntry};
use git_ai::orchestrator::{
    probe, sync_all, sync_remote, RemoteNotesRef, RemoteReplica, SyncError, SyncOutcome, World,
};
use git_ai::relation::RefRelationship;
use git_ai::store::NoteStore;

fn reachable(notes: RemoteNotesRef) -> RemoteReplica {
    RemoteReplica { notes, reachable: true }
}

/// A store with one root note commit annotating commit id 10.
fn single_commit_store() -> NoteStore {
    let mut store = NoteStore::new();
    store.add_commit(Vec::new(), vec![10]);
    store
}

#[test]
fn test_first_time_notes_push_uses_force() {
    // remote has no notes ref at all: the first push must use the forced
    // refspec, and probing afterwards finds the two tips equal
    let store = single_commit_store();
    let mut world = World {
        store,
        local: Some(0),
        remotes: vec![reachable(RemoteNotesRef::Missing)],
    };
    let outcome = sync_remote(&mut world, 0);
    assert_eq!(outcome, SyncOutcome::Succeeded { pushed: true, forced: true });
    assert_eq!(world.remotes[0].notes, RemoteNotesRef::At(0));
    assert_eq!(probe(&world, 0), Ok(RefRelationship::Equal));
    assert_eq!(notes_refspec(true), "+refs/notes/ai:refs/notes/ai");
}

#[test]
fn test_push_to_remote_with_existing_notes_ahead() {
    // the remote carries a note on a commit unknown locally: the cycle
    // merges, pushes the plain refspec, and the remote ends with the union
    let mut store = NoteStore::new();
    let root = store.add_commit(Vec::new(), vec![10]);
    let local_tip = store.add_commit(vec![root], vec![11]);
    let remote_tip = store.add_commit(vec![root], vec![12]);
    let mut world = World {
        store,
        local: Some(local_tip),
        remotes: vec![reachable(RemoteNotesRef::At(remote_tip))],
    };
    assert_eq!(probe(&world, 0), Ok(RefRelationship::Diverged));
    let outcome = sync_remote(&mut world, 0);
    assert_eq!(outcome, SyncOutcome::Succeeded { pushed: true, forced: false });
    let merged = match world.remotes[0].notes {
        RemoteNotesRef::At(t) => t,
        _ => panic!("remote should hold the merged tip"),
    };
    assert_eq!(world.local, Some(merged));
    // the union: every note either side had, and the pre-sync remote tip
    // is an ancestor of the new tip
    assert!(world.store.holds_note(merged, 10));
    assert!(world.store.holds_note(merged, 11));
    assert!(world.store.holds_note(merged, 12));
    assert!(world.store.is_ancestor(remote_tip, merged));
    assert!(world.store.is_ancestor(local_tip, merged));
}

#[test]
fn test_push_to_remote_with_existing_notes_behind() {
    // the local replica is two note commits ahead: a plain fast-forward
    // refspec is pushed and the remote afterward has both new notes
    let mut store = NoteStore::new();
    let root = store.add_commit(Vec::new(), vec![10]);
    let mid = store.add_commit(vec![root], vec![11]);
    let tip = store.add_commit(vec![mid], vec![12]);
    let mut world = World {
        store,
        local: Some(tip),
        remotes: vec![reachable(RemoteNotesRef::At(root))],
    };
    assert_eq!(probe(&world, 0), Ok(RefRelationship::LocalAhead));
    let outcome = sync_remote(&mut world, 0);
    assert_eq!(outcome, SyncOutcome::Succeeded { pushed: true, forced: false });
    assert_eq!(world.remotes[0].notes, RemoteNotesRef::At(tip));
    assert!(world.store.holds_note(tip, 11));
    assert!(world.store.holds_note(tip, 12));
    assert_eq!(notes_refspec(false), "refs/notes/ai:refs/notes/ai");
}

#[test]
fn test_push_to_fork() {
    // one invocation targets two remotes: the one without a notes ref gets
    // the forced refspec, the one already equal gets none, independently
    let store = single_commit_store();
    let mut world = World {
        store,
        local: Some(0),
        remotes: vec![
            reachable(RemoteNotesRef::Missing),
            reachable(RemoteNotesRef::At(0)),
        ],
    };
    let request = PushRequest {
        entries: vec![
            RefspecEntry { remote: 0, refspec: String::from("refs/heads/main") },
            RefspecEntry { remote: 1, refspec: String::from("refs/heads/main") },
        ],
    };
    let augmented = augment(&mut world, request);
    assert_eq!(augmented.outcomes.len(), 2);
    assert_eq!(
        augmented.outcomes[0].outcome,
        SyncOutcome::Succeeded { pushed: true, forced: true }
    );
    assert_eq!(
        augmented.outcomes[1].outcome,
        SyncOutcome::Succeeded { pushed: false, forced: false }
    );
    // exactly one injected refspec: the forced one for the empty remote
    assert_eq!(augmented.notes.len(), 1);
    assert_eq!(augmented.notes[0].remote, 0);
    assert!(augmented.notes[0].forced);
}

#[test]
fn test_push_with_multiple_refspecs() {
    // two branch refspecs for the same remote do not multiply the notes
    // refspec: exactly one is appended
    let store = single_commit_store();
    let mut world = World {
        store,
        local: Some(0),
        remotes: vec![reachable(RemoteNotesRef::Missing)],
    };
    let request = PushRequest {
        entries: vec![
            RefspecEntry { remote: 0, refspec: String::from("refs/heads/branch1") },
            RefspecEntry { remote: 0, refspec: String::from("refs/heads/branch2") },
        ],
    };
    let augmented = augment(&mut world, request);
    assert_eq!(augmented.entries.len(), 2);
    assert_eq!(augmented.outcomes.len(), 1);
    assert_eq!(augmented.notes.len(), 1);
}

#[test]
fn test_push_with_force_with_lease() {
    // the user force-pushes their own branch refspec; the engine still
    // appends the notes refspec the decision table selects, untouched by
    // the user's force flag
    let mut store = NoteStore::new();
    let root = store.add_commit(Vec::new(), vec![10]);
    let tip = store.add_commit(vec![root], vec![11]);
    let mut world = World {
        store,
        local: Some(tip),
        remotes: vec![reachable(RemoteNotesRef::At(root))],
    };
    let request = PushRequest {
        entries: vec![RefspecEntry {
            remote: 0,
            refspec: String::from("+refs/heads/feature:refs/heads/feature"),
        }],
    };
    let augmented = augment(&mut world, request);
    assert_eq!(augmented.entries.len(), 1);
    assert_eq!(augmented.entries[0].refspec, "+refs/heads/feature:refs/heads/feature");
    assert_eq!(augmented.notes.len(), 1);
    // local ahead: the notes refspec is the plain, non-forced form
    assert!(!augmented.notes[0].forced);
}

#[test]
fn test_failure_isolation_across_remotes() {
    // an unreachable remote and a malformed one never prevent the healthy
    // remote's sync in the same invocation
    let store = single_commit_store();
    let mut world = World {
        store,
        local: Some(0),
        remotes: vec![
            RemoteReplica { notes: RemoteNotesRef::Missing, reachable: false },
            reachable(RemoteNotesRef::Malformed),
            reachable(RemoteNotesRef::Missing),
        ],
    };
    let targets = vec![0, 1, 2];
    let outcomes = sync_all(&mut world, &targets);
    assert_eq!(outcomes.len(), 3);
    assert_eq!(
        outcomes[0].outcome,
        SyncOutcome::Skipped { reason: SyncError::RemoteUnreachable }
    );
    assert_eq!(
        outcomes[1].outcome,
        SyncOutcome::Failed { reason: SyncError::MergeFailed }
    );
    assert_eq!(
        outcomes[2].outcome,
        SyncOutcome::Succeeded { pushed: true, forced: true }
    );
}

#[test]
fn test_sync_cycle_idempotent() {
    // the second cycle against an unchanged remote probes Equal and
    // pushes nothing
    let mut store = NoteStore::new();
    let root = store.add_commit(Vec::new(), vec![10]);
    let local = store.add_commit(vec![root], vec![11]);
    let remote = store.add_commit(vec![root], vec![12]);
    let mut world = World {
        store,
        local: Some(local),
        remotes: vec![reachable(RemoteNotesRef::At(remote))],
    };
    let first = sync_remote(&mut world, 0);
    assert!(matches!(first, SyncOutcome::Succeeded { pushed: true, .. }));
    assert_eq!(probe(&world, 0), Ok(RefRelationship::Equal));
    let second = sync_remote(&mut world, 0);
    assert_eq!(second, SyncOutcome::Succeeded { pushed: false, forced: false });
}

#[test]
fn test_notes_never_lost() {
    // monotonicity: across a diverged merge cycle, every note either
    // replica held is still visible from both afterward
    let mut store = NoteStore::new();
    let root = store.add_commit(Vec::new(), vec![1]);
    let local = store.add_commit(vec![root], vec![2, 3]);
    let remote = store.add_commit(vec![root], vec![4]);
    let mut world = World {
        store,
        local: Some(local),
        remotes: vec![reachable(RemoteNotesRef::At(remote))],
    };
    sync_remote(&mut world, 0);
    let local_tip = world.local.unwrap();
    let remote_tip = match world.remotes[0].notes {
        RemoteNotesRef::At(t) => t,
        _ => panic!("remote should hold a tip"),
    };
    for key in [1, 2, 3, 4] {
        assert!(world.store.holds_note(local_tip, key));
        assert!(world.store.holds_note(remote_tip, key));
    }
}

#[test]
fn test_adopt_remote_notes_when_local_absent() {
    // nothing local yet: the cycle adopts the remote tip and pushes the
    // plain refspec, losing nothing
    let store = single_commit_store();
    let mut world = World {
        store,
        local: None,
        remotes: vec![reachable(RemoteNotesRef::At(0))],
    };
    assert_eq!(probe(&world, 0), Ok(RefRelationship::RemoteAhead));
    let outcome = sync_remote(&mut world, 0);
    assert_eq!(outcome, SyncOutcome::Succeeded { pushed: true, forced: false });
    assert_eq!(world.local, Some(0));
    assert!(world.store.holds_note(0, 10));
}

#[test]
fn test_notes_ref_name_is_fixed() {
    assert_eq!(notes_ref_name(), "refs/notes/ai");
}

#[test]
fn test_ancestry_walk() {
    let mut store = NoteStore::new();
    let a = store.add_commit(Vec::new(), vec![1]);
    let b = store.add_commit(vec![a], vec![2]);
    let c = store.add_commit(vec![a], vec![3]);
    let d = store.add_commit(vec![b, c], Vec::new());
    assert!(store.is_ancestor(a, d));
    assert!(store.is_ancestor(b, d));
    assert!(store.is_ancestor(c, d));
    assert!(!store.is_ancestor(b, c));
    assert!(!store.is_ancestor(d, a));
    assert!(store.holds_note(d, 1));
    assert!(store.holds_note(d, 2));
    assert!(store.holds_note(d, 3));
    assert!(!store.holds_note(b, 3));
}
