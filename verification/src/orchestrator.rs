//! The per-remote sync cycle and the loop that runs it over every targeted
//! remote.
//!
//! For each remote the orchestrator probes the relationship, merges when the
//! remote holds history the local replica lacks, and pushes the resulting
//! tip.  Remotes are handled independently: one remote's failure or
//! unreachability never touches another remote's cycle, and a notes failure
//! never blocks the user's own branch refspecs.

use vstd::prelude::*;

use crate::merge::merge;
use crate::relation::{decide_action, rel_spec, classify, NotesAction, RefRelationship};
use crate::store::NoteStore;

verus! {

/// Why a remote's notes sync did not complete.
#[derive(Clone, Copy, Debug, PartialEq, Eq, Structural)]
pub enum SyncError {
    /// The remote could not be contacted; its sync is skipped, nothing else
    /// is affected.
    RemoteUnreachable,
    /// The compare-and-swap push kept being rejected past the retry budget.
    SyncConflict,
    /// The store could not materialize a merge result; the local ref is left
    /// untouched.
    MergeFailed,
}

/// The terminal outcome of one remote's sync cycle.
#[derive(Clone, Copy, Debug, PartialEq, Eq, Structural)]
pub enum SyncOutcome {
    /// The cycle completed; `pushed` records whether a notes refspec was
    /// sent at all and `forced` whether it was the forced form.
    Succeeded { pushed: bool, forced: bool },
    /// The remote was skipped for this invocation.
    Skipped { reason: SyncError },
    /// The cycle failed for this remote alone.
    Failed { reason: SyncError },
}

impl SyncOutcome {
    /// Whether this outcome sent a forced refspec.
    pub open spec fn is_forced(self) -> bool {
        self matches SyncOutcome::Succeeded { forced: true, .. }
    }

    /// Whether this outcome sent any refspec.
    pub open spec fn is_pushed(self) -> bool {
        self matches SyncOutcome::Succeeded { pushed: true, .. }
    }
}

/// What the engine can see of one remote's notes ref.
#[derive(Clone, Copy, Debug, PartialEq, Eq, Structural)]
pub enum RemoteNotesRef {
    /// The remote has no notes ref.
    Missing,
    /// The remote's notes ref points at this note commit in the shared
    /// store (its objects have been fetched).
    At(usize),
    /// The remote's notes ref points at data the ancestry walk cannot
    /// interpret; treated conservatively as fully diverged.
    Malformed,
}

/// One push destination: its notes ref as last fetched, and whether the
/// remote answers at all.
pub struct RemoteReplica {
    /// The remote's copy of the notes ref.
    pub notes: RemoteNotesRef,
    /// Whether ref lookups and pushes to this remote complete.
    pub reachable: bool,
}

/// The replication state a push invocation works on: the shared object
/// store, the local notes tip, and every configured remote.
pub struct World {
    /// Note commits, shared by the local replica and all fetched copies.
    pub store: NoteStore,
    /// The local notes ref tip, if any note was ever written locally.
    pub local: Option<usize>,
    /// The push destinations.
    pub remotes: Vec<RemoteReplica>,
}

impl World {
    /// Tips point into the store and the store is well formed.
    pub open spec fn wf(self) -> bool {
        &&& self.store.wf()
        &&& (self.local matches Some(l) ==> l < self.store.commits@.len())
        &&& forall|i: int|
            0 <= i < self.remotes@.len()
                ==> ((#[trigger] self.remotes@[i].notes) matches RemoteNotesRef::At(t)
                    ==> t < self.store.commits@.len())
    }

    /// The remote's notes tip as an optional store position (`Malformed`
    /// has no readable position).
    pub open spec fn remote_tip(self, i: int) -> Option<usize> {
        match self.remotes@[i].notes {
            RemoteNotesRef::At(t) => Some(t),
            _ => None,
        }
    }

    /// What the local replica sees: `key` has a note.
    pub open spec fn local_has_note(self, key: u64) -> bool {
        match self.local {
            Some(l) => self.store.has_note(l as int, key),
            None => false,
        }
    }

    /// What remote `i` sees: `key` has a note.
    pub open spec fn remote_has_note(self, i: int, key: u64) -> bool {
        match self.remotes@[i].notes {
            RemoteNotesRef::At(t) => self.store.has_note(t as int, key),
            _ => false,
        }
    }

    /// The relationship a probe of remote `i` reports, `Diverged` for an
    /// uninterpretable remote ref.
    pub open spec fn probe_spec(self, i: int) -> RefRelationship {
        if self.remotes@[i].notes is Malformed {
            RefRelationship::Diverged
        } else {
            rel_spec(self.store, self.local, self.remote_tip(i))
        }
    }
}

/// Probe remote `idx`: a lightweight ref lookup plus an ancestry check,
/// never a mutation.  Reports `RemoteUnreachable` when the lookup cannot
/// complete.
pub fn probe(world: &World, idx: usize) -> (r: Result<RefRelationship, SyncError>)
    requires
        world.wf(),
        idx < world.remotes@.len(),
    ensures
        world.remotes@[idx as int].reachable ==> r == Ok::<RefRelationship, SyncError>(
            world.probe_spec(idx as int),
        ),
        !world.remotes@[idx as int].reachable ==> r == Err::<RefRelationship, SyncError>(
            SyncError::RemoteUnreachable,
        ),
{
    if !world.remotes[idx].reachable {
        return Err(SyncError::RemoteUnreachable);
    }
    match world.remotes[idx].notes {
        RemoteNotesRef::Missing => Ok(classify(&world.store, world.local, None)),
        RemoteNotesRef::At(t) => Ok(classify(&world.store, world.local, Some(t))),
        RemoteNotesRef::Malformed => Ok(RefRelationship::Diverged),
    }
}

/// The per-remote cycle relation: everything one run of `sync_remote` on
/// remote `idx` guarantees about the outcome and about how the world moved
/// from `pre` to `post`.  `sync_remote` ensures it of its own call, and
/// `sync_all` threads it along the whole target list, so a caller of
/// either reads the same step here.
pub open spec fn cycle_rel(pre: World, idx: int, post: World, outcome: SyncOutcome) -> bool {
    &&& post.wf()
    &&& post.remotes@.len() == pre.remotes@.len()
    &&& post.store.extends(pre.store)
    &&& forall|i: int|
        0 <= i < pre.remotes@.len() && i != idx ==> post.remotes@[i] == pre.remotes@[i]
    &&& post.remotes@[idx].reachable == pre.remotes@[idx].reachable
    &&& (outcome is Succeeded <==> (pre.remotes@[idx].reachable && !(pre.remotes@[idx].notes
        is Malformed)))
    &&& (!(outcome is Succeeded) ==> post == pre)
    &&& (outcome is Skipped <==> !pre.remotes@[idx].reachable)
    &&& (outcome == (SyncOutcome::Skipped { reason: SyncError::RemoteUnreachable }) || outcome
        == (SyncOutcome::Failed { reason: SyncError::MergeFailed }) || outcome matches
        SyncOutcome::Succeeded { .. })
    &&& (outcome.is_forced() <==> (pre.remotes@[idx].reachable && pre.probe_spec(idx) is Absent))
    &&& (outcome.is_pushed() <==> (outcome is Succeeded && !(pre.probe_spec(idx) is Equal)))
    &&& (!(pre.probe_spec(idx) is Diverged) ==> post.store == pre.store)
    &&& ((outcome is Succeeded && !(pre.probe_spec(idx) is RemoteAhead) && !(pre.probe_spec(idx)
        is Diverged)) ==> post.local == pre.local)
    &&& (outcome is Succeeded ==> post.probe_spec(idx) is Equal)
    &&& (outcome is Succeeded ==> post.remote_tip(idx) == post.local)
    &&& (post.local matches Some(nl) ==> (pre.local matches Some(ol) ==> post.store.reaches(
        nl as int,
        ol as int,
    )))
    &&& (pre.local is Some ==> post.local is Some)
    &&& ((outcome is Succeeded && pre.remote_tip(idx) is Some) ==> (post.local is Some
        && post.store.reaches(post.local->0 as int, pre.remote_tip(idx)->0 as int)))
    &&& (forall|k: u64| pre.local_has_note(k) ==> post.local_has_note(k))
    &&& (forall|i: int, k: u64|
        0 <= i < pre.remotes@.len() && pre.remote_has_note(i, k) ==> post.remote_has_note(i, k))
}

/// Run one remote's full cycle: probe, merge if the probe demands it, then
/// push the local tip with the refspec form the decision table selects.
pub fn sync_remote(world: &mut World, idx: usize) -> (outcome: SyncOutcome)
    requires
        old(world).wf(),
        idx < old(world).remotes@.len(),
    ensures
        cycle_rel(*old(world), idx as int, *final(world), outcome),
        final(world).wf(),
        final(world).remotes@.len() == old(world).remotes@.len(),
        final(world).store.extends(old(world).store),
        // isolation: no other remote is touched
        forall|i: int|
            0 <= i < old(world).remotes@.len() && i != idx
                ==> final(world).remotes@[i] == old(world).remotes@[i],
        // the cycle moves refs; it never changes whether a remote answers
        final(world).remotes@[idx as int].reachable
            == old(world).remotes@[idx as int].reachable,
        // success is owed exactly when the remote answers and its ref is
        // interpretable
        outcome is Succeeded <==> (old(world).remotes@[idx as int].reachable
            && !(old(world).remotes@[idx as int].notes is Malformed)),
        !(outcome is Succeeded) ==> *final(world) == *old(world),
        outcome is Skipped <==> !old(world).remotes@[idx as int].reachable,
        outcome == (SyncOutcome::Skipped { reason: SyncError::RemoteUnreachable })
            || outcome == (SyncOutcome::Failed { reason: SyncError::MergeFailed })
            || outcome matches SyncOutcome::Succeeded { .. },
        // safety of force: the forced form is sent exactly on `Absent`
        outcome.is_forced() <==> (old(world).remotes@[idx as int].reachable
            && old(world).probe_spec(idx as int) is Absent),
        // a refspec is sent exactly when there was anything to send
        outcome.is_pushed() <==> (outcome is Succeeded
            && !(old(world).probe_spec(idx as int) is Equal)),
        // the store is written only by a true join of diverged histories
        !(old(world).probe_spec(idx as int) is Diverged)
            ==> final(world).store == old(world).store,
        // the local ref moves only to adopt or join remote-only history
        (outcome is Succeeded && !(old(world).probe_spec(idx as int) is RemoteAhead)
            && !(old(world).probe_spec(idx as int) is Diverged))
            ==> final(world).local == old(world).local,
        // idempotence: after a completed cycle the remote holds the local
        // tip, so probing it again reports `Equal` and pushes nothing
        outcome is Succeeded ==> final(world).probe_spec(idx as int) is Equal,
        outcome is Succeeded ==> final(world).remote_tip(idx as int) == final(world).local,
        // the local ref only ever advances to a descendant of itself
        final(world).local matches Some(nl) ==> (old(world).local matches Some(ol)
            ==> final(world).store.reaches(nl as int, ol as int)),
        old(world).local is Some ==> final(world).local is Some,
        // fast-forward correctness: after a cycle that saw remote history,
        // the new local tip descends from the pre-sync remote tip
        (outcome is Succeeded && old(world).remote_tip(idx as int) is Some)
            ==> (final(world).local is Some && final(world).store.reaches(
                final(world).local->0 as int,
                old(world).remote_tip(idx as int)->0 as int,
            )),
        // monotonicity: no replica's visible note set ever shrinks
        forall|k: u64| old(world).local_has_note(k) ==> final(world).local_has_note(k),
        forall|i: int, k: u64|
            0 <= i < old(world).remotes@.len() && old(world).remote_has_note(i, k)
                ==> final(world).remote_has_note(i, k),
{
    let probed = probe(world, idx);
    let rel = match probed {
        Err(reason) => {
            return SyncOutcome::Skipped { reason };
        },
        Ok(rel) => rel,
    };
    let ghost w0 = *world;
    match decide_action(rel) {
        NotesAction::Nothing => SyncOutcome::Succeeded { pushed: false, forced: false },
        NotesAction::PushForced => {
            // relationship `Absent`: the local tip exists, the remote holds
            // nothing, so the forced form cannot destroy anything
            let l = match world.local {
                Some(l) => l,
                None => unreached(),
            };
            let replica = RemoteReplica { notes: RemoteNotesRef::At(l), reachable: true };
            world.remotes.set(idx, replica);
            SyncOutcome::Succeeded { pushed: true, forced: true }
        },
        NotesAction::PushPlain => {
            // relationship `LocalAhead`: a compare-and-swap fast-forward
            let l = match world.local {
                Some(l) => l,
                None => unreached(),
            };
            let ghost rt = world.remote_tip(idx as int)->0;
            let replica = RemoteReplica { notes: RemoteNotesRef::At(l), reachable: true };
            world.remotes.set(idx, replica);
            proof {
                // the old remote tip is an ancestor of the local tip
                w0.store.lemma_notes_monotone(rt as int, l as int);
            }
            SyncOutcome::Succeeded { pushed: true, forced: false }
        },
        NotesAction::MergeThenPush => {
            // relationship `RemoteAhead` or `Diverged`
            let rt = match world.remotes[idx].notes {
                RemoteNotesRef::At(t) => t,
                RemoteNotesRef::Malformed => {
                    // the remote's data cannot be interpreted, so no merge
                    // result can be materialized; the local ref is left
                    // untouched and only this remote is skipped
                    return SyncOutcome::Failed { reason: SyncError::MergeFailed };
                },
                RemoteNotesRef::Missing => unreached(),
            };
            match world.local {
                None => {
                    // nothing local yet: adopt the remote tip outright
                    world.local = Some(rt);
                    let replica = RemoteReplica { notes: RemoteNotesRef::At(rt), reachable: true };
                    world.remotes.set(idx, replica);
                    proof {
                        assert(world.store.reaches(rt as int, rt as int));
                    }
                    SyncOutcome::Succeeded { pushed: true, forced: false }
                },
                Some(l) => {
                    let new_tip = merge(&mut world.store, l, rt);
                    world.local = Some(new_tip);
                    let replica = RemoteReplica {
                        notes: RemoteNotesRef::At(new_tip),
                        reachable: true,
                    };
                    world.remotes.set(idx, replica);
                    proof {
                        lemma_after_merge(w0, *world, idx as int, l, rt, new_tip);
                    }
                    SyncOutcome::Succeeded { pushed: true, forced: false }
                },
            }
        },
    }
}

/// The report line for one targeted remote.
#[derive(Clone, Copy, Debug, PartialEq, Eq, Structural)]
pub struct RemoteOutcome {
    /// Index of the remote in the world's remote list.
    pub remote: usize,
    /// How its sync cycle ended.
    pub outcome: SyncOutcome,
}

/// Run the sync cycle for every targeted remote, each independently: one
/// remote's failure, unreachability or malformed state never prevents the
/// cycle on any other remote, and a remote that answers with interpretable
/// state always completes.
/// Whether the local replica has a notes tip by the time the cycle for
/// target `i` runs: it had one to begin with, or some earlier target was a
/// reachable remote carrying notes history for the local replica to adopt.
pub open spec fn local_present_at(w: World, targets: Seq<usize>, i: int) -> bool {
    w.local is Some || exists|j: int|
        0 <= j < i && w.remotes@[(#[trigger] targets[j]) as int].reachable
            && w.remotes@[targets[j] as int].notes is At
}

pub fn sync_all(world: &mut World, targets: &Vec<usize>) -> (outcomes: Vec<RemoteOutcome>)
    requires
        old(world).wf(),
        forall|i: int|
            0 <= i < targets@.len() ==> (#[trigger] targets@[i]) < old(world).remotes@.len(),
        forall|i: int, j: int|
            0 <= i < j < targets@.len() ==> targets@[i] != targets@[j],
    ensures
        final(world).wf(),
        final(world).remotes@.len() == old(world).remotes@.len(),
        final(world).store.extends(old(world).store),
        outcomes@.len() == targets@.len(),
        forall|i: int| 0 <= i < targets@.len() ==> (#[trigger] outcomes@[i]).remote == targets@[i],
        // isolation: each outcome is owed by that remote's own prior state
        // alone, whatever happened to the others
        forall|i: int|
            0 <= i < targets@.len() ==> ((#[trigger] outcomes@[i]).outcome is Succeeded
                <==> (old(world).remotes@[targets@[i] as int].reachable
                    && !(old(world).remotes@[targets@[i] as int].notes is Malformed))),
        forall|i: int|
            0 <= i < targets@.len() ==> ((#[trigger] outcomes@[i]).outcome is Skipped
                <==> !old(world).remotes@[targets@[i] as int].reachable),
        // safety of force, both ways: the forced form goes exactly to a
        // reachable remote that held no notes ref while the local replica
        // had a tip to push
        forall|i: int|
            0 <= i < targets@.len() ==> ((#[trigger] outcomes@[i]).outcome.is_forced()
                <==> (old(world).remotes@[targets@[i] as int].reachable
                    && old(world).remotes@[targets@[i] as int].notes is Missing
                    && local_present_at(*old(world), targets@, i))),
        // the whole run is the per-remote cycle, once per target in order,
        // threading the world from the given state to the final one
        exists|trace: Seq<World>|
            #![trigger trace.len()]
            trace.len() == targets@.len() + 1 && trace[0] == *old(world)
                && trace[targets@.len() as int] == *final(world) && (forall|i: int|
                0 <= i < targets@.len() ==> cycle_rel(
                    trace[i],
                    targets@[i] as int,
                    trace[i + 1],
                    (#[trigger] outcomes@[i]).outcome,
                )),
        // remotes outside the target list are untouched
        forall|r: int|
            0 <= r < old(world).remotes@.len() && (forall|i: int|
                0 <= i < targets@.len() ==> (#[trigger] targets@[i]) != r)
                ==> #[trigger] final(world).remotes@[r] == old(world).remotes@[r],
        // monotonicity: no replica's visible note set ever shrinks
        forall|k: u64| old(world).local_has_note(k) ==> final(world).local_has_note(k),
        forall|r: int, k: u64|
            0 <= r < old(world).remotes@.len() && old(world).remote_has_note(r, k)
                ==> final(world).remote_has_note(r, k),
        old(world).local is Some ==> final(world).local is Some,
{
    let ghost w0 = *world;
    let ghost mut trace: Seq<World> = seq![w0];
    let mut outcomes: Vec<RemoteOutcome> = Vec::new();
    let n = targets.len();
    let mut i: usize = 0;
    while i < n
        invariant
            world.wf(),
            n == targets@.len(),
            i <= n,
            w0.wf(),
            world.remotes@.len() == w0.remotes@.len(),
            world.store.extends(w0.store),
            forall|j: int| 0 <= j < n ==> (#[trigger] targets@[j]) < w0.remotes@.len(),
            forall|j: int, k: int| 0 <= j < k < n ==> targets@[j] != targets@[k],
            outcomes@.len() == i,
            forall|j: int| 0 <= j < i ==> (#[trigger] outcomes@[j]).remote == targets@[j],
            forall|j: int|
                0 <= j < i ==> ((#[trigger] outcomes@[j]).outcome is Succeeded <==> (
                w0.remotes@[targets@[j] as int].reachable
                    && !(w0.remotes@[targets@[j] as int].notes is Malformed))),
            forall|j: int|
                0 <= j < i ==> ((#[trigger] outcomes@[j]).outcome is Skipped
                    <==> !w0.remotes@[targets@[j] as int].reachable),
            forall|j: int|
                0 <= j < i ==> ((#[trigger] outcomes@[j]).outcome.is_forced()
                    <==> (w0.remotes@[targets@[j] as int].reachable
                        && w0.remotes@[targets@[j] as int].notes is Missing
                        && local_present_at(w0, targets@, j))),
            // the worlds each cycle so far started and ended in
            trace.len() == i + 1,
            trace[0] == w0,
            trace[i as int] == *world,
            forall|j: int|
                0 <= j < i ==> cycle_rel(
                    trace[j],
                    targets@[j] as int,
                    trace[j + 1],
                    (#[trigger] outcomes@[j]).outcome,
                ),
            // the local replica holds a tip exactly when it started with
            // one or an earlier target offered notes history to adopt
            world.local is Some <==> local_present_at(w0, targets@, i as int),
            // remotes not yet processed still hold their original state
            forall|r: int|
                0 <= r < w0.remotes@.len() && (forall|j: int|
                    0 <= j < i ==> (#[trigger] targets@[j]) != r) ==> #[trigger] world.remotes@[r]
                    == w0.remotes@[r],
            forall|k: u64| w0.local_has_note(k) ==> world.local_has_note(k),
            forall|r: int, k: u64|
                0 <= r < w0.remotes@.len() && w0.remote_has_note(r, k) ==> world.remote_has_note(
                    r,
                    k,
                ),
            w0.local is Some ==> world.local is Some,
        decreases n - i,
    {
        let t = targets[i];
        let ghost w_before = *world;
        let outcome = sync_remote(world, t);
        proof {
            trace = trace.push(*world);
            // remote `t` was untouched so far, so its pre-cycle state is its
            // original state
            assert(w_before.remotes@[t as int] == w0.remotes@[t as int]);
            assert(cycle_rel(w_before, t as int, *world, outcome));
            // the forced form means exactly: probed `Absent`, that is, a
            // reachable remote without a notes ref while a local tip exists
            if outcome.is_forced() {
                assert(w_before.probe_spec(t as int) is Absent);
                assert(w_before.remotes@[t as int].notes is Missing);
                assert(w_before.local is Some);
            }
            if w0.remotes@[t as int].reachable && w0.remotes@[t as int].notes is Missing
                && local_present_at(w0, targets@, i as int) {
                assert(w_before.probe_spec(t as int) is Absent);
            }
            // how the local tip's presence advances: it never goes away,
            // and it appears exactly by adopting a reachable remote's notes
            if world.local is Some {
                if w_before.local is Some {
                    assert(local_present_at(w0, targets@, i as int));
                    assert(local_present_at(w0, targets@, i + 1));
                } else {
                    // the cycle produced a tip from nothing: the remote was
                    // reachable and carried notes history
                    assert(outcome is Succeeded);
                    assert(w_before.remotes@[t as int].notes is At);
                    assert(w0.remotes@[(targets@[i as int]) as int].reachable
                        && w0.remotes@[targets@[i as int] as int].notes is At);
                    assert(local_present_at(w0, targets@, i + 1));
                }
            } else {
                assert(!local_present_at(w0, targets@, i as int));
                assert forall|j: int|
                    0 <= j < i + 1 implies !(w0.remotes@[(#[trigger] targets@[j]) as int].reachable
                    && w0.remotes@[targets@[j] as int].notes is At) by {
                    if j == i {
                        if w0.remotes@[t as int].reachable && w0.remotes@[t as int].notes is At {
                            // a reachable remote with notes would have been
                            // adopted, but the local tip is still absent
                            assert(w_before.probe_spec(t as int) is RemoteAhead);
                            assert(outcome is Succeeded);
                            assert(w_before.remote_tip(t as int) is Some);
                            assert(world.local is Some);
                        }
                    }
                };
                assert(!local_present_at(w0, targets@, i + 1));
            }
        }
        outcomes.push(RemoteOutcome { remote: t, outcome });
        i = i + 1;
    }
    proof {
        assert(trace[n as int] == *world);
    }
    outcomes
}

/// Idempotence of the cycle: once a remote holds the local tip — as it
/// does after any completed cycle — probing it again reports `Equal`, and
/// a cycle that finds `Equal` pushes nothing and changes nothing.
pub proof fn lemma_sync_idempotent(w: World, idx: int)
    requires
        w.wf(),
        0 <= idx < w.remotes@.len(),
        !(w.remotes@[idx].notes is Malformed),
        w.remote_tip(idx) == w.local,
    ensures
        w.probe_spec(idx) is Equal,
{
}

/// After a merge cycle, every replica still sees everything it saw before:
/// untouched remotes keep their tip in an extended store, and the advanced
/// local and pushed tips see the union.
proof fn lemma_after_merge(
    w0: World,
    w1: World,
    idx: int,
    l: usize,
    rt: usize,
    new_tip: usize,
)
    requires
        w0.wf(),
        w1.store.wf(),
        w1.store.extends(w0.store),
        0 <= idx < w0.remotes@.len(),
        l < w0.store.commits@.len(),
        rt < w0.store.commits@.len(),
        new_tip < w1.store.commits@.len(),
        forall|k: u64|
            w1.store.has_note(new_tip as int, k) <==> w0.store.has_note(l as int, k)
                || w0.store.has_note(rt as int, k),
        w0.local == Some(l),
        w0.remotes@[idx].notes == RemoteNotesRef::At(rt),
        w1.local == Some(new_tip),
        w1.remotes@.len() == w0.remotes@.len(),
        forall|i: int| 0 <= i < w0.remotes@.len() && i != idx ==> w1.remotes@[i] == w0.remotes@[i],
        w1.remotes@[idx].notes == RemoteNotesRef::At(new_tip),
    ensures
        forall|k: u64| w0.local_has_note(k) ==> w1.local_has_note(k),
        forall|i: int, k: u64|
            0 <= i < w0.remotes@.len() && w0.remote_has_note(i, k) ==> w1.remote_has_note(i, k),
{
    assert forall|i: int, k: u64|
        0 <= i < w0.remotes@.len() && w0.remote_has_note(i, k) implies w1.remote_has_note(
        i,
        k,
    ) by {
        if i == idx {
            assert(w0.remotes@[i].notes == RemoteNotesRef::At(rt));
            assert(w0.store.has_note(rt as int, k));
        } else {
            let t = w0.remotes@[i].notes->0;
            w0.store.lemma_has_note_extend(w1.store, t as int, k);
        }
    };
}

} // verus!
