//! Inspection of a user-issued push and injection of the notes refspec.
//!
//! A push invocation names any number of remotes and any number of branch
//! refspecs.  The interceptor leaves the user's own refspecs exactly as
//! given, deduplicates the targeted remotes, runs one sync cycle per
//! distinct remote, and appends at most one notes refspec per remote — the
//! forced form only when that remote held no notes ref at all.

use vstd::prelude::*;

use crate::orchestrator::{cycle_rel, local_present_at, sync_all, RemoteOutcome, World};

verus! {

/// One `(remote, refspec)` pair of the user's invocation.  The refspec text
/// is the user's own — it may itself carry a leading `+` — and is never
/// inspected or altered.
pub struct RefspecEntry {
    /// Index of the targeted remote in the world's remote list.
    pub remote: usize,
    /// The user's refspec, verbatim.
    pub refspec: String,
}

/// Everything one user push invocation asked for.
pub struct PushRequest {
    /// The `(remote, refspec)` pairs, in invocation order.
    pub entries: Vec<RefspecEntry>,
}

impl PushRequest {
    /// Every named remote exists in the world.
    pub open spec fn targets_valid(self, world: World) -> bool {
        forall|i: int|
            0 <= i < self.entries@.len()
                ==> (#[trigger] self.entries@[i]).remote < world.remotes@.len()
    }

    /// Whether the request names remote `r` at all.
    pub open spec fn names_remote(self, r: usize) -> bool {
        exists|i: int| 0 <= i < self.entries@.len() && (#[trigger] self.entries@[i]).remote == r
    }
}

/// The notes refspec injected for one remote.
#[derive(Clone, Copy, Debug, PartialEq, Eq, Structural)]
pub struct NotesPush {
    /// Index of the remote the refspec goes to.
    pub remote: usize,
    /// Whether the forced form is used.
    pub forced: bool,
}

/// A user push together with what the engine adds to it.  The injected
/// refspecs are an addendum: they follow all of the user's own refspecs.
pub struct AugmentedPush {
    /// The user's entries, untouched and in their original order.
    pub entries: Vec<RefspecEntry>,
    /// At most one injected notes refspec per distinct remote.
    pub notes: Vec<NotesPush>,
    /// The per-remote outcome report of the sync cycles.
    pub outcomes: Vec<RemoteOutcome>,
}

/// The remotes a list of entries names, each at its first appearance.
pub open spec fn distinct_of(entries: Seq<RefspecEntry>) -> Seq<usize>
    decreases entries.len(),
{
    if entries.len() == 0 {
        Seq::empty()
    } else {
        let rest = distinct_of(entries.drop_last());
        if rest.contains(entries.last().remote) {
            rest
        } else {
            rest.push(entries.last().remote)
        }
    }
}

/// The remotes a request names, each exactly once, in order of first
/// appearance.
pub fn distinct_remotes(request: &PushRequest) -> (remotes: Vec<usize>)
    ensures
        remotes@ == distinct_of(request.entries@),
        forall|i: int, j: int| 0 <= i < j < remotes@.len() ==> remotes@[i] != remotes@[j],
        forall|i: int|
            0 <= i < remotes@.len() ==> request.names_remote(#[trigger] remotes@[i]),
        forall|i: int|
            0 <= i < request.entries@.len() ==> remotes@.contains(
                (#[trigger] request.entries@[i]).remote,
            ),
{
    let n = request.entries.len();
    let mut remotes: Vec<usize> = Vec::new();
    let mut i: usize = 0;
    while i < n
        invariant
            i <= n,
            n == request.entries@.len(),
            remotes@ == distinct_of(request.entries@.subrange(0, i as int)),
            forall|a: int, b: int| 0 <= a < b < remotes@.len() ==> remotes@[a] != remotes@[b],
            forall|a: int|
                0 <= a < remotes@.len() ==> request.names_remote(#[trigger] remotes@[a]),
            forall|a: int|
                0 <= a < i ==> remotes@.contains((#[trigger] request.entries@[a]).remote),
        decreases n - i,
    {
        let r = request.entries[i].remote;
        let ghost before = remotes@;
        proof {
            let p1 = request.entries@.subrange(0, i + 1 as int);
            assert(p1.drop_last() =~= request.entries@.subrange(0, i as int));
            assert(p1.last() == request.entries@[i as int]);
        }
        if !contains_remote(&remotes, r) {
            remotes.push(r);
            proof {
                assert(remotes@[before.len() as int] == r);
                assert(remotes@.contains(r));
                assert forall|a: int|
                    0 <= a < remotes@.len() - 1 implies remotes@[a] == before[a] by {}
                assert forall|a: int|
                    0 <= a < i && before.contains(
                    (#[trigger] request.entries@[a]).remote,
                ) implies remotes@.contains(request.entries@[a].remote) by {
                    let idx = choose|idx: int|
                        0 <= idx < before.len() && before[idx] == request.entries@[a].remote;
                    assert(remotes@[idx] == request.entries@[a].remote);
                }
            }
        } else {
            proof {
                assert(remotes@.contains(r));
            }
        }
        i = i + 1;
    }
    proof {
        assert(request.entries@.subrange(0, n as int) =~= request.entries@);
    }
    remotes
}

/// Linear scan for a remote index.
fn contains_remote(v: &Vec<usize>, x: usize) -> (r: bool)
    ensures
        r == v@.contains(x),
{
    let n = v.len();
    let mut i: usize = 0;
    while i < n
        invariant
            i <= n,
            n == v@.len(),
            forall|k: int| 0 <= k < i ==> v@[k] != x,
        decreases n - i,
    {
        if v[i] == x {
            return true;
        }
        i = i + 1;
    }
    false
}

/// The notes refspec entries a set of cycle outcomes calls for: one per
/// outcome that sent a refspec, carrying that cycle's force flag, in
/// outcome order.
pub open spec fn notes_for(outcomes: Seq<RemoteOutcome>) -> Seq<NotesPush>
    decreases outcomes.len(),
{
    if outcomes.len() == 0 {
        Seq::empty()
    } else {
        let rest = notes_for(outcomes.drop_last());
        let last = outcomes.last();
        if last.outcome.is_pushed() {
            rest.push(NotesPush { remote: last.remote, forced: last.outcome.is_forced() })
        } else {
            rest
        }
    }
}

/// Every injected notes entry comes from one of the outcomes: same remote,
/// same force flag, and that outcome pushed.
proof fn lemma_notes_for_member(outcomes: Seq<RemoteOutcome>, a: int)
    requires
        0 <= a < notes_for(outcomes).len(),
    ensures
        exists|b: int|
            0 <= b < outcomes.len() && (#[trigger] outcomes[b]).remote == notes_for(outcomes)[a].remote
                && outcomes[b].outcome.is_pushed() && notes_for(outcomes)[a].forced
                == outcomes[b].outcome.is_forced(),
    decreases outcomes.len(),
{
    let rest = notes_for(outcomes.drop_last());
    if a < rest.len() {
        lemma_notes_for_member(outcomes.drop_last(), a);
        let b = choose|b: int|
            0 <= b < outcomes.drop_last().len() && (#[trigger] outcomes.drop_last()[b]).remote
                == rest[a].remote && outcomes.drop_last()[b].outcome.is_pushed()
                && rest[a].forced == outcomes.drop_last()[b].outcome.is_forced();
        assert(outcomes[b] == outcomes.drop_last()[b]);
        assert(notes_for(outcomes)[a] == rest[a]);
    } else {
        assert(outcomes.last() == outcomes[outcomes.len() - 1]);
    }
}

/// Every cycle that sent a refspec is represented among the injected
/// entries: a remote whose sync pushed always gets its notes refspec.
pub proof fn lemma_notes_for_covers(outcomes: Seq<RemoteOutcome>, b: int)
    requires
        0 <= b < outcomes.len(),
        outcomes[b].outcome.is_pushed(),
    ensures
        exists|a: int|
            0 <= a < notes_for(outcomes).len() && (#[trigger] notes_for(outcomes)[a]).remote
                == outcomes[b].remote && notes_for(outcomes)[a].forced
                == outcomes[b].outcome.is_forced(),
    decreases outcomes.len(),
{
    let rest = notes_for(outcomes.drop_last());
    if b < outcomes.len() - 1 {
        assert(outcomes.drop_last()[b] == outcomes[b]);
        lemma_notes_for_covers(outcomes.drop_last(), b);
        let a = choose|a: int|
            0 <= a < rest.len() && (#[trigger] rest[a]).remote == outcomes[b].remote
                && rest[a].forced == outcomes[b].outcome.is_forced();
        assert(notes_for(outcomes)[a] == rest[a]);
    } else {
        assert(outcomes.last() == outcomes[b]);
        assert(notes_for(outcomes)[notes_for(outcomes).len() - 1].remote == outcomes[b].remote);
    }
}

/// Distinct remotes among the outcomes give distinct remotes among the
/// injected entries: still at most one notes refspec per remote.
proof fn lemma_notes_for_distinct(outcomes: Seq<RemoteOutcome>)
    requires
        forall|i: int, j: int|
            0 <= i < j < outcomes.len() ==> (#[trigger] outcomes[i]).remote
                != (#[trigger] outcomes[j]).remote,
    ensures
        forall|i: int, j: int|
            0 <= i < j < notes_for(outcomes).len() ==> (#[trigger] notes_for(outcomes)[i]).remote
                != (#[trigger] notes_for(outcomes)[j]).remote,
    decreases outcomes.len(),
{
    if outcomes.len() > 0 {
        let prefix = outcomes.drop_last();
        lemma_notes_for_distinct(prefix);
        let rest = notes_for(prefix);
        assert forall|i: int, j: int|
            0 <= i < j < notes_for(outcomes).len() implies (#[trigger] notes_for(outcomes)[i]).remote
            != (#[trigger] notes_for(outcomes)[j]).remote by {
            if j < rest.len() {
                assert(notes_for(outcomes)[i] == rest[i]);
                assert(notes_for(outcomes)[j] == rest[j]);
            } else {
                // `j` is the entry for the last outcome; `i` came from an
                // earlier outcome with a different remote
                assert(notes_for(outcomes)[i] == rest[i]);
                lemma_notes_for_member(prefix, i);
                let b = choose|b: int|
                    0 <= b < prefix.len() && (#[trigger] prefix[b]).remote == rest[i].remote
                        && prefix[b].outcome.is_pushed() && rest[i].forced
                        == prefix[b].outcome.is_forced();
                assert(outcomes[b] == prefix[b]);
                assert(notes_for(outcomes)[j].remote == outcomes.last().remote);
                assert(outcomes.last() == outcomes[outcomes.len() - 1]);
            }
        };
    }
}

/// Augment a user push: bring the notes ref in sync with every distinct
/// remote the request names and decide, per remote, the refspec to append.
/// The user's own refspecs proceed untouched whatever the notes cycles do,
/// and however many refspecs name the same remote, that remote gets at most
/// one notes refspec.
pub fn augment(world: &mut World, request: PushRequest) -> (augmented: AugmentedPush)
    requires
        old(world).wf(),
        request.targets_valid(*old(world)),
    ensures
        final(world).wf(),
        final(world).remotes@.len() == old(world).remotes@.len(),
        final(world).store.extends(old(world).store),
        // the user's own refspecs are passed through verbatim
        augmented.entries@ == request.entries@,
        // one sync cycle per distinct remote the request names, in order
        // of first appearance
        augmented.outcomes@.len() == distinct_of(request.entries@).len(),
        forall|i: int|
            0 <= i < augmented.outcomes@.len() ==> (#[trigger] augmented.outcomes@[i]).remote
                == distinct_of(request.entries@)[i],
        forall|i: int, j: int|
            0 <= i < j < augmented.outcomes@.len()
                ==> (#[trigger] augmented.outcomes@[i]).remote
                != (#[trigger] augmented.outcomes@[j]).remote,
        forall|i: int|
            0 <= i < augmented.outcomes@.len() ==> request.names_remote(
                (#[trigger] augmented.outcomes@[i]).remote,
            ),
        // each cycle's outcome is owed by that remote's own prior state
        forall|i: int|
            0 <= i < augmented.outcomes@.len() ==> ((#[trigger] augmented.outcomes@[i]).outcome
                is Succeeded <==> (old(world).remotes@[augmented.outcomes@[i].remote as int].reachable
                && !(old(world).remotes@[augmented.outcomes@[i].remote as int].notes
                    is Malformed))),
        forall|i: int|
            0 <= i < augmented.outcomes@.len() ==> ((#[trigger] augmented.outcomes@[i]).outcome
                is Skipped
                <==> !old(world).remotes@[augmented.outcomes@[i].remote as int].reachable),
        // safety of force, both ways: the forced form goes exactly to a
        // reachable remote that held no notes ref while the local replica
        // had a tip to push
        forall|i: int|
            0 <= i < augmented.outcomes@.len() ==> ((#[trigger] augmented.outcomes@[i]).outcome.is_forced()
                <==> (old(world).remotes@[augmented.outcomes@[i].remote as int].reachable
                    && old(world).remotes@[augmented.outcomes@[i].remote as int].notes is Missing
                    && local_present_at(*old(world), distinct_of(request.entries@), i))),
        // the whole run is the per-remote cycle, once per distinct remote
        // in order, threading the world from the given state to the final
        // one
        exists|trace: Seq<World>|
            #![trigger trace.len()]
            trace.len() == distinct_of(request.entries@).len() + 1 && trace[0] == *old(world)
                && trace[distinct_of(request.entries@).len() as int] == *final(world) && (forall|
                i: int,
            |
                0 <= i < distinct_of(request.entries@).len() ==> cycle_rel(
                    trace[i],
                    distinct_of(request.entries@)[i] as int,
                    trace[i + 1],
                    (#[trigger] augmented.outcomes@[i]).outcome,
                )),
        // the injected refspecs: exactly one per cycle that pushed, with
        // that cycle's force flag
        augmented.notes@ == notes_for(augmented.outcomes@),
        // so at most one notes refspec per distinct remote
        forall|i: int, j: int|
            0 <= i < j < augmented.notes@.len() ==> (#[trigger] augmented.notes@[i]).remote
                != (#[trigger] augmented.notes@[j]).remote,
        // safety of force: the forced form only goes to a remote that held
        // no notes ref at all
        forall|i: int|
            0 <= i < augmented.notes@.len() && (#[trigger] augmented.notes@[i]).forced
                ==> old(world).remotes@[augmented.notes@[i].remote as int].notes is Missing,
        // monotonicity: no replica's visible note set ever shrinks
        forall|k: u64| old(world).local_has_note(k) ==> final(world).local_has_note(k),
        forall|r: int, k: u64|
            0 <= r < old(world).remotes@.len() && old(world).remote_has_note(r, k)
                ==> final(world).remote_has_note(r, k),
{
    let targets = distinct_remotes(&request);
    let outcomes = sync_all(world, &targets);
    proof {
        assert(targets@ == distinct_of(request.entries@));
    }
    let mut notes: Vec<NotesPush> = Vec::new();
    let n = outcomes.len();
    let mut i: usize = 0;
    while i < n
        invariant
            n == outcomes@.len(),
            i <= n,
            notes@ == notes_for(outcomes@.subrange(0, i as int)),
        decreases n - i,
    {
        let oc = outcomes[i];
        let pushed = match oc.outcome {
            crate::orchestrator::SyncOutcome::Succeeded { pushed, .. } => pushed,
            _ => false,
        };
        let forced = match oc.outcome {
            crate::orchestrator::SyncOutcome::Succeeded { forced, .. } => forced,
            _ => false,
        };
        if pushed {
            notes.push(NotesPush { remote: oc.remote, forced });
        }
        proof {
            let p1 = outcomes@.subrange(0, i + 1 as int);
            assert(p1.drop_last() =~= outcomes@.subrange(0, i as int));
            assert(p1.last() == outcomes@[i as int]);
        }
        i = i + 1;
    }
    proof {
        assert(outcomes@.subrange(0, n as int) =~= outcomes@);
        lemma_notes_for_distinct(outcomes@);
        let w0 = *old(world);
        assert forall|a: int|
            0 <= a < notes@.len()
                && (#[trigger] notes@[a]).forced implies w0.remotes@[notes@[a].remote as int].notes
            is Missing by {
            lemma_notes_for_member(outcomes@, a);
            let b = choose|b: int|
                0 <= b < outcomes@.len() && (#[trigger] outcomes@[b]).remote == notes@[a].remote
                    && outcomes@[b].outcome.is_pushed() && notes@[a].forced
                    == outcomes@[b].outcome.is_forced();
            assert(outcomes@[b].outcome.is_forced());
        };
    }
    AugmentedPush { entries: request.entries, notes, outcomes }
}

/// The well-known notes namespace, identical on every clone.
pub fn notes_ref_name() -> (s: &'static str)
    ensures
        s@ == "refs/notes/ai"@,
{
    "refs/notes/ai"
}

/// The refspec text the engine appends: the plain `src:dst` form for a
/// fast-forward, the `+`-prefixed form only for a remote that held nothing.
pub fn notes_refspec(forced: bool) -> (s: &'static str)
    ensures
        forced ==> s@ == "+refs/notes/ai:refs/notes/ai"@,
        !forced ==> s@ == "refs/notes/ai:refs/notes/ai"@,
{
    if forced {
        "+refs/notes/ai:refs/notes/ai"
    } else {
        "refs/notes/ai:refs/notes/ai"
    }
}

} // verus!
