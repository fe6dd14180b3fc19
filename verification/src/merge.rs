//! Lossless merging of two notes histories.
//!
//! Given a local tip and a remote tip that share the store, the merge
//! produces a tip whose ancestry covers both inputs: either the remote tip
//! itself (a pure fast-forward when the local tip is already an ancestor of
//! it) or a fresh join commit whose parents are exactly the two tips.  Note
//! content never conflicts — a note is written exactly once, before it can
//! exist on more than one replica — so the merged mapping is the plain union
//! keyed by commit identifier.

use vstd::prelude::*;

use crate::store::NoteStore;

verus! {

/// Merge the histories of `local_tip` and `remote_tip` and return the new
/// tip.  The result sees exactly the union of the notes the two tips see,
/// and it descends from both, which is what later permits a non-forced
/// push.
pub fn merge(store: &mut NoteStore, local_tip: usize, remote_tip: usize) -> (new_tip: usize)
    requires
        old(store).wf(),
        local_tip < old(store).commits@.len(),
        remote_tip < old(store).commits@.len(),
    ensures
        final(store).wf(),
        final(store).extends(*old(store)),
        new_tip < final(store).commits@.len(),
        // a true join point: the result descends from both inputs
        final(store).reaches(new_tip as int, local_tip as int),
        final(store).reaches(new_tip as int, remote_tip as int),
        // the union, and nothing but the union, of the two histories' notes
        forall|k: u64|
            final(store).has_note(new_tip as int, k) <==> old(store).has_note(local_tip as int, k)
                || old(store).has_note(remote_tip as int, k),
        // a pure fast-forward adds nothing to the store
        old(store).reaches(remote_tip as int, local_tip as int) ==> *final(store) == *old(store)
            && new_tip == remote_tip,
        // otherwise exactly one join commit is appended, and it carries no
        // new notes of its own
        !old(store).reaches(remote_tip as int, local_tip as int)
            ==> final(store).commits@.len() == old(store).commits@.len() + 1
            && new_tip == old(store).commits@.len()
            && final(store).commits@[new_tip as int].keys@.len() == 0,
{
    if store.is_ancestor(local_tip, remote_tip) {
        proof {
            store.lemma_notes_monotone(local_tip as int, remote_tip as int);
            assert(store.reaches(remote_tip as int, remote_tip as int));
        }
        remote_tip
    } else {
        let mut parents: Vec<usize> = Vec::new();
        parents.push(local_tip);
        parents.push(remote_tip);
        let ghost old_store = *store;
        let new_tip = store.add_commit(parents, Vec::new());
        proof {
            let s = *store;
            assert(s.commits@[new_tip as int].parents@[0] == local_tip);
            assert(s.commits@[new_tip as int].parents@[1] == remote_tip);
            old_store.lemma_reaches_extend(s, local_tip as int, local_tip as int);
            old_store.lemma_reaches_extend(s, remote_tip as int, remote_tip as int);
            assert(s.reaches(new_tip as int, local_tip as int)) by {
                assert(s.reaches(s.commits@[new_tip as int].parents@[0] as int, local_tip as int));
            };
            assert(s.reaches(new_tip as int, remote_tip as int)) by {
                assert(s.reaches(s.commits@[new_tip as int].parents@[1] as int, remote_tip as int));
            };
            lemma_join_notes(old_store, s, local_tip, remote_tip, new_tip);
        }
        new_tip
    }
}

/// After appending a join commit with parent set `{local_tip, remote_tip}`
/// and no keys of its own, the notes seen from the join are exactly the
/// union of the notes the two parents saw.
proof fn lemma_join_notes(
    old_store: NoteStore,
    s: NoteStore,
    local_tip: usize,
    remote_tip: usize,
    new_tip: usize,
)
    requires
        old_store.wf(),
        s.wf(),
        s.extends(old_store),
        local_tip < old_store.commits@.len(),
        remote_tip < old_store.commits@.len(),
        new_tip == old_store.commits@.len(),
        s.commits@.len() == old_store.commits@.len() + 1,
        s.commits@[new_tip as int].parents@.len() == 2,
        s.commits@[new_tip as int].parents@[0] == local_tip,
        s.commits@[new_tip as int].parents@[1] == remote_tip,
        s.commits@[new_tip as int].keys@.len() == 0,
    ensures
        forall|k: u64|
            s.has_note(new_tip as int, k) <==> old_store.has_note(local_tip as int, k)
                || old_store.has_note(remote_tip as int, k),
{
    assert forall|k: u64|
        s.has_note(new_tip as int, k) implies old_store.has_note(local_tip as int, k)
        || old_store.has_note(remote_tip as int, k) by {
        let t = choose|t: int|
            0 <= t < s.commits@.len() && #[trigger] s.reaches(new_tip as int, t)
                && s.commits@[t].keys@.contains(k);
        // the join commit itself carries no keys, so the walk went through a parent
        assert(t != new_tip as int);
        let j = choose|j: int|
            0 <= j < s.commits@[new_tip as int].parents@.len() && s.reaches(
                #[trigger] s.commits@[new_tip as int].parents@[j] as int,
                t,
            );
        if j == 0 {
            old_store.lemma_reaches_extend(s, local_tip as int, t);
            assert(old_store.reaches(local_tip as int, t));
            old_store.lemma_reaches_bounds(local_tip as int, t);
            assert(old_store.commits@[t].keys@.contains(k));
        } else {
            old_store.lemma_reaches_extend(s, remote_tip as int, t);
            assert(old_store.reaches(remote_tip as int, t));
            old_store.lemma_reaches_bounds(remote_tip as int, t);
            assert(old_store.commits@[t].keys@.contains(k));
        }
    };
    assert forall|k: u64|
        old_store.has_note(local_tip as int, k) || old_store.has_note(
            remote_tip as int,
            k,
        ) implies s.has_note(new_tip as int, k) by {
        if old_store.has_note(local_tip as int, k) {
            old_store.lemma_has_note_extend(s, local_tip as int, k);
            let t = choose|t: int|
                0 <= t < s.commits@.len() && #[trigger] s.reaches(local_tip as int, t)
                    && s.commits@[t].keys@.contains(k);
            assert(s.reaches(new_tip as int, local_tip as int)) by {
                assert(s.reaches(s.commits@[new_tip as int].parents@[0] as int, local_tip as int));
            };
            s.lemma_reaches_trans(new_tip as int, local_tip as int, t);
        } else {
            old_store.lemma_has_note_extend(s, remote_tip as int, k);
            let t = choose|t: int|
                0 <= t < s.commits@.len() && #[trigger] s.reaches(remote_tip as int, t)
                    && s.commits@[t].keys@.contains(k);
            assert(s.reaches(new_tip as int, remote_tip as int)) by {
                assert(s.reaches(s.commits@[new_tip as int].parents@[1] as int, remote_tip as int));
            };
            s.lemma_reaches_trans(new_tip as int, remote_tip as int, t);
        }
    };
}

} // verus!
