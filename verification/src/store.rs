//! The local object store of note commits.
//!
//! A note commit records which commit identifiers received a note at that
//! point and lists its parent note commits.  Note commits are appended only,
//! so a parent always has a smaller index than its child; that ordering is
//! the store's well-formedness invariant and what makes ancestry walks
//! terminate.

use vstd::prelude::*;

verus! {

/// One commit in the notes history: the keys annotated here plus the parent
/// note commits this one descends from.
pub struct NoteCommit {
    /// Indices of the parent note commits; each is smaller than this
    /// commit's own index.
    pub parents: Vec<usize>,
    /// Commit identifiers that received their note at this note commit.
    pub keys: Vec<u64>,
}

/// The append-only store of note commits shared by the local replica and the
/// fetched copies of every remote's notes history.
pub struct NoteStore {
    /// All note commits, in creation order.
    pub commits: Vec<NoteCommit>,
}

impl NoteStore {
    /// Every parent index points strictly backwards.
    pub open spec fn wf(self) -> bool {
        forall|i: int, j: int|
            0 <= i < self.commits@.len() && 0 <= j < self.commits@[i].parents@.len()
                ==> (#[trigger] self.commits@[i].parents@[j]) < i
    }

    /// Ancestry: `to` is reachable from `from` by following parent edges
    /// (reflexively).
    pub open spec fn reaches(self, from: int, to: int) -> bool
        decreases from
        when self.wf() && 0 <= from < self.commits@.len()
    {
        from == to || exists|j: int|
            0 <= j < self.commits@[from].parents@.len()
                && self.reaches(#[trigger] self.commits@[from].parents@[j] as int, to)
    }

    /// The commit identifier `key` carries a note somewhere in the history
    /// reachable from `tip`.
    pub open spec fn has_note(self, tip: int, key: u64) -> bool {
        exists|t: int|
            0 <= t < self.commits@.len() && #[trigger] self.reaches(tip, t)
                && self.commits@[t].keys@.contains(key)
    }

    /// The set of commit identifiers carrying a note, as seen from `tip`.
    pub open spec fn notes_at(self, tip: int) -> Set<u64> {
        Set::new(|k: u64| self.has_note(tip, k))
    }

    /// The new store extends the old one without touching existing commits.
    pub open spec fn extends(self, old_store: NoteStore) -> bool {
        &&& old_store.commits@.len() <= self.commits@.len()
        &&& forall|i: int|
            0 <= i < old_store.commits@.len() ==> self.commits@[i] == old_store.commits@[i]
    }

    pub fn new() -> (s: NoteStore)
        ensures
            s.wf(),
            s.commits@.len() == 0,
    {
        NoteStore { commits: Vec::new() }
    }

    /// Append a note commit; returns its index.
    pub fn add_commit(&mut self, parents: Vec<usize>, keys: Vec<u64>) -> (idx: usize)
        requires
            old(self).wf(),
            forall|j: int|
                0 <= j < parents@.len() ==> (#[trigger] parents@[j]) < old(self).commits@.len(),
        ensures
            final(self).wf(),
            final(self).extends(*old(self)),
            idx == old(self).commits@.len(),
            final(self).commits@.len() == old(self).commits@.len() + 1,
            final(self).commits@[idx as int].parents@ == parents@,
            final(self).commits@[idx as int].keys@ == keys@,
    {
        let idx = self.commits.len();
        self.commits.push(NoteCommit { parents, keys });
        idx
    }

    /// Ancestry only ever leads to commits at or below the starting index.
    pub proof fn lemma_reaches_bounds(self, from: int, to: int)
        requires
            self.wf(),
            0 <= from < self.commits@.len(),
            self.reaches(from, to),
        ensures
            0 <= to <= from,
        decreases from,
    {
        if from != to {
            let j = choose|j: int|
                0 <= j < self.commits@[from].parents@.len()
                    && self.reaches(#[trigger] self.commits@[from].parents@[j] as int, to);
            self.lemma_reaches_bounds(self.commits@[from].parents@[j] as int, to);
        }
    }

    /// Ancestry is transitive.
    pub proof fn lemma_reaches_trans(self, a: int, b: int, c: int)
        requires
            self.wf(),
            0 <= a < self.commits@.len(),
            self.reaches(a, b),
            self.reaches(b, c),
        ensures
            self.reaches(a, c),
        decreases a,
    {
        if a != b {
            let j = choose|j: int|
                0 <= j < self.commits@[a].parents@.len()
                    && self.reaches(#[trigger] self.commits@[a].parents@[j] as int, b);
            self.lemma_reaches_trans(self.commits@[a].parents@[j] as int, b, c);
        }
    }

    /// Extending the store does not change ancestry among existing commits.
    pub proof fn lemma_reaches_extend(self, new_store: NoteStore, from: int, to: int)
        requires
            self.wf(),
            new_store.wf(),
            new_store.extends(self),
            0 <= from < self.commits@.len(),
        ensures
            self.reaches(from, to) == new_store.reaches(from, to),
        decreases from,
    {
        if self.reaches(from, to) && from != to {
            let j = choose|j: int|
                0 <= j < self.commits@[from].parents@.len()
                    && self.reaches(#[trigger] self.commits@[from].parents@[j] as int, to);
            self.lemma_reaches_extend(new_store, self.commits@[from].parents@[j] as int, to);
        }
        if new_store.reaches(from, to) && from != to {
            let j = choose|j: int|
                0 <= j < new_store.commits@[from].parents@.len()
                    && new_store.reaches(
                    #[trigger] new_store.commits@[from].parents@[j] as int,
                    to,
                );
            self.lemma_reaches_extend(new_store, self.commits@[from].parents@[j] as int, to);
        }
    }

    /// Extending the store does not change which keys an existing tip sees.
    pub proof fn lemma_has_note_extend(self, new_store: NoteStore, tip: int, key: u64)
        requires
            self.wf(),
            new_store.wf(),
            new_store.extends(self),
            0 <= tip < self.commits@.len(),
        ensures
            self.has_note(tip, key) == new_store.has_note(tip, key),
    {
        if self.has_note(tip, key) {
            let t = choose|t: int|
                0 <= t < self.commits@.len() && #[trigger] self.reaches(tip, t)
                    && self.commits@[t].keys@.contains(key);
            self.lemma_reaches_extend(new_store, tip, t);
            assert(new_store.reaches(tip, t) && new_store.commits@[t].keys@.contains(key));
        }
        if new_store.has_note(tip, key) {
            let t = choose|t: int|
                0 <= t < new_store.commits@.len() && #[trigger] new_store.reaches(tip, t)
                    && new_store.commits@[t].keys@.contains(key);
            new_store.lemma_reaches_bounds(tip, t);
            self.lemma_reaches_extend(new_store, tip, t);
            assert(self.reaches(tip, t) && self.commits@[t].keys@.contains(key));
        }
    }

    /// Whatever a tip sees, every descendant of that tip sees as well: notes
    /// are never lost by advancing a ref to a descendant.
    pub proof fn lemma_notes_monotone(self, anc: int, desc: int)
        requires
            self.wf(),
            0 <= desc < self.commits@.len(),
            self.reaches(desc, anc),
        ensures
            forall|k: u64| self.has_note(anc, k) ==> self.has_note(desc, k),
            self.notes_at(anc) <= self.notes_at(desc),
    {
        assert forall|k: u64| self.has_note(anc, k) implies self.has_note(desc, k) by {
            let t = choose|t: int|
                0 <= t < self.commits@.len() && #[trigger] self.reaches(anc, t)
                    && self.commits@[t].keys@.contains(k);
            self.lemma_reaches_trans(desc, anc, t);
        };
    }

    /// A set of marks that contains `from` and is closed under parent edges
    /// contains everything `from` reaches.
    proof fn lemma_marks_closed(self, marks: Seq<bool>, from: int, to: int)
        requires
            self.wf(),
            marks.len() == self.commits@.len(),
            0 <= from < marks.len(),
            marks[from],
            forall|k: int, j: int|
                0 <= k < marks.len() && marks[k] && 0 <= j < self.commits@[k].parents@.len()
                    ==> marks[#[trigger] self.commits@[k].parents@[j] as int],
            self.reaches(from, to),
        ensures
            0 <= to < marks.len(),
            marks[to],
        decreases from,
    {
        self.lemma_reaches_bounds(from, to);
        if from != to {
            let j = choose|j: int|
                0 <= j < self.commits@[from].parents@.len()
                    && self.reaches(#[trigger] self.commits@[from].parents@[j] as int, to);
            self.lemma_marks_closed(marks, self.commits@[from].parents@[j] as int, to);
        }
    }

    /// Compute, for every note commit, whether `tip` reaches it.
    pub fn reachable_marks(&self, tip: usize) -> (marks: Vec<bool>)
        requires
            self.wf(),
            tip < self.commits@.len(),
        ensures
            marks@.len() == self.commits@.len(),
            forall|k: int|
                0 <= k < marks@.len() ==> (marks@[k] <==> self.reaches(tip as int, k)),
    {
        let n = self.commits.len();
        let mut marks: Vec<bool> = Vec::new();
        let mut i: usize = 0;
        while i < n
            invariant
                i <= n,
                marks@.len() == i,
                forall|k: int| 0 <= k < i ==> !marks@[k],
            decreases n - i,
        {
            marks.push(false);
            i = i + 1;
        }
        marks.set(tip, true);
        let mut i: usize = tip + 1;
        while 0 < i
            invariant
                self.wf(),
                tip < n,
                n == self.commits@.len(),
                marks@.len() == n,
                i <= tip + 1,
                marks@[tip as int],
                // soundness: only commits the tip reaches are marked
                forall|k: int| 0 <= k < n && marks@[k] ==> self.reaches(tip as int, k),
                // indices at or above the cursor already have their parents marked
                forall|k: int, j: int|
                    i <= k < n && marks@[k] && 0 <= j < self.commits@[k].parents@.len()
                        ==> marks@[#[trigger] self.commits@[k].parents@[j] as int],
            decreases i,
        {
            let idx = i - 1;
            if marks[idx] {
                let parents = &self.commits[idx].parents;
                let m = parents.len();
                let mut j: usize = 0;
                while j < m
                    invariant
                        self.wf(),
                        tip < n,
                        n == self.commits@.len(),
                        marks@.len() == n,
                        idx < n,
                        j <= m,
                        m == self.commits@[idx as int].parents@.len(),
                        parents@ == self.commits@[idx as int].parents@,
                        marks@[tip as int],
                        marks@[idx as int],
                        self.reaches(tip as int, idx as int),
                        forall|k: int| 0 <= k < n && marks@[k] ==> self.reaches(tip as int, k),
                        forall|jj: int|
                            0 <= jj < j
                                ==> marks@[#[trigger] self.commits@[idx as int].parents@[jj] as int],
                        forall|k: int, jj: int|
                            idx + 1 <= k < n && marks@[k]
                                && 0 <= jj < self.commits@[k].parents@.len()
                                ==> marks@[#[trigger] self.commits@[k].parents@[jj] as int],
                    decreases m - j,
                {
                    let p = parents[j];
                    proof {
                        // one parent step from idx, then prepend the walk from the tip
                        assert(p == self.commits@[idx as int].parents@[j as int]);
                        assert((p as int) < idx as int);
                        assert(self.reaches(p as int, p as int));
                        assert(self.reaches(idx as int, p as int)) by {
                            assert(0 <= j < self.commits@[idx as int].parents@.len()
                                && self.reaches(
                                    self.commits@[idx as int].parents@[j as int] as int,
                                    p as int,
                                ));
                        };
                        self.lemma_reaches_trans(tip as int, idx as int, p as int);
                    }
                    marks.set(p, true);
                    j = j + 1;
                }
            }
            i = idx;
        }
        proof {
            assert forall|k: int|
                0 <= k < marks@.len() && self.reaches(tip as int, k) implies marks@[k] by {
                self.lemma_marks_closed(marks@, tip as int, k);
            };
        }
        marks
    }

    /// Ancestry check: does `desc` reach `anc` through parent edges?
    pub fn is_ancestor(&self, anc: usize, desc: usize) -> (r: bool)
        requires
            self.wf(),
            anc < self.commits@.len(),
            desc < self.commits@.len(),
        ensures
            r == self.reaches(desc as int, anc as int),
    {
        let marks = self.reachable_marks(desc);
        marks[anc]
    }

    /// Does the history visible from `tip` carry a note for `key`?
    pub fn holds_note(&self, tip: usize, key: u64) -> (r: bool)
        requires
            self.wf(),
            tip < self.commits@.len(),
        ensures
            r == self.has_note(tip as int, key),
    {
        let marks = self.reachable_marks(tip);
        let n = self.commits.len();
        let mut t: usize = 0;
        while t < n
            invariant
                self.wf(),
                tip < n,
                n == self.commits@.len(),
                marks@.len() == n,
                t <= n,
                forall|k: int|
                    0 <= k < n ==> (marks@[k] <==> self.reaches(tip as int, k)),
                forall|k: int|
                    0 <= k < t ==> !(marks@[k] && self.commits@[k].keys@.contains(key)),
            decreases n - t,
        {
            if marks[t] && contains_key(&self.commits[t].keys, key) {
                return true;
            }
            t = t + 1;
        }
        false
    }
}

/// Linear scan for a key in a list of commit identifiers.
fn contains_key(v: &Vec<u64>, x: u64) -> (r: bool)
    ensures
        r == v@.contains(x),
{
    let n = v.len();
    let mut i: usize = 0;
    while i < n
        invariant
            i <= n,
            n == v@.len(),
            forall|k: int| 0 <= k < i ==> v@[k] != x,
        decreases n - i,
    {
        if v[i] == x {
            return true;
        }
        i = i + 1;
    }
    false
}

} // verus!
