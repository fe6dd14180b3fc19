//! The relationship between the local notes tip and a remote's copy, and the
//! refspec decision it forces.

use vstd::prelude::*;

use crate::store::NoteStore;

verus! {

/// How a remote's notes ref stands relative to the local one, as an ancestry
/// walk determines it.
#[derive(Clone, Copy, Debug, PartialEq, Eq, Structural)]
pub enum RefRelationship {
    /// The remote has no notes ref at all.
    Absent,
    /// The two tips are identical.
    Equal,
    /// The remote tip is an ancestor of the local tip.
    LocalAhead,
    /// The local tip is an ancestor of the remote tip.
    RemoteAhead,
    /// Neither tip is an ancestor of the other.
    Diverged,
}

/// What an outgoing push must carry for the notes ref of one remote.
#[derive(Clone, Copy, Debug, PartialEq, Eq, Structural)]
pub enum NotesAction {
    /// Nothing to append: the remote already holds the local tip.
    Nothing,
    /// Append the plain, non-forced refspec: a pure fast-forward.
    PushPlain,
    /// Append the forced refspec: only safe because the remote holds nothing.
    PushForced,
    /// Merge the two histories first, then append the plain refspec.
    MergeThenPush,
}

impl NotesAction {
    /// Whether this action sends a forced refspec.
    pub open spec fn is_forced(self) -> bool {
        self is PushForced
    }
}

/// The decision table: which action each probed relationship selects.
pub open spec fn decide_spec(rel: RefRelationship) -> NotesAction {
    match rel {
        RefRelationship::Absent => NotesAction::PushForced,
        RefRelationship::Equal => NotesAction::Nothing,
        RefRelationship::LocalAhead => NotesAction::PushPlain,
        RefRelationship::RemoteAhead => NotesAction::MergeThenPush,
        RefRelationship::Diverged => NotesAction::MergeThenPush,
    }
}

/// Select the action for a probed relationship.
pub fn decide_action(rel: RefRelationship) -> (a: NotesAction)
    ensures
        a == decide_spec(rel),
{
    match rel {
        RefRelationship::Absent => NotesAction::PushForced,
        RefRelationship::Equal => NotesAction::Nothing,
        RefRelationship::LocalAhead => NotesAction::PushPlain,
        RefRelationship::RemoteAhead => NotesAction::MergeThenPush,
        RefRelationship::Diverged => NotesAction::MergeThenPush,
    }
}

/// A forced refspec is selected exactly when the probed relationship is
/// `Absent`: the remote holds nothing a force could destroy, and no other
/// relationship ever selects force.
pub proof fn lemma_forced_iff_absent(rel: RefRelationship)
    ensures
        decide_spec(rel).is_forced() <==> rel is Absent,
{
}

/// The relationship between a local tip and a remote tip, both read as
/// positions in the shared store (`None` when the respective replica has no
/// notes ref).
pub open spec fn rel_spec(s: NoteStore, local: Option<usize>, remote: Option<usize>)
    -> RefRelationship {
    match (local, remote) {
        (Option::None, Option::None) => RefRelationship::Equal,
        (Option::Some(_), Option::None) => RefRelationship::Absent,
        (Option::None, Option::Some(_)) => RefRelationship::RemoteAhead,
        (Option::Some(l), Option::Some(r)) => {
            if l == r {
                RefRelationship::Equal
            } else if s.reaches(l as int, r as int) {
                RefRelationship::LocalAhead
            } else if s.reaches(r as int, l as int) {
                RefRelationship::RemoteAhead
            } else {
                RefRelationship::Diverged
            }
        },
    }
}

/// Classify how a remote's notes ref stands relative to the local one by two
/// ancestry checks against the shared store.
pub fn classify(s: &NoteStore, local: Option<usize>, remote: Option<usize>)
    -> (rel: RefRelationship)
    requires
        s.wf(),
        local matches Some(l) ==> l < s.commits@.len(),
        remote matches Some(r) ==> r < s.commits@.len(),
    ensures
        rel == rel_spec(*s, local, remote),
{
    match (local, remote) {
        (None, None) => RefRelationship::Equal,
        (Some(_), None) => RefRelationship::Absent,
        (None, Some(_)) => RefRelationship::RemoteAhead,
        (Some(l), Some(r)) => {
            if l == r {
                RefRelationship::Equal
            } else if s.is_ancestor(r, l) {
                RefRelationship::LocalAhead
            } else if s.is_ancestor(l, r) {
                RefRelationship::RemoteAhead
            } else {
                RefRelationship::Diverged
            }
        },
    }
}

} // verus!
