//! The metric event model: sparse, position-indexed attribute and value
//! records describing commit, checkpoint and agent-usage events.
//!
//! A record holds only the fields actually present, each under a fixed
//! numeric position rather than a dense field list.

use vstd::prelude::*;

verus! {

/// Position of the repository URL attribute.
pub const ATTR_REPO_URL: u64 = 0;

/// Position of the author attribute.
pub const ATTR_AUTHOR: u64 = 1;

/// Position of the commit hash attribute.
pub const ATTR_COMMIT_SHA: u64 = 2;

/// Position of the base commit hash attribute.
pub const ATTR_BASE_COMMIT_SHA: u64 = 3;

/// Position of the branch attribute.
pub const ATTR_BRANCH: u64 = 4;

/// Position of the tool attribute.
pub const ATTR_TOOL: u64 = 5;

/// Position of the model attribute.
pub const ATTR_MODEL: u64 = 6;

/// Position of the prompt identifier attribute.
pub const ATTR_PROMPT_ID: u64 = 7;

/// Position of the human-written added line count in a committed event.
pub const COMMITTED_HUMAN_ADDITIONS: u64 = 0;

/// Position of the per-source AI added line counts in a committed event.
pub const COMMITTED_AI_ADDITIONS: u64 = 1;

/// Position of the diff added line count in a committed event.
pub const COMMITTED_GIT_DIFF_ADDED_LINES: u64 = 2;

/// Position of the diff deleted line count in a committed event.
pub const COMMITTED_GIT_DIFF_DELETED_LINES: u64 = 3;

/// Position of the per-source AI accepted line counts in a committed event.
pub const COMMITTED_AI_ACCEPTED: u64 = 4;

/// Position of the added line count in a checkpoint event.
pub const CHECKPOINT_LINES_ADDED: u64 = 0;

/// Position of the deleted line count in a checkpoint event.
pub const CHECKPOINT_LINES_DELETED: u64 = 1;

/// Numeric code of a committed event.
pub const EVENT_COMMITTED: u32 = 0;

/// Numeric code of an agent-usage event.
pub const EVENT_AGENT_USAGE: u32 = 1;

/// Numeric code of a checkpoint event.
pub const EVENT_CHECKPOINT: u32 = 2;

/// Numeric code of a hook-installation event.
pub const EVENT_INSTALL_HOOKS: u32 = 3;

/// The event kinds the engine's surroundings emit.
#[derive(Clone, Copy, Debug, PartialEq, Eq, Structural)]
pub enum MetricEventId {
    /// A commit was created, with its line attribution.
    Committed,
    /// An AI agent was used.
    AgentUsage,
    /// A working-tree checkpoint was recorded.
    Checkpoint,
    /// Hooks were installed; never exported.
    InstallHooks,
}

/// The kind a numeric event code stands for, if any.
pub open spec fn event_id_spec(code: u32) -> Option<MetricEventId> {
    if code == EVENT_COMMITTED {
        Some(MetricEventId::Committed)
    } else if code == EVENT_AGENT_USAGE {
        Some(MetricEventId::AgentUsage)
    } else if code == EVENT_CHECKPOINT {
        Some(MetricEventId::Checkpoint)
    } else if code == EVENT_INSTALL_HOOKS {
        Some(MetricEventId::InstallHooks)
    } else {
        None
    }
}

/// Decode a numeric event code.
pub fn event_id_from_code(code: u32) -> (r: Option<MetricEventId>)
    ensures
        r == event_id_spec(code),
{
    if code == EVENT_COMMITTED {
        Some(MetricEventId::Committed)
    } else if code == EVENT_AGENT_USAGE {
        Some(MetricEventId::AgentUsage)
    } else if code == EVENT_CHECKPOINT {
        Some(MetricEventId::Checkpoint)
    } else if code == EVENT_INSTALL_HOOKS {
        Some(MetricEventId::InstallHooks)
    } else {
        None
    }
}

/// One field of a sparse record.
#[derive(Clone, Debug)]
pub enum FieldValue {
    /// A string attribute.
    Text(String),
    /// A single numeric value.
    Count(u64),
    /// A list of numeric values, one per contributing source.
    CountList(Vec<u64>),
}

/// A sparse record: `(position, value)` pairs holding only the fields
/// present.  A lookup returns the first pair carrying the position.
#[derive(Clone, Debug)]
pub struct SparseRecord {
    /// The present fields, each under its position.
    pub entries: Vec<(u64, FieldValue)>,
}

impl SparseRecord {
    /// The first value stored under `pos` at or after index `i`.
    pub open spec fn lookup_from(self, pos: u64, i: int) -> Option<FieldValue>
        decreases self.entries@.len() - i,
    {
        if i < 0 || i >= self.entries@.len() {
            None
        } else if self.entries@[i].0 == pos {
            Some(self.entries@[i].1)
        } else {
            self.lookup_from(pos, i + 1)
        }
    }

    /// The value stored under `pos`, if the field is present.
    pub open spec fn lookup(self, pos: u64) -> Option<FieldValue> {
        self.lookup_from(pos, 0)
    }

    /// An empty record.
    pub fn new() -> (r: SparseRecord)
        ensures
            r.entries@.len() == 0,
    {
        SparseRecord { entries: Vec::new() }
    }

    /// Append a field.
    pub fn push(&mut self, pos: u64, value: FieldValue)
        ensures
            final(self).entries@ == old(self).entries@.push((pos, value)),
    {
        self.entries.push((pos, value));
    }

    /// Fetch the field stored under `pos`.
    pub fn get(&self, pos: u64) -> (r: Option<&FieldValue>)
        ensures
            match r {
                Some(v) => self.lookup(pos) == Some(*v),
                None => self.lookup(pos) is None,
            },
    {
        let n = self.entries.len();
        let mut i: usize = 0;
        while i < n
            invariant
                i <= n,
                n == self.entries@.len(),
                self.lookup(pos) == self.lookup_from(pos, i as int),
            decreases n - i,
        {
            if self.entries[i].0 == pos {
                return Some(&self.entries[i].1);
            }
            i = i + 1;
        }
        None
    }
}

/// One discrete event: its kind code, its string attributes and its numeric
/// values, both as sparse records.
#[derive(Clone, Debug)]
pub struct MetricEvent {
    /// Numeric event kind code.
    pub event_id: u32,
    /// String attributes by position.
    pub attrs: SparseRecord,
    /// Numeric values by position.
    pub values: SparseRecord,
}

} // verus!
