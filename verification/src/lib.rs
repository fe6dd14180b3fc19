//! Synchronization engine for an out-of-band authorship-notes ref.
//!
//! The crate keeps a dedicated notes namespace consistent across any number
//! of push remotes: it probes the relationship between the local notes tip
//! and each remote's copy, merges divergent histories losslessly, and decides
//! per remote which refspec (plain or forced) an outgoing push must carry so
//! that no note ever written is lost.

pub mod cycle;
pub mod events;
pub mod interceptor;
pub mod merge;
pub mod orchestrator;
pub mod otel;
pub mod relation;
pub mod store;
