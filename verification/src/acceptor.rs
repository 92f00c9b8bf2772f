//! The accept loop's decision: what to do with the outcome of one accept.
//!
//! The loop itself never ends. After each outcome, whatever it was, the
//! driver accepts again.

use crate::connection::{Connection, Mode, Phase};
use vstd::prelude::*;

verus! {

/// What one accept gave.
#[derive(Clone, Copy, Debug, PartialEq, Eq, Structural)]
pub enum AcceptOutcome {
    /// A peer has connected.
    Connected,
    /// The accept failed.
    Failed,
}

/// Whether the outcome of an accept gets a handler.
pub open spec fn gets_handler(outcome: AcceptOutcome) -> bool {
    outcome == AcceptOutcome::Connected
}

/// For each accept of a run, whether a handler was submitted for it.
pub open spec fn submissions(outcomes: Seq<AcceptOutcome>) -> Seq<bool> {
    Seq::new(outcomes.len(), |i: int| gets_handler(outcomes[i]))
}

/// Takes the outcome of one accept. For a peer that has connected it gives
/// the handler state to submit to the admission gate, a connection that
/// awaits its first read; a failed accept is passed over.
pub fn on_accept(mode: Mode, outcome: AcceptOutcome) -> (handler: Option<Connection>)
    ensures
        handler is Some == gets_handler(outcome),
        handler matches Some(connection) ==> connection.spec_mode() == mode
            && connection.spec_phase() == Phase::Reading,
{
    match outcome {
        AcceptOutcome::Connected => Some(Connection::new(mode)),
        AcceptOutcome::Failed => None,
    }
}

/// A failed accept stops nothing: in every run each accept is decided, and
/// each peer that connects gets its handler, however many accepts failed
/// before it.
pub proof fn lemma_accept_failures_are_skipped(outcomes: Seq<AcceptOutcome>, at: int)
    requires
        0 <= at < outcomes.len(),
    ensures
        submissions(outcomes).len() == outcomes.len(),
        submissions(outcomes)[at] == (outcomes[at] == AcceptOutcome::Connected),
{
}

} // verus!
