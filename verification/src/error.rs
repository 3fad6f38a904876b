//! The failures that the engine reports to its caller.

use crate::pool::event::Event;
use vstd::prelude::*;

verus! {

/// Why the engine refused an event. Events that break a business rule (a
/// withdrawal without funds, a dispute of an unknown transaction) are no
/// failures: the account ignores them.
#[derive(PartialEq, Eq, Structural, Debug, Clone, Copy)]
pub enum KrctError {
    /// The event belongs to no account, so there is nowhere to send it.
    UnkUnknownEvent(Event),
}

} // verus!
