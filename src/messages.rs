//! The messages exchanged between bridges and the relay.

use crate::change::ChangeBatch;
use vstd::prelude::*;

verus! {

/// A change as it travels over the network.
#[derive(Debug, PartialEq, Eq)]
pub struct Change {
    /// Identifier given once, where the change was made.
    pub id: u128,
    pub change: ChangeBatch,
    /// Opaque key/value pairs correlating the change across hops.
    pub trace_context: Vec<(String, String)>,
}

/// Messages that both sides may send.
#[derive(Debug, PartialEq, Eq)]
pub enum CommonMessage {
    Change(Change),
}

/// Messages from a bridge to the relay.
#[derive(Debug, PartialEq, Eq)]
pub enum ClientMessage {
    /// Confirms that a change was applied.
    AcknowledgeChange(u128),
    Common(CommonMessage),
}

/// Messages from the relay to a bridge.
#[derive(Debug, PartialEq, Eq)]
pub enum ServerMessage {
    Common(CommonMessage),
}

} // verus!
