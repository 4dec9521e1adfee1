//! Edit-synchronization engine for collaborative editing through a relay.
//!
//! Bridges turn editor change batches into network messages and back,
//! suppressing the echoes of edits they applied themselves; the relay fans
//! each change out to every other bridge.

pub mod bridge;
pub mod change;
pub mod echo;
pub mod messages;
pub mod peekable_channel;
pub mod relay;

pub use bridge::change_event_to_workspace_edit;
