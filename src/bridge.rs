//! The decisions of a bridge between a local editor and the relay.

use crate::change::{whole_document_range, ChangeBatch, Range};
use crate::echo::{expected_echoes, live, screen, EchoPool, PendingEcho};
use crate::messages::Change;
use vstd::prelude::*;
use vstd::string::StringExecFns;

verus! {

/// Relies on `uuid::Uuid::new_v4` and `Uuid::as_u128`: a random identifier
/// of version 4 and of the RFC 4122 variant, read as a big-endian integer.
#[verifier::external_body]
fn new_message_id() -> (r: u128)
    ensures
        (r >> 76u128) & 0xfu128 == 4,
        (r >> 62u128) & 0x3u128 == 2,
{
    uuid::Uuid::new_v4().as_u128()
}

/// One edit for the editor to apply: text that replaces a range.
#[derive(Debug, PartialEq, Eq)]
pub struct TextEdit {
    pub range: Range,
    pub new_text: String,
}

/// A command asking the editor to apply edits to one document.
#[derive(Debug, PartialEq, Eq)]
pub struct ApplyEdit {
    pub label: String,
    pub uri: String,
    pub edits: Vec<TextEdit>,
}

/// Turns a batch received from a peer into the command that applies it to
/// the local editor: one edit per entry, in order, an entry without a range
/// replacing the whole document.
pub fn change_event_to_workspace_edit(event: &ChangeBatch) -> (r: ApplyEdit)
    ensures
        r.label@ == "remote editor"@,
        r.uri == event.uri,
        r.edits@.len() == event.content_changes@.len(),
        forall|i: int|
            0 <= i < r.edits@.len() ==> (#[trigger] r.edits@[i]).range
                == event.content_changes@[i].target() && r.edits@[i].new_text
                == event.content_changes@[i].text,
{
    let mut edits: Vec<TextEdit> = Vec::new();
    let mut k: usize = 0;
    while k < event.content_changes.len()
        invariant
            k <= event.content_changes@.len(),
            edits@.len() == k,
            forall|i: int|
                0 <= i < k ==> (#[trigger] edits@[i]).range == event.content_changes@[i].target()
                    && edits@[i].new_text == event.content_changes@[i].text,
        decreases event.content_changes@.len() - k,
    {
        let entry = &event.content_changes[k];
        let range = match entry.range {
            Some(r) => r,
            None => whole_document_range(),
        };
        edits.push(TextEdit { range, new_text: entry.text.clone() });
        k += 1;
    }
    ApplyEdit { label: String::from_str("remote editor"), uri: event.uri.clone(), edits }
}

/// The message announcing a locally made batch, or `None` when the batch is
/// empty and there is nothing to announce.
pub fn outgoing_change(batch: ChangeBatch, id: u128, trace_context: Vec<(String, String)>) -> (r:
    Option<Change>)
    ensures
        batch.content_changes@.len() == 0 ==> r is None,
        batch.content_changes@.len() > 0 ==> r == Some(
            Change { id, change: batch, trace_context },
        ),
{
    if batch.content_changes.len() == 0 {
        None
    } else {
        Some(Change { id, change: batch, trace_context })
    }
}

/// The state of one bridge: the echoes it expects from its editor.
pub struct Bridge {
    pool: EchoPool,
}

impl Bridge {
    pub fn new() -> (r: Self)
        ensures
            r.pending() == Seq::<PendingEcho>::empty(),
    {
        Bridge { pool: EchoPool::new() }
    }

    /// The echoes this bridge expects, oldest first.
    pub closed spec fn pending(&self) -> Seq<PendingEcho> {
        self.pool@
    }

    pub fn pool(&self) -> (r: &EchoPool)
        ensures
            r@ == self.pending(),
    {
        &self.pool
    }

    /// Handles a batch reported by the local editor at time `now`: stale
    /// echoes are dropped, the entries that are echoes of remote edits are
    /// suppressed, and the rest, if any, becomes a message under a fresh
    /// identifier and the given trace context.
    pub fn on_local_change(
        &mut self,
        batch: &ChangeBatch,
        now: u64,
        trace_context: Vec<(String, String)>,
    ) -> (r: Option<Change>)
        ensures
            ({
                let s = screen(live(old(self).pending(), now), batch.uri@, batch.content_changes@, now);
                &&& final(self).pending() == s.0
                &&& (r is Some <==> s.1.len() > 0)
                &&& r matches Some(c) ==> c.change.uri == batch.uri && c.change.version
                    == batch.version && c.change.content_changes@ == s.1 && c.trace_context
                    == trace_context
            }),
    {
        let kept = self.pool.suppress_echoes(batch, now);
        outgoing_change(kept, new_message_id(), trace_context)
    }

    /// Handles a change received from a peer at time `now`: its entries are
    /// recorded as expected echoes before the command that applies them is
    /// handed back.
    pub fn on_remote_change(&mut self, change: &Change, now: u64) -> (r: ApplyEdit)
        ensures
            final(self).pending() == old(self).pending() + expected_echoes(change.change, now),
            r.label@ == "remote editor"@,
            r.uri == change.change.uri,
            r.edits@.len() == change.change.content_changes@.len(),
            forall|i: int|
                0 <= i < r.edits@.len() ==> (#[trigger] r.edits@[i]).range
                    == change.change.content_changes@[i].target() && r.edits@[i].new_text
                    == change.change.content_changes@[i].text,
    {
        self.pool.expect_echoes(&change.change, now);
        change_event_to_workspace_edit(&change.change)
    }
}

} // verus!
