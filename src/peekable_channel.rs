//! A channel receiver that can look at the next message without taking it.

use std::sync::mpsc::{Receiver, RecvError, TryRecvError};
use vstd::prelude::*;

verus! {

#[verifier::external_type_specification]
#[verifier::external_body]
#[verifier::reject_recursive_types(T)]
pub struct ExReceiver<T>(Receiver<T>);

#[verifier::external_type_specification]
pub struct ExTryRecvError(TryRecvError);

#[verifier::external_type_specification]
pub struct ExRecvError(RecvError);

/// Relies on `Receiver::try_recv`: takes a waiting message without blocking,
/// or tells whether the channel is merely empty or has lost all its senders.
#[verifier::external_body]
fn channel_try_recv<T>(inner: &Receiver<T>) -> (r: Result<T, TryRecvError>) {
    inner.try_recv()
}

/// A receiver with a one-message look-ahead slot.
#[verifier::reject_recursive_types(T)]
pub struct PeekableReceiver<T> {
    inner: Receiver<T>,
    next: Option<T>,
}

impl<T> PeekableReceiver<T> {
    /// The message held back by the last peek, if any.
    pub closed spec fn peeked(&self) -> Option<T> {
        self.next
    }

    /// The channel this receiver reads from.
    pub closed spec fn channel(&self) -> Receiver<T> {
        self.inner
    }

    /// Looks at the next message without consuming it.
    ///
    /// A message already held back is returned again; otherwise one is taken
    /// from the channel, if any is waiting, and held back.  A disconnected and
    /// drained channel is an error.
    pub fn try_recv_peek(&mut self) -> (r: Result<Option<&T>, RecvError>)
        ensures
            final(self).channel() == old(self).channel(),
            old(self).peeked() is Some ==> r is Ok && final(self).peeked() == old(self).peeked(),
            r matches Ok(o) ==> (o is Some <==> final(self).peeked() is Some),
            r matches Ok(Some(v)) ==> *v == final(self).peeked()->Some_0,
            r is Err ==> final(self).peeked() is None && old(self).peeked() is None,
    {
        if self.next.is_some() {
            Ok(self.next.as_ref())
        } else {
            self.next = match channel_try_recv(&self.inner) {
                Ok(next) => Some(next),
                Err(TryRecvError::Empty) => None,
                Err(TryRecvError::Disconnected) => {
                    return Err(RecvError);
                },
            };
            Ok(self.next.as_ref())
        }
    }

    /// Takes the next message: the one held back by a peek if there is one,
    /// else one from the channel.
    pub fn try_recv(&mut self) -> (r: Result<T, TryRecvError>)
        ensures
            final(self).channel() == old(self).channel(),
            final(self).peeked() is None,
            old(self).peeked() is Some ==> r == Ok::<T, TryRecvError>(old(self).peeked()->Some_0),
    {
        match self.next.take() {
            Some(next) => Ok(next),
            None => channel_try_recv(&self.inner),
        }
    }
}

impl<T> From<Receiver<T>> for PeekableReceiver<T> {
    fn from(inner: Receiver<T>) -> (r: Self) {
        PeekableReceiver { inner, next: None }
    }
}

impl<T> vstd::std_specs::convert::FromSpecImpl<Receiver<T>> for PeekableReceiver<T> {
    open spec fn obeys_from_spec() -> bool {
        true
    }

    closed spec fn from_spec(inner: Receiver<T>) -> Self {
        PeekableReceiver { inner, next: None }
    }
}

} // verus!
