//! The relay's registry of connected bridges and its fan-out rule.

use crate::messages::{ClientMessage, ServerMessage};
use vstd::prelude::*;

verus! {

/// A connected bridge: its address and the number given to it.
#[derive(Debug, PartialEq, Eq)]
pub struct Connection {
    pub addr: String,
    pub id: u32,
}

impl Clone for Connection {
    fn clone(&self) -> (r: Self)
        ensures
            r == *self,
    {
        Connection { addr: self.addr.clone(), id: self.id }
    }
}

/// Holds of a connection that is not at address `addr`.
pub open spec fn elsewhere(addr: Seq<char>) -> spec_fn(Connection) -> bool {
    |c: Connection| c.addr@ != addr
}

/// `s` without the connection at address `addr`, in order.
pub open spec fn without(s: Seq<Connection>, addr: Seq<char>) -> Seq<Connection> {
    s.filter(elsewhere(addr))
}

/// No address occurs twice in `s`.
pub open spec fn distinct_addrs(s: Seq<Connection>) -> bool {
    forall|i: int, j: int| 0 <= i < j < s.len() ==> s[i].addr@ != s[j].addr@
}

/// Some connection of `s` has address `addr`.
pub open spec fn has_addr(s: Seq<Connection>, addr: Seq<char>) -> bool {
    exists|i: int| 0 <= i < s.len() && s[i].addr@ == addr
}

/// What the relay does with one inbound message: the message to send and
/// the addresses to send it to.
#[derive(Debug, PartialEq, Eq)]
pub struct Broadcast {
    pub message: ServerMessage,
    pub recipients: Vec<String>,
}

/// The relay's registry of live connections, keyed by address.
pub struct ConnectionRegistry {
    connections: Vec<Connection>,
    last_id: u32,
}

fn without_addr(s: &Vec<Connection>, addr: &String) -> (r: Vec<Connection>)
    ensures
        r@ == without(s@, addr@),
{
    let mut kept: Vec<Connection> = Vec::new();
    let mut i: usize = 0;
    while i < s.len()
        invariant
            i <= s@.len(),
            kept@ == without(s@.take(i as int), addr@),
        decreases s@.len() - i,
    {
        if s[i].addr != *addr {
            kept.push(s[i].clone());
        }
        proof {
            reveal(Seq::filter);
            assert(s@.take(i + 1).drop_last() =~= s@.take(i as int));
            assert(s@.take(i + 1).last() == s@[i as int]);
        }
        i += 1;
    }
    assert(s@.take(s@.len() as int) =~= s@);
    kept
}

proof fn lemma_without_from(s: Seq<Connection>, addr: Seq<char>, i: int)
    requires
        0 <= i < without(s, addr).len(),
    ensures
        exists|k: int| 0 <= k < s.len() && s[k] == without(s, addr)[i],
{
    let f = without(s, addr);
    assert(f.contains(f[i]));
    s.lemma_filter_contains_rev(elsewhere(addr), f[i]);
}

proof fn lemma_without_keeps_distinct(s: Seq<Connection>, addr: Seq<char>)
    requires
        distinct_addrs(s),
    ensures
        distinct_addrs(without(s, addr)),
        !has_addr(without(s, addr), addr),
    decreases s.len(),
{
    reveal(Seq::filter);
    let f = without(s, addr);
    if s.len() > 0 {
        let p = s.drop_last();
        assert(distinct_addrs(p));
        lemma_without_keeps_distinct(p, addr);
        let fp = without(p, addr);
        if s.last().addr@ != addr {
            assert forall|i: int, j: int| 0 <= i < j < f.len() implies f[i].addr@ != f[j].addr@ by {
                if j == f.len() - 1 {
                    lemma_without_from(p, addr, i);
                    let k = choose|k: int| 0 <= k < p.len() && p[k] == fp[i];
                    assert(s[k] == f[i]);
                }
            }
        }
    }
}

proof fn lemma_without_drops_one(s: Seq<Connection>, addr: Seq<char>)
    requires
        distinct_addrs(s),
        has_addr(s, addr),
    ensures
        without(s, addr).len() == s.len() - 1,
    decreases s.len(),
{
    reveal(Seq::filter);
    let p = s.drop_last();
    assert(distinct_addrs(p));
    if s.last().addr@ == addr {
        assert forall|i: int| 0 <= i < p.len() implies p[i].addr@ != addr by {
            assert(s[i].addr@ != s[s.len() - 1].addr@);
        }
        lemma_without_all_kept(p, addr);
    } else {
        let i = choose|i: int| 0 <= i < s.len() && s[i].addr@ == addr;
        assert(p[i].addr@ == addr);
        lemma_without_drops_one(p, addr);
    }
}

proof fn lemma_without_all_kept(s: Seq<Connection>, addr: Seq<char>)
    requires
        forall|i: int| 0 <= i < s.len() ==> s[i].addr@ != addr,
    ensures
        without(s, addr) == s,
    decreases s.len(),
{
    reveal(Seq::filter);
    if s.len() > 0 {
        lemma_without_all_kept(s.drop_last(), addr);
        assert(s.drop_last().push(s.last()) =~= s);
    }
}

impl ConnectionRegistry {
    /// The live connections, oldest first.
    pub closed spec fn connections(&self) -> Seq<Connection> {
        self.connections@
    }

    /// The number given to the latest connection; 0 before the first.
    pub closed spec fn last_id(&self) -> u32 {
        self.last_id
    }

    /// Addresses are unique and no connection has a number above the last
    /// one given.
    pub open spec fn wf(&self) -> bool {
        &&& distinct_addrs(self.connections())
        &&& forall|i: int|
            0 <= i < self.connections().len() ==> #[trigger] self.connections()[i].id
                <= self.last_id()
    }

    /// A change sent by a connected bridge is relayed to each of the other
    /// connected bridges once, and never back to its sender: with `n`
    /// bridges connected, there are exactly `n - 1` recipients.
    pub proof fn lemma_relay_excludes_sender(&self, from: Seq<char>)
        requires
            self.wf(),
            has_addr(self.connections(), from),
        ensures
            without(self.connections(), from).len() == self.connections().len() - 1,
            forall|i: int|
                0 <= i < without(self.connections(), from).len() ==> without(
                    self.connections(),
                    from,
                )[i].addr@ != from,
            distinct_addrs(without(self.connections(), from)),
    {
        let s = self.connections();
        lemma_without_drops_one(s, from);
        lemma_without_keeps_distinct(s, from);
        assert forall|i: int| 0 <= i < without(s, from).len() implies without(s, from)[i].addr@
            != from by {
            if without(s, from)[i].addr@ == from {
                assert(has_addr(without(s, from), from));
            }
        }
    }

    pub fn new() -> (r: Self)
        ensures
            r.wf(),
            r.connections() == Seq::<Connection>::empty(),
            r.last_id() == 0,
    {
        ConnectionRegistry { connections: Vec::new(), last_id: 0 }
    }

    pub fn len(&self) -> (r: usize)
        ensures
            r == self.connections().len(),
    {
        self.connections.len()
    }

    /// Registers a new connection at `addr` under the next number, counting
    /// from 1; a connection already at `addr` is replaced.  Gives the number,
    /// or `None`, leaving the registry as it was, once all numbers are used.
    pub fn accept(&mut self, addr: String) -> (r: Option<u32>)
        requires
            old(self).wf(),
        ensures
            final(self).wf(),
            old(self).last_id() == u32::MAX ==> r is None && final(self).connections() == old(
                self,
            ).connections() && final(self).last_id() == old(self).last_id(),
            old(self).last_id() < u32::MAX ==> r == Some((old(self).last_id() + 1) as u32)
                && final(self).last_id() == old(self).last_id() + 1 && final(self).connections()
                == without(old(self).connections(), addr@).push(
                Connection { addr, id: (old(self).last_id() + 1) as u32 },
            ),
    {
        if self.last_id == u32::MAX {
            return None;
        }
        let id = self.last_id + 1;
        let mut kept = without_addr(&self.connections, &addr);
        proof {
            lemma_without_keeps_distinct(self.connections@, addr@);
        }
        let ghost fresh = Connection { addr, id };
        kept.push(Connection { addr, id });
        proof {
            let w = without(self.connections@, addr@);
            assert forall|i: int| 0 <= i < kept@.len() implies #[trigger] kept@[i].id <= id by {
                if i < w.len() {
                    lemma_without_from(self.connections@, addr@, i);
                    let k = choose|k: int|
                        0 <= k < self.connections@.len() && self.connections@[k] == w[i];
                    assert(self.connections@[k].id <= self.last_id);
                }
            }
            assert forall|i: int, j: int| 0 <= i < j < kept@.len() implies kept@[i].addr@
                != kept@[j].addr@ by {
                if j == kept@.len() - 1 {
                    assert(!has_addr(w, addr@));
                    assert(w[i].addr@ != addr@);
                }
            }
        }
        self.connections = kept;
        self.last_id = id;
        Some(id)
    }

    /// Forgets the connection at `addr`; nothing happens if there is none.
    pub fn remove(&mut self, addr: &String)
        requires
            old(self).wf(),
        ensures
            final(self).wf(),
            final(self).connections() == without(old(self).connections(), addr@),
            final(self).last_id() == old(self).last_id(),
    {
        let kept = without_addr(&self.connections, addr);
        proof {
            lemma_without_keeps_distinct(self.connections@, addr@);
            let w = without(self.connections@, addr@);
            assert forall|i: int| 0 <= i < w.len() implies #[trigger] w[i].id <= self.last_id by {
                lemma_without_from(self.connections@, addr@, i);
                let k = choose|k: int|
                    0 <= k < self.connections@.len() && self.connections@[k] == w[i];
            }
        }
        self.connections = kept;
    }

    /// The addresses of every connection but the one at `from`, oldest first.
    pub fn recipients(&self, from: &String) -> (r: Vec<String>)
        ensures
            r@.len() == without(self.connections(), from@).len(),
            forall|i: int|
                0 <= i < r@.len() ==> #[trigger] r@[i] == without(self.connections(), from@)[i].addr,
    {
        let others = without_addr(&self.connections, from);
        let mut addrs: Vec<String> = Vec::new();
        let mut i: usize = 0;
        while i < others.len()
            invariant
                i <= others@.len(),
                others@ == without(self.connections(), from@),
                addrs@.len() == i,
                forall|k: int| 0 <= k < i ==> #[trigger] addrs@[k] == others@[k].addr,
            decreases others@.len() - i,
        {
            addrs.push(others[i].addr.clone());
            i += 1;
        }
        addrs
    }

    /// Plans the relay of one message from the bridge at `from`: a change is
    /// passed on unchanged to every other connected bridge; an
    /// acknowledgement is not relayed.
    pub fn on_message(&self, from: &String, msg: ClientMessage) -> (r: Option<Broadcast>)
        ensures
            msg is AcknowledgeChange ==> r is None,
            msg matches ClientMessage::Common(c) ==> r matches Some(b) && b.message
                == ServerMessage::Common(c) && b.recipients@.len() == without(
                self.connections(),
                from@,
            ).len() && forall|i: int|
                0 <= i < b.recipients@.len() ==> #[trigger] b.recipients@[i] == without(
                    self.connections(),
                    from@,
                )[i].addr,
    {
        match msg {
            ClientMessage::AcknowledgeChange(_) => None,
            ClientMessage::Common(c) => Some(
                Broadcast { message: ServerMessage::Common(c), recipients: self.recipients(from) },
            ),
        }
    }
}

} // verus!
