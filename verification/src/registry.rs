//! The registry of TCP connections. Connections come and go in pairs: the
//! socket accepted from a client and the socket dialed to the target.

use crate::endpoint::Token;
use std::collections::HashMap;
use vstd::prelude::*;

verus! {

broadcast use vstd::std_specs::hash::group_hash_axioms;

/// How far a connection has come.
#[derive(Copy, Clone, Eq, PartialEq, Debug, Structural)]
pub enum ConnState {
    /// Dialed to the target; the connect has not been confirmed yet.
    Connecting,
    /// Accepted from a client; waits for its first writable event like the
    /// socket it is paired with.
    WritablePending,
    /// Has seen its first writable event: bytes may be relayed.
    Established,
}

/// One side of a pair: the id of the other side, and how far this side is.
/// The socket itself is with whoever performs the I/O, under this
/// connection's id.
#[derive(Copy, Clone, Eq, PartialEq, Debug, Structural)]
pub struct TcpConnection {
    pub peer: Token,
    pub state: ConnState,
}

/// Every connection's peer is another connection, which names it back.
pub open spec fn paired(conns: Map<u64, TcpConnection>) -> bool {
    forall|id: u64| #[trigger]
        conns.contains_key(id) ==> {
            &&& conns[id].peer.0 != id
            &&& conns.contains_key(conns[id].peer.0)
            &&& conns[conns[id].peer.0].peer.0 == id
        }
}

/// The registry after a client's socket `inbound` and the socket `outbound`
/// dialed for it have been added, neither confirmed writable yet.
pub open spec fn with_pair(conns: Map<u64, TcpConnection>, inbound: u64, outbound: u64) -> Map<
    u64,
    TcpConnection,
> {
    conns.insert(
        inbound,
        TcpConnection { peer: Token(outbound), state: ConnState::WritablePending },
    ).insert(outbound, TcpConnection { peer: Token(inbound), state: ConnState::Connecting })
}

/// The registry after connection `id` has been marked established.
pub open spec fn with_established(conns: Map<u64, TcpConnection>, id: u64) -> Map<
    u64,
    TcpConnection,
> {
    conns.insert(id, TcpConnection { peer: conns[id].peer, state: ConnState::Established })
}

/// The registry after connection `id` and its peer have been removed.
pub open spec fn without_pair(conns: Map<u64, TcpConnection>, id: u64) -> Map<u64, TcpConnection> {
    conns.remove(id).remove(conns[id].peer.0)
}

/// Whether `id` is a connection that has seen its first writable event.
pub open spec fn established(conns: Map<u64, TcpConnection>, id: u64) -> bool {
    conns.contains_key(id) && conns[id].state == ConnState::Established
}

/// Adding a pair of fresh ids keeps every connection paired.
pub proof fn lemma_with_pair(conns: Map<u64, TcpConnection>, inbound: u64, outbound: u64)
    requires
        paired(conns),
        inbound != outbound,
        !conns.contains_key(inbound),
        !conns.contains_key(outbound),
    ensures
        paired(with_pair(conns, inbound, outbound)),
{
    let after = with_pair(conns, inbound, outbound);
    assert forall|id: u64| #[trigger] after.contains_key(id) implies {
        &&& after[id].peer.0 != id
        &&& after.contains_key(after[id].peer.0)
        &&& after[after[id].peer.0].peer.0 == id
    } by {
        if id != inbound && id != outbound {
            assert(conns.contains_key(id));
        }
    }
}

/// Marking a connection established keeps every connection paired.
pub proof fn lemma_with_established(conns: Map<u64, TcpConnection>, id: u64)
    requires
        paired(conns),
        conns.contains_key(id),
    ensures
        paired(with_established(conns, id)),
{
    let after = with_established(conns, id);
    assert forall|k: u64| #[trigger] after.contains_key(k) implies {
        &&& after[k].peer.0 != k
        &&& after.contains_key(after[k].peer.0)
        &&& after[after[k].peer.0].peer.0 == k
    } by {
        assert(conns.contains_key(k));
    }
}

/// Removing a connection together with its peer keeps every remaining
/// connection paired, and removes exactly those two.
pub proof fn lemma_without_pair(conns: Map<u64, TcpConnection>, id: u64)
    requires
        paired(conns),
        conns.contains_key(id),
    ensures
        paired(without_pair(conns, id)),
        forall|k: u64|
            without_pair(conns, id).contains_key(k) <==> conns.contains_key(k) && k != id && k
                != conns[id].peer.0,
        forall|k: u64| #[trigger]
            without_pair(conns, id).contains_key(k) ==> without_pair(conns, id)[k] == conns[k],
{
    let after = without_pair(conns, id);
    let peer = conns[id].peer.0;
    assert forall|k: u64| #[trigger] after.contains_key(k) implies {
        &&& after[k].peer.0 != k
        &&& after.contains_key(after[k].peer.0)
        &&& after[after[k].peer.0].peer.0 == k
    } by {
        assert(conns.contains_key(k));
        assert(conns.contains_key(peer));
    }
}

/// The number of connections the registry is sized for at first.
pub const INITIAL_CONNECTIONS: usize = 32;

/// The TCP connections of one engine, by id.
pub struct PairTable {
    conns: HashMap<u64, TcpConnection>,
}

impl View for PairTable {
    type V = Map<u64, TcpConnection>;

    closed spec fn view(&self) -> Map<u64, TcpConnection> {
        self.conns@
    }
}

impl PairTable {
    /// Every connection in the table has its peer in the table.
    pub open spec fn wf(&self) -> bool {
        paired(self@)
    }

    pub fn new() -> (t: PairTable)
        ensures
            t.wf(),
            t@ == Map::<u64, TcpConnection>::empty(),
    {
        PairTable { conns: HashMap::with_capacity(INITIAL_CONNECTIONS) }
    }

    /// The connection with the given id, if there is one.
    pub fn get(&self, id: Token) -> (r: Option<TcpConnection>)
        ensures
            r == (if self@.contains_key(id.0) {
                Some(self@[id.0])
            } else {
                None
            }),
    {
        match self.conns.get(&id.0) {
            Some(c) => Some(*c),
            None => None,
        }
    }

    /// Adds the pair made of `inbound` and `outbound`, unless the two ids are
    /// the same or one of them is taken. Returns whether the pair was added.
    pub fn open_pair(&mut self, inbound: Token, outbound: Token) -> (added: bool)
        requires
            old(self).wf(),
        ensures
            final(self).wf(),
            added == (inbound != outbound && !old(self)@.contains_key(inbound.0) && !old(
                self,
            )@.contains_key(outbound.0)),
            added ==> final(self)@ == with_pair(old(self)@, inbound.0, outbound.0),
            !added ==> final(self)@ == old(self)@,
    {
        if inbound.0 == outbound.0 || self.conns.contains_key(&inbound.0)
            || self.conns.contains_key(&outbound.0) {
            return false;
        }
        self.conns.insert(
            inbound.0,
            TcpConnection { peer: outbound, state: ConnState::WritablePending },
        );
        self.conns.insert(outbound.0, TcpConnection { peer: inbound, state: ConnState::Connecting });
        proof {
            lemma_with_pair(old(self)@, inbound.0, outbound.0);
        }
        true
    }

    /// Marks connection `id` established. Returns whether there is such a
    /// connection.
    pub fn establish(&mut self, id: Token) -> (found: bool)
        requires
            old(self).wf(),
        ensures
            final(self).wf(),
            found == old(self)@.contains_key(id.0),
            found ==> final(self)@ == with_established(old(self)@, id.0),
            !found ==> final(self)@ == old(self)@,
    {
        match self.get(id) {
            Some(c) => {
                self.conns.insert(
                    id.0,
                    TcpConnection { peer: c.peer, state: ConnState::Established },
                );
                proof {
                    lemma_with_established(old(self)@, id.0);
                }
                true
            },
            None => false,
        }
    }

    /// Removes connection `id` together with its peer, in one step. Returns
    /// the peer's id, or `None` where there is no connection `id`.
    pub fn close_pair(&mut self, id: Token) -> (peer: Option<Token>)
        requires
            old(self).wf(),
        ensures
            final(self).wf(),
            peer == (if old(self)@.contains_key(id.0) {
                Some(old(self)@[id.0].peer)
            } else {
                None
            }),
            peer is Some ==> final(self)@ == without_pair(old(self)@, id.0),
            peer is None ==> final(self)@ == old(self)@,
    {
        match self.get(id) {
            Some(c) => {
                self.conns.remove(&id.0);
                self.conns.remove(&c.peer.0);
                proof {
                    lemma_without_pair(old(self)@, id.0);
                }
                Some(c.peer)
            },
            None => None,
        }
    }
}

} // verus!
