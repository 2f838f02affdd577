//! The UDP session table: one session per client address, found either by
//! the session's id or by the client's address.

use crate::endpoint::{Endpoint, Token};
use multi_map::MultiMap;
use vstd::prelude::*;

verus! {

/// `multi_map::MultiMap`, a hash map whose entries can be found by either of
/// two keys. Nothing inside a value is visible to the verifier.
#[verifier::external_type_specification]
#[verifier::external_body]
#[verifier::reject_recursive_types(K1)]
#[verifier::reject_recursive_types(K2)]
#[verifier::reject_recursive_types(V)]
pub struct ExMultiMap<K1: Eq + core::hash::Hash, K2: Eq + core::hash::Hash, V>(
    multi_map::MultiMap<K1, K2, V>,
);

/// What a `MultiMap` holds under its primary keys: for each, the alternate
/// key it was inserted with and the value.
pub uninterp spec fn primary_entries(m: MultiMap<u64, u64, (u64, u64)>) -> Map<
    u64,
    (u64, (u64, u64)),
>;

/// What a `MultiMap` holds under its alternate keys: for each, the primary
/// key it was last inserted with.
pub uninterp spec fn alternate_entries(m: MultiMap<u64, u64, (u64, u64)>) -> Map<u64, u64>;

/// `MultiMap::with_capacity`: a map that holds nothing under either kind of
/// key.
#[verifier::external_body]
fn multimap_with_capacity(capacity: usize) -> (m: MultiMap<u64, u64, (u64, u64)>)
    ensures
        forall|k: u64| !primary_entries(m).contains_key(k),
        forall|k: u64| !alternate_entries(m).contains_key(k),
{
    MultiMap::with_capacity(capacity)
}

/// `MultiMap::insert`: the alternate key now leads to the primary key, and
/// the primary key to the alternate key and the value. Entries under other
/// keys stay as they were, also an alternate key that led to the same
/// primary key before.
#[verifier::external_body]
fn multimap_insert(
    m: &mut MultiMap<u64, u64, (u64, u64)>,
    key_one: u64,
    key_two: u64,
    value: (u64, u64),
)
    ensures
        alternate_entries(*final(m)) == alternate_entries(*old(m)).insert(key_two, key_one),
        primary_entries(*final(m)) == primary_entries(*old(m)).insert(key_one, (key_two, value)),
{
    m.insert(key_one, key_two, value)
}

/// `MultiMap::get`: the value under a primary key, if the key is there.
#[verifier::external_body]
fn multimap_get(m: &MultiMap<u64, u64, (u64, u64)>, key: u64) -> (r: Option<(u64, u64)>)
    ensures
        r == (if primary_entries(*m).contains_key(key) {
            Some(primary_entries(*m)[key].1)
        } else {
            None
        }),
{
    m.get(&key).copied()
}

/// `MultiMap::contains_key_alt`: whether an alternate key is there.
#[verifier::external_body]
fn multimap_contains_key_alt(m: &MultiMap<u64, u64, (u64, u64)>, key: u64) -> (r: bool)
    ensures
        r == alternate_entries(*m).contains_key(key),
{
    m.contains_key_alt(&key)
}

/// `MultiMap::get_alt`: the value under the primary key that an alternate key
/// leads to, if the alternate key is there and that primary key is too.
#[verifier::external_body]
fn multimap_get_alt(m: &MultiMap<u64, u64, (u64, u64)>, key: u64) -> (r: Option<(u64, u64)>)
    ensures
        r == (if alternate_entries(*m).contains_key(key) && primary_entries(*m).contains_key(
            alternate_entries(*m)[key],
        ) {
            Some(primary_entries(*m)[alternate_entries(*m)[key]].1)
        } else {
            None
        }),
{
    m.get_alt(&key).copied()
}

/// A relay-side UDP session: the socket that talks to the target on behalf of
/// one client, named by its id, and the address of that client.
#[derive(Copy, Clone, Eq, PartialEq, Debug, Structural)]
pub struct UdpSession {
    pub socket: Token,
    pub addr: Endpoint,
}

/// The number of sessions the table is sized for at first.
pub const INITIAL_SESSIONS: usize = 32;

/// The sessions of one engine, found by id or by client address.
pub struct SessionTable {
    entries: MultiMap<u64, u64, (u64, u64)>,
}

impl SessionTable {
    /// The client address of each session, by session id.
    pub closed spec fn by_id(&self) -> Map<u64, Endpoint> {
        Map::new(
            |id: u64| primary_entries(self.entries).contains_key(id),
            |id: u64| Endpoint::spec_from_key(primary_entries(self.entries)[id].0),
        )
    }

    /// The session id of each client address that has a session.
    pub closed spec fn by_client(&self) -> Map<Endpoint, u64> {
        Map::new(
            |c: Endpoint| alternate_entries(self.entries).contains_key(c.spec_key()),
            |c: Endpoint| alternate_entries(self.entries)[c.spec_key()],
        )
    }

    /// Every entry is stored under a session id and under the key of its
    /// client address, and the two lookups agree.
    pub closed spec fn wf(&self) -> bool {
        &&& forall|id: u64| #[trigger]
            primary_entries(self.entries).contains_key(id) ==> {
                let e = primary_entries(self.entries)[id];
                &&& e.0 < 0x1_0000_0000_0000
                &&& e.1 == (id, e.0)
                &&& alternate_entries(self.entries).contains_key(e.0)
                &&& alternate_entries(self.entries)[e.0] == id
            }
        &&& forall|k: u64| #[trigger]
            alternate_entries(self.entries).contains_key(k) ==> {
                let id = alternate_entries(self.entries)[k];
                &&& primary_entries(self.entries).contains_key(id)
                &&& primary_entries(self.entries)[id].0 == k
            }
    }

    /// The two lookups of a well-formed table are inverse to each other.
    pub proof fn lemma_lookups_agree(&self)
        requires
            self.wf(),
        ensures
            sessions_agree(self.by_id(), self.by_client()),
    {
        assert forall|id: u64| #[trigger] self.by_id().contains_key(id) implies {
            &&& self.by_client().contains_key(self.by_id()[id])
            &&& self.by_client()[self.by_id()[id]] == id
        } by {
            let e = primary_entries(self.entries)[id];
            assert(primary_entries(self.entries).contains_key(id));
            assert(Endpoint::spec_from_key(e.0).spec_key() == e.0);
        }
        assert forall|c: Endpoint| #[trigger] self.by_client().contains_key(c) implies {
            &&& self.by_id().contains_key(self.by_client()[c])
            &&& self.by_id()[self.by_client()[c]] == c
        } by {
            assert(alternate_entries(self.entries).contains_key(c.spec_key()));
            c.lemma_key_injective(c);
        }
    }

    pub fn new() -> (t: SessionTable)
        ensures
            t.wf(),
            t.by_id() == Map::<u64, Endpoint>::empty(),
            t.by_client() == Map::<Endpoint, u64>::empty(),
    {
        let t = SessionTable { entries: multimap_with_capacity(INITIAL_SESSIONS) };
        assert(t.by_id() =~= Map::<u64, Endpoint>::empty());
        assert(t.by_client() =~= Map::<Endpoint, u64>::empty());
        t
    }

    /// Whether `client` has a session.
    pub fn serves(&self, client: Endpoint) -> (r: bool)
        ensures
            r == self.by_client().contains_key(client),
    {
        multimap_contains_key_alt(&self.entries, client.key())
    }

    /// The session of `client`, if it has one.
    pub fn session_of(&self, client: Endpoint) -> (r: Option<UdpSession>)
        requires
            self.wf(),
        ensures
            r == (if self.by_client().contains_key(client) {
                Some(UdpSession { socket: Token(self.by_client()[client]), addr: client })
            } else {
                None
            }),
    {
        let k = client.key();
        match multimap_get_alt(&self.entries, k) {
            Some(v) => {
                assert(alternate_entries(self.entries).contains_key(k));
                Some(UdpSession { socket: Token(v.0), addr: Endpoint::from_key(v.1) })
            },
            None => {
                assert(!alternate_entries(self.entries).contains_key(k)) by {
                    if alternate_entries(self.entries).contains_key(k) {
                        assert(primary_entries(self.entries).contains_key(
                            alternate_entries(self.entries)[k],
                        ));
                    }
                }
                None
            },
        }
    }

    /// The session with the given id, if there is one.
    pub fn session(&self, id: Token) -> (r: Option<UdpSession>)
        requires
            self.wf(),
        ensures
            r == (if self.by_id().contains_key(id.0) {
                Some(UdpSession { socket: id, addr: self.by_id()[id.0] })
            } else {
                None
            }),
    {
        match multimap_get(&self.entries, id.0) {
            Some(v) => {
                assert(primary_entries(self.entries).contains_key(id.0));
                Some(UdpSession { socket: Token(v.0), addr: Endpoint::from_key(v.1) })
            },
            None => None,
        }
    }

    /// Adds a session for `client` under `id`, unless the id or the client
    /// already has one. Returns whether the session was added.
    pub fn insert(&mut self, id: Token, client: Endpoint) -> (added: bool)
        requires
            old(self).wf(),
        ensures
            final(self).wf(),
            added == (!old(self).by_id().contains_key(id.0) && !old(self).by_client().contains_key(
                client,
            )),
            added ==> final(self).by_id() == old(self).by_id().insert(id.0, client),
            added ==> final(self).by_client() == old(self).by_client().insert(client, id.0),
            !added ==> final(self).by_id() == old(self).by_id(),
            !added ==> final(self).by_client() == old(self).by_client(),
    {
        let k = client.key();
        if multimap_get(&self.entries, id.0).is_some() {
            return false;
        }
        if multimap_contains_key_alt(&self.entries, k) {
            return false;
        }
        multimap_insert(&mut self.entries, id.0, k, (id.0, k));
        proof {
            assert(self.by_id() =~= old(self).by_id().insert(id.0, client));
            assert forall|c: Endpoint|
                c.spec_key() == k implies c == client by {
                c.lemma_key_injective(client);
            }
            assert(self.by_client() =~= old(self).by_client().insert(client, id.0));
        }
        true
    }
}

/// The two views of a session table agree: a session's client leads back to
/// the session, and a client's session has that client's address.
pub open spec fn sessions_agree(by_id: Map<u64, Endpoint>, by_client: Map<Endpoint, u64>) -> bool {
    &&& forall|id: u64| #[trigger]
        by_id.contains_key(id) ==> by_client.contains_key(by_id[id]) && by_client[by_id[id]] == id
    &&& forall|c: Endpoint| #[trigger]
        by_client.contains_key(c) ==> by_id.contains_key(by_client[c]) && by_id[by_client[c]] == c
}

} // verus!
