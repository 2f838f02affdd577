//! Endpoints, registry ids and the choice of an IPv4 address among the
//! candidates that name resolution returned.

use vstd::prelude::*;

verus! {

/// The id under which a socket is registered with the readiness multiplexer.
#[derive(Copy, Clone, Eq, PartialEq, Debug, Structural)]
pub struct Token(pub u64);

/// The id of the listening TCP socket.
pub const TCP_SERVER: u64 = 0;

/// The id of the listening UDP socket.
pub const UDP_SERVER: u64 = 1;

/// The first id handed to a connection or a session.
pub const FIRST_DYNAMIC: u64 = 2;

/// An IPv4 address and a port.
///
/// `ip` holds the four octets most significant first, so `127.0.0.1` is
/// `0x7f00_0001`.
#[derive(Copy, Clone, Eq, PartialEq, Debug, Structural)]
pub struct Endpoint {
    pub ip: u32,
    pub port: u16,
}

impl Endpoint {
    /// The address made of four octets and a port, as an integer pair.
    pub open spec fn of(a: u8, b: u8, c: u8, d: u8, port: u16) -> Endpoint {
        Endpoint { ip: (a * 0x100_0000 + b * 0x1_0000 + c * 0x100 + d) as u32, port }
    }

    /// The four octets of the address, most significant first.
    pub open spec fn spec_octets(self) -> (u8, u8, u8, u8) {
        (
            (self.ip / 0x100_0000) as u8,
            (self.ip / 0x1_0000 % 0x100) as u8,
            (self.ip / 0x100 % 0x100) as u8,
            (self.ip % 0x100) as u8,
        )
    }

    /// The integer that stands for this endpoint in a table: the address in
    /// the upper bits, the port in the lower sixteen.
    pub open spec fn spec_key(self) -> u64 {
        (self.ip * 0x1_0000 + self.port) as u64
    }

    /// The endpoint that a key stands for.
    pub open spec fn spec_from_key(key: u64) -> Endpoint {
        Endpoint { ip: (key / 0x1_0000 % 0x1_0000_0000) as u32, port: (key % 0x1_0000) as u16 }
    }

    pub fn new(a: u8, b: u8, c: u8, d: u8, port: u16) -> (e: Endpoint)
        ensures
            e == Endpoint::of(a, b, c, d, port),
            e.spec_octets() == (a, b, c, d),
            e.port == port,
    {
        let ip: u32 = (a as u32) * 0x100_0000 + (b as u32) * 0x1_0000 + (c as u32) * 0x100 + (
        d as u32);
        Endpoint { ip, port }
    }

    /// The wildcard address `0.0.0.0` with port 0, which lets the system pick
    /// the port of a new socket.
    pub open spec fn unspecified() -> Endpoint {
        Endpoint { ip: 0, port: 0 }
    }

    pub fn any() -> (e: Endpoint)
        ensures
            e == Endpoint::unspecified(),
    {
        Endpoint { ip: 0, port: 0 }
    }

    pub fn octets(&self) -> (o: (u8, u8, u8, u8))
        ensures
            o == self.spec_octets(),
            Endpoint::of(o.0, o.1, o.2, o.3, self.port) == *self,
    {
        (
            (self.ip / 0x100_0000) as u8,
            (self.ip / 0x1_0000 % 0x100) as u8,
            (self.ip / 0x100 % 0x100) as u8,
            (self.ip % 0x100) as u8,
        )
    }

    pub fn key(&self) -> (k: u64)
        ensures
            k == self.spec_key(),
            k < 0x1_0000_0000_0000,
            Endpoint::spec_from_key(k) == *self,
    {
        (self.ip as u64) * 0x1_0000 + (self.port as u64)
    }

    pub fn from_key(key: u64) -> (e: Endpoint)
        ensures
            e == Endpoint::spec_from_key(key),
            key < 0x1_0000_0000_0000 ==> e.spec_key() == key,
    {
        Endpoint { ip: (key / 0x1_0000 % 0x1_0000_0000) as u32, port: (key % 0x1_0000) as u16 }
    }

    /// Distinct endpoints have distinct keys, and every key is below 2^48.
    pub proof fn lemma_key_injective(self, other: Endpoint)
        ensures
            self.spec_key() < 0x1_0000_0000_0000,
            Endpoint::spec_from_key(self.spec_key()) == self,
            self.spec_key() == other.spec_key() <==> self == other,
    {
    }
}

/// One address that name resolution returned.
#[derive(Copy, Clone, Eq, PartialEq, Debug, Structural)]
pub enum Resolved {
    V4(Endpoint),
    V6,
}

/// Why a text did not give an endpoint.
#[derive(Copy, Clone, Eq, PartialEq, Debug, Structural)]
pub enum ResolveError {
    /// The lookup itself failed.
    LookupFailed,
    /// The lookup gave addresses, none of them IPv4.
    NoIpv4,
}

/// The first IPv4 endpoint among `candidates`, if there is one.
pub open spec fn first_ipv4(candidates: Seq<Resolved>) -> Option<Endpoint>
    decreases candidates.len(),
{
    if candidates.len() == 0 {
        None
    } else {
        match candidates[0] {
            Resolved::V4(e) => Some(e),
            Resolved::V6 => first_ipv4(candidates.drop_first()),
        }
    }
}

/// What resolving a text yields, given what the lookup returned: `None` for
/// a lookup that failed, else its candidates in order.
pub open spec fn resolution(lookup: Option<Seq<Resolved>>) -> Result<Endpoint, ResolveError> {
    match lookup {
        None => Err(ResolveError::LookupFailed),
        Some(candidates) => match first_ipv4(candidates) {
            Some(e) => Ok(e),
            None => Err(ResolveError::NoIpv4),
        },
    }
}

/// The position of the first IPv4 candidate is where `first_ipv4` found its
/// answer: everything before it is not IPv4.
pub proof fn lemma_first_ipv4(candidates: Seq<Resolved>)
    ensures
        match first_ipv4(candidates) {
            Some(e) => exists|i: int|
                0 <= i < candidates.len() && candidates[i] == Resolved::V4(e) && forall|j: int|
                    0 <= j < i ==> candidates[j] == Resolved::V6,
            None => forall|j: int| 0 <= j < candidates.len() ==> candidates[j] == Resolved::V6,
        },
    decreases candidates.len(),
{
    if candidates.len() > 0 {
        match candidates[0] {
            Resolved::V4(e) => {
                assert(candidates[0] == Resolved::V4(e));
            },
            Resolved::V6 => {
                let rest = candidates.drop_first();
                lemma_first_ipv4(rest);
                match first_ipv4(rest) {
                    Some(e) => {
                        let i = choose|i: int|
                            0 <= i < rest.len() && rest[i] == Resolved::V4(e) && forall|j: int|
                                0 <= j < i ==> rest[j] == Resolved::V6;
                        assert(candidates[i + 1] == rest[i]);
                        assert forall|j: int| 0 <= j < i + 1 implies candidates[j]
                            == Resolved::V6 by {
                            if j > 0 {
                                assert(candidates[j] == rest[j - 1]);
                            }
                        }
                    },
                    None => {
                        assert forall|j: int| 0 <= j < candidates.len() implies candidates[j]
                            == Resolved::V6 by {
                            if j > 0 {
                                assert(candidates[j] == rest[j - 1]);
                            }
                        }
                    },
                }
            },
        }
    }
}

/// Picks the endpoint to use from what name resolution returned: the first
/// IPv4 candidate. `lookup` is `None` when the lookup failed.
pub fn get_ipv4_socket_addr(lookup: Option<Vec<Resolved>>) -> (r: Result<Endpoint, ResolveError>)
    ensures
        r == resolution(
            match lookup {
                Some(v) => Some(v@),
                None => None,
            },
        ),
{
    match lookup {
        None => Err(ResolveError::LookupFailed),
        Some(candidates) => {
            let mut i: usize = 0;
            assert(candidates@.skip(0) == candidates@);
            while i < candidates.len()
                invariant
                    lookup == Some(candidates),
                    i <= candidates.len(),
                    first_ipv4(candidates@) == first_ipv4(candidates@.skip(i as int)),
                decreases candidates.len() - i,
            {
                assert(candidates@.skip(i as int)[0] == candidates@[i as int]);
                match candidates[i] {
                    Resolved::V4(e) => {
                        return Ok(e);
                    },
                    Resolved::V6 => {
                        assert(candidates@.skip(i as int).drop_first() == candidates@.skip(
                            i as int + 1,
                        ));
                    },
                }
                i += 1;
            }
            Err(ResolveError::NoIpv4)
        },
    }
}

} // verus!
