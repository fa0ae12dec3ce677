//! Node identity, network addresses and peers, with their wire codecs.

use vstd::prelude::*;
use crate::codec::{be16, decode_u16, push_u16, u16_bytes, Cursor};
use crate::errors::{Error, Result};
use crate::{FromBytes, ToBytes};

verus! {

broadcast use vstd::array::group_array_axioms;

/// The value of a big-endian 16-bit integer survives a write and a read.
pub proof fn lemma_u16_bytes(n: u16)
    ensures
        u16_bytes(n).len() == 2,
        be16(u16_bytes(n)[0], u16_bytes(n)[1]) == n,
{
}

/// A 128-bit value naming a node for the lifetime of its process.
#[derive(Clone, Copy, Debug, PartialEq, Eq)]
pub struct Identifier {
    pub bytes: [u8; 16],
}

impl View for Identifier {
    type V = Seq<u8>;

    open spec fn view(&self) -> Seq<u8> {
        self.bytes@
    }
}

/// Relies on `uuid::Uuid::new_v4`: a random version-4 UUID, whose byte 6
/// carries the version 4 in its high nibble and byte 8 the variant bits `10`.
#[verifier::external_body]
fn fresh_uuid_bytes() -> (r: [u8; 16])
    ensures
        r[6] / 16 == 4,
        r[8] / 64 == 2,
{
    uuid::Uuid::new_v4().into_bytes()
}

impl Identifier {
    pub fn from_bytes(bytes: [u8; 16]) -> (r: Identifier)
        ensures
            r.bytes == bytes,
    {
        Identifier { bytes }
    }

    /// A fresh random identifier, made once when a node starts.
    pub fn random() -> (r: Identifier)
        ensures
            r@[6] / 16 == 4,
            r@[8] / 64 == 2,
    {
        Identifier { bytes: fresh_uuid_bytes() }
    }

    /// Exact equality of two identifiers.
    pub fn same(&self, other: &Identifier) -> (r: bool)
        ensures
            r == (*self == *other),
            r == (self@ == other@),
    {
        let mut i: usize = 0;
        while i < 16
            invariant
                i <= 16,
                self.bytes@.len() == 16,
                other.bytes@.len() == 16,
                forall|j: int| 0 <= j < i ==> self.bytes@[j] == other.bytes@[j],
            decreases 16 - i,
        {
            if self.bytes[i] != other.bytes[i] {
                assert(self.bytes@[i as int] != other.bytes@[i as int]);
                return false;
            }
            i = i + 1;
        }
        assert(self.bytes =~= other.bytes);
        true
    }

    /// Reads the 16 raw bytes of an identifier.
    pub fn decode(bytes: &mut Cursor) -> (r: Result<Identifier>)
        requires
            old(bytes).wf(),
        ensures
            final(bytes).wf(),
            final(bytes).bytes@ == old(bytes).bytes@,
            match r {
                Ok(id) => old(bytes).rest().len() >= 16 && id@ == old(bytes).rest().take(16)
                    && final(bytes).pos == old(bytes).pos + 16,
                Err(e) => old(bytes).rest().len() < 16 && e == Error::MessageEnded,
            },
    {
        let v = match bytes.take(16) {
            Ok(v) => v,
            Err(e) => return Err(e),
        };
        let a: [u8; 16] = [
            v[0], v[1], v[2], v[3], v[4], v[5], v[6], v[7],
            v[8], v[9], v[10], v[11], v[12], v[13], v[14], v[15],
        ];
        assert(a@ =~= v@);
        Ok(Identifier { bytes: a })
    }

    /// Appends the 16 raw bytes.
    pub fn push_to(&self, out: &mut Vec<u8>)
        ensures
            final(out)@ == old(out)@ + self@,
    {
        let ghost start = out@;
        let mut i: usize = 0;
        while i < 16
            invariant
                i <= 16,
                out@ == start + self@.take(i as int),
            decreases 16 - i,
        {
            out.push(self.bytes[i]);
            i = i + 1;
            assert(out@ =~= start + self@.take(i as int));
        }
        assert(self@.take(16) =~= self@);
    }
}

/// A network address: IPv4 or IPv6 octets and a port.
#[derive(Clone, Copy, Debug, PartialEq, Eq)]
#[allow(inconsistent_fields)]
pub enum Address {
    V4 { octets: [u8; 4], port: u16 },
    V6 { octets: [u8; 16], port: u16 },
}

/// The model of an address: its octets and port.
pub enum AddressView {
    V4(Seq<u8>, u16),
    V6(Seq<u8>, u16),
}

impl View for Address {
    type V = AddressView;

    open spec fn view(&self) -> AddressView {
        match *self {
            Address::V4 { octets, port } => AddressView::V4(octets@, port),
            Address::V6 { octets, port } => AddressView::V6(octets@, port),
        }
    }
}

/// An address as written: a tag (0 for IPv4, 1 for IPv6), the octets and
/// the big-endian port.
pub open spec fn address_bytes(a: AddressView) -> Seq<u8> {
    match a {
        AddressView::V4(o, p) => seq![0u8] + o + u16_bytes(p),
        AddressView::V6(o, p) => seq![1u8] + o + u16_bytes(p),
    }
}

/// Reading an address: the tag picks the octet count.
pub open spec fn parse_address(s: Seq<u8>) -> Result<(AddressView, int)> {
    if s.len() == 0 {
        Err(Error::MessageEnded)
    } else if s[0] == 0 {
        if s.len() < 7 {
            Err(Error::MessageEnded)
        } else {
            Ok((AddressView::V4(s.subrange(1, 5), be16(s[5], s[6])), 7))
        }
    } else if s[0] == 1 {
        if s.len() < 19 {
            Err(Error::MessageEnded)
        } else {
            Ok((AddressView::V6(s.subrange(1, 17), be16(s[17], s[18])), 19))
        }
    } else {
        Err(Error::UnknownAddressType(s[0]))
    }
}

impl Address {
    /// Reads a tagged address.
    pub fn decode(bytes: &mut Cursor) -> (r: Result<Address>)
        requires
            old(bytes).wf(),
        ensures
            final(bytes).wf(),
            final(bytes).bytes@ == old(bytes).bytes@,
            match r {
                Ok(a) => parse_address(old(bytes).rest()) == Ok::<(AddressView, int), Error>(
                    (a@, final(bytes).pos - old(bytes).pos),
                ),
                Err(e) => parse_address(old(bytes).rest()) == Err::<(AddressView, int), Error>(
                    e,
                ),
            },
    {
        let ghost s0 = bytes.rest();
        let tag = match bytes.next_byte() {
            Some(t) => t,
            None => return Err(Error::MessageEnded),
        };
        assert(bytes.rest() =~= s0.skip(1));
        if tag == 0 {
            let v = match bytes.take(4) {
                Ok(v) => v,
                Err(e) => return Err(e),
            };
            assert(bytes.rest() =~= s0.skip(5));
            let port = match decode_u16(bytes) {
                Ok(p) => p,
                Err(e) => return Err(e),
            };
            let octets: [u8; 4] = [v[0], v[1], v[2], v[3]];
            assert(octets@ =~= s0.subrange(1, 5));
            Ok(Address::V4 { octets, port })
        } else if tag == 1 {
            let v = match bytes.take(16) {
                Ok(v) => v,
                Err(e) => return Err(e),
            };
            assert(bytes.rest() =~= s0.skip(17));
            let port = match decode_u16(bytes) {
                Ok(p) => p,
                Err(e) => return Err(e),
            };
            let octets: [u8; 16] = [
                v[0], v[1], v[2], v[3], v[4], v[5], v[6], v[7],
                v[8], v[9], v[10], v[11], v[12], v[13], v[14], v[15],
            ];
            assert(octets@ =~= s0.subrange(1, 17));
            Ok(Address::V6 { octets, port })
        } else {
            Err(Error::UnknownAddressType(tag))
        }
    }

    /// Appends the tagged encoding.
    pub fn push_to(&self, out: &mut Vec<u8>)
        ensures
            final(out)@ == old(out)@ + address_bytes(self@),
    {
        match self {
            Address::V4 { octets, port } => {
                out.push(0);
                let mut i: usize = 0;
                let ghost start = out@;
                while i < 4
                    invariant
                        i <= 4,
                        out@ == start + octets@.take(i as int),
                    decreases 4 - i,
                {
                    out.push(octets[i]);
                    i = i + 1;
                    assert(out@ =~= start + octets@.take(i as int));
                }
                push_u16(out, *port);
                assert(octets@.take(4) =~= octets@);
                assert(final(out)@ =~= old(out)@ + address_bytes(self@));
            },
            Address::V6 { octets, port } => {
                out.push(1);
                let mut i: usize = 0;
                let ghost start = out@;
                while i < 16
                    invariant
                        i <= 16,
                        out@ == start + octets@.take(i as int),
                    decreases 16 - i,
                {
                    out.push(octets[i]);
                    i = i + 1;
                    assert(out@ =~= start + octets@.take(i as int));
                }
                push_u16(out, *port);
                assert(octets@.take(16) =~= octets@);
                assert(final(out)@ =~= old(out)@ + address_bytes(self@));
            },
        }
    }
}

impl ToBytes for Address {
    fn to_bytes(&self) -> (r: Result<Vec<u8>>)
        ensures
            r matches Ok(v) && v@ == address_bytes(self@),
    {
        let mut out: Vec<u8> = Vec::new();
        self.push_to(&mut out);
        assert(out@ =~= address_bytes(self@));
        Ok(out)
    }
}

impl FromBytes for Address {
    fn from_bytes(bytes: Vec<u8>) -> (r: Result<Address>)
        ensures
            match parse_address(bytes@) {
                Ok((a, _)) => r matches Ok(b) && b@ == a,
                Err(e) => r == Err::<Address, Error>(e),
            },
    {
        let mut c = Cursor::new(bytes);
        Address::decode(&mut c)
    }
}

/// A remote node: its identifier and where to reach it.
#[derive(Clone, Copy, Debug, PartialEq, Eq)]
pub struct Peer {
    pub id: Identifier,
    pub addr: Address,
}

/// The model of a peer.
pub struct PeerView {
    pub id: Seq<u8>,
    pub addr: AddressView,
}

impl View for Peer {
    type V = PeerView;

    open spec fn view(&self) -> PeerView {
        PeerView { id: self.id@, addr: self.addr@ }
    }
}

/// A peer as written: the identifier bytes, then the address.
pub open spec fn peer_bytes(p: PeerView) -> Seq<u8> {
    p.id + address_bytes(p.addr)
}

/// Reading a peer: an identifier, then an address.
pub open spec fn parse_peer(s: Seq<u8>) -> Result<(PeerView, int)> {
    if s.len() < 16 {
        Err(Error::MessageEnded)
    } else {
        match parse_address(s.skip(16)) {
            Ok((a, n)) => Ok((PeerView { id: s.take(16), addr: a }, 16 + n)),
            Err(e) => Err(e),
        }
    }
}

impl ToBytes for Peer {
    fn to_bytes(&self) -> (r: Result<Vec<u8>>)
        ensures
            r matches Ok(v) && v@ == peer_bytes(self@),
    {
        let mut out: Vec<u8> = Vec::new();
        self.id.push_to(&mut out);
        self.addr.push_to(&mut out);
        assert(out@ =~= peer_bytes(self@));
        Ok(out)
    }
}

impl Peer {
    /// Reads an identifier, then an address.
    pub fn decode(bytes: &mut Cursor) -> (r: Result<Peer>)
        requires
            old(bytes).wf(),
        ensures
            final(bytes).wf(),
            final(bytes).bytes@ == old(bytes).bytes@,
            match r {
                Ok(p) => parse_peer(old(bytes).rest()) == Ok::<(PeerView, int), Error>(
                    (p@, final(bytes).pos - old(bytes).pos),
                ),
                Err(e) => parse_peer(old(bytes).rest()) == Err::<(PeerView, int), Error>(e),
            },
    {
        let ghost s0 = bytes.rest();
        let id = match Identifier::decode(bytes) {
            Ok(id) => id,
            Err(e) => return Err(e),
        };
        assert(bytes.rest() =~= s0.skip(16));
        let addr = match Address::decode(bytes) {
            Ok(a) => a,
            Err(e) => return Err(e),
        };
        Ok(Peer { id, addr })
    }
}

impl FromBytes for Peer {
    fn from_bytes(bytes: Vec<u8>) -> (r: Result<Peer>)
        ensures
            match parse_peer(bytes@) {
                Ok((p, _)) => r matches Ok(q) && q@ == p,
                Err(e) => r == Err::<Peer, Error>(e),
            },
    {
        let mut c = Cursor::new(bytes);
        Peer::decode(&mut c)
    }
}

/// An address read back from its encoding, with anything after it, is the
/// address that was written.
pub proof fn law_address_round_trip(a: Address, rest: Seq<u8>)
    ensures
        parse_address(address_bytes(a@) + rest) == Ok::<(AddressView, int), Error>(
            (a@, address_bytes(a@).len() as int),
        ),
{
    let b = address_bytes(a@);
    let s = b + rest;
    match a {
        Address::V4 { octets, port } => {
            lemma_u16_bytes(port);
            assert(octets@.len() == 4);
            assert(s.subrange(1, 5) =~= octets@);
            assert(s[5] == u16_bytes(port)[0] && s[6] == u16_bytes(port)[1]);
        },
        Address::V6 { octets, port } => {
            lemma_u16_bytes(port);
            assert(octets@.len() == 16);
            assert(s.subrange(1, 17) =~= octets@);
            assert(s[17] == u16_bytes(port)[0] && s[18] == u16_bytes(port)[1]);
        },
    }
}

/// A peer read back from its encoding, with anything after it, is the peer
/// that was written.
pub proof fn law_peer_round_trip(p: Peer, rest: Seq<u8>)
    ensures
        parse_peer(peer_bytes(p@) + rest) == Ok::<(PeerView, int), Error>(
            (p@, peer_bytes(p@).len() as int),
        ),
{
    let s = peer_bytes(p@) + rest;
    assert(p.id.bytes@.len() == 16);
    assert(s.take(16) =~= p@.id);
    assert(s.skip(16) =~= address_bytes(p@.addr) + rest);
    law_address_round_trip(p.addr, rest);
}

} // verus!
