//! A node's protocol decisions: the datagram envelope, the discovery sweep,
//! listening for advertisements and the pin-gated connect handshake.
//!
//! Sockets stay with the caller: these functions build the datagrams to
//! send, name where to send them, and take in what was received.

use vstd::prelude::*;
use crate::codec::{u16_bytes, Cursor};
use crate::errors::{Error, Result};
use crate::message::{content_encoding, law_content_round_trip, parse_content, ContentView, MessageContent};
use crate::net::{Address, AddressView, Identifier, Peer, PeerView};
use crate::ToBytes;

verus! {

/// The well-known UDP port of the protocol.
pub const PORT: u16 = 7767;

/// How many addresses the discovery sweep covers: all of `192.168.0.0/16`.
pub const SWEEP_SIZE: u32 = 65536;

/// A datagram: the sender's identifier, then the encoded content.
pub open spec fn datagram_bytes(sender: Seq<u8>, c: ContentView) -> Result<Seq<u8>> {
    match content_encoding(c) {
        Ok(b) => Ok(sender + b),
        Err(e) => Err(e),
    }
}

/// Reading a datagram: the sender's identifier and the content.
pub open spec fn parse_datagram(s: Seq<u8>) -> Result<(Seq<u8>, ContentView)> {
    if s.len() < 16 {
        Err(Error::MessageEnded)
    } else {
        match parse_content(s.skip(16)) {
            Ok((c, _)) => Ok((s.take(16), c)),
            Err(e) => Err(e),
        }
    }
}

/// Reads the sender's identifier and the content of a datagram.
pub fn read_datagram(bytes: Vec<u8>) -> (r: Result<(Identifier, MessageContent)>)
    ensures
        match parse_datagram(bytes@) {
            Ok((id, c)) => r matches Ok((i, d)) && i@ == id && d@ == c,
            Err(e) => r == Err::<(Identifier, MessageContent), Error>(e),
        },
{
    let mut c = Cursor::new(bytes);
    let ghost s0 = c.rest();
    let id = match Identifier::decode(&mut c) {
        Ok(id) => id,
        Err(e) => return Err(e),
    };
    assert(c.rest() =~= s0.skip(16));
    match MessageContent::decode(&mut c) {
        Ok(content) => Ok((id, content)),
        Err(e) => Err(e),
    }
}

/// Builds the datagram that carries `content` from `sender`.
fn seal(sender: &Identifier, content: &MessageContent) -> (r: Result<Vec<u8>>)
    ensures
        match datagram_bytes(sender@, content@) {
            Ok(b) => r matches Ok(v) && v@ == b,
            Err(e) => r == Err::<Vec<u8>, Error>(e),
        },
{
    let mut out: Vec<u8> = Vec::new();
    sender.push_to(&mut out);
    let mut body = match content.to_bytes() {
        Ok(b) => b,
        Err(e) => return Err(e),
    };
    out.append(&mut body);
    Ok(out)
}

/// An outgoing message: where it goes and what it says.
pub struct MessageSender {
    pub addr: Address,
    pub content: MessageContent,
}

impl MessageSender {
    /// A message to `peer`.
    pub fn new(peer: &Peer, content: MessageContent) -> (r: MessageSender)
        ensures
            r.addr == peer.addr,
            r.content == content,
    {
        MessageSender { addr: peer.addr, content }
    }

    /// A message to an address.
    pub fn to_addr(addr: Address, content: MessageContent) -> (r: MessageSender)
        ensures
            r.addr == addr,
            r.content == content,
    {
        MessageSender { addr, content }
    }

    /// The datagram to send: `state`'s identifier, then the content.
    pub fn datagram(&self, state: &State) -> (r: Result<Vec<u8>>)
        ensures
            match datagram_bytes(state.id@, self.content@) {
                Ok(b) => r matches Ok(v) && v@ == b,
                Err(e) => r == Err::<Vec<u8>, Error>(e),
            },
    {
        seal(&state.id, &self.content)
    }
}

/// The address that the sweep visits at step `i`.
pub open spec fn sweep_address(i: int) -> AddressView {
    AddressView::V4(seq![192u8, 168u8, (i / 256) as u8, (i % 256) as u8], PORT)
}

/// The discovery sweep over `192.168.0.0/16`, one address after another.
pub struct Sweep {
    pub next: u32,
}

impl Sweep {
    pub open spec fn wf(&self) -> bool {
        self.next <= SWEEP_SIZE
    }

    pub fn new() -> (r: Sweep)
        ensures
            r.wf(),
            r.next == 0,
    {
        Sweep { next: 0 }
    }

    /// The next address to send to, or `None` once every address was visited.
    pub fn next_target(&mut self) -> (r: Option<Address>)
        requires
            old(self).wf(),
        ensures
            final(self).wf(),
            old(self).next < SWEEP_SIZE ==> (r matches Some(a) && a@ == sweep_address(
                old(self).next as int,
            ) && final(self).next == old(self).next + 1),
            old(self).next == SWEEP_SIZE ==> r is None && final(self).next == old(self).next,
    {
        if self.next >= SWEEP_SIZE {
            return None;
        }
        let i = self.next;
        self.next = i + 1;
        let octets: [u8; 4] = [192, 168, (i / 256) as u8, (i % 256) as u8];
        assert(octets@ =~= seq![192u8, 168u8, (i / 256) as u8, (i % 256) as u8]);
        Some(Address::V4 { octets, port: PORT })
    }
}

/// A running node's identity.
pub struct State {
    pub id: Identifier,
}

/// Whether a content advertises something that makes its sender a peer.
pub open spec fn is_advertisement(c: ContentView) -> bool {
    c is AdvertiseSound || c is AdvertiseAvailability
}

impl State {
    pub fn new(id: Identifier) -> (r: State)
        ensures
            r.id == id,
    {
        State { id }
    }

    /// A node with a fresh random identifier.
    pub fn generate() -> (r: State)
        ensures
            r.id@[6] / 16 == 4,
    {
        State { id: Identifier::random() }
    }

    /// The datagram that advertises a sound source; a name over 40 bytes is
    /// refused before anything is sent.
    pub fn advertise_sound(&self, name: String) -> (r: Result<Vec<u8>>)
        ensures
            match datagram_bytes(self.id@, ContentView::AdvertiseSound(name@)) {
                Ok(b) => r matches Ok(v) && v@ == b,
                Err(e) => r == Err::<Vec<u8>, Error>(e),
            },
    {
        seal(&self.id, &MessageContent::AdvertiseSound(name))
    }

    /// The datagram that advertises this node's availability.
    pub fn advertise_availability(&self) -> (r: Vec<u8>)
        ensures
            r@ == self.id@ + seq![1u8],
    {
        let mut out: Vec<u8> = Vec::new();
        self.id.push_to(&mut out);
        out.push(1u8);
        out
    }

    /// Starts listening. `Some(true)` listens actively (advertise first),
    /// `Some(false)` passively; `None` selects no mode and fails.
    pub fn listen(&self, mode: Option<bool>) -> (r: Result<Listener>)
        ensures
            mode is None ==> r == Err::<Listener, Error>(Error::NotListening),
            mode matches Some(active) ==> (r matches Ok(l) && l.owner == self.id
                && l.advertise_first == active),
    {
        match mode {
            Some(active) => Ok(Listener { owner: self.id, advertise_first: active }),
            None => Err(Error::NotListening),
        }
    }

    /// Starts a connect handshake with `peer`, offering `pin`.
    pub fn connect(&self, peer: Peer, pin: u16) -> (r: Handshake)
        ensures
            r.local == self.id,
            r.peer == peer,
            r.pin == pin,
            r.phase == HandshakePhase::AwaitingReply,
    {
        Handshake { local: self.id, peer, pin, phase: HandshakePhase::AwaitingReply }
    }

    /// Starts waiting for connect requests that must offer `pin`.
    pub fn respond(&self, pin: u16) -> (r: Responder)
        ensures
            r.local == self.id,
            r.pin == pin,
            r.phase == ResponderPhase::Waiting,
    {
        Responder { local: self.id, pin, phase: ResponderPhase::Waiting }
    }
}

/// Waits for advertisements and turns their senders into peers.
pub struct Listener {
    pub owner: Identifier,
    /// Whether availability is advertised before waiting.
    pub advertise_first: bool,
}

/// The peer that a received datagram reveals: the sender of an
/// advertisement other than the listener itself. Malformed datagrams reveal
/// nothing.
pub open spec fn discovered(owner: Seq<u8>, d: Result<(Seq<u8>, ContentView)>, from: AddressView) -> Option<PeerView> {
    match d {
        Ok((id, c)) => if id != owner && is_advertisement(c) {
            Some(PeerView { id, addr: from })
        } else {
            None
        },
        Err(_) => None,
    }
}

impl Listener {
    /// Interprets a datagram received from `from`.
    pub fn on_datagram(&self, bytes: Vec<u8>, from: Address) -> (r: Option<Peer>)
        ensures
            match discovered(self.owner@, parse_datagram(bytes@), from@) {
                Some(p) => r matches Some(q) && q@ == p,
                None => r is None,
            },
    {
        match read_datagram(bytes) {
            Ok((id, content)) => {
                let advert = match content {
                    MessageContent::AdvertiseSound(_) => true,
                    MessageContent::AdvertiseAvailability => true,
                    _ => false,
                };
                if advert && !id.same(&self.owner) {
                    Some(Peer { id, addr: from })
                } else {
                    None
                }
            },
            Err(_) => None,
        }
    }
}

/// Where a connect handshake stands on the initiating side.
#[derive(Clone, Copy, Debug, PartialEq, Eq, Structural)]
pub enum HandshakePhase {
    AwaitingReply,
    Connected,
    Rejected,
    TimedOut,
}

/// The initiating side of a connect handshake.
pub struct Handshake {
    pub local: Identifier,
    pub peer: Peer,
    pub pin: u16,
    pub phase: HandshakePhase,
}

/// What a received datagram does to a handshake awaiting `peer`'s reply:
/// only an accept or a decline from that peer ends the wait.
pub open spec fn after_reply(peer: Seq<u8>, d: Result<(Seq<u8>, ContentView)>) -> HandshakePhase {
    match d {
        Ok((id, ContentView::InterestAccepted)) => if id == peer {
            HandshakePhase::Connected
        } else {
            HandshakePhase::AwaitingReply
        },
        Ok((id, ContentView::InterestDeclined)) => if id == peer {
            HandshakePhase::Rejected
        } else {
            HandshakePhase::AwaitingReply
        },
        _ => HandshakePhase::AwaitingReply,
    }
}

impl Handshake {
    /// The request to send to the peer: `Interested` with this node's
    /// identifier and the pin.
    pub fn request(&self) -> (r: Vec<u8>)
        ensures
            datagram_bytes(self.local@, ContentView::Interested(self.local@, self.pin)) == Ok::<
                Seq<u8>,
                Error,
            >(r@),
            r@ == self.local@ + seq![2u8] + self.local@ + u16_bytes(self.pin),
    {
        let mut out: Vec<u8> = Vec::new();
        self.local.push_to(&mut out);
        out.push(2u8);
        self.local.push_to(&mut out);
        crate::codec::push_u16(&mut out, self.pin);
        assert(out@ =~= self.local@ + (seq![2u8] + self.local@ + u16_bytes(self.pin)));
        out
    }

    /// Takes in a received datagram.
    pub fn on_datagram(&mut self, bytes: Vec<u8>)
        ensures
            final(self).local == old(self).local,
            final(self).peer == old(self).peer,
            final(self).pin == old(self).pin,
            old(self).phase != HandshakePhase::AwaitingReply ==> final(self).phase == old(
                self,
            ).phase,
            old(self).phase == HandshakePhase::AwaitingReply ==> final(self).phase == after_reply(
                old(self).peer.id@,
                parse_datagram(bytes@),
            ),
    {
        if self.phase != HandshakePhase::AwaitingReply {
            return;
        }
        match read_datagram(bytes) {
            Ok((id, MessageContent::InterestAccepted)) => {
                if id.same(&self.peer.id) {
                    self.phase = HandshakePhase::Connected;
                }
            },
            Ok((id, MessageContent::InterestDeclined)) => {
                if id.same(&self.peer.id) {
                    self.phase = HandshakePhase::Rejected;
                }
            },
            _ => {},
        }
    }

    /// The wait for a reply ran out.
    pub fn on_timeout(&mut self)
        ensures
            final(self).local == old(self).local,
            final(self).peer == old(self).peer,
            final(self).pin == old(self).pin,
            old(self).phase == HandshakePhase::AwaitingReply ==> final(self).phase
                == HandshakePhase::TimedOut,
            old(self).phase != HandshakePhase::AwaitingReply ==> final(self).phase == old(
                self,
            ).phase,
    {
        if self.phase == HandshakePhase::AwaitingReply {
            self.phase = HandshakePhase::TimedOut;
        }
    }
}

/// Where a connect handshake stands on the responding side.
#[derive(Clone, Copy, Debug, PartialEq, Eq)]
pub enum ResponderPhase {
    Waiting,
    /// Accepted the node with this identifier, and replied.
    Accepted(Identifier),
    /// Declined the node with this identifier, and replied.
    Declined(Identifier),
}

/// The responding side of a connect handshake.
pub struct Responder {
    pub local: Identifier,
    pub pin: u16,
    pub phase: ResponderPhase,
}

/// How a waiting responder answers a datagram: a connect request is
/// accepted when its pin matches and declined otherwise; anything else
/// gets no answer.
pub open spec fn answer(pin: u16, d: Result<(Seq<u8>, ContentView)>) -> Option<ContentView> {
    match d {
        Ok((_, ContentView::Interested(_, p))) => if p == pin {
            Some(ContentView::InterestAccepted)
        } else {
            Some(ContentView::InterestDeclined)
        },
        _ => None,
    }
}

impl Responder {
    /// Takes in a received datagram and returns the reply to send back to
    /// its sender, if any.
    pub fn on_datagram(&mut self, bytes: Vec<u8>) -> (r: Option<Vec<u8>>)
        ensures
            final(self).local == old(self).local,
            final(self).pin == old(self).pin,
            old(self).phase != ResponderPhase::Waiting ==> (r is None && final(self).phase == old(
                self,
            ).phase),
            old(self).phase == ResponderPhase::Waiting ==> (match answer(
                old(self).pin,
                parse_datagram(bytes@),
            ) {
                Some(c) => r matches Some(v) && datagram_bytes(old(self).local@, c) == Ok::<
                    Seq<u8>,
                    Error,
                >(v@) && match (c, final(self).phase) {
                    (ContentView::InterestAccepted, ResponderPhase::Accepted(id)) => parse_datagram(
                        bytes@,
                    )->Ok_0.1->Interested_0 == id@,
                    (ContentView::InterestDeclined, ResponderPhase::Declined(id)) => parse_datagram(
                        bytes@,
                    )->Ok_0.1->Interested_0 == id@,
                    _ => false,
                },
                None => r is None && final(self).phase == ResponderPhase::Waiting,
            }),
    {
        match self.phase {
            ResponderPhase::Waiting => {},
            _ => return None,
        }
        match read_datagram(bytes) {
            Ok((_, MessageContent::Interested((id, p)))) => {
                let mut out: Vec<u8> = Vec::new();
                self.local.push_to(&mut out);
                if p == self.pin {
                    out.push(3u8);
                    assert(out@ =~= self.local@ + seq![3u8]);
                    self.phase = ResponderPhase::Accepted(id);
                } else {
                    out.push(4u8);
                    assert(out@ =~= self.local@ + seq![4u8]);
                    self.phase = ResponderPhase::Declined(id);
                }
                Some(out)
            },
            _ => None,
        }
    }
}

/// An availability advertisement from one node, received by a listener of
/// another node from address `from`, reveals the advertiser at `from`.
pub proof fn law_discovery(advertiser: Identifier, listener: Identifier, from: Address)
    requires
        advertiser != listener,
    ensures
        parse_datagram(advertiser@ + seq![1u8]) == Ok::<(Seq<u8>, ContentView), Error>(
            (advertiser@, ContentView::AdvertiseAvailability),
        ),
        discovered(listener@, parse_datagram(advertiser@ + seq![1u8]), from@) == Some(
            PeerView { id: advertiser@, addr: from@ },
        ),
{
    let s = advertiser@ + seq![1u8];
    assert(advertiser.bytes@.len() == 16);
    assert(s.take(16) =~= advertiser@);
    assert(s.skip(16) =~= seq![1u8]);
    if advertiser@ == listener@ {
        assert(advertiser.bytes =~= listener.bytes);
    }
}

/// A handshake's request, answered by a responder that expects a pin, ends
/// the handshake `Connected` when the offered pin is the expected one and
/// `Rejected` otherwise: never a silent wait.
pub proof fn law_handshake_outcome(
    initiator: Identifier,
    responder: Identifier,
    offered: u16,
    expected: u16,
)
    ensures
        ({
            let request = initiator@ + seq![2u8] + initiator@ + u16_bytes(offered);
            let reply = answer(expected, parse_datagram(request));
            &&& reply is Some
            &&& datagram_bytes(responder@, reply->Some_0) is Ok
            &&& after_reply(
                responder@,
                parse_datagram(datagram_bytes(responder@, reply->Some_0)->Ok_0),
            ) == if offered == expected {
                HandshakePhase::Connected
            } else {
                HandshakePhase::Rejected
            }
        }),
{
    let request = initiator@ + seq![2u8] + initiator@ + u16_bytes(offered);
    let c = MessageContent::Interested((initiator, offered));
    let b = content_encoding(c@)->Ok_0;
    assert(initiator.bytes@.len() == 16);
    assert(responder.bytes@.len() == 16);
    law_content_round_trip(c, Seq::empty());
    assert(b + Seq::<u8>::empty() =~= b);
    assert(request.skip(16) =~= b);
    assert(request.take(16) =~= initiator@);
    let reply = answer(expected, parse_datagram(request));
    let d = datagram_bytes(responder@, reply->Some_0)->Ok_0;
    if offered == expected {
        assert(d =~= responder@ + seq![3u8]);
    } else {
        assert(d =~= responder@ + seq![4u8]);
    }
    assert(d.take(16) =~= responder@);
    assert(d.skip(16)[0] == d[16]);
}

} // verus!
