use besend::{
    read_datagram, Address, Error, HandshakePhase, Identifier, MessageContent, MessageSender,
    Peer, ResponderPhase, State, Sweep, PORT, SWEEP_SIZE,
};

fn node(seed: u8) -> State {
    State::new(Identifier::from_bytes([seed; 16]))
}

fn addr(c: u8, d: u8) -> Address {
    Address::V4 { octets: [192, 168, c, d], port: PORT }
}

#[test]
fn discovery_availability_reaches_listener() {
    let a = node(1);
    let b = node(2);
    let datagram = a.advertise_availability();
    assert_eq!(datagram.len(), 17);

    let (sender, content) = read_datagram(datagram.clone()).unwrap();
    assert_eq!(sender, a.id);
    assert_eq!(content, MessageContent::AdvertiseAvailability);

    let listener = b.listen(Some(false)).unwrap();
    assert!(!listener.advertise_first);
    let peer = listener.on_datagram(datagram, addr(1, 10)).unwrap();
    assert_eq!(peer, Peer { id: a.id, addr: addr(1, 10) });
}

#[test]
fn discovery_sound_advertisement() {
    let a = node(1);
    let b = node(2);
    let datagram = a.advertise_sound("desktop".to_string()).unwrap();
    let (sender, content) = read_datagram(datagram.clone()).unwrap();
    assert_eq!(sender, a.id);
    assert_eq!(content, MessageContent::AdvertiseSound("desktop".to_string()));
    let listener = b.listen(Some(true)).unwrap();
    assert!(listener.advertise_first);
    assert_eq!(
        listener.on_datagram(datagram, addr(0, 3)),
        Some(Peer { id: a.id, addr: addr(0, 3) })
    );
}

#[test]
fn discovery_skips_own_and_malformed() {
    let a = node(1);
    let listener = a.listen(Some(false)).unwrap();
    assert_eq!(listener.on_datagram(a.advertise_availability(), addr(0, 1)), None);
    assert_eq!(listener.on_datagram(vec![1, 2, 3], addr(0, 1)), None);
    let mut bad = vec![5; 16];
    bad.push(99);
    assert_eq!(listener.on_datagram(bad, addr(0, 1)), None);
    let b = node(2);
    let request = b.connect(Peer { id: a.id, addr: addr(0, 1) }, 1).request();
    assert_eq!(listener.on_datagram(request, addr(0, 2)), None);
}

#[test]
fn listen_without_mode_fails() {
    assert!(matches!(node(1).listen(None), Err(Error::NotListening)));
}

#[test]
fn advertise_sound_name_over_limit() {
    assert!(matches!(
        node(1).advertise_sound("a".repeat(41)),
        Err(Error::StringLimit((40, 41)))
    ));
}

#[test]
fn handshake_success() {
    let a = node(1);
    let b = node(2);
    let peer_a = Peer { id: a.id, addr: addr(1, 10) };

    let mut hs = b.connect(peer_a, 4242u16);
    assert_eq!(hs.phase, HandshakePhase::AwaitingReply);
    let request = hs.request();

    let (sender, content) = read_datagram(request.clone()).unwrap();
    assert_eq!(sender, b.id);
    assert_eq!(content, MessageContent::Interested((b.id, 4242)));

    let mut responder = a.respond(4242);
    let reply = responder.on_datagram(request).unwrap();
    assert_eq!(responder.phase, ResponderPhase::Accepted(b.id));

    hs.on_datagram(reply);
    assert_eq!(hs.phase, HandshakePhase::Connected);
    hs.on_timeout();
    assert_eq!(hs.phase, HandshakePhase::Connected);
}

#[test]
fn handshake_rejection() {
    let a = node(1);
    let b = node(2);
    let mut hs = b.connect(Peer { id: a.id, addr: addr(1, 10) }, 1111u16);
    let mut responder = a.respond(4242);
    let reply = responder.on_datagram(hs.request()).unwrap();
    assert_eq!(responder.phase, ResponderPhase::Declined(b.id));
    let (sender, content) = read_datagram(reply.clone()).unwrap();
    assert_eq!(sender, a.id);
    assert_eq!(content, MessageContent::InterestDeclined);

    hs.on_datagram(reply);
    assert_eq!(hs.phase, HandshakePhase::Rejected);
    // A responder that has answered stays where it is.
    assert_eq!(responder.on_datagram(hs.request()), None);
}

#[test]
fn handshake_timeout_and_strangers() {
    let a = node(1);
    let b = node(2);
    let c = node(3);
    let mut hs = b.connect(Peer { id: a.id, addr: addr(1, 10) }, 7);
    // An accept from a node other than the peer does not end the wait.
    let mut other = c.respond(7);
    let stray = other.on_datagram(hs.request()).unwrap();
    hs.on_datagram(stray);
    assert_eq!(hs.phase, HandshakePhase::AwaitingReply);
    hs.on_datagram(vec![0; 3]);
    assert_eq!(hs.phase, HandshakePhase::AwaitingReply);
    hs.on_timeout();
    assert_eq!(hs.phase, HandshakePhase::TimedOut);
}

#[test]
fn sweep_covers_subnet() {
    let mut sweep = Sweep::new();
    assert_eq!(sweep.next_target(), Some(addr(0, 0)));
    assert_eq!(sweep.next_target(), Some(addr(0, 1)));
    let mut count: u32 = 2;
    let mut last = None;
    while let Some(a) = sweep.next_target() {
        count += 1;
        if count == 257 {
            assert_eq!(a, addr(1, 0));
        }
        last = Some(a);
    }
    assert_eq!(count, SWEEP_SIZE);
    assert_eq!(last, Some(addr(255, 255)));
    assert_eq!(sweep.next_target(), None);
}

#[test]
fn sender_datagram_prefixes_identifier() {
    let a = node(4);
    let peer = Peer { id: Identifier::from_bytes([9; 16]), addr: addr(2, 2) };
    let sender = MessageSender::new(&peer, MessageContent::AdvertiseAvailability);
    assert_eq!(sender.addr, addr(2, 2));
    let bytes = sender.datagram(&a).unwrap();
    let mut expected = vec![4; 16];
    expected.push(1);
    assert_eq!(bytes, expected);
    let to = MessageSender::to_addr(addr(3, 3), MessageContent::AdvertiseSound("a".repeat(41)));
    assert!(matches!(to.datagram(&a), Err(Error::StringLimit((40, 41)))));
}

#[test]
fn generated_state_has_v4_identifier() {
    let s = State::generate();
    assert_eq!(s.id.bytes[6] >> 4, 4);
}
