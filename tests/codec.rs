use besend::{decode_u16, Address, Cursor, Error, FromBytes, Identifier, LenString, Peer, ToBytes};

#[test]
fn u16_big_endian() {
    let mut c = Cursor::new(vec![1, 2, 3]);
    assert_eq!(decode_u16(&mut c).unwrap(), 258);
    assert_eq!(c.pos, 2);
    assert!(matches!(decode_u16(&mut c), Err(Error::MessageEnded)));
}

#[test]
fn len_string_encode_decode() {
    let bytes = LenString("héllo".to_string()).encode(None).unwrap();
    assert_eq!(bytes[..2], [0, 6]);
    let mut c = Cursor::new(bytes);
    assert_eq!(LenString::decode(&mut c, None).unwrap(), "héllo");
    assert_eq!(c.pos, 8);
}

#[test]
fn len_string_too_long() {
    let s = "a".repeat(65536);
    assert!(matches!(LenString(s).encode(None), Err(Error::StringTooLong)));
    let s = "a".repeat(65535);
    assert_eq!(LenString(s).encode(None).unwrap().len(), 65537);
}

#[test]
fn len_string_short_body() {
    let mut c = Cursor::new(vec![0, 5, b'a', b'b']);
    assert!(matches!(LenString::decode(&mut c, Some(10)), Err(Error::MessageEnded)));
}

#[test]
fn identifier_raw_bytes() {
    let raw: [u8; 16] = [9, 8, 7, 6, 5, 4, 3, 2, 1, 0, 10, 11, 12, 13, 14, 15];
    let mut c = Cursor::new(raw.to_vec());
    let id = Identifier::decode(&mut c).unwrap();
    assert_eq!(id, Identifier::from_bytes(raw));
    let mut out = Vec::new();
    id.push_to(&mut out);
    assert_eq!(out, raw.to_vec());
    let mut short = Cursor::new(vec![1; 15]);
    assert!(matches!(Identifier::decode(&mut short), Err(Error::MessageEnded)));
}

#[test]
fn identifier_random_is_v4() {
    let a = Identifier::random();
    let b = Identifier::random();
    assert_eq!(a.bytes[6] >> 4, 4);
    assert_eq!(b.bytes[8] >> 6, 2);
    assert!(!a.same(&b));
    assert!(a.same(&a));
}

#[test]
fn address_v4_round_trip() {
    let a = Address::V4 { octets: [192, 168, 1, 10], port: 7767 };
    let mut bytes = Vec::new();
    a.push_to(&mut bytes);
    assert_eq!(bytes, vec![0, 192, 168, 1, 10, 0x1e, 0x57]);
    let mut c = Cursor::new(bytes);
    assert_eq!(Address::decode(&mut c).unwrap(), a);
}

#[test]
fn address_v6_round_trip() {
    let octets = [0xfe, 0x80, 0, 0, 0, 0, 0, 0, 0x02, 0x1a, 0x2b, 0xff, 0xfe, 0x3c, 0x4d, 0x5e];
    let a = Address::V6 { octets, port: 7767 };
    let mut bytes = Vec::new();
    a.push_to(&mut bytes);
    assert_eq!(bytes.len(), 19);
    assert_eq!(bytes[0], 1);
    let mut c = Cursor::new(bytes);
    assert_eq!(Address::decode(&mut c).unwrap(), a);
}

#[test]
fn address_errors() {
    let mut c = Cursor::new(vec![7, 1, 2]);
    assert!(matches!(Address::decode(&mut c), Err(Error::UnknownAddressType(7))));
    let mut c = Cursor::new(vec![]);
    assert!(matches!(Address::decode(&mut c), Err(Error::MessageEnded)));
    let mut c = Cursor::new(vec![0, 1, 2, 3, 4, 5]);
    assert!(matches!(Address::decode(&mut c), Err(Error::MessageEnded)));
}

#[test]
fn peer_round_trip() {
    let peer = Peer {
        id: Identifier::from_bytes([3; 16]),
        addr: Address::V4 { octets: [192, 168, 1, 10], port: 7767 },
    };
    let bytes = peer.to_bytes().unwrap();
    assert_eq!(bytes.len(), 23);
    assert_eq!(bytes[..16], [3; 16]);
    assert_eq!(Peer::from_bytes(bytes).unwrap(), peer);
    assert!(matches!(Peer::from_bytes(vec![3; 16]), Err(Error::MessageEnded)));
}

#[test]
fn len_string_to_bytes() {
    let bytes = LenString("abc".to_string()).to_bytes().unwrap();
    assert_eq!(bytes, vec![0, 3, b'a', b'b', b'c']);
}

#[test]
fn address_to_and_from_bytes() {
    let a = Address::V4 { octets: [10, 0, 0, 1], port: 80 };
    let bytes = a.to_bytes().unwrap();
    assert_eq!(bytes, vec![0, 10, 0, 0, 1, 0, 80]);
    assert_eq!(Address::from_bytes(bytes).unwrap(), a);
    assert!(matches!(Address::from_bytes(vec![2]), Err(Error::UnknownAddressType(2))));
}
