use besend::{Error, FromBytes, Message, MessageContent, Result, ToBytes};

#[test]
fn file_ad_encode_decode() -> Result<()> {
    let string = "abcdefg".to_string();

    let mut bytes = vec![0, 0, 7];
    bytes.extend(string.as_bytes());

    assert_eq!(Message::AdvertiseFile(string.clone()).to_bytes()?, bytes);
    assert_eq!(Message::from_bytes(bytes)?, Message::AdvertiseFile(string));
    Ok(())
}

#[test]
#[should_panic]
fn file_ad_limit() {
    let payload = vec![0, 255, 255]; // 65535 is over the file name limit
    Message::from_bytes(payload).unwrap();
}

#[test]
fn message_sound_ad_encode_decode() -> Result<()> {
    let string = "abcdefg".to_string();

    let mut bytes = vec![1, 0, 7];
    bytes.extend(string.as_bytes());

    assert_eq!(Message::AdvertiseSound(string.clone()).to_bytes()?, bytes);
    assert_eq!(Message::from_bytes(bytes)?, Message::AdvertiseSound(string));
    Ok(())
}

#[test]
#[should_panic]
fn message_sound_ad_limit() {
    let payload = vec![0, 255, 255]; // 65535 is over the limit
    Message::from_bytes(payload).unwrap();
}

#[test]
#[should_panic]
fn content_sound_ad_limit() {
    let payload = vec![0, 255, 255]; // 65535 is over the sound name limit
    MessageContent::from_bytes(payload).unwrap();
}

#[test]
fn message_file_name_limit_is_512() {
    let ok = "a".repeat(512);
    let bytes = Message::AdvertiseFile(ok.clone()).to_bytes().unwrap();
    assert_eq!(bytes.len(), 515);
    assert_eq!(Message::from_bytes(bytes).unwrap(), Message::AdvertiseFile(ok));
    let long = "a".repeat(513);
    assert!(matches!(
        Message::AdvertiseFile(long).to_bytes(),
        Err(Error::StringLimit((512, 513)))
    ));
}

#[test]
fn message_ignores_trailing_bytes() {
    let bytes = vec![1, 0, 2, b'h', b'i', 9, 9, 9];
    assert_eq!(
        Message::from_bytes(bytes).unwrap(),
        Message::AdvertiseSound("hi".to_string())
    );
}

#[test]
fn message_truncated_prefixes_fail() {
    let bytes = Message::AdvertiseSound("abc".to_string()).to_bytes().unwrap();
    for k in 0..bytes.len() {
        let prefix = bytes[..k].to_vec();
        assert!(matches!(Message::from_bytes(prefix), Err(Error::MessageEnded)));
    }
}

#[test]
fn message_unknown_designator() {
    assert!(matches!(
        Message::from_bytes(vec![2, 0, 0]),
        Err(Error::UnknownMessage(2))
    ));
}
