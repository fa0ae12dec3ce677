//! Protocol messages: a designator byte, then a variant-specific payload.

use vstd::prelude::*;
use vstd::utf8::{encode_utf8, encode_utf8_decode_utf8, encode_utf8_valid_utf8};
use crate::codec::{
    be16, decode_u16, over_limit, parse_string, string_encoding, u16_bytes, Cursor, LenString,
};
use crate::errors::{Error, Result};
use crate::net::{lemma_u16_bytes, Identifier};
use crate::{FromBytes, ToBytes};

verus! {

/// Byte limit of a file name sent over the network.
pub const FILENAME_LIMIT: u16 = 512;

/// Byte limit of a sound name sent over the network.
pub const SOUNDNAME_LIMIT: u16 = 40;

/// The protocol's operations.
///
/// Designators: 0 advertises a sound, 1 advertises availability, 2 asks to
/// connect with a pin, 3 accepts such a request and 4 declines it.
#[derive(Debug, PartialEq, Eq)]
pub enum MessageContent {
    /// Advertises a sound source by name.
    AdvertiseSound(String),
    /// Advertises that this node can pick up sources.
    AdvertiseAvailability,
    /// Asks to connect: the asking node's identifier and the pin that the
    /// advertising node's user handed out.
    Interested((Identifier, u16)),
    /// The reply to an `Interested` whose pin matched.
    InterestAccepted,
    /// The reply to an `Interested` whose pin did not match.
    InterestDeclined,
}

/// The model of a message content.
pub enum ContentView {
    AdvertiseSound(Seq<char>),
    AdvertiseAvailability,
    Interested(Seq<u8>, u16),
    InterestAccepted,
    InterestDeclined,
}

impl View for MessageContent {
    type V = ContentView;

    open spec fn view(&self) -> ContentView {
        match self {
            MessageContent::AdvertiseSound(s) => ContentView::AdvertiseSound(s@),
            MessageContent::AdvertiseAvailability => ContentView::AdvertiseAvailability,
            MessageContent::Interested((id, pin)) => ContentView::Interested(id@, *pin),
            MessageContent::InterestAccepted => ContentView::InterestAccepted,
            MessageContent::InterestDeclined => ContentView::InterestDeclined,
        }
    }
}

/// What a content encodes to, or why it cannot be encoded.
pub open spec fn content_encoding(c: ContentView) -> Result<Seq<u8>> {
    match c {
        ContentView::AdvertiseSound(name) => match string_encoding(name, Some(SOUNDNAME_LIMIT)) {
            Ok(b) => Ok(seq![0u8] + b),
            Err(e) => Err(e),
        },
        ContentView::AdvertiseAvailability => Ok(seq![1u8]),
        ContentView::Interested(id, pin) => Ok(seq![2u8] + id + u16_bytes(pin)),
        ContentView::InterestAccepted => Ok(seq![3u8]),
        ContentView::InterestDeclined => Ok(seq![4u8]),
    }
}

/// Reading a content: the designator byte picks the payload reader.
pub open spec fn parse_content(s: Seq<u8>) -> Result<(ContentView, int)> {
    if s.len() == 0 {
        Err(Error::MessageEnded)
    } else if s[0] == 0 {
        match parse_string(s.skip(1), Some(SOUNDNAME_LIMIT)) {
            Ok((name, k)) => Ok((ContentView::AdvertiseSound(name), 1 + k)),
            Err(e) => Err(e),
        }
    } else if s[0] == 1 {
        Ok((ContentView::AdvertiseAvailability, 1))
    } else if s[0] == 2 {
        if s.len() < 19 {
            Err(Error::MessageEnded)
        } else {
            Ok((ContentView::Interested(s.subrange(1, 17), be16(s[17], s[18])), 19))
        }
    } else if s[0] == 3 {
        Ok((ContentView::InterestAccepted, 1))
    } else if s[0] == 4 {
        Ok((ContentView::InterestDeclined, 1))
    } else {
        Err(Error::UnknownMessage(s[0]))
    }
}

impl MessageContent {
    /// Reads a designator and its payload.
    pub fn decode(bytes: &mut Cursor) -> (r: Result<MessageContent>)
        requires
            old(bytes).wf(),
        ensures
            final(bytes).wf(),
            final(bytes).bytes@ == old(bytes).bytes@,
            match r {
                Ok(c) => parse_content(old(bytes).rest()) == Ok::<(ContentView, int), Error>(
                    (c@, final(bytes).pos - old(bytes).pos),
                ),
                Err(e) => parse_content(old(bytes).rest()) == Err::<(ContentView, int), Error>(
                    e,
                ),
            },
    {
        let ghost s0 = bytes.rest();
        let designator = match bytes.next_byte() {
            Some(d) => d,
            None => return Err(Error::MessageEnded),
        };
        assert(bytes.rest() =~= s0.skip(1));
        if designator == 0 {
            let name = match LenString::decode(bytes, Some(SOUNDNAME_LIMIT)) {
                Ok(s) => s,
                Err(e) => return Err(e),
            };
            Ok(MessageContent::AdvertiseSound(name))
        } else if designator == 1 {
            Ok(MessageContent::AdvertiseAvailability)
        } else if designator == 2 {
            let id = match Identifier::decode(bytes) {
                Ok(id) => id,
                Err(e) => return Err(e),
            };
            assert(id@ =~= s0.subrange(1, 17));
            assert(bytes.rest() =~= s0.skip(17));
            let pin = match decode_u16(bytes) {
                Ok(p) => p,
                Err(e) => return Err(e),
            };
            Ok(MessageContent::Interested((id, pin)))
        } else if designator == 3 {
            Ok(MessageContent::InterestAccepted)
        } else if designator == 4 {
            Ok(MessageContent::InterestDeclined)
        } else {
            Err(Error::UnknownMessage(designator))
        }
    }
}

impl ToBytes for MessageContent {
    fn to_bytes(&self) -> (r: Result<Vec<u8>>)
        ensures
            match content_encoding(self@) {
                Ok(b) => r matches Ok(v) && v@ == b,
                Err(e) => r == Err::<Vec<u8>, Error>(e),
            },
    {
        match self {
            MessageContent::AdvertiseSound(name) => {
                let mut out: Vec<u8> = vec![0u8];
                let mut body = match LenString(name.clone()).encode(Some(SOUNDNAME_LIMIT)) {
                    Ok(b) => b,
                    Err(e) => return Err(e),
                };
                out.append(&mut body);
                Ok(out)
            },
            MessageContent::AdvertiseAvailability => Ok(vec![1u8]),
            MessageContent::Interested((id, pin)) => {
                let mut out: Vec<u8> = vec![2u8];
                id.push_to(&mut out);
                crate::codec::push_u16(&mut out, *pin);
                Ok(out)
            },
            MessageContent::InterestAccepted => Ok(vec![3u8]),
            MessageContent::InterestDeclined => Ok(vec![4u8]),
        }
    }
}

impl FromBytes for MessageContent {
    fn from_bytes(bytes: Vec<u8>) -> (r: Result<MessageContent>)
        ensures
            match parse_content(bytes@) {
                Ok((c, _)) => r matches Ok(d) && d@ == c,
                Err(e) => r == Err::<MessageContent, Error>(e),
            },
    {
        let mut c = Cursor::new(bytes);
        MessageContent::decode(&mut c)
    }
}

/// The first protocol iteration's messages: advertised files and sounds.
///
/// Designators: 0 advertises a file, 1 advertises a sound.
#[derive(Debug, PartialEq, Eq)]
pub enum Message {
    AdvertiseFile(String),
    AdvertiseSound(String),
}

/// The model of a message.
pub enum MessageView {
    AdvertiseFile(Seq<char>),
    AdvertiseSound(Seq<char>),
}

impl View for Message {
    type V = MessageView;

    open spec fn view(&self) -> MessageView {
        match self {
            Message::AdvertiseFile(s) => MessageView::AdvertiseFile(s@),
            Message::AdvertiseSound(s) => MessageView::AdvertiseSound(s@),
        }
    }
}

/// What a message encodes to, or why it cannot be encoded.
pub open spec fn message_encoding(m: MessageView) -> Result<Seq<u8>> {
    let (d, name, limit) = match m {
        MessageView::AdvertiseFile(n) => (0u8, n, FILENAME_LIMIT),
        MessageView::AdvertiseSound(n) => (1u8, n, SOUNDNAME_LIMIT),
    };
    match string_encoding(name, Some(limit)) {
        Ok(b) => Ok(seq![d] + b),
        Err(e) => Err(e),
    }
}

/// Reading a message: the designator byte picks the name's limit.
pub open spec fn parse_message(s: Seq<u8>) -> Result<(MessageView, int)> {
    if s.len() == 0 {
        Err(Error::MessageEnded)
    } else if s[0] == 0 {
        match parse_string(s.skip(1), Some(FILENAME_LIMIT)) {
            Ok((name, k)) => Ok((MessageView::AdvertiseFile(name), 1 + k)),
            Err(e) => Err(e),
        }
    } else if s[0] == 1 {
        match parse_string(s.skip(1), Some(SOUNDNAME_LIMIT)) {
            Ok((name, k)) => Ok((MessageView::AdvertiseSound(name), 1 + k)),
            Err(e) => Err(e),
        }
    } else {
        Err(Error::UnknownMessage(s[0]))
    }
}

impl ToBytes for Message {
    fn to_bytes(&self) -> (r: Result<Vec<u8>>)
        ensures
            match message_encoding(self@) {
                Ok(b) => r matches Ok(v) && v@ == b,
                Err(e) => r == Err::<Vec<u8>, Error>(e),
            },
    {
        let (designator, name, limit) = match self {
            Message::AdvertiseFile(n) => (0u8, n, FILENAME_LIMIT),
            Message::AdvertiseSound(n) => (1u8, n, SOUNDNAME_LIMIT),
        };
        let mut out: Vec<u8> = vec![designator];
        let mut body = match LenString(name.clone()).encode(Some(limit)) {
            Ok(b) => b,
            Err(e) => return Err(e),
        };
        out.append(&mut body);
        Ok(out)
    }
}

impl FromBytes for Message {
    fn from_bytes(bytes: Vec<u8>) -> (r: Result<Message>)
        ensures
            match parse_message(bytes@) {
                Ok((m, _)) => r matches Ok(n) && n@ == m,
                Err(e) => r == Err::<Message, Error>(e),
            },
    {
        let mut c = Cursor::new(bytes);
        let ghost s0 = c.rest();
        let designator = match c.next_byte() {
            Some(d) => d,
            None => return Err(Error::MessageEnded),
        };
        assert(c.rest() =~= s0.skip(1));
        if designator == 0 {
            match LenString::decode(&mut c, Some(FILENAME_LIMIT)) {
                Ok(name) => Ok(Message::AdvertiseFile(name)),
                Err(e) => Err(e),
            }
        } else if designator == 1 {
            match LenString::decode(&mut c, Some(SOUNDNAME_LIMIT)) {
                Ok(name) => Ok(Message::AdvertiseSound(name)),
                Err(e) => Err(e),
            }
        } else {
            Err(Error::UnknownMessage(designator))
        }
    }
}

/// A string read back from its encoding, with anything after it, is the
/// string that was written.
pub proof fn lemma_string_round_trip(name: Seq<char>, limit: Option<u16>, rest: Seq<u8>)
    requires
        string_encoding(name, limit) is Ok,
    ensures
        parse_string(string_encoding(name, limit)->Ok_0 + rest, limit)
            == Ok::<(Seq<char>, int), Error>((name, string_encoding(name, limit)->Ok_0.len() as int)),
{
    let b = encode_utf8(name);
    let n = b.len() as u16;
    let s = string_encoding(name, limit)->Ok_0 + rest;
    lemma_u16_bytes(n);
    assert(s[0] == u16_bytes(n)[0] && s[1] == u16_bytes(n)[1]);
    assert(s.subrange(2, 2 + n) =~= b);
    encode_utf8_valid_utf8(name);
    encode_utf8_decode_utf8(name);
}

/// Every strict prefix of a string's encoding fails with `MessageEnded`.
pub proof fn lemma_string_truncated(name: Seq<char>, limit: Option<u16>, k: int)
    requires
        string_encoding(name, limit) is Ok,
        0 <= k < string_encoding(name, limit)->Ok_0.len(),
    ensures
        parse_string(string_encoding(name, limit)->Ok_0.take(k), limit)
            == Err::<(Seq<char>, int), Error>(Error::MessageEnded),
{
    let b = encode_utf8(name);
    let n = b.len() as u16;
    let s = string_encoding(name, limit)->Ok_0.take(k);
    lemma_u16_bytes(n);
    if k >= 2 {
        assert(s[0] == u16_bytes(n)[0] && s[1] == u16_bytes(n)[1]);
    }
}

/// Decoding the encoding of any content that can be encoded gives that
/// content back, whatever bytes follow it.
pub proof fn law_content_round_trip(c: MessageContent, rest: Seq<u8>)
    requires
        content_encoding(c@) is Ok,
    ensures
        parse_content(content_encoding(c@)->Ok_0 + rest) == Ok::<(ContentView, int), Error>(
            (c@, content_encoding(c@)->Ok_0.len() as int),
        ),
{
    let b = content_encoding(c@)->Ok_0;
    let s = b + rest;
    match c@ {
        ContentView::AdvertiseSound(name) => {
            lemma_string_round_trip(name, Some(SOUNDNAME_LIMIT), rest);
            assert(s.skip(1) =~= string_encoding(name, Some(SOUNDNAME_LIMIT))->Ok_0 + rest);
        },
        ContentView::Interested(id, pin) => {
            if let MessageContent::Interested((i, _)) = c {
                assert(i.bytes@.len() == 16);
            }
            lemma_u16_bytes(pin);
            assert(s.subrange(1, 17) =~= id);
            assert(s[17] == u16_bytes(pin)[0] && s[18] == u16_bytes(pin)[1]);
        },
        _ => {},
    }
}

/// Every strict prefix of a content's encoding fails with `MessageEnded`.
pub proof fn law_content_truncated(c: MessageContent, k: int)
    requires
        content_encoding(c@) is Ok,
        0 <= k < content_encoding(c@)->Ok_0.len(),
    ensures
        parse_content(content_encoding(c@)->Ok_0.take(k)) == Err::<(ContentView, int), Error>(
            Error::MessageEnded,
        ),
{
    let s = content_encoding(c@)->Ok_0.take(k);
    match c@ {
        ContentView::AdvertiseSound(name) => {
            if k >= 1 {
                lemma_string_truncated(name, Some(SOUNDNAME_LIMIT), k - 1);
                assert(s.skip(1) =~= string_encoding(name, Some(SOUNDNAME_LIMIT))->Ok_0.take(
                    k - 1,
                ));
            }
        },
        ContentView::Interested(id, pin) => {
            if let MessageContent::Interested((i, _)) = c {
                assert(i.bytes@.len() == 16);
            }
        },
        _ => {},
    }
}

/// Decoding the encoding of any message that can be encoded gives that
/// message back, whatever bytes follow it.
pub proof fn law_message_round_trip(m: Message, rest: Seq<u8>)
    requires
        message_encoding(m@) is Ok,
    ensures
        parse_message(message_encoding(m@)->Ok_0 + rest) == Ok::<(MessageView, int), Error>(
            (m@, message_encoding(m@)->Ok_0.len() as int),
        ),
{
    let s = message_encoding(m@)->Ok_0 + rest;
    match m@ {
        MessageView::AdvertiseFile(name) => {
            lemma_string_round_trip(name, Some(FILENAME_LIMIT), rest);
            assert(s.skip(1) =~= string_encoding(name, Some(FILENAME_LIMIT))->Ok_0 + rest);
        },
        MessageView::AdvertiseSound(name) => {
            lemma_string_round_trip(name, Some(SOUNDNAME_LIMIT), rest);
            assert(s.skip(1) =~= string_encoding(name, Some(SOUNDNAME_LIMIT))->Ok_0 + rest);
        },
    }
}

/// Every strict prefix of a message's encoding fails with `MessageEnded`.
pub proof fn law_message_truncated(m: Message, k: int)
    requires
        message_encoding(m@) is Ok,
        0 <= k < message_encoding(m@)->Ok_0.len(),
    ensures
        parse_message(message_encoding(m@)->Ok_0.take(k)) == Err::<(MessageView, int), Error>(
            Error::MessageEnded,
        ),
{
    let s = message_encoding(m@)->Ok_0.take(k);
    if k >= 1 {
        match m@ {
            MessageView::AdvertiseFile(name) => {
                lemma_string_truncated(name, Some(FILENAME_LIMIT), k - 1);
                assert(s.skip(1) =~= string_encoding(name, Some(FILENAME_LIMIT))->Ok_0.take(
                    k - 1,
                ));
            },
            MessageView::AdvertiseSound(name) => {
                lemma_string_truncated(name, Some(SOUNDNAME_LIMIT), k - 1);
                assert(s.skip(1) =~= string_encoding(name, Some(SOUNDNAME_LIMIT))->Ok_0.take(
                    k - 1,
                ));
            },
        }
    }
}

/// A sound name encodes exactly when its UTF-8 form has at most 40 bytes;
/// a longer one that still fits a length prefix fails with its length.
pub proof fn law_sound_name_limit(name: Seq<char>)
    ensures
        encode_utf8(name).len() <= 40 ==> content_encoding(ContentView::AdvertiseSound(name)) is Ok,
        40 < encode_utf8(name).len() <= 65535 ==> content_encoding(
            ContentView::AdvertiseSound(name),
        ) == Err::<Seq<u8>, Error>(
            Error::StringLimit((SOUNDNAME_LIMIT, encode_utf8(name).len() as u16)),
        ),
{
}

/// A sound advertisement whose declared name length is over 40 fails with
/// that length before any of the name is read.
pub proof fn law_declared_length_over_limit(n: u16, rest: Seq<u8>)
    requires
        n > SOUNDNAME_LIMIT,
    ensures
        parse_content(seq![0u8] + u16_bytes(n) + rest) == Err::<(ContentView, int), Error>(
            Error::StringLimit((SOUNDNAME_LIMIT, n)),
        ),
{
    let s = seq![0u8] + u16_bytes(n) + rest;
    lemma_u16_bytes(n);
    assert(s.skip(1)[0] == u16_bytes(n)[0] && s.skip(1)[1] == u16_bytes(n)[1]);
}

/// A designator that names no variant fails with that designator,
/// whatever follows it.
pub proof fn law_unknown_designator(d: u8, rest: Seq<u8>)
    requires
        d > 4,
    ensures
        parse_content(seq![d] + rest) == Err::<(ContentView, int), Error>(Error::UnknownMessage(d)),
{
    assert((seq![d] + rest)[0] == d);
}

/// A string field whose declared length is within the limit and matches the
/// bytes present, but whose bytes are not UTF-8, fails with `InvalidString`.
pub proof fn law_invalid_utf8(body: Seq<u8>, limit: Option<u16>, rest: Seq<u8>)
    requires
        body.len() <= 65535,
        !over_limit(body.len() as u16, limit),
        !vstd::utf8::valid_utf8(body),
    ensures
        parse_string(u16_bytes(body.len() as u16) + body + rest, limit) == Err::<
            (Seq<char>, int),
            Error,
        >(Error::InvalidString),
{
    let n = body.len() as u16;
    let s = u16_bytes(n) + body + rest;
    lemma_u16_bytes(n);
    assert(s[0] == u16_bytes(n)[0] && s[1] == u16_bytes(n)[1]);
    assert(s.subrange(2, 2 + n) =~= body);
}

} // verus!
