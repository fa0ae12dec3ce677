//! Primitive wire codecs: a forward-only byte cursor, big-endian 16-bit
//! integers, fixed-width byte runs and length-prefixed UTF-8 strings.

use vstd::prelude::*;
use vstd::utf8::{decode_utf8, encode_utf8, valid_utf8};
use crate::errors::{Error, Result};
use crate::ToBytes;

verus! {

/// The big-endian value of two bytes.
pub open spec fn be16(hi: u8, lo: u8) -> u16 {
    (hi as int * 256 + lo as int) as u16
}

/// The big-endian encoding of a 16-bit integer.
pub open spec fn u16_bytes(n: u16) -> Seq<u8> {
    seq![(n / 256) as u8, (n % 256) as u8]
}

/// Reading a 16-bit integer: its value and the two bytes it takes.
pub open spec fn parse_u16(s: Seq<u8>) -> Result<(u16, int)> {
    if s.len() < 2 {
        Err(Error::MessageEnded)
    } else {
        Ok((be16(s[0], s[1]), 2))
    }
}

/// Reading a run of `n` raw bytes.
pub open spec fn parse_fixed(s: Seq<u8>, n: nat) -> Result<(Seq<u8>, int)> {
    if s.len() < n {
        Err(Error::MessageEnded)
    } else {
        Ok((s.take(n as int), n as int))
    }
}

/// Whether a declared string length breaks the field limit, if there is one.
pub open spec fn over_limit(n: u16, limit: Option<u16>) -> bool {
    match limit {
        Some(l) => n > l,
        None => false,
    }
}

/// Reading a length-prefixed UTF-8 string. The limit is checked against
/// the declared length before any of the body is looked at.
pub open spec fn parse_string(s: Seq<u8>, limit: Option<u16>) -> Result<(Seq<char>, int)> {
    match parse_u16(s) {
        Err(e) => Err(e),
        Ok((n, _)) => {
            if over_limit(n, limit) {
                Err(Error::StringLimit((limit->0, n)))
            } else if s.len() < 2 + n {
                Err(Error::MessageEnded)
            } else if !valid_utf8(s.subrange(2, 2 + n)) {
                Err(Error::InvalidString)
            } else {
                Ok((decode_utf8(s.subrange(2, 2 + n)), 2 + n))
            }
        },
    }
}

/// Writing a length-prefixed UTF-8 string, with an optional field limit.
pub open spec fn string_encoding(s: Seq<char>, limit: Option<u16>) -> Result<Seq<u8>> {
    let b = encode_utf8(s);
    if b.len() > 65535 {
        Err(Error::StringTooLong)
    } else if over_limit(b.len() as u16, limit) {
        Err(Error::StringLimit((limit->0, b.len() as u16)))
    } else {
        Ok(u16_bytes(b.len() as u16) + b)
    }
}

/// A forward-only reader over a byte buffer.
pub struct Cursor {
    pub bytes: Vec<u8>,
    pub pos: usize,
}

impl Cursor {
    pub open spec fn wf(&self) -> bool {
        self.pos <= self.bytes@.len()
    }

    /// The bytes not read yet.
    pub open spec fn rest(&self) -> Seq<u8> {
        self.bytes@.subrange(self.pos as int, self.bytes@.len() as int)
    }

    /// `self` is `from` moved forward by `k` bytes.
    pub open spec fn advanced(&self, from: Cursor, k: int) -> bool {
        &&& self.wf()
        &&& self.bytes@ == from.bytes@
        &&& self.pos == from.pos + k
    }

    pub fn new(bytes: Vec<u8>) -> (r: Cursor)
        ensures
            r.wf(),
            r.pos == 0,
            r.bytes@ == bytes@,
            r.rest() == bytes@,
    {
        let r = Cursor { bytes, pos: 0 };
        assert(r.rest() =~= r.bytes@);
        r
    }

    /// Takes the next byte, if there is one.
    pub fn next_byte(&mut self) -> (r: Option<u8>)
        requires
            old(self).wf(),
        ensures
            old(self).rest().len() == 0 ==> r is None && *final(self) == *old(self),
            old(self).rest().len() > 0 ==> r == Some(old(self).rest()[0]) && final(self).advanced(
                *old(self),
                1,
            ),
    {
        if self.pos < self.bytes.len() {
            let b = self.bytes[self.pos];
            self.pos = self.pos + 1;
            Some(b)
        } else {
            None
        }
    }

    /// Takes the next `n` bytes; fails without moving if fewer remain.
    pub fn take(&mut self, n: usize) -> (r: Result<Vec<u8>>)
        requires
            old(self).wf(),
        ensures
            final(self).wf(),
            final(self).bytes@ == old(self).bytes@,
            match r {
                Ok(v) => parse_fixed(old(self).rest(), n as nat) == Ok::<(Seq<u8>, int), Error>(
                    (v@, n as int),
                ) && final(self).advanced(*old(self), n as int),
                Err(e) => parse_fixed(old(self).rest(), n as nat) == Err::<(Seq<u8>, int), Error>(
                    e,
                ),
            },
    {
        if self.bytes.len() - self.pos < n {
            return Err(Error::MessageEnded);
        }
        let mut v: Vec<u8> = Vec::new();
        let start: usize = self.pos;
        let mut i: usize = 0;
        while i < n
            invariant
                self.wf(),
                start + n <= self.bytes@.len() <= usize::MAX,
                self.pos == start,
                i <= n,
                v@ == self.bytes@.subrange(start as int, start + i),
            decreases n - i,
        {
            v.push(self.bytes[start + i]);
            i = i + 1;
            assert(v@ =~= self.bytes@.subrange(start as int, start + i));
        }
        self.pos = start + n;
        assert(v@ =~= old(self).rest().take(n as int));
        Ok(v)
    }
}

/// Reads a big-endian 16-bit integer.
pub fn decode_u16(bytes: &mut Cursor) -> (r: Result<u16>)
    requires
        old(bytes).wf(),
    ensures
        final(bytes).wf(),
        final(bytes).bytes@ == old(bytes).bytes@,
        match r {
            Ok(n) => parse_u16(old(bytes).rest()) == Ok::<(u16, int), Error>((n, 2))
                && final(bytes).advanced(*old(bytes), 2),
            Err(e) => parse_u16(old(bytes).rest()) == Err::<(u16, int), Error>(e),
        },
{
    let first = match bytes.next_byte() {
        Some(b) => b,
        None => return Err(Error::MessageEnded),
    };
    let second = match bytes.next_byte() {
        Some(b) => b,
        None => return Err(Error::MessageEnded),
    };
    Ok((first as u16) * 256 + (second as u16))
}

/// Appends the big-endian encoding of `n`.
pub fn push_u16(out: &mut Vec<u8>, n: u16)
    ensures
        final(out)@ == old(out)@ + u16_bytes(n),
{
    out.push((n / 256) as u8);
    out.push((n % 256) as u8);
    assert(final(out)@ =~= old(out)@ + u16_bytes(n));
}

/// Appends every byte of `src`.
pub fn push_all(out: &mut Vec<u8>, src: &[u8])
    ensures
        final(out)@ == old(out)@ + src@,
{
    let ghost start = out@;
    let mut i: usize = 0;
    while i < src.len()
        invariant
            i <= src@.len(),
            out@ == start + src@.take(i as int),
        decreases src@.len() - i,
    {
        out.push(src[i]);
        i = i + 1;
        assert(out@ =~= start + src@.take(i as int));
    }
    assert(src@.take(i as int) =~= src@);
}

/// Relies on `String::from_utf8`: it succeeds exactly when the bytes are
/// valid UTF-8, and the string then holds the characters they encode.
#[verifier::external_body]
fn utf8_string(bytes: Vec<u8>) -> (r: Option<String>)
    ensures
        r is Some <==> valid_utf8(bytes@),
        r matches Some(s) ==> s@ == decode_utf8(bytes@),
{
    String::from_utf8(bytes).ok()
}

/// A string written with its byte length as a big-endian 16-bit prefix.
pub struct LenString(pub String);

impl LenString {
    /// Reads a length-prefixed string. A declared length over `limit`
    /// fails before the body is read.
    pub fn decode(bytes: &mut Cursor, limit: Option<u16>) -> (r: Result<String>)
        requires
            old(bytes).wf(),
        ensures
            final(bytes).wf(),
            final(bytes).bytes@ == old(bytes).bytes@,
            match r {
                Ok(s) => parse_string(old(bytes).rest(), limit) == Ok::<(Seq<char>, int), Error>(
                    (s@, final(bytes).pos - old(bytes).pos),
                ),
                Err(e) => parse_string(old(bytes).rest(), limit) == Err::<(Seq<char>, int), Error>(
                    e,
                ),
            },
    {
        let ghost s0 = bytes.rest();
        let len = match decode_u16(bytes) {
            Ok(n) => n,
            Err(e) => return Err(e),
        };
        assert(bytes.rest() =~= s0.skip(2));
        match limit {
            Some(l) => {
                if len > l {
                    return Err(Error::StringLimit((l, len)));
                }
            },
            None => {},
        }
        let body = match bytes.take(len as usize) {
            Ok(v) => v,
            Err(e) => return Err(e),
        };
        assert(body@ =~= s0.subrange(2, 2 + len));
        match utf8_string(body) {
            Some(s) => {
                assert(s0.len() >= 2 + len);
                assert(parse_string(s0, limit) == Ok::<(Seq<char>, int), Error>(
                    (s@, 2 + len as int),
                ));
                Ok(s)
            },
            None => Err(Error::InvalidString),
        }
    }

    /// Writes the length prefix and the UTF-8 bytes, checking `limit` if
    /// one is given.
    pub fn encode(&self, limit: Option<u16>) -> (r: Result<Vec<u8>>)
        ensures
            match string_encoding(self.0@, limit) {
                Ok(b) => r matches Ok(v) && v@ == b,
                Err(e) => r == Err::<Vec<u8>, Error>(e),
            },
    {
        let b = self.0.as_str().as_bytes();
        let len = b.len();
        if len > 65535 {
            return Err(Error::StringTooLong);
        }
        match limit {
            Some(l) => {
                if len as u16 > l {
                    return Err(Error::StringLimit((l, len as u16)));
                }
            },
            None => {},
        }
        let mut out: Vec<u8> = Vec::new();
        push_u16(&mut out, len as u16);
        push_all(&mut out, b);
        assert(out@ =~= u16_bytes(len as u16) + encode_utf8(self.0@));
        Ok(out)
    }
}

impl ToBytes for LenString {
    /// Writes the string with no field limit.
    fn to_bytes(&self) -> (r: Result<Vec<u8>>)
        ensures
            match string_encoding(self.0@, None) {
                Ok(b) => r matches Ok(v) && v@ == b,
                Err(e) => r == Err::<Vec<u8>, Error>(e),
            },
    {
        self.encode(None)
    }
}

} // verus!
