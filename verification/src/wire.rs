//! The byte layout of a frame header.

use crate::error::Error;
use crate::time::duration_nanos;
use std::time::Duration;
use vstd::prelude::*;

verus! {

/// The number of bytes in a header.
pub const HEADER_LEN: usize = 12;

/// The header of a frame: the time since the recording began, as seconds and
/// microseconds, and the number of payload bytes that follow.
///
/// `micros` may be a million or more: it is added to the seconds, never
/// checked.
#[derive(Debug, Clone, Copy)]
pub struct Header {
    pub secs: u32,
    pub micros: u32,
    pub len: u32,
}

/// The four bytes of `x`, least significant first.
pub open spec fn le_bytes(x: u32) -> Seq<u8> {
    seq![
        (x as int % 256) as u8,
        (x as int / 256 % 256) as u8,
        (x as int / 65536 % 256) as u8,
        (x as int / 16777216) as u8,
    ]
}

/// The number that the first four bytes of `s` spell, least significant first.
pub open spec fn le_value(s: Seq<u8>) -> u32
    recommends
        s.len() >= 4,
{
    (s[0] as int + 256 * (s[1] as int) + 65536 * (s[2] as int) + 16777216 * (s[3] as int)) as u32
}

/// Reading back the bytes of a number gives the number.
pub proof fn lemma_le_value_of_bytes(x: u32)
    ensures
        le_bytes(x).len() == 4,
        le_value(le_bytes(x)) == x,
{
}

/// Four bytes are the bytes of the number that they spell.
pub proof fn lemma_le_bytes_of_value(s: Seq<u8>)
    requires
        s.len() == 4,
    ensures
        le_bytes(le_value(s)) == s,
{
    let a = s[0] as int;
    let b = s[1] as int;
    let c = s[2] as int;
    let d = s[3] as int;
    let v = a + 256 * b + 65536 * c + 16777216 * d;
    assert(v % 256 == a && v / 256 == b + 256 * c + 65536 * d);
    assert(v / 256 % 256 == b);
    assert(v / 65536 == c + 256 * d);
    assert(v / 65536 % 256 == c);
    assert(v / 16777216 == d);
    assert(le_bytes(le_value(s)) =~= s);
}

/// Splits `x` into its four bytes, least significant first.
pub fn u32_to_le(x: u32) -> (bytes: [u8; 4])
    ensures
        bytes@ == le_bytes(x),
{
    [(x % 256) as u8, (x / 256 % 256) as u8, (x / 65536 % 256) as u8, (x / 16777216) as u8]
}

/// Joins four bytes, least significant first, into one number.
pub fn u32_from_le(bytes: [u8; 4]) -> (x: u32)
    ensures
        x == le_value(bytes@),
{
    bytes[0] as u32 + 256 * (bytes[1] as u32) + 65536 * (bytes[2] as u32) + 16777216 * (
    bytes[3] as u32)
}

impl Header {
    /// The twelve bytes of the header: seconds, microseconds, length.
    pub open spec fn wire(self) -> Seq<u8> {
        le_bytes(self.secs) + le_bytes(self.micros) + le_bytes(self.len)
    }

    /// The header that the first twelve bytes of `s` spell.
    pub open spec fn parse(s: Seq<u8>) -> Header
        recommends
            s.len() >= HEADER_LEN,
    {
        Header {
            secs: le_value(s.subrange(0, 4)),
            micros: le_value(s.subrange(4, 8)),
            len: le_value(s.subrange(8, 12)),
        }
    }

    /// The time in the header, in microseconds.
    pub open spec fn total_micros(self) -> nat {
        self.secs as nat * 1_000_000 + self.micros as nat
    }

    /// The header for a time of `secs` seconds and `micros` microseconds and
    /// a payload of `len` bytes. Seconds beyond `u32::MAX` are refused as
    /// `FrameTooLong`; otherwise a length beyond `u32::MAX` is refused as
    /// `FrameTooBig`.
    pub fn new(secs: u64, micros: u32, len: usize) -> (r: Result<Header, Error>)
        ensures
            match r {
                Ok(h) => secs <= u32::MAX && len <= u32::MAX && h == (Header {
                    secs: secs as u32,
                    micros,
                    len: len as u32,
                }),
                Err(e) => if secs > u32::MAX {
                    e == (Error::FrameTooLong { input: secs })
                } else {
                    len > u32::MAX && e == (Error::FrameTooBig { input: len })
                },
            },
    {
        if secs > u32::MAX as u64 {
            return Err(Error::FrameTooLong { input: secs });
        }
        if len as u64 > u32::MAX as u64 {
            return Err(Error::FrameTooBig { input: len });
        }
        Ok(Header { secs: secs as u32, micros, len: len as u32 })
    }

    /// The header as it stands in a recording.
    pub fn to_bytes(&self) -> (bytes: [u8; 12])
        ensures
            bytes@ == self.wire(),
    {
        let s = u32_to_le(self.secs);
        let m = u32_to_le(self.micros);
        let l = u32_to_le(self.len);
        let bytes = [s[0], s[1], s[2], s[3], m[0], m[1], m[2], m[3], l[0], l[1], l[2], l[3]];
        assert(bytes@ =~= self.wire());
        bytes
    }

    /// Reads a header. Every twelve bytes are a header.
    pub fn from_bytes(bytes: &[u8; 12]) -> (h: Header)
        ensures
            h == Header::parse(bytes@),
    {
        let s = [bytes[0], bytes[1], bytes[2], bytes[3]];
        let m = [bytes[4], bytes[5], bytes[6], bytes[7]];
        let l = [bytes[8], bytes[9], bytes[10], bytes[11]];
        assert(s@ =~= bytes@.subrange(0, 4));
        assert(m@ =~= bytes@.subrange(4, 8));
        assert(l@ =~= bytes@.subrange(8, 12));
        Header { secs: u32_from_le(s), micros: u32_from_le(m), len: u32_from_le(l) }
    }

    /// The time in the header: the seconds and the microseconds, added.
    pub fn time(&self) -> (time: Duration)
        ensures
            duration_nanos(time) == self.total_micros() * 1_000,
    {
        Duration::from_micros(self.secs as u64 * 1_000_000 + self.micros as u64)
    }

    /// The number of payload bytes that follow the header.
    pub fn len(&self) -> (len: usize)
        ensures
            len == self.len,
    {
        self.len as usize
    }
}

/// A header read back from its own bytes is the same header.
pub proof fn lemma_parse_of_wire(h: Header)
    ensures
        h.wire().len() == HEADER_LEN,
        Header::parse(h.wire()) == h,
{
    let w = h.wire();
    assert(w.subrange(0, 4) =~= le_bytes(h.secs));
    assert(w.subrange(4, 8) =~= le_bytes(h.micros));
    assert(w.subrange(8, 12) =~= le_bytes(h.len));
    lemma_le_value_of_bytes(h.secs);
    lemma_le_value_of_bytes(h.micros);
    lemma_le_value_of_bytes(h.len);
}

/// Twelve bytes are the bytes of the header that they spell.
pub proof fn lemma_wire_of_parse(s: Seq<u8>)
    requires
        s.len() == HEADER_LEN,
    ensures
        Header::parse(s).wire() == s,
{
    lemma_le_bytes_of_value(s.subrange(0, 4));
    lemma_le_bytes_of_value(s.subrange(4, 8));
    lemma_le_bytes_of_value(s.subrange(8, 12));
    assert(s.subrange(0, 4) + s.subrange(4, 8) + s.subrange(8, 12) =~= s);
}

} // verus!
