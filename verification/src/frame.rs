//! Frames and their encoding.

use crate::error::Error;
use crate::time::duration_nanos;
use crate::wire::{lemma_parse_of_wire, Header, HEADER_LEN};
use std::time::Duration;
use vstd::prelude::*;

verus! {

/// Represents a single ttyrec frame.
///
/// Ttyrec files are a raw concatenation of frames.
#[derive(Debug, Clone, PartialEq, Eq)]
pub struct Frame {
    /// Amount of time passed since the start of the ttyrec file.
    ///
    /// Note that this is *not* the amount of time since the previous frame.
    pub time: Duration,
    /// Bytes emitted at the given time.
    pub data: Vec<u8>,
}

/// What a frame holds: its time in nanoseconds and its payload.
pub struct FrameView {
    pub nanos: nat,
    pub data: Seq<u8>,
}

impl View for Frame {
    type V = FrameView;

    open spec fn view(&self) -> FrameView {
        FrameView { nanos: duration_nanos(self.time), data: self.data@ }
    }
}

impl FrameView {
    /// The whole seconds of the frame's time.
    pub open spec fn secs(self) -> nat {
        self.nanos / 1_000_000_000
    }

    /// The part of the frame's time below one second, in whole microseconds.
    pub open spec fn subsec_micros(self) -> nat {
        self.nanos % 1_000_000_000 / 1_000
    }

    /// Whether the frame can be written: its seconds and the length of its
    /// payload each fit the `u32` of the header.
    pub open spec fn fits(self) -> bool {
        self.secs() <= u32::MAX && self.data.len() <= u32::MAX
    }

    /// The header of the frame, where the frame fits.
    pub open spec fn header(self) -> Header
        recommends
            self.fits(),
    {
        Header {
            secs: self.secs() as u32,
            micros: self.subsec_micros() as u32,
            len: self.data.len() as u32,
        }
    }

    /// The frame as it stands in a recording: header, then payload.
    pub open spec fn wire(self) -> Seq<u8>
        recommends
            self.fits(),
    {
        self.header().wire() + self.data
    }

    /// Why the frame cannot be written, where it does not fit. Too many
    /// seconds are reported before too many bytes.
    pub open spec fn refusal(self) -> Error
        recommends
            !self.fits(),
    {
        if self.secs() > u32::MAX {
            Error::FrameTooLong { input: self.secs() as u64 }
        } else {
            Error::FrameTooBig { input: self.data.len() as usize }
        }
    }

    /// The frame with its time cut down to whole microseconds, which is all
    /// of the time that a recording keeps.
    pub open spec fn in_micros(self) -> FrameView {
        FrameView { nanos: (self.nanos / 1_000 * 1_000) as nat, data: self.data }
    }
}

/// The frame at the start of `s`, with the number of bytes that it takes
/// up, or `None` where `s` does not hold a whole frame yet.
pub open spec fn first_frame(s: Seq<u8>) -> Option<(FrameView, nat)> {
    if s.len() < HEADER_LEN {
        None
    } else {
        let h = Header::parse(s);
        let end = HEADER_LEN + h.len;
        if s.len() < end {
            None
        } else {
            Some(
                (
                    FrameView {
                        nanos: h.total_micros() * 1_000,
                        data: s.subrange(HEADER_LEN as int, end),
                    },
                    end as nat,
                ),
            )
        }
    }
}

/// Writes a frame of `secs` seconds and `micros` microseconds that holds
/// `data`: the header, then the payload.
pub fn encode_frame(secs: u64, micros: u32, data: &[u8]) -> (r: Result<Vec<u8>, Error>)
    ensures
        match r {
            Ok(bytes) => secs <= u32::MAX && data@.len() <= u32::MAX && bytes@ == (Header {
                secs: secs as u32,
                micros,
                len: data@.len() as u32,
            }).wire() + data@,
            Err(e) => if secs > u32::MAX {
                e == (Error::FrameTooLong { input: secs })
            } else {
                data@.len() > u32::MAX && e == (Error::FrameTooBig { input: data@.len() as usize })
            },
        },
{
    match Header::new(secs, micros, data.len()) {
        Ok(header) => {
            let head = header.to_bytes();
            let mut bytes: Vec<u8> = Vec::new();
            bytes.extend_from_slice(head.as_slice());
            bytes.extend_from_slice(data);
            Ok(bytes)
        },
        Err(e) => Err(e),
    }
}

impl TryFrom<Frame> for Vec<u8> {
    type Error = Error;

    /// Writes the frame as it stands in a recording. A time below a
    /// microsecond is dropped.
    fn try_from(frame: Frame) -> (r: Result<Vec<u8>, Error>)
        ensures
            match r {
                Ok(bytes) => frame@.fits() && bytes@ == frame@.wire(),
                Err(e) => !frame@.fits() && e == frame@.refusal(),
            },
    {
        encode_frame(frame.time.as_secs(), frame.time.subsec_micros(), frame.data.as_slice())
    }
}

/// The time that a header keeps of a frame is the frame's time in whole
/// microseconds.
pub proof fn lemma_header_keeps_micros(f: FrameView)
    requires
        f.fits(),
    ensures
        f.header().total_micros() == f.nanos / 1_000,
        f.header().len == f.data.len(),
{
    let n = f.nanos as int;
    let secs = n / 1_000_000_000;
    let sub = n % 1_000_000_000;
    assert(n == secs * 1_000_000_000 + sub);
    assert(n / 1_000 == secs * 1_000_000 + sub / 1_000) by {
        assert(n == (secs * 1_000_000 + sub / 1_000) * 1_000 + sub % 1_000);
    }
    assert(sub / 1_000 < 1_000_000);
}

/// The written frame, whatever follows it, reads back as the frame with
/// its time in whole microseconds, and takes up the bytes that were
/// written.
pub proof fn lemma_first_frame_of_wire(f: FrameView, rest: Seq<u8>)
    requires
        f.fits(),
    ensures
        f.wire().len() == HEADER_LEN + f.data.len(),
        first_frame(f.wire() + rest) == Some((f.in_micros(), f.wire().len())),
{
    let h = f.header();
    let s = f.wire() + rest;
    lemma_parse_of_wire(h);
    lemma_header_keeps_micros(f);
    assert(s.subrange(0, 4) =~= h.wire().subrange(0, 4));
    assert(s.subrange(4, 8) =~= h.wire().subrange(4, 8));
    assert(s.subrange(8, 12) =~= h.wire().subrange(8, 12));
    assert(Header::parse(s) == h);
    assert(s.subrange(HEADER_LEN as int, HEADER_LEN + h.len) =~= f.data);
}

/// A frame that fits a header and whose time is a whole number of
/// microseconds, written and read back, is the same frame.
pub proof fn lemma_round_trip(f: FrameView)
    requires
        f.fits(),
        f.nanos % 1_000 == 0,
    ensures
        first_frame(f.wire()) == Some((f, f.wire().len())),
{
    lemma_first_frame_of_wire(f, Seq::empty());
    assert(f.wire() + Seq::<u8>::empty() =~= f.wire());
    assert(f.in_micros() == f);
}

/// What `try_from` returns is stated in its own contract, over the bytes
/// of the result: a vector is not determined by the bytes it holds, so no
/// spec function can give the vector itself.
impl vstd::std_specs::convert::TryFromSpecImpl<Frame> for Vec<u8> {
    open spec fn obeys_try_from_spec() -> bool {
        false
    }

    open spec fn try_from_spec(frame: Frame) -> Result<Vec<u8>, Error> {
        Err(frame@.refusal())
    }
}

} // verus!
