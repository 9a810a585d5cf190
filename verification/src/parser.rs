//! Decoding a recording that arrives in pieces.

use crate::frame::{Frame, FrameView};
use crate::wire::{Header, HEADER_LEN};
use std::collections::VecDeque;
use vstd::prelude::*;

verus! {

/// What a parser holds: the bytes it was given and has not used yet, and
/// the header of the frame whose payload it waits for, if it has read one.
pub struct ParserState {
    pub buffer: Seq<u8>,
    pub pending: Option<Header>,
}

impl ParserState {
    /// A parser that was given nothing yet.
    pub open spec fn empty() -> ParserState {
        ParserState { buffer: Seq::empty(), pending: None }
    }

    /// The parser after it was given `chunk`.
    pub open spec fn add_bytes(self, chunk: Seq<u8>) -> ParserState {
        ParserState { buffer: self.buffer + chunk, pending: self.pending }
    }

    /// The parser once it has read the header of the next frame, if the
    /// header is there: a header is read whole or not at all.
    pub open spec fn read_header(self) -> ParserState {
        if self.pending is None && self.buffer.len() >= HEADER_LEN {
            ParserState {
                buffer: self.buffer.skip(HEADER_LEN as int),
                pending: Some(Header::parse(self.buffer)),
            }
        } else {
            self
        }
    }

    /// The parser after one attempt to read a frame, and the frame if
    /// there was one. Without a frame the parser keeps the header that it
    /// has read and every byte of the payload.
    pub open spec fn next_frame(self) -> (ParserState, Option<FrameView>) {
        let s = self.read_header();
        match s.pending {
            Some(h) if s.buffer.len() >= h.len => (
                ParserState { buffer: s.buffer.skip(h.len as int), pending: None },
                Some(
                    FrameView {
                        nanos: h.total_micros() * 1_000,
                        data: s.buffer.take(h.len as int),
                    },
                ),
            ),
            _ => (s, None),
        }
    }

    /// The part of the recording that the parser was given and has not
    /// returned as frames yet.
    pub open spec fn unread(self) -> Seq<u8> {
        match self.pending {
            Some(h) => h.wire() + self.buffer,
            None => self.buffer,
        }
    }
}

/// Parses ttyrec streams.
///
/// Designed to be able to be used in a streaming fashion. As bytes of the
/// recording arrive, `add_bytes` adds them to the internal buffer. At any
/// point, `next_frame` returns the next complete frame if one has arrived.
#[derive(Debug, Clone)]
pub struct Parser {
    reading: VecDeque<u8>,
    read_state: Option<Header>,
}

impl View for Parser {
    type V = ParserState;

    closed spec fn view(&self) -> ParserState {
        ParserState { buffer: self.reading@, pending: self.read_state }
    }
}

impl Parser {
    /// Create a new `Parser`.
    pub fn new() -> (parser: Parser)
        ensures
            parser@ == ParserState::empty(),
    {
        Parser { reading: VecDeque::new(), read_state: None }
    }

    /// Add more bytes to the internal buffer.
    pub fn add_bytes(&mut self, bytes: &[u8])
        ensures
            final(self)@ == old(self)@.add_bytes(bytes@),
    {
        let n = bytes.len();
        let mut i: usize = 0;
        while i < n
            invariant
                n == bytes@.len(),
                i <= n,
                self.read_state == old(self).read_state,
                self.reading@ == old(self).reading@ + bytes@.take(i as int),
            decreases n - i,
        {
            self.reading.push_back(bytes[i]);
            i += 1;
            assert(bytes@.take(i as int) =~= bytes@.take(i - 1).push(bytes@[i - 1]));
        }
        assert(bytes@.take(n as int) =~= bytes@);
    }

    /// Try to read a frame from the internal buffer.
    ///
    /// If a complete frame is found, the bytes for that frame will be removed
    /// from the internal buffer and the frame object will be returned. If a
    /// complete frame is not found, this method will return `None`.
    pub fn next_frame(&mut self) -> (frame: Option<Frame>)
        ensures
            final(self)@ == old(self)@.next_frame().0,
            match frame {
                Some(f) => old(self)@.next_frame().1 == Some(f@),
                None => old(self)@.next_frame().1 is None,
            },
    {
        let header = match self.read_state {
            Some(header) => header,
            None => {
                if self.reading.len() < HEADER_LEN {
                    return None;
                }
                let head = take_header(&mut self.reading);
                let header = Header::from_bytes(&head);
                self.read_state = Some(header);
                header
            },
        };
        let len = header.len();
        if self.reading.len() < len {
            return None;
        }
        let data = take_front(&mut self.reading, len);
        let time = header.time();
        self.read_state = None;
        Some(Frame { time, data })
    }
}

impl Default for Parser {
    fn default() -> (parser: Parser)
        ensures
            parser@ == ParserState::empty(),
    {
        Parser::new()
    }
}

/// Takes the first `n` bytes off the queue.
fn take_front(queue: &mut VecDeque<u8>, n: usize) -> (taken: Vec<u8>)
    requires
        n <= old(queue)@.len(),
    ensures
        taken@ == old(queue)@.take(n as int),
        final(queue)@ == old(queue)@.skip(n as int),
{
    let mut taken: Vec<u8> = Vec::new();
    let mut i: usize = 0;
    while i < n
        invariant
            i <= n <= old(queue)@.len(),
            taken@ == old(queue)@.take(i as int),
            queue@ == old(queue)@.skip(i as int),
        decreases n - i,
    {
        let byte = queue.pop_front();
        taken.push(byte.unwrap());
        i += 1;
        assert(taken@ =~= old(queue)@.take(i as int));
        assert(queue@ =~= old(queue)@.skip(i as int));
    }
    taken
}

/// Takes the twelve bytes of a header off the queue.
fn take_header(queue: &mut VecDeque<u8>) -> (head: [u8; 12])
    requires
        old(queue)@.len() >= HEADER_LEN,
    ensures
        head@ == old(queue)@.take(HEADER_LEN as int),
        final(queue)@ == old(queue)@.skip(HEADER_LEN as int),
{
    let taken = take_front(queue, HEADER_LEN);
    let head = [
        taken[0],
        taken[1],
        taken[2],
        taken[3],
        taken[4],
        taken[5],
        taken[6],
        taken[7],
        taken[8],
        taken[9],
        taken[10],
        taken[11],
    ];
    assert(head@ =~= taken@);
    head
}

} // verus!
