//! The decisions of a reader: what to do with a parser between two reads
//! from the input. The reads themselves are the caller's.

use crate::error::Error;
use crate::frame::Frame;
use crate::parser::{Parser, ParserState};
use vstd::prelude::*;

verus! {

/// What the caller is to do after a step.
#[derive(Debug)]
pub enum Step {
    /// Hand this frame out.
    Frame(Frame),
    /// Read from the input, and take the next step with what was read.
    Read,
    /// Give up with this error.
    Fail(Error),
}

/// The parser that takes a step: the one given, with what was read added
/// to it.
pub open spec fn given(s: ParserState, read: Option<&[u8]>) -> ParserState {
    match read {
        Some(bytes) => s.add_bytes(bytes@),
        None => s,
    }
}

/// One step of reading a frame. `read` is `None` at the first step, and
/// after that what the last read from the input returned: no bytes
/// where the input has ended.
///
/// At the end of the input the step fails with `Error::EOF` and leaves
/// the parser as it is. Otherwise the bytes go to the parser, and the step
/// hands out the next frame if the parser has one, and asks for a read if
/// it has none.
pub fn step(parser: &mut Parser, read: Option<&[u8]>) -> (next: Step)
    ensures
        match read {
            Some(bytes) if bytes@.len() == 0 => {
                &&& final(parser)@ == old(parser)@
                &&& next == Step::Fail(Error::EOF)
            },
            _ => {
                &&& final(parser)@ == given(old(parser)@, read).next_frame().0
                &&& match next {
                    Step::Frame(frame) => given(old(parser)@, read).next_frame().1 == Some(frame@),
                    Step::Read => given(old(parser)@, read).next_frame().1 is None,
                    Step::Fail(_) => false,
                }
            },
        },
{
    match read {
        Some(bytes) => {
            if bytes.len() == 0 {
                return Step::Fail(Error::EOF);
            }
            parser.add_bytes(bytes);
        },
        None => {},
    }
    match parser.next_frame() {
        Some(frame) => Step::Frame(frame),
        None => Step::Read,
    }
}

} // verus!
