//! What a parser returns over a whole recording, however the recording is
//! cut into chunks.

use crate::frame::{first_frame, lemma_first_frame_of_wire, FrameView};
use crate::parser::ParserState;
use crate::wire::{lemma_parse_of_wire, Header, HEADER_LEN};
use vstd::prelude::*;

verus! {

/// The frames that stand whole in `s`, in order.
pub open spec fn frames_in(s: Seq<u8>) -> Seq<FrameView>
    decreases s.len(),
{
    match first_frame(s) {
        Some((frame, end)) => seq![frame] + frames_in(s.skip(end as int)),
        None => Seq::empty(),
    }
}

/// What is left of `s` behind its whole frames.
pub open spec fn behind_frames(s: Seq<u8>) -> Seq<u8>
    decreases s.len(),
{
    match first_frame(s) {
        Some((frame, end)) => behind_frames(s.skip(end as int)),
        None => s,
    }
}

impl ParserState {
    /// The parser after `next_frame` was called until it returned nothing,
    /// and the frames that it returned, in order.
    pub open spec fn drain(self) -> (ParserState, Seq<FrameView>)
        decreases self.unread().len(),
    {
        let (s, found) = self.next_frame();
        match found {
            Some(frame) => {
                let (t, more) = s.drain();
                (t, seq![frame] + more)
            },
            None => (s, Seq::empty()),
        }
    }

    /// The parser after it was given each of `chunks` in turn and drained
    /// after each, and the frames that it returned, in order.
    pub open spec fn feed(self, chunks: Seq<Seq<u8>>) -> (ParserState, Seq<FrameView>)
        decreases chunks.len(),
    {
        if chunks.len() == 0 {
            (self, Seq::empty())
        } else {
            let (s, found) = self.add_bytes(chunks.first()).drain();
            let (t, more) = s.feed(chunks.drop_first());
            (t, found + more)
        }
    }
}

/// A call of `next_frame` that returns nothing leaves the unread part of
/// the recording as it was, changes the parser only by reading a header
/// that was not read yet, and a second call then returns nothing again and
/// changes nothing.
pub proof fn lemma_poll_again(s: ParserState)
    requires
        s.next_frame().1 is None,
    ensures
        s.next_frame().0.unread() == s.unread(),
        s.pending is Some || s.buffer.len() < HEADER_LEN ==> s.next_frame().0 == s,
        s.next_frame().0.next_frame() == (s.next_frame().0, None::<FrameView>),
{
    let t = s.next_frame().0;
    if s.pending is None && s.buffer.len() >= HEADER_LEN {
        crate::wire::lemma_wire_of_parse(s.buffer.take(HEADER_LEN as int));
        assert(s.buffer.take(HEADER_LEN as int).subrange(0, 4) =~= s.buffer.subrange(0, 4));
        assert(s.buffer.take(HEADER_LEN as int).subrange(4, 8) =~= s.buffer.subrange(4, 8));
        assert(s.buffer.take(HEADER_LEN as int).subrange(8, 12) =~= s.buffer.subrange(8, 12));
        assert(s.buffer.take(HEADER_LEN as int) + s.buffer.skip(HEADER_LEN as int) =~= s.buffer);
    }
    assert(t.read_header() == t);
}

/// `next_frame` returns the frame that stands first in the unread part of
/// the recording, where one stands there whole, and removes it.
pub proof fn lemma_next_frame_is_first_frame(s: ParserState)
    ensures
        match first_frame(s.unread()) {
            Some((frame, end)) => {
                &&& s.next_frame().1 == Some(frame)
                &&& s.next_frame().0.pending is None
                &&& s.next_frame().0.unread() == s.unread().skip(end as int)
            },
            None => {
                &&& s.next_frame().1 is None
                &&& s.next_frame().0.unread() == s.unread()
            },
        },
{
    let u = s.unread();
    match s.pending {
        Some(h) => {
            lemma_parse_of_wire(h);
            assert(u.subrange(0, 4) =~= h.wire().subrange(0, 4));
            assert(u.subrange(4, 8) =~= h.wire().subrange(4, 8));
            assert(u.subrange(8, 12) =~= h.wire().subrange(8, 12));
            assert(Header::parse(u) == h);
            assert(u.skip(HEADER_LEN as int) =~= s.buffer);
        },
        None => {},
    }
    if u.len() >= HEADER_LEN {
        let h = Header::parse(u);
        let r = s.read_header();
        assert(r.pending == Some(h));
        assert(r.buffer =~= u.skip(HEADER_LEN as int));
        if r.buffer.len() >= h.len {
            let end = HEADER_LEN + h.len;
            assert(r.buffer.take(h.len as int) =~= u.subrange(HEADER_LEN as int, end));
            assert(r.buffer.skip(h.len as int) =~= u.skip(end));
        } else {
            lemma_poll_again(s);
        }
    }
}

/// A new parser that is given a written frame returns the frame, with its
/// time in whole microseconds, and has nothing left.
pub proof fn lemma_parser_reads_written_frame(f: FrameView)
    requires
        f.fits(),
    ensures
        ParserState::empty().add_bytes(f.wire()).next_frame() == (
            ParserState::empty(),
            Some(f.in_micros()),
        ),
{
    let s = ParserState::empty().add_bytes(f.wire());
    assert(s.unread() =~= f.wire() + Seq::<u8>::empty());
    lemma_first_frame_of_wire(f, Seq::empty());
    lemma_next_frame_is_first_frame(s);
    assert(s.next_frame().0.buffer =~= Seq::<u8>::empty());
}

/// Draining a parser returns the frames that stand whole in the unread
/// part of the recording, and leaves what is behind them.
pub proof fn lemma_drain_is_frames_in(s: ParserState)
    ensures
        s.drain().1 == frames_in(s.unread()),
        s.drain().0.unread() == behind_frames(s.unread()),
    decreases s.unread().len(),
{
    lemma_next_frame_is_first_frame(s);
    if s.next_frame().1 is Some {
        lemma_drain_is_frames_in(s.next_frame().0);
    }
}

/// A drained parser has nothing to return: draining it again changes
/// nothing.
pub proof fn lemma_drained_is_quiet(s: ParserState)
    ensures
        s.drain().0.drain() == (s.drain().0, Seq::<FrameView>::empty()),
    decreases s.unread().len(),
{
    if s.next_frame().1 is Some {
        lemma_drained_is_quiet(s.next_frame().0);
    } else {
        lemma_poll_again(s);
    }
}

/// Bytes that arrive later change no frame that was there already: with
/// more bytes `next_frame` finds the same frame, and where it found none,
/// it goes on from where it stopped.
pub proof fn lemma_next_frame_with_more(s: ParserState, more: Seq<u8>)
    ensures
        s.next_frame().1 is Some ==> s.add_bytes(more).next_frame() == (
            s.next_frame().0.add_bytes(more),
            s.next_frame().1,
        ),
        s.next_frame().1 is None ==> s.add_bytes(more).next_frame() == s.next_frame().0.add_bytes(
            more,
        ).next_frame(),
{
    let a = s.add_bytes(more);
    let r = s.read_header();
    let ra = a.read_header();
    if s.pending is None && s.buffer.len() >= HEADER_LEN {
        assert(a.buffer.subrange(0, 4) =~= s.buffer.subrange(0, 4));
        assert(a.buffer.subrange(4, 8) =~= s.buffer.subrange(4, 8));
        assert(a.buffer.subrange(8, 12) =~= s.buffer.subrange(8, 12));
        assert(ra.buffer =~= r.buffer + more);
        assert(ra == r.add_bytes(more));
    }
    match r.pending {
        Some(h) => {
            assert(ra == r.add_bytes(more));
            if r.buffer.len() >= h.len {
                assert(ra.buffer.take(h.len as int) =~= r.buffer.take(h.len as int));
                assert(ra.buffer.skip(h.len as int) =~= r.buffer.skip(h.len as int) + more);
            } else {
                assert(r.add_bytes(more).read_header() == r.add_bytes(more));
            }
        },
        None => {
            assert(s.next_frame().0 == s);
        },
    }
}

/// Draining a parser before it is given more bytes changes nothing of what
/// it returns in the end.
pub proof fn lemma_drain_with_more(s: ParserState, more: Seq<u8>)
    ensures
        s.add_bytes(more).drain().0 == s.drain().0.add_bytes(more).drain().0,
        s.add_bytes(more).drain().1 == s.drain().1 + s.drain().0.add_bytes(more).drain().1,
    decreases s.unread().len(),
{
    lemma_next_frame_with_more(s, more);
    let t = s.next_frame().0;
    if s.next_frame().1 is Some {
        lemma_drain_with_more(t, more);
        let first = seq![s.next_frame().1.unwrap()];
        let mid = t.drain().1;
        let last = t.drain().0.add_bytes(more).drain().1;
        assert(first + (mid + last) =~= (first + mid) + last);
    } else {
        assert(s.drain().1 + t.add_bytes(more).drain().1 =~= t.add_bytes(more).drain().1);
    }
}

/// A parser with nothing left to return, given a recording in chunks and
/// drained after each chunk, returns the frames that it returns when given
/// the recording in one piece, and is left in the same state.
pub proof fn lemma_feed_is_drain(s: ParserState, chunks: Seq<Seq<u8>>)
    requires
        s.drain() == (s, Seq::<FrameView>::empty()),
    ensures
        s.feed(chunks) == s.add_bytes(chunks.flatten()).drain(),
    decreases chunks.len(),
{
    if chunks.len() == 0 {
        assert(s.add_bytes(chunks.flatten()).buffer =~= s.buffer);
        assert(s.add_bytes(chunks.flatten()) == s);
    } else {
        let first = chunks.first();
        let rest = chunks.drop_first().flatten();
        let a = s.add_bytes(first);
        lemma_drained_is_quiet(a);
        lemma_feed_is_drain(a.drain().0, chunks.drop_first());
        lemma_drain_with_more(a, rest);
        assert(a.add_bytes(rest).buffer =~= s.add_bytes(chunks.flatten()).buffer);
        assert(a.add_bytes(rest) == s.add_bytes(chunks.flatten()));
    }
}

/// However a recording is cut into chunks, a new parser that is given
/// the chunks in order and drained after each returns the same frames:
/// those that stand whole in the recording, in order.
pub proof fn lemma_chunking_is_invisible(chunks: Seq<Seq<u8>>)
    ensures
        ParserState::empty().feed(chunks).1 == frames_in(chunks.flatten()),
        ParserState::empty().feed(chunks) == ParserState::empty().feed(seq![chunks.flatten()]),
{
    let e = ParserState::empty();
    let whole = seq![chunks.flatten()];
    lemma_feed_is_drain(e, chunks);
    lemma_feed_is_drain(e, whole);
    assert(whole.flatten() =~= chunks.flatten()) by {
        assert(whole.drop_first() =~= Seq::<Seq<u8>>::empty());
        assert(whole.drop_first().flatten() =~= Seq::<u8>::empty());
        assert(whole.first() + whole.drop_first().flatten() =~= chunks.flatten());
    }
    lemma_drain_is_frames_in(e.add_bytes(chunks.flatten()));
    assert(e.add_bytes(chunks.flatten()).unread() =~= chunks.flatten());
}

} // verus!
