//! Encoding frames relative to the time of the first one.

use crate::error::Error;
use crate::frame::{encode_frame, FrameView};
use crate::time::nanos_between;
use std::time::Instant;
use vstd::prelude::*;

verus! {

/// Creates ttyrec frames.
///
/// A ttyrec file is a stream of concatenated frames. This struct writes
/// frames as bytes, and a ttyrec file can be generated by concatenating
/// what it returns.
#[derive(Debug, Clone)]
pub struct Creator {
    base_time: Option<Instant>,
}

/// The time of a frame made at `now` by a creator whose first frame was
/// made at `base`, in nanoseconds. The first frame is at time zero. A
/// frame made before the first one is at time zero too.
pub open spec fn elapsed_nanos(base: Option<Instant>, now: Instant) -> nat {
    match base {
        Some(first) => nanos_between(now, first),
        None => 0,
    }
}

/// What a creator with base time `before` does with a frame of `data`
/// made at `now`: it writes the frame and keeps the base time, or takes
/// `now` for it if it had none; or it refuses the frame, and is left as
/// it was.
pub open spec fn frame_written(
    before: Option<Instant>,
    now: Instant,
    data: Seq<u8>,
    after: Option<Instant>,
    r: Result<Vec<u8>, Error>,
) -> bool {
    let frame = FrameView { nanos: elapsed_nanos(before, now), data };
    match r {
        Ok(bytes) => {
            &&& frame.fits()
            &&& bytes@ == frame.wire()
            &&& after == Some(
                match before {
                    Some(first) => first,
                    None => now,
                },
            )
        },
        Err(e) => {
            &&& !frame.fits()
            &&& e == frame.refusal()
            &&& after == before
        },
    }
}

impl Creator {
    /// The time of the first frame, once one was written.
    pub closed spec fn base(&self) -> Option<Instant> {
        self.base_time
    }

    /// Creates a new [`Creator`] instance.
    #[must_use]
    pub fn new() -> (creator: Creator)
        ensures
            creator.base() is None,
    {
        Creator { base_time: None }
    }

    /// Returns the bytes of a new frame containing the given data, made
    /// now.
    ///
    /// Equivalent to calling [`frame_at`](Self::frame_at) and passing
    /// [`std::time::Instant::now()`] as the `cur_time` parameter.
    pub fn frame(&mut self, data: &[u8]) -> (r: Result<Vec<u8>, Error>)
        ensures
            exists|now: Instant| frame_written(old(self).base(), now, data@, final(self).base(), r),
    {
        let now = Instant::now();
        let r = self.frame_at(now, data);
        assert(frame_written(old(self).base(), now, data@, self.base(), r));
        r
    }

    /// Returns the bytes of a new frame containing the given data at the
    /// given time: the header, then the data.
    ///
    /// The time in the frame is the time since the first frame that this
    /// creator wrote, so the `cur_time` parameters given in each call
    /// must be non-decreasing. An earlier time than that of the first frame
    /// is written as zero.
    pub fn frame_at(&mut self, cur_time: Instant, data: &[u8]) -> (r: Result<Vec<u8>, Error>)
        ensures
            frame_written(old(self).base(), cur_time, data@, final(self).base(), r),
    {
        let base_time = match self.base_time {
            Some(base_time) => base_time,
            None => cur_time,
        };
        let time = cur_time.saturating_duration_since(base_time);
        let r = encode_frame(time.as_secs(), time.subsec_micros(), data);
        if r.is_ok() {
            self.base_time = Some(base_time);
        }
        r
    }
}

impl Default for Creator {
    fn default() -> (creator: Creator)
        ensures
            creator.base() is None,
    {
        Creator::new()
    }
}

} // verus!
