//! What this crate relies on from `std::time`.

use std::time::{Duration, Instant};
use vstd::prelude::*;

verus! {

/// `std::time::Instant`: a point in time, of which nothing is known but
/// what the functions below say.
#[verifier::external_type_specification]
#[verifier::external_body]
pub struct ExInstant(Instant);

/// The length of `d` in nanoseconds: its whole seconds and the part below
/// a second, together.
pub uninterp spec fn duration_nanos(d: Duration) -> nat;

/// What `Instant::saturating_duration_since` measures, in nanoseconds: the
/// time from `earlier` to `later`, zero where `earlier` is the later of the
/// two.
pub uninterp spec fn nanos_between(later: Instant, earlier: Instant) -> nat;

/// `Duration::as_secs` gives the whole seconds of the duration.
pub assume_specification[ Duration::as_secs ](d: &Duration) -> (secs: u64)
    ensures
        secs == duration_nanos(*d) / 1_000_000_000,
;

/// `Duration::subsec_micros` gives the part of the duration below one second,
/// in whole microseconds.
pub assume_specification[ Duration::subsec_micros ](d: &Duration) -> (micros: u32)
    ensures
        micros == duration_nanos(*d) % 1_000_000_000 / 1_000,
;

/// `Duration::from_micros` gives the duration of that many microseconds.
pub assume_specification[ Duration::from_micros ](micros: u64) -> (d: Duration)
    ensures
        duration_nanos(d) == micros * 1_000,
;

/// `Instant::saturating_duration_since` gives the time that passed from
/// `earlier` to `later`; from an instant to itself that is nothing.
pub assume_specification[ Instant::saturating_duration_since ](
    later: &Instant,
    earlier: Instant,
) -> (d: Duration)
    ensures
        duration_nanos(d) == nanos_between(*later, earlier),
        *later == earlier ==> duration_nanos(d) == 0,
;

/// A clone of a `Duration`, which is `Copy`, is the duration itself.
pub assume_specification[ <Duration as Clone>::clone ](d: &Duration) -> (copy: Duration)
    ensures
        copy == *d,
;

/// `Instant::now` reads the clock: nothing is known of what it returns.
pub assume_specification[ Instant::now ]() -> (now: Instant);

} // verus!
