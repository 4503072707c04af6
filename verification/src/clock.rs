//! Points in time, as nanoseconds on a clock that only goes forward.

use vstd::prelude::*;

verus! {

/// The nanoseconds from `then` to `now`; none where `then` is the later one.
pub open spec fn elapsed(now: u64, then: u64) -> int {
    if now > then {
        now - then
    } else {
        0
    }
}

/// The whole seconds from `then` to `now`.
pub open spec fn spec_elapsed_secs(now: u64, then: u64) -> int {
    elapsed(now, then) / 1_000_000_000
}

/// The whole milliseconds from `then` to `now`.
pub open spec fn spec_elapsed_millis(now: u64, then: u64) -> int {
    elapsed(now, then) / 1_000_000
}

pub fn elapsed_secs(now: u64, then: u64) -> (secs: u64)
    ensures
        secs == spec_elapsed_secs(now, then),
        now >= then ==> secs == (now - then) / 1_000_000_000,
        now < then ==> secs == 0,
{
    if now > then {
        (now - then) / 1_000_000_000
    } else {
        0
    }
}

pub fn elapsed_millis(now: u64, then: u64) -> (millis: u64)
    ensures
        millis == spec_elapsed_millis(now, then),
        now >= then ==> millis == (now - then) / 1_000_000,
        now < then ==> millis == 0,
{
    if now > then {
        (now - then) / 1_000_000
    } else {
        0
    }
}

/// A whole second, or millisecond, counts once it has passed, and not before. Where `then` is the
/// later one, none has.
pub proof fn law_whole_units_count(now: u64, then: u64)
    ensures
        now >= then ==> {
            &&& spec_elapsed_secs(now, then) * 1_000_000_000 <= now - then
            &&& now - then < (spec_elapsed_secs(now, then) + 1) * 1_000_000_000
            &&& spec_elapsed_millis(now, then) * 1_000_000 <= now - then
            &&& now - then < (spec_elapsed_millis(now, then) + 1) * 1_000_000
        },
        now < then ==> spec_elapsed_secs(now, then) == 0 && spec_elapsed_millis(now, then) == 0,
{
}

} // verus!
