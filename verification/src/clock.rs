//! Mapping from monotonic process time to the authoritative game-second target.

use vstd::prelude::*;
use std::time::Instant;

verus! {

pub const CLOCK_FORMAT_VERSION: u64 = 1;
pub const GAME_SECONDS_PER_RATE_PERIOD: u64 = 28;
/// The rate period, one second, in nanoseconds.
pub const RATE_PERIOD_NANOS: u128 = 1_000_000_000;

#[verifier::external_type_specification]
#[verifier::external_body]
pub struct ExInstant(Instant);

/// `std::time::Instant::now`: the current reading of the monotonic clock.
/// Nothing is claimed of the reading.
#[verifier::external_body]
fn instant_now() -> Instant {
    Instant::now()
}

/// `Instant::saturating_duration_since`, in whole nanoseconds
/// (`Duration::as_nanos`): the time from `earlier` to `later`, or zero when
/// `later` is not after `earlier`.  What comes back depends on the two
/// clock readings, which Verus cannot see into; nothing is claimed of it.
#[verifier::external_body]
fn nanos_since(later: Instant, earlier: Instant) -> u128 {
    later.saturating_duration_since(earlier).as_nanos()
}

/// The game second reached after `elapsed_nanos` of process time from the
/// anchor: whole game seconds at 28 per rate period, rounded down, with
/// both steps saturating.
pub open spec fn target_spec(anchor_game_second: u64, elapsed_nanos: u128) -> u64 {
    let scaled_product: int = if elapsed_nanos * 28 > u128::MAX {
        u128::MAX as int
    } else {
        elapsed_nanos * 28
    };
    let scaled = scaled_product / 1_000_000_000;
    let advance: int = if scaled > u64::MAX {
        u64::MAX as int
    } else {
        scaled
    };
    if anchor_game_second + advance > u64::MAX {
        u64::MAX
    } else {
        (anchor_game_second + advance) as u64
    }
}

/// The game second that a clock anchored at `anchor_game_second` shows
/// after `elapsed_nanos` of process time.
pub fn target_for_elapsed(anchor_game_second: u64, elapsed_nanos: u128) -> (r: u64)
    ensures
        r == target_spec(anchor_game_second, elapsed_nanos),
{
    let product = elapsed_nanos.checked_mul(GAME_SECONDS_PER_RATE_PERIOD as u128);
    let scaled_product: u128 = match product {
        Some(p) => p,
        None => u128::MAX,
    };
    let scaled: u128 = scaled_product / RATE_PERIOD_NANOS;
    let advance: u64 = if scaled > u64::MAX as u128 {
        u64::MAX
    } else {
        scaled as u64
    };
    anchor_game_second.saturating_add(advance)
}

#[derive(Clone, Copy, Debug)]
pub struct LiveClock {
    anchor_instant: Instant,
    anchor_game_second: u64,
}

impl LiveClock {
    pub closed spec fn anchor_second(self) -> u64 {
        self.anchor_game_second
    }

    pub closed spec fn anchor_reading(self) -> Instant {
        self.anchor_instant
    }

    pub fn new(anchor_game_second: u64, anchor_instant: Instant) -> (r: Self)
        ensures
            r.anchor_second() == anchor_game_second,
            r.anchor_reading() == anchor_instant,
    {
        Self { anchor_instant, anchor_game_second }
    }

    /// A clock anchored at `anchor_game_second` now.
    pub fn now(anchor_game_second: u64) -> (r: Self)
        ensures
            r.anchor_second() == anchor_game_second,
    {
        Self::new(anchor_game_second, instant_now())
    }

    /// The game second the clock shows at `now`: the anchor plus the game
    /// seconds of the process time elapsed since the anchor reading.
    pub fn target_second(&self, now: Instant) -> (r: u64)
        ensures
            exists|elapsed_nanos: u128| r == target_spec(self.anchor_second(), elapsed_nanos),
            r >= self.anchor_second(),
    {
        let elapsed = nanos_since(now, self.anchor_instant);
        let r = target_for_elapsed(self.anchor_game_second, elapsed);
        assert(r == target_spec(self.anchor_second(), elapsed));
        r
    }

    pub fn reanchor(&mut self, game_second: u64, now: Instant)
        ensures
            final(self).anchor_second() == game_second,
            final(self).anchor_reading() == now,
    {
        self.anchor_game_second = game_second;
        self.anchor_instant = now;
    }
}

/// No process time leaves the anchor where it was; a reanchored clock
/// starts again from its new anchor.
pub proof fn lemma_no_elapsed_time_keeps_the_anchor(anchor_game_second: u64)
    ensures
        target_spec(anchor_game_second, 0) == anchor_game_second,
{
}

/// The game second never runs backwards as process time passes.
pub proof fn lemma_target_monotonic(anchor_game_second: u64, earlier: u128, later: u128)
    requires
        earlier <= later,
    ensures
        target_spec(anchor_game_second, earlier) <= target_spec(anchor_game_second, later),
{
    let a: int = if earlier * 28 > u128::MAX { u128::MAX as int } else { earlier * 28 };
    let b: int = if later * 28 > u128::MAX { u128::MAX as int } else { later * 28 };
    assert(a <= b) by (nonlinear_arith)
        requires
            earlier <= later,
            a == (if earlier * 28 > u128::MAX { u128::MAX as int } else { earlier * 28 }),
            b == (if later * 28 > u128::MAX { u128::MAX as int } else { later * 28 }),
    ;
    assert(a / 1_000_000_000 <= b / 1_000_000_000) by (nonlinear_arith)
        requires
            a <= b,
    ;
}

} // verus!
