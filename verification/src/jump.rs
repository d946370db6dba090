//! Source-backed Cepheus Engine Jump timing and success resolution.

use vstd::prelude::*;
use crate::arith::{mix64, mix64_spec, rotl, rotl_spec};

verus! {

pub const MINIMUM_JUMP_HOURS: u64 = 148;

#[derive(Clone, Copy, Debug, PartialEq, Eq)]
pub enum JumpQuality {
    Accurate,
    Inaccurate { extra_days: u8 },
    Misjump { distance_parsecs: u8, direction_millionths: [i32; 3] },
}

#[derive(Clone, Copy, Debug, PartialEq, Eq)]
pub struct JumpResolution {
    pub duration_seconds: u64,
    pub first_die: u8,
    pub second_die: u8,
    pub total: i16,
    pub quality: JumpQuality,
}

pub open spec fn d6_spec(entropy: u64, lane: u32) -> u8 {
    ((mix64_spec(rotl_spec(entropy, lane) ^ (lane as u64)) % 6) + 1) as u8
}

fn d6(entropy: u64, lane: u32) -> (r: u8)
    ensures
        r == d6_spec(entropy, lane),
        1 <= r <= 6,
{
    ((mix64(rotl(entropy, lane) ^ lane as u64) % 6) + 1) as u8
}

/// The six duration dice, summed.
pub open spec fn duration_dice(entropy: u64, lanes: nat) -> nat
    decreases lanes,
{
    if lanes == 0 {
        0
    } else {
        duration_dice(entropy, (lanes - 1) as nat) + d6_spec(
            entropy ^ 0x4a55_4d50u64,
            ((lanes - 1) * 7) as u32,
        ) as nat
    }
}

/// The plot-age and drive-damage penalties, each capped at `i16::MAX`.
pub open spec fn age_penalty(plot_age_months: u16) -> int {
    if plot_age_months <= 32767 {
        plot_age_months as int
    } else {
        32767
    }
}

pub open spec fn drive_penalty(jump_drive_hits: u16) -> int {
    let doubled: int = if jump_drive_hits * 2 > 65535 {
        65535
    } else {
        jump_drive_hits * 2
    };
    if doubled <= 32767 {
        doubled
    } else {
        32767
    }
}

/// The success total before the known-bad-plot override.
pub open spec fn success_total(
    first: u8,
    second: u8,
    engineer_effect: i16,
    plot_age_months: u16,
    jump_drive_hits: u16,
    unrefined_fuel: bool,
) -> int {
    first + second + engineer_effect - age_penalty(plot_age_months) - drive_penalty(jump_drive_hits)
        - if unrefined_fuel {
        2int
    } else {
        0int
    }
}

/// Every partial sum of the success total stays within `i16`.
pub open spec fn total_in_range(
    first: u8,
    second: u8,
    engineer_effect: i16,
    plot_age_months: u16,
    jump_drive_hits: u16,
    unrefined_fuel: bool,
) -> bool {
    let a = first + second + engineer_effect;
    let b = a - age_penalty(plot_age_months);
    let c = b - drive_penalty(jump_drive_hits);
    let d = c - if unrefined_fuel {
        2int
    } else {
        0int
    };
    &&& i16::MIN <= a <= i16::MAX
    &&& i16::MIN <= b <= i16::MAX
    &&& i16::MIN <= c <= i16::MAX
    &&& i16::MIN <= d <= i16::MAX
}

/// `k` is `value / sqrt(sum_squares)` rounded half away from zero, for a
/// non-negative `value`: the largest `k` with `k <= value / sqrt(sum_squares) + 1/2`.
pub open spec fn half_up_fits(value: nat, sum_squares: nat, k: nat) -> bool {
    k == 0 || (2 * k - 1) * (2 * k - 1) * sum_squares <= 4 * value * value
}

pub open spec fn is_rounded_ratio(value: nat, sum_squares: nat, k: nat) -> bool {
    half_up_fits(value, sum_squares, k) && !half_up_fits(value, sum_squares, k + 1)
}

/// `round(component * 1_000_000 / sqrt(sum_squares))`, exactly, for the small
/// misjump direction components.
pub fn scaled_direction(component: i32, sum_squares: u64) -> (r: i32)
    requires
        -5 <= component <= 5,
        1 <= sum_squares <= 75,
    ensures
        component >= 0 ==> r >= 0 && is_rounded_ratio(
            (component * 1_000_000) as nat,
            sum_squares as nat,
            r as nat,
        ),
        component < 0 ==> r <= 0 && is_rounded_ratio(
            (-component * 1_000_000) as nat,
            sum_squares as nat,
            (-r) as nat,
        ),
{
    let magnitude: u64 = if component < 0 {
        (-component) as u64
    } else {
        component as u64
    };
    let value: u64 = magnitude * 1_000_000;
    proof {
        assert(4 * value * value <= 100_000_000_000_000) by (nonlinear_arith)
            requires
                value <= 5_000_000,
        ;
    }
    let target: u64 = 4 * value * value;
    let ghost v = value as nat;
    let ghost m = sum_squares as nat;
    // Invariant: `low` fits, `high` does not.
    let mut low: u64 = 0;
    let mut high: u64 = 5_000_001;
    proof {
        assert((2 * 5_000_001 - 1) * (2 * 5_000_001 - 1) * m > 4 * v * v) by (nonlinear_arith)
            requires
                v <= 5_000_000,
                m >= 1,
        ;
    }
    while high - low > 1
        invariant
            low < high <= 5_000_001,
            v == value as nat,
            m == sum_squares as nat,
            value <= 5_000_000,
            1 <= sum_squares <= 75,
            target == 4 * value * value,
            half_up_fits(v, m, low as nat),
            !half_up_fits(v, m, high as nat),
        decreases high - low,
    {
        let middle = low + (high - low) / 2;
        let odd = 2 * middle - 1;
        proof {
            assert(odd <= 10_000_001);
            assert(odd * odd <= 10_000_001 * 10_000_001) by (nonlinear_arith)
                requires
                    odd <= 10_000_001,
            ;
            assert(odd * odd * sum_squares <= 10_000_001 * 10_000_001 * 75) by (nonlinear_arith)
                requires
                    odd * odd <= 10_000_001 * 10_000_001,
                    sum_squares <= 75,
            ;
        }
        if odd * odd * sum_squares <= target {
            low = middle;
        } else {
            high = middle;
        }
    }
    proof {
        assert(high == low + 1);
    }
    if component < 0 {
        -(low as i32)
    } else {
        low as i32
    }
}

/// The duration, dice, total, and quality of one jump.
pub open spec fn resolve_spec(
    entropy: u64,
    engineer_effect: i16,
    plot_age_months: u16,
    jump_drive_hits: u16,
    unrefined_fuel: bool,
    known_bad_plot: bool,
) -> (u64, u8, u8, int) {
    let first = d6_spec(entropy ^ 0x5355_4343u64, 3);
    let second = d6_spec(entropy ^ 0x4553_5300u64, 19);
    let total = if known_bad_plot {
        i16::MIN as int
    } else {
        success_total(
            first,
            second,
            engineer_effect,
            plot_age_months,
            jump_drive_hits,
            unrefined_fuel,
        )
    };
    (((MINIMUM_JUMP_HOURS + duration_dice(entropy, 6)) * 3600) as u64, first, second, total)
}

/// Without a known bad plot, the success total is the two dice plus the
/// engineer's effect, less the plot's age in months, twice the drive hits,
/// and two for unrefined fuel (for ages and hits small enough not to be
/// capped); with a known bad plot it is the lowest `i16`.
pub proof fn lemma_success_total_terms(
    entropy: u64,
    engineer_effect: i16,
    plot_age_months: u16,
    jump_drive_hits: u16,
    unrefined_fuel: bool,
)
    ensures
        ({
            let (_, first, second, total) = resolve_spec(
                entropy,
                engineer_effect,
                plot_age_months,
                jump_drive_hits,
                unrefined_fuel,
                false,
            );
            plot_age_months <= 32767 && jump_drive_hits <= 16383 ==> total == first + second
                + engineer_effect - plot_age_months - 2 * jump_drive_hits - (if unrefined_fuel {
                2int
            } else {
                0int
            })
        }),
        resolve_spec(entropy, engineer_effect, plot_age_months, jump_drive_hits, unrefined_fuel, true).3
            == i16::MIN,
{
}

/// The engineer's effect adds to the success total, point for point: two
/// jumps that differ only in it differ in their totals by as much.
pub proof fn lemma_engineer_effect_adds(
    entropy: u64,
    e1: i16,
    e2: i16,
    plot_age_months: u16,
    jump_drive_hits: u16,
    unrefined_fuel: bool,
)
    ensures
        resolve_spec(entropy, e2, plot_age_months, jump_drive_hits, unrefined_fuel, false).3
            - resolve_spec(entropy, e1, plot_age_months, jump_drive_hits, unrefined_fuel, false).3
            == e2 - e1,
{
}

/// Older plots, more drive hits and unrefined fuel never raise the success
/// total.
pub proof fn lemma_penalties_lower_the_total(
    entropy: u64,
    engineer_effect: i16,
    age1: u16,
    age2: u16,
    hits1: u16,
    hits2: u16,
    fuel1: bool,
    fuel2: bool,
)
    requires
        age1 <= age2,
        hits1 <= hits2,
        fuel1 ==> fuel2,
    ensures
        resolve_spec(entropy, engineer_effect, age2, hits2, fuel2, false).3 <= resolve_spec(
            entropy,
            engineer_effect,
            age1,
            hits1,
            fuel1,
            false,
        ).3,
{
}

fn jump_duration_seconds(entropy: u64) -> (r: u64)
    ensures
        r == (MINIMUM_JUMP_HOURS + duration_dice(entropy, 6)) * 3600,
        (148 + 6) * 3600 <= r <= (148 + 36) * 3600,
{
    let mut duration_dice_total: u64 = 0;
    let mut lane: u32 = 0;
    while lane < 6
        invariant
            lane <= 6,
            duration_dice_total == duration_dice(entropy, lane as nat),
            lane <= duration_dice_total <= 6 * lane,
        decreases 6 - lane,
    {
        duration_dice_total = duration_dice_total + d6(entropy ^ 0x4a55_4d50u64, lane * 7) as u64;
        lane = lane + 1;
    }
    (MINIMUM_JUMP_HOURS + duration_dice_total) * 60 * 60
}

pub open spec fn misjump_distance(entropy: u64) -> u8 {
    let product = d6_spec(entropy ^ 0x4d49_534au64, 5) * d6_spec(entropy ^ 0x554d_5000u64, 31);
    if product > 255 {
        255
    } else {
        product as u8
    }
}

fn direction_component(entropy: u64, first: u64, first_lane: u32, second: u64, second_lane: u32) -> (r: i32)
    ensures
        r == d6_spec(entropy ^ first, first_lane) - d6_spec(entropy ^ second, second_lane),
        -5 <= r <= 5,
{
    d6(entropy ^ first, first_lane) as i32 - d6(entropy ^ second, second_lane) as i32
}

fn misjump(entropy: u64) -> (r: JumpQuality)
    ensures
        r matches JumpQuality::Misjump { distance_parsecs, .. } && distance_parsecs
            == misjump_distance(entropy),
{
    let a = d6(entropy ^ 0x4d49_534au64, 5);
    let b = d6(entropy ^ 0x554d_5000u64, 31);
    proof {
        assert(a as u16 * b as u16 <= 36) by (nonlinear_arith)
            requires
                a <= 6,
                b <= 6,
        ;
    }
    let distance_parsecs: u8 = if a as u16 * b as u16 > 255 {
        255
    } else {
        a * b
    };
    let x = direction_component(entropy, 0x4449_5231u64, 2, 0x4449_5232u64, 11);
    let y = direction_component(entropy, 0x4449_5233u64, 17, 0x4449_5234u64, 23);
    let z = direction_component(entropy, 0x4449_5235u64, 29, 0x4449_5236u64, 37);
    proof {
        assert(0 <= x * x <= 25 && 0 <= y * y <= 25 && 0 <= z * z <= 25) by (nonlinear_arith)
            requires
                -5 <= x <= 5,
                -5 <= y <= 5,
                -5 <= z <= 5,
        ;
        assert(x * x + y * y + z * z == 0 <==> x == 0 && y == 0 && z == 0) by (nonlinear_arith)
            requires
                0 <= x * x,
                0 <= y * y,
                0 <= z * z,
        ;
    }
    let sum_squares: u64 = (x * x + y * y + z * z) as u64;
    let direction_millionths: [i32; 3] = if sum_squares == 0 {
        [1_000_000, 0, 0]
    } else {
        [
            scaled_direction(x, sum_squares),
            scaled_direction(y, sum_squares),
            scaled_direction(z, sum_squares),
        ]
    };
    JumpQuality::Misjump { distance_parsecs, direction_millionths }
}

pub fn resolve(
    entropy: u64,
    engineer_effect: i16,
    plot_age_months: u16,
    jump_drive_hits: u16,
    unrefined_fuel: bool,
    known_bad_plot: bool,
) -> (r: JumpResolution)
    requires
        known_bad_plot || total_in_range(
            d6_spec(entropy ^ 0x5355_4343u64, 3),
            d6_spec(entropy ^ 0x4553_5300u64, 19),
            engineer_effect,
            plot_age_months,
            jump_drive_hits,
            unrefined_fuel,
        ),
    ensures
        ({
            let (duration, first, second, total) = resolve_spec(
                entropy,
                engineer_effect,
                plot_age_months,
                jump_drive_hits,
                unrefined_fuel,
                known_bad_plot,
            );
            &&& r.duration_seconds == duration
            &&& r.first_die == first
            &&& r.second_die == second
            &&& r.total == total
        }),
        (148 + 6) * 3600 <= r.duration_seconds <= (148 + 36) * 3600,
        r.total >= 8 <==> r.quality is Accurate,
        0 < r.total < 8 <==> r.quality is Inaccurate,
        r.total <= 0 <==> r.quality is Misjump,
        r.quality matches JumpQuality::Inaccurate { extra_days } ==> extra_days == d6_spec(
            entropy ^ 0x494e_4143u64,
            27,
        ),
        r.quality matches JumpQuality::Misjump { distance_parsecs, .. } ==> distance_parsecs
            == misjump_distance(entropy),
{
    let duration_seconds = jump_duration_seconds(entropy);
    let first_die = d6(entropy ^ 0x5355_4343u64, 3);
    let second_die = d6(entropy ^ 0x4553_5300u64, 19);
    let total: i16 = if known_bad_plot {
        i16::MIN
    } else {
        let age: i16 = if plot_age_months <= 32767 {
            plot_age_months as i16
        } else {
            i16::MAX
        };
        let doubled: u16 = if jump_drive_hits > 32767 {
            u16::MAX
        } else {
            jump_drive_hits * 2
        };
        let hits: i16 = if doubled <= 32767 {
            doubled as i16
        } else {
            i16::MAX
        };
        let fuel: i16 = if unrefined_fuel {
            2
        } else {
            0
        };
        first_die as i16 + second_die as i16 + engineer_effect - age - hits - fuel
    };
    let quality = if total >= 8 {
        JumpQuality::Accurate
    } else if total > 0 {
        JumpQuality::Inaccurate { extra_days: d6(entropy ^ 0x494e_4143u64, 27) }
    } else {
        misjump(entropy)
    };
    JumpResolution { duration_seconds, first_die, second_die, total, quality }
}

} // verus!
