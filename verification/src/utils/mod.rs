//! Plain data shared by the bar and its widgets, and the text helpers.
pub mod callback;
pub mod resettable_timer;
pub mod strings;
pub mod timed_hooks;

pub use callback::{Callback, OnClickCallback};
pub use resettable_timer::ResettableTimer;

use crate::utils::strings::{decimal, spec_decimal};
use vstd::arithmetic::div_mod::lemma_div_denominator;
use vstd::arithmetic::power::{lemma_pow_positive, pow};
use vstd::prelude::*;

verus! {

/// A rectangle of the bar, in pixels.
#[derive(Debug, Clone, Copy, PartialEq, Eq, Structural)]
pub struct Rectangle {
    pub x: u32,
    pub y: u32,
    pub width: u32,
    pub height: u32,
}

impl Default for Rectangle {
    fn default() -> (r: Self)
        ensures
            r == (Rectangle { x: 0, y: 0, width: 0, height: 0 }),
    {
        Rectangle { x: 0, y: 0, width: 0, height: 0 }
    }
}

/// What the two-sided bar hears from the X server: a click at a position,
/// or anything else, which only wakes it up.
#[derive(Debug, Clone, Copy, PartialEq, Eq, Structural)]
pub enum StatusBarEvent {
    Wake,
    Click(i16, i16),
}

/// Where the bar sits on the screen.
#[derive(Debug, Clone, Copy, PartialEq, Eq, Structural)]
pub enum Position {
    Top,
    Bottom,
}

/// The unit names used by [bytes_to_closest], from bytes to terabytes.
pub open spec fn unit_name(unit: nat) -> Seq<char> {
    if unit == 0 {
        seq!['B']
    } else if unit == 1 {
        seq!['K', 'B']
    } else if unit == 2 {
        seq!['M', 'B']
    } else if unit == 3 {
        seq!['G', 'B']
    } else {
        seq!['T', 'B']
    }
}

/// Divides `value` by 1024 while it is above 1024 and a larger unit is
/// left; gives the value reached and the index of its unit.
pub open spec fn scale_down(value: nat, unit: nat) -> (nat, nat)
    decreases 4 - unit,
{
    if value > 1024 && unit < 4 {
        scale_down(value / 1024, unit + 1)
    } else {
        (value, unit)
    }
}

/// The text of [bytes_to_closest]: the scaled value and its unit.
pub open spec fn spec_bytes_to_closest(value: nat) -> Seq<char> {
    let (v, u) = scale_down(value, 0);
    spec_decimal(v) + unit_name(u)
}

fn unit_str(unit: usize) -> (r: &'static str)
    requires
        unit <= 4,
    ensures
        r@ == unit_name(unit as nat),
{
    match unit {
        0 => { proof { reveal_strlit("B"); } "B" },
        1 => { proof { reveal_strlit("KB"); } "KB" },
        2 => { proof { reveal_strlit("MB"); } "MB" },
        3 => { proof { reveal_strlit("GB"); } "GB" },
        _ => { proof { reveal_strlit("TB"); } "TB" },
    }
}

/// Renders an amount of bytes in the largest unit (up to TB) that keeps the
/// number above 1024, rounding down: `2048` gives `"2KB"`.
pub fn bytes_to_closest(value: u64) -> (r: String)
    ensures
        r@ == spec_bytes_to_closest(value as nat),
{
    if value == 0 {
        proof {
            reveal_strlit("0B");
            assert(spec_decimal(0) =~= seq!['0']);
        }
        return String::from_str("0B");
    }
    let mut selected_unit: usize = 0;
    let mut value = value;
    let ghost original = value as nat;
    while value > 1024 && selected_unit < 4
        invariant
            selected_unit <= 4,
            scale_down(value as nat, selected_unit as nat) == scale_down(original, 0),
        decreases 4 - selected_unit,
    {
        value = value / 1024;
        selected_unit = selected_unit + 1;
    }
    let mut r = decimal(value);
    r.append(unit_str(selected_unit));
    r
}

/// The rendering of an amount of bytes holds no `%`, so no placeholder
/// replaced after it can change it.
pub proof fn lemma_bytes_to_closest_percent_free(value: nat)
    ensures
        forall|i: int|
            0 <= i < spec_bytes_to_closest(value).len() ==> spec_bytes_to_closest(value)[i]
                != '%',
{
    let (v, u) = scale_down(value, 0);
    let d = spec_decimal(v);
    crate::utils::strings::lemma_decimal_percent_free(v);
    assert forall|i: int|
        0 <= i < spec_bytes_to_closest(value).len() implies spec_bytes_to_closest(value)[i]
        != '%' by {
        if i < d.len() {
            assert(spec_bytes_to_closest(value)[i] == d[i]);
        } else {
            assert(spec_bytes_to_closest(value)[i] == unit_name(u)[i - d.len()]);
        }
    }
}

/// The number shown by [bytes_to_closest] is the value divided by 1024 to
/// the power of the unit's index, rounded down; the unit index is at most
/// four, and below four the number is at most 1024.
pub proof fn lemma_bytes_to_closest_scale(value: nat)
    ensures
        scale_down(value, 0).1 <= 4,
        scale_down(value, 0).0 == value as int / pow(1024, scale_down(value, 0).1),
        scale_down(value, 0).1 < 4 ==> scale_down(value, 0).0 <= 1024,
{
    lemma_scale_down(value, 0);
    assert(pow(1024, 0) == 1) by {
        vstd::arithmetic::power::lemma_pow0(1024);
    }
}

proof fn lemma_scale_down(value: nat, unit: nat)
    requires
        unit <= 4,
    ensures
        unit <= scale_down(value, unit).1 <= 4,
        scale_down(value, unit).0 == value as int / pow(1024, (scale_down(value, unit).1 - unit) as nat),
        scale_down(value, unit).1 < 4 ==> scale_down(value, unit).0 <= 1024,
    decreases 4 - unit,
{
    let k = scale_down(value, unit).1;
    if value > 1024 && unit < 4 {
        lemma_scale_down(value / 1024, unit + 1);
        let e = (k - (unit + 1)) as nat;
        lemma_pow_positive(1024, e);
        lemma_div_denominator(value as int, 1024, pow(1024, e));
        assert(pow(1024, e + 1) == 1024 * pow(1024, e)) by {
            vstd::arithmetic::power::lemma_pow_adds(1024, 1, e);
            vstd::arithmetic::power::lemma_pow1(1024);
        }
        assert((k - unit) as nat == e + 1);
        assert((value / 1024) as int / pow(1024, e) == value as int / pow(1024, e + 1));
        assert(scale_down(value, unit) == scale_down(value / 1024, unit + 1));
    } else {
        assert(pow(1024, 0) == 1) by {
            vstd::arithmetic::power::lemma_pow0(1024);
        }
    }
}

/// The sum of the durations, in nanoseconds.
pub open spec fn total_nanos(times: Seq<u64>) -> int
    decreases times.len(),
{
    if times.len() == 0 {
        0
    } else {
        total_nanos(times.drop_last()) + times.last()
    }
}

/// The average, the longest and the shortest of some durations given in
/// nanoseconds; the average is rounded down.
pub fn time_summary(times: &Vec<u64>) -> (r: (u64, u64, u64))
    requires
        times@.len() > 0,
        times@.len() <= u32::MAX,
    ensures
        r.0 == total_nanos(times@) / (times@.len() as int),
        exists|i: int| 0 <= i < times@.len() && times@[i] == r.1,
        forall|i: int| 0 <= i < times@.len() ==> times@[i] <= r.1,
        exists|i: int| 0 <= i < times@.len() && times@[i] == r.2,
        forall|i: int| 0 <= i < times@.len() ==> r.2 <= times@[i],
{
    let n = times.len();
    let mut total: u128 = 0;
    let mut max: u64 = times[0];
    let mut min: u64 = times[0];
    let mut i: usize = 0;
    while i < n
        invariant
            n == times@.len(),
            0 < n <= u32::MAX,
            i <= n,
            total == total_nanos(times@.take(i as int)),
            total <= i * 0xffff_ffff_ffff_ffffu64,
            exists|j: int| 0 <= j < n && times@[j] == max,
            forall|j: int| 0 <= j < i ==> times@[j] <= max,
            exists|j: int| 0 <= j < n && times@[j] == min,
            forall|j: int| 0 <= j < i ==> min <= times@[j],
        decreases n - i,
    {
        proof {
            assert(times@.take(i + 1).drop_last() =~= times@.take(i as int));
            assert((i + 1) * 0xffff_ffff_ffff_ffffu64 == i * 0xffff_ffff_ffff_ffffu64
                + 0xffff_ffff_ffff_ffffu64) by (nonlinear_arith);
            assert(i * 0xffff_ffff_ffff_ffffu64 <= 0xffff_ffffu64 * 0xffff_ffff_ffff_ffffu64)
                by (nonlinear_arith)
                requires
                    i <= 0xffff_ffffu64,
            ;
        }
        let t = times[i];
        total = total + t as u128;
        if t > max {
            max = t;
        }
        if t < min {
            min = t;
        }
        i = i + 1;
    }
    proof {
        assert(times@.take(n as int) =~= times@);
        assert((total as int) / (n as int) <= 0xffff_ffff_ffff_ffffu64) by (nonlinear_arith)
            requires
                total <= n * 0xffff_ffff_ffff_ffffu64,
                n > 0,
        ;
    }
    ((total / n as u128) as u64, max, min)
}

} // verus!
