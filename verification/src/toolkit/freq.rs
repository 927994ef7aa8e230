//! Pure unit-conversion value types: frequencies and durations.
//!
//! Both wrappers store exact integer quantities — a `Frequency` counts
//! millihertz, a `Duration` counts microseconds — and the conversion results
//! are fixed-decimal integers scaled by `UNIT_SCALE`, so a result `r` stands
//! for the quantity `r / UNIT_SCALE`.

use crate::sample::{div_toward_zero, div_toward_zero_i64};
use vstd::arithmetic::div_mod::{lemma_div_is_ordered, lemma_div_pos_is_pos};
use vstd::prelude::*;

verus! {

/// Scale of the fixed-decimal conversion results: six fractional digits.
pub const UNIT_SCALE: i64 = 1_000_000;

/// Largest duration magnitude, in microseconds, that `into_samples` accepts;
/// beyond it the sample count could exceed the result type.
pub const MAX_DURATION_MICROSECONDS: i64 = 1_000_000_000_000;

/// A frequency, stored exactly as a count of millihertz.
pub struct Frequency {
    millihertz: i64,
}

impl View for Frequency {
    type V = int;

    /// A frequency is modelled by its millihertz count.
    closed spec fn view(&self) -> int {
        self.millihertz as int
    }
}

impl Frequency {
    /// The stored count stays negatable.
    #[verifier::type_invariant]
    pub closed spec fn inv(self) -> bool {
        self.millihertz > i64::MIN
    }

    /// Wraps an exact millihertz count.
    pub fn from_millihertz(millihertz: i64) -> (r: Self)
        requires
            millihertz > i64::MIN,
        ensures
            r@ == millihertz as int,
    {
        Frequency { millihertz }
    }

    /// The exact millihertz count.
    pub fn millihertz(&self) -> (r: i64)
        ensures
            r as int == self@,
    {
        self.millihertz
    }

    /// Samples per period at `sample_rate`, as a fixed-decimal scaled by
    /// `UNIT_SCALE`: the quantity `sample_rate / frequency_in_hertz`,
    /// rounded toward zero at the last fixed-decimal digit.
    pub fn period_in_milliseconds(&self, sample_rate: u32) -> (r: i64)
        requires
            self@ != 0,
        ensures
            self@ > 0 ==> r as int == div_toward_zero(
                sample_rate as int * 1_000_000_000,
                self@,
            ),
            self@ < 0 ==> r as int == -div_toward_zero(
                sample_rate as int * 1_000_000_000,
                -self@,
            ),
    {
        proof {
            use_type_invariant(self);
        }
        let n: i64 = (sample_rate as i64) * 1_000_000_000;
        if self.millihertz > 0 {
            div_toward_zero_i64(n, self.millihertz)
        } else {
            -div_toward_zero_i64(n, -self.millihertz)
        }
    }

    /// One thousandth of `period_in_milliseconds`, on the same fixed-decimal
    /// scale: `sample_rate / frequency_in_hertz / 1000` scaled by
    /// `UNIT_SCALE`, rounded toward zero.
    pub fn period_in_seconds(&self, sample_rate: u32) -> (r: i64)
        requires
            self@ != 0,
        ensures
            self@ > 0 ==> r as int == div_toward_zero(sample_rate as int * 1_000_000, self@),
            self@ < 0 ==> r as int == -div_toward_zero(sample_rate as int * 1_000_000, -self@),
    {
        proof {
            use_type_invariant(self);
        }
        let n: i64 = (sample_rate as i64) * 1_000_000;
        if self.millihertz > 0 {
            div_toward_zero_i64(n, self.millihertz)
        } else {
            -div_toward_zero_i64(n, -self.millihertz)
        }
    }
}

/// Conversions from plain numbers into `Frequency`.
pub trait ToFrequency {
    fn hz(&self) -> Frequency;

    fn khz(&self) -> Frequency;
}

impl ToFrequency for i32 {
    /// Reads the number as a count of hertz.
    fn hz(&self) -> (r: Frequency)
        ensures
            r@ == *self as int * 1000,
    {
        Frequency::from_millihertz((*self as i64) * 1000)
    }

    /// Reads the number as a count of kilohertz.
    fn khz(&self) -> (r: Frequency)
        ensures
            r@ == *self as int * 1_000_000,
    {
        Frequency::from_millihertz((*self as i64) * 1_000_000)
    }
}

/// A span of time, stored exactly as a count of microseconds.
pub struct Duration {
    microseconds: i64,
}

impl View for Duration {
    type V = int;

    /// A duration is modelled by its microsecond count.
    closed spec fn view(&self) -> int {
        self.microseconds as int
    }
}

impl Duration {
    /// Wraps an exact microsecond count.
    pub fn from_microseconds(microseconds: i64) -> (r: Self)
        ensures
            r@ == microseconds as int,
    {
        Duration { microseconds }
    }

    /// The exact microsecond count.
    pub fn microseconds(&self) -> (r: i64)
        ensures
            r as int == self@,
    {
        self.microseconds
    }

    /// How many whole samples this duration spans at `sample_rate` hertz:
    /// `sample_rate * seconds`, rounded toward zero.
    pub fn into_samples(&self, sample_rate: u32) -> (r: i64)
        requires
            -MAX_DURATION_MICROSECONDS <= self@ <= MAX_DURATION_MICROSECONDS,
        ensures
            self@ >= 0 ==> r as int == (sample_rate as int * self@) / 1_000_000,
            self@ < 0 ==> r as int == -((sample_rate as int * -self@) / 1_000_000),
    {
        let negative = self.microseconds < 0;
        let mag: u64 = if negative {
            (-self.microseconds) as u64
        } else {
            self.microseconds as u64
        };
        proof {
            assert(0 <= (sample_rate as int) * (mag as int) <= 0x1_0000_0000int
                * 1_000_000_000_000) by (nonlinear_arith)
                requires
                    0 <= (sample_rate as int) < 0x1_0000_0000,
                    0 <= (mag as int) <= 1_000_000_000_000,
            ;
        }
        let m: u128 = (sample_rate as u128) * (mag as u128);
        let q: u128 = m / 1_000_000;
        proof {
            lemma_div_is_ordered(m as int, 0x1_0000_0000int * 1_000_000_000_000, 1_000_000);
            lemma_div_pos_is_pos(m as int, 1_000_000);
        }
        if negative {
            -(q as i64)
        } else {
            q as i64
        }
    }
}

/// Conversions from plain numbers into `Duration`.
pub trait ToDuration {
    fn milliseconds(&self) -> Duration;

    fn seconds(&self) -> Duration;
}

impl ToDuration for i32 {
    /// Reads the number as a count of milliseconds.
    fn milliseconds(&self) -> (r: Duration)
        ensures
            r@ == *self as int * 1000,
    {
        Duration::from_microseconds((*self as i64) * 1000)
    }

    /// Reads the number as a count of seconds.
    fn seconds(&self) -> (r: Duration)
        ensures
            r@ == *self as int * 1_000_000,
    {
        Duration::from_microseconds((*self as i64) * 1_000_000)
    }
}

} // verus!
