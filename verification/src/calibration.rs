//! Offset calibration: summing samples taken while the sensor is still,
//! turning the sums into offsets, and correcting later readings by them.
use vstd::prelude::*;

verus! {

/// One g on the accelerometer at its ±2 g full scale, in raw counts.
pub const GRAVITY_COUNTS: i32 = 16384;

/// The most samples one calibration can sum without its 32-bit sums overflowing.
pub const MAX_SAMPLES: u32 = 65536;

/// The absolute value of `x`.
pub open spec fn magnitude(x: int) -> nat {
    if x < 0 {
        (-x) as nat
    } else {
        x as nat
    }
}

/// Integer division rounding toward zero, as Rust's `/` on signed integers does.
pub open spec fn quotient_toward_zero(x: int, d: int) -> int {
    let q = magnitude(x) / magnitude(d);
    if (x < 0) == (d < 0) {
        q as int
    } else {
        -(q as int)
    }
}

/// The accelerometer offsets that sums over `samples` samples give: the mean of
/// each axis, rounded toward zero, with one g added on Z to cancel gravity on a
/// sensor that lies upside down.
pub open spec fn accel_offsets_for(sum: (int, int, int), samples: int) -> (int, int, int) {
    (
        quotient_toward_zero(sum.0, samples),
        quotient_toward_zero(sum.1, samples),
        quotient_toward_zero(sum.2, samples) + GRAVITY_COUNTS,
    )
}

/// The gyroscope offsets that sums over `samples` samples give: the mean of
/// each axis, rounded toward zero.
pub open spec fn gyro_offsets_for(sum: (int, int, int), samples: int) -> (int, int, int) {
    (
        quotient_toward_zero(sum.0, samples),
        quotient_toward_zero(sum.1, samples),
        quotient_toward_zero(sum.2, samples),
    )
}

/// A raw reading with an offset taken away, axis by axis.
pub open spec fn corrected(raw: (int, int, int), offset: (int, int, int)) -> (int, int, int) {
    (raw.0 - offset.0, raw.1 - offset.1, raw.2 - offset.2)
}

/// Divides `x` by `d`, rounding toward zero.
pub fn div_toward_zero(x: i32, d: i32) -> (q: i32)
    requires
        d != 0,
        !(x == i32::MIN && d == -1),
    ensures
        q == quotient_toward_zero(x as int, d as int),
{
    let ax: u32 = if x < 0 {
        (-(x as i64)) as u32
    } else {
        x as u32
    };
    let ad: u32 = if d < 0 {
        (-(d as i64)) as u32
    } else {
        d as u32
    };
    let q: u32 = ax / ad;
    assert(q <= ax) by (nonlinear_arith)
        requires
            ad >= 1,
            q == ax / ad,
    ;
    if ad >= 2 {
        assert(q <= ax / 2) by (nonlinear_arith)
            requires
                ad >= 2,
                q == ax / ad,
        ;
    }
    let r: i64 = if (x < 0) == (d < 0) {
        q as i64
    } else {
        -(q as i64)
    };
    r as i32
}

/// A mean of values of magnitude at most `bound` has magnitude at most `bound`.
proof fn lemma_mean_bounded(sum: int, count: int, samples: int, bound: int)
    requires
        samples != 0,
        0 <= count <= magnitude(samples),
        bound >= 0,
        magnitude(sum) <= bound * count,
    ensures
        magnitude(quotient_toward_zero(sum, samples)) <= bound,
{
    let m = magnitude(sum) as int;
    let d = magnitude(samples) as int;
    assert(m / d <= bound) by (nonlinear_arith)
        requires
            d >= 1,
            0 <= count <= d,
            bound >= 0,
            0 <= m <= bound * count,
    {
        assert(bound * count <= bound * d);
        assert(m <= bound * d);
    }
}

/// Per-axis sums of accelerometer and gyroscope samples.
pub struct SampleSums {
    accel: (i32, i32, i32),
    gyro: (i32, i32, i32),
    count: u32,
}

impl SampleSums {
    /// Each sum is a sum of `count` 16-bit values, and there are at most
    /// `MAX_SAMPLES` of them.
    #[verifier::type_invariant]
    spec fn bounded(self) -> bool {
        &&& self.count <= MAX_SAMPLES
        &&& magnitude(self.accel.0 as int) <= 32768 * self.count
        &&& magnitude(self.accel.1 as int) <= 32768 * self.count
        &&& magnitude(self.accel.2 as int) <= 32768 * self.count
        &&& magnitude(self.gyro.0 as int) <= 32768 * self.count
        &&& magnitude(self.gyro.1 as int) <= 32768 * self.count
        &&& magnitude(self.gyro.2 as int) <= 32768 * self.count
    }

    /// The accelerometer sums.
    pub closed spec fn accel_sum(self) -> (int, int, int) {
        (self.accel.0 as int, self.accel.1 as int, self.accel.2 as int)
    }

    /// The gyroscope sums.
    pub closed spec fn gyro_sum(self) -> (int, int, int) {
        (self.gyro.0 as int, self.gyro.1 as int, self.gyro.2 as int)
    }

    /// How many samples have been added.
    pub closed spec fn num_samples(self) -> nat {
        self.count as nat
    }

    /// Sums over no samples.
    pub fn new() -> (s: SampleSums)
        ensures
            s.accel_sum() == (0int, 0int, 0int),
            s.gyro_sum() == (0int, 0int, 0int),
            s.num_samples() == 0,
    {
        SampleSums { accel: (0, 0, 0), gyro: (0, 0, 0), count: 0 }
    }

    /// How many samples have been added.
    pub fn count(&self) -> (n: u32)
        ensures
            n == self.num_samples(),
            n <= MAX_SAMPLES,
    {
        proof {
            use_type_invariant(self);
        }
        self.count
    }

    /// Adds one accelerometer and one gyroscope sample to the sums.
    pub fn add(&mut self, accel: (i16, i16, i16), gyro: (i16, i16, i16))
        requires
            old(self).num_samples() < MAX_SAMPLES,
        ensures
            final(self).num_samples() == old(self).num_samples() + 1,
            final(self).accel_sum() == (
                old(self).accel_sum().0 + accel.0,
                old(self).accel_sum().1 + accel.1,
                old(self).accel_sum().2 + accel.2,
            ),
            final(self).gyro_sum() == (
                old(self).gyro_sum().0 + gyro.0,
                old(self).gyro_sum().1 + gyro.1,
                old(self).gyro_sum().2 + gyro.2,
            ),
    {
        proof {
            use_type_invariant(&*self);
        }
        let n = self.count;
        assert(32768 * n + 32768 <= 0x8000_0000);
        *self = SampleSums {
            accel: (
                self.accel.0 + accel.0 as i32,
                self.accel.1 + accel.1 as i32,
                self.accel.2 + accel.2 as i32,
            ),
            gyro: (
                self.gyro.0 + gyro.0 as i32,
                self.gyro.1 + gyro.1 as i32,
                self.gyro.2 + gyro.2 as i32,
            ),
            count: n + 1,
        };
    }

    /// The offsets that these sums give when divided by `samples`.
    pub fn offsets(&self, samples: i32) -> (c: Calibration)
        requires
            samples != 0,
            self.num_samples() <= magnitude(samples as int),
        ensures
            c.accel() == accel_offsets_for(self.accel_sum(), samples as int),
            c.gyro() == gyro_offsets_for(self.gyro_sum(), samples as int),
    {
        proof {
            use_type_invariant(self);
            let n = self.count as int;
            lemma_mean_bounded(self.accel.0 as int, n, samples as int, 32768);
            lemma_mean_bounded(self.accel.1 as int, n, samples as int, 32768);
            lemma_mean_bounded(self.accel.2 as int, n, samples as int, 32768);
            lemma_mean_bounded(self.gyro.0 as int, n, samples as int, 32768);
            lemma_mean_bounded(self.gyro.1 as int, n, samples as int, 32768);
            lemma_mean_bounded(self.gyro.2 as int, n, samples as int, 32768);
        }
        Calibration {
            accel: (
                div_toward_zero(self.accel.0, samples),
                div_toward_zero(self.accel.1, samples),
                div_toward_zero(self.accel.2, samples) + GRAVITY_COUNTS,
            ),
            gyro: (
                div_toward_zero(self.gyro.0, samples),
                div_toward_zero(self.gyro.1, samples),
                div_toward_zero(self.gyro.2, samples),
            ),
        }
    }
}

/// Accelerometer and gyroscope offsets, in raw counts.
#[derive(Clone, Copy)]
pub struct Calibration {
    accel: (i32, i32, i32),
    gyro: (i32, i32, i32),
}

impl Calibration {
    /// Offsets are means of 16-bit values, the accelerometer's Z shifted by one g.
    #[verifier::type_invariant]
    spec fn in_range(self) -> bool {
        &&& magnitude(self.accel.0 as int) <= 32768
        &&& magnitude(self.accel.1 as int) <= 32768
        &&& magnitude(self.accel.2 as int) <= 32768 + 16384
        &&& magnitude(self.gyro.0 as int) <= 32768
        &&& magnitude(self.gyro.1 as int) <= 32768
        &&& magnitude(self.gyro.2 as int) <= 32768
    }

    /// The accelerometer offsets.
    pub closed spec fn accel(self) -> (int, int, int) {
        (self.accel.0 as int, self.accel.1 as int, self.accel.2 as int)
    }

    /// The gyroscope offsets.
    pub closed spec fn gyro(self) -> (int, int, int) {
        (self.gyro.0 as int, self.gyro.1 as int, self.gyro.2 as int)
    }

    /// No offsets at all.
    pub fn zero() -> (c: Calibration)
        ensures
            c.accel() == (0int, 0int, 0int),
            c.gyro() == (0int, 0int, 0int),
    {
        Calibration { accel: (0, 0, 0), gyro: (0, 0, 0) }
    }

    /// The accelerometer offsets.
    pub fn accel_offset(&self) -> (o: (i32, i32, i32))
        ensures
            (o.0 as int, o.1 as int, o.2 as int) == self.accel(),
    {
        self.accel
    }

    /// The gyroscope offsets.
    pub fn gyro_offset(&self) -> (o: (i32, i32, i32))
        ensures
            (o.0 as int, o.1 as int, o.2 as int) == self.gyro(),
    {
        self.gyro
    }

    /// A raw accelerometer reading with the accelerometer offsets taken away.
    pub fn correct_accel(&self, raw: (i16, i16, i16)) -> (r: (i32, i32, i32))
        ensures
            (r.0 as int, r.1 as int, r.2 as int) == corrected(
                (raw.0 as int, raw.1 as int, raw.2 as int),
                self.accel(),
            ),
    {
        proof {
            use_type_invariant(self);
        }
        (raw.0 as i32 - self.accel.0, raw.1 as i32 - self.accel.1, raw.2 as i32 - self.accel.2)
    }

    /// A raw gyroscope reading with the gyroscope offsets taken away.
    pub fn correct_gyro(&self, raw: (i16, i16, i16)) -> (r: (i32, i32, i32))
        ensures
            (r.0 as int, r.1 as int, r.2 as int) == corrected(
                (raw.0 as int, raw.1 as int, raw.2 as int),
                self.gyro(),
            ),
    {
        proof {
            use_type_invariant(self);
        }
        (raw.0 as i32 - self.gyro.0, raw.1 as i32 - self.gyro.1, raw.2 as i32 - self.gyro.2)
    }
}

/// Correction takes the offset away axis by axis: adding the offset back to a
/// corrected reading gives the raw reading again, and moving the raw reading by
/// `d` on an axis moves the corrected reading by `d` on that axis alone.
pub proof fn law_correction_subtracts_offset(raw: (int, int, int), offset: (int, int, int), d: int)
    ensures
        corrected(raw, offset).0 + offset.0 == raw.0,
        corrected(raw, offset).1 + offset.1 == raw.1,
        corrected(raw, offset).2 + offset.2 == raw.2,
        corrected(raw, (0, 0, 0)) == raw,
        corrected(raw, raw) == (0int, 0int, 0int),
        corrected((raw.0 + d, raw.1, raw.2), offset) == (
            corrected(raw, offset).0 + d,
            corrected(raw, offset).1,
            corrected(raw, offset).2,
        ),
        corrected((raw.0, raw.1 + d, raw.2), offset) == (
            corrected(raw, offset).0,
            corrected(raw, offset).1 + d,
            corrected(raw, offset).2,
        ),
        corrected((raw.0, raw.1, raw.2 + d), offset) == (
            corrected(raw, offset).0,
            corrected(raw, offset).1,
            corrected(raw, offset).2 + d,
        ),
{
}

/// Division rounding toward zero: `q * d` lies between zero and `x`, on the
/// side of `x`, and less than one `d` away from `x`.
pub proof fn law_quotient_rounds_toward_zero(x: int, d: int)
    requires
        d != 0,
    ensures
        x >= 0 ==> 0 <= quotient_toward_zero(x, d) * d <= x,
        x <= 0 ==> x <= quotient_toward_zero(x, d) * d <= 0,
        magnitude(x - quotient_toward_zero(x, d) * d) < magnitude(d),
{
    let m = magnitude(x) as int;
    let e = magnitude(d) as int;
    let q0 = m / e;
    assert(0 <= m - q0 * e < e && q0 >= 0) by (nonlinear_arith)
        requires
            e > 0,
            m >= 0,
            q0 == m / e,
    ;
    let q = quotient_toward_zero(x, d);
    if x >= 0 {
        if d > 0 {
            assert(q * d == q0 * e);
        } else {
            assert(q * d == q0 * e) by (nonlinear_arith)
                requires
                    q == -q0,
                    d == -e,
            ;
        }
    } else {
        if d > 0 {
            assert(q * d == -(q0 * e)) by (nonlinear_arith)
                requires
                    q == -q0,
                    d == e,
            ;
        } else {
            assert(q * d == -(q0 * e)) by (nonlinear_arith)
                requires
                    q == q0,
                    d == -e,
            ;
        }
    }
}

} // verus!
