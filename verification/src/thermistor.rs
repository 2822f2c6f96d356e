//! The integer side of the thermistor reader: averaging ADC readings and
//! telling an open or shorted divider from a usable reading.
use vstd::prelude::*;

verus! {

/// The largest reading of the 16-bit ADC.
pub const ADC_MAX: u16 = 65535;
/// How many ADC readings make one averaged reading.
pub const READINGS_PER_SAMPLE: usize = 10;

/// The sum of `s`.
pub open spec fn sum_of(s: Seq<u16>) -> int
    decreases s.len(),
{
    if s.len() == 0 {
        0
    } else {
        sum_of(s.drop_last()) + s.last()
    }
}

proof fn lemma_sum_of_bounds(s: Seq<u16>)
    ensures
        0 <= sum_of(s) <= 65535 * s.len(),
    decreases s.len(),
{
    if s.len() > 0 {
        lemma_sum_of_bounds(s.drop_last());
    }
}

/// The mean of `readings`, rounded down.
pub fn mean_reading(readings: &[u16]) -> (m: u16)
    requires
        1 <= readings@.len() <= 65537,
    ensures
        m as int == sum_of(readings@) / (readings@.len() as int),
{
    let n = readings.len();
    let mut sum: u32 = 0;
    let mut i: usize = 0;
    while i < n
        invariant
            n == readings@.len(),
            1 <= n <= 65537,
            0 <= i <= n,
            sum as int == sum_of(readings@.take(i as int)),
        decreases n - i,
    {
        proof {
            assert(readings@.take(i + 1).drop_last() =~= readings@.take(i as int));
            lemma_sum_of_bounds(readings@.take(i + 1));
            assert(65535 * (i + 1) <= 65535 * 65537) by (nonlinear_arith)
                requires
                    i + 1 <= 65537,
            ;
        }
        sum = sum + readings[i] as u32;
        i = i + 1;
    }
    proof {
        assert(readings@.take(n as int) =~= readings@);
        lemma_sum_of_bounds(readings@);
        assert(sum_of(readings@) / (n as int) <= 65535) by (nonlinear_arith)
            requires
                0 <= sum_of(readings@) <= 65535 * n,
                n >= 1,
        ;
    }
    (sum / (n as u32)) as u16
}

/// Whether a reading can be turned into a temperature: a reading of zero or of
/// `ADC_MAX` means an open or a shorted divider.
pub fn reading_in_range(raw: u16) -> (b: bool)
    ensures
        b == (0 < raw && raw < ADC_MAX),
{
    raw > 0 && raw < ADC_MAX
}

} // verus!
