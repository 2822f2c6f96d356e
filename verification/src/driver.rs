//! The MPU-6500 driver: identification, wake-up, calibration and readings
//! over an `embedded_hal` I2C bus.
use vstd::prelude::*;
use embedded_hal::i2c::{ErrorKind, I2c};

use crate::calibration::{
    accel_offsets_for, corrected, gyro_offsets_for, magnitude, quotient_toward_zero, Calibration,
    SampleSums, GRAVITY_COUNTS, MAX_SAMPLES,
};
use crate::decode::{axis_value, decode_triple, triple_value};

verus! {

/// The bus-independent kind of an I2C error, as `embedded_hal` defines it.
#[verifier::external_type_specification]
#[verifier::external_body]
pub struct ExErrorKind(ErrorKind);

/// The sensor's I2C address (AD0 low).
pub const ADDRESS: u8 = 0x68;
/// Power management register 1; writing zero wakes the sensor.
pub const PWR_MGMT_1: u8 = 0x6B;
/// First of the six accelerometer output registers.
pub const ACCEL_XOUT_H: u8 = 0x3B;
/// First of the six gyroscope output registers.
pub const GYRO_XOUT_H: u8 = 0x43;
/// The identification register.
pub const WHOAMI_REG: u8 = 0x75;
/// What the identification register of an MPU-6500 holds.
pub const WHOAMI_VAL: u8 = 0x70;

/// Why an operation on the sensor failed.
#[derive(Debug)]
pub enum Error<E> {
    /// The I2C bus reported an error.
    I2c(E),
    /// The identification register did not hold `WHOAMI_VAL`.
    InvalidDevice,
}

/// One transaction that the driver issued on the bus, with what came back.
pub enum BusOp {
    /// A write of `write` followed by a read of `read.len()` bytes, in one
    /// transaction, and what the bus reported for it.
    WriteRead { address: u8, write: Seq<u8>, read: Seq<u8>, result: Result<(), ErrorKind> },
    /// A write of `write`, and what the bus reported for it.
    Write { address: u8, write: Seq<u8>, result: Result<(), ErrorKind> },
}

/// Whether the bus reported success for `op`.
pub open spec fn succeeded(op: BusOp) -> bool {
    bus_result(op) is Ok
}

/// What the bus reported for `op`.
pub open spec fn bus_result(op: BusOp) -> Result<(), ErrorKind> {
    match op {
        BusOp::WriteRead { result, .. } => result,
        BusOp::Write { result, .. } => result,
    }
}

/// The driver's error for a failed transaction `op`: the kind of error the bus reported.
pub open spec fn bus_error(op: BusOp) -> Error<ErrorKind> {
    Error::I2c(bus_result(op)->Err_0)
}

/// The bytes that `op` read back.
pub open spec fn bytes_read(op: BusOp) -> Seq<u8> {
    match op {
        BusOp::WriteRead { read, .. } => read,
        BusOp::Write { .. } => Seq::empty(),
    }
}

/// `op` reads `len` bytes from the sensor, starting at register `register`.
pub open spec fn is_register_read(op: BusOp, register: u8, len: nat) -> bool {
    &&& op matches BusOp::WriteRead { address, write, read, .. }
    &&& address == ADDRESS
    &&& write == seq![register]
    &&& read.len() == len
}

/// `op` writes `value` to the sensor's register `register`.
pub open spec fn is_register_write(op: BusOp, register: u8, value: u8) -> bool {
    &&& op matches BusOp::Write { address, write, .. }
    &&& address == ADDRESS
    &&& write == seq![register, value]
}

/// `post` is `pre` followed by the transactions of an identification and wake-up,
/// and `r` is what initialisation answers for them.
pub open spec fn init_outcome(pre: Seq<BusOp>, post: Seq<BusOp>, r: Result<(), Error<ErrorKind>>) -> bool {
    let n = pre.len() as int;
    &&& post.len() > n
    &&& post.take(n) == pre
    &&& is_register_read(post[n], WHOAMI_REG, 1)
    &&& if !succeeded(post[n]) {
        post.len() == n + 1 && r == Err::<(), Error<ErrorKind>>(bus_error(post[n]))
    } else if bytes_read(post[n])[0] != WHOAMI_VAL {
        post.len() == n + 1 && r matches Err(Error::InvalidDevice)
    } else {
        &&& post.len() == n + 2
        &&& is_register_write(post[n + 1], PWR_MGMT_1, 0x00)
        &&& if succeeded(post[n + 1]) {
            r matches Ok(())
        } else {
            r == Err::<(), Error<ErrorKind>>(bus_error(post[n + 1]))
        }
    }
}

/// `post` is `pre` followed by one read of the six-byte block at `register`, and
/// `r` carries that read's outcome.
pub open spec fn block_read_outcome(
    pre: Seq<BusOp>,
    post: Seq<BusOp>,
    register: u8,
    r: Result<(i16, i16, i16), Error<ErrorKind>>,
) -> bool {
    let n = pre.len() as int;
    &&& post.len() == n + 1
    &&& post.take(n) == pre
    &&& is_register_read(post[n], register, 6)
    &&& (r is Ok <==> succeeded(post[n]))
    &&& (r is Err ==> r == Err::<(i16, i16, i16), Error<ErrorKind>>(bus_error(post[n])))
    &&& (r matches Ok(t) ==> (t.0 as int, t.1 as int, t.2 as int) == triple_value(bytes_read(post[n])))
}

/// `post` is `pre` followed by one read of the six-byte block at `register`, and
/// `r` carries that read's outcome, with `offset` taken away from the values read.
pub open spec fn corrected_read_outcome(
    pre: Seq<BusOp>,
    post: Seq<BusOp>,
    register: u8,
    offset: (int, int, int),
    r: Result<(i32, i32, i32), Error<ErrorKind>>,
) -> bool {
    let n = pre.len() as int;
    &&& post.len() == n + 1
    &&& post.take(n) == pre
    &&& is_register_read(post[n], register, 6)
    &&& (r is Ok <==> succeeded(post[n]))
    &&& (r is Err ==> r == Err::<(i32, i32, i32), Error<ErrorKind>>(bus_error(post[n])))
    &&& (r matches Ok(t) ==> (t.0 as int, t.1 as int, t.2 as int) == corrected(
        triple_value(bytes_read(post[n])),
        offset,
    ))
}

/// `post` is `pre` followed by the transactions of a calibration of `samples`
/// samples, and `r` is what the calibration answers for them: the reads go on,
/// accelerometer and gyroscope in turn, until all samples are in or one fails.
pub open spec fn calibrate_outcome(
    pre: Seq<BusOp>,
    post: Seq<BusOp>,
    samples: int,
    r: Result<(), Error<ErrorKind>>,
) -> bool {
    let base = pre.len() as int;
    let total = 2 * sample_count(samples);
    &&& post.take(base) == pre
    &&& base <= post.len() <= base + total
    &&& sample_reads(post, base)
    &&& (r is Ok <==> post.len() == base + total && all_succeeded(post, base, post.len() as int))
    &&& (r is Err ==> {
        &&& post.len() > base
        &&& r == Err::<(), Error<ErrorKind>>(bus_error(post.last()))
        &&& all_succeeded(post, base, post.len() - 1)
        &&& !succeeded(post.last())
    })
}

/// The register that the `j`-th transaction of a calibration reads: accelerometer
/// and gyroscope in turn.
pub open spec fn sample_register(j: int) -> u8 {
    if j % 2 == 0 {
        ACCEL_XOUT_H
    } else {
        GYRO_XOUT_H
    }
}

/// Every transaction of `log` from `base` on reads a six-byte sample block, the
/// accelerometer's and the gyroscope's in turn.
pub open spec fn sample_reads(log: Seq<BusOp>, base: int) -> bool {
    forall|j: int| base <= j < log.len() ==> is_register_read(#[trigger] log[j], sample_register(j - base), 6)
}

/// The bus reported success for every transaction of `log` from `from` up to `to`.
pub open spec fn all_succeeded(log: Seq<BusOp>, from: int, to: int) -> bool {
    forall|j: int| from <= j < to ==> succeeded(#[trigger] log[j])
}

/// The bytes of the `i`-th accelerometer (`parity` 0) or gyroscope (`parity` 1)
/// sample read from `base` on.
pub open spec fn sample_bytes(log: Seq<BusOp>, base: int, parity: int, i: int) -> Seq<u8> {
    bytes_read(log[base + 2 * i + parity])
}

/// The sum of axis `axis` over the first `n` accelerometer (`parity` 0) or
/// gyroscope (`parity` 1) samples read from `base` on.
pub open spec fn axis_sum(log: Seq<BusOp>, base: int, parity: int, axis: int, n: nat) -> int
    decreases n,
{
    if n == 0 {
        0
    } else {
        axis_sum(log, base, parity, axis, (n - 1) as nat) + axis_value(
            sample_bytes(log, base, parity, n - 1),
            axis,
        )
    }
}

/// The per-axis sums of the first `n` accelerometer (`parity` 0) or gyroscope
/// (`parity` 1) samples read from `base` on.
pub open spec fn sample_sums(log: Seq<BusOp>, base: int, parity: int, n: nat) -> (int, int, int) {
    (
        axis_sum(log, base, parity, 0, n),
        axis_sum(log, base, parity, 1, n),
        axis_sum(log, base, parity, 2, n),
    )
}

/// How many samples a calibration asked for `samples` takes.
pub open spec fn sample_count(samples: int) -> nat {
    if samples > 0 {
        samples as nat
    } else {
        0
    }
}

/// The accelerometer offsets that a calibration of `samples` samples, whose
/// reads begin at `base` in `log`, computes.
pub open spec fn calibrated_accel(log: Seq<BusOp>, base: int, samples: int) -> (int, int, int) {
    accel_offsets_for(sample_sums(log, base, 0, sample_count(samples)), samples)
}

/// The gyroscope offsets that a calibration of `samples` samples, whose reads
/// begin at `base` in `log`, computes.
pub open spec fn calibrated_gyro(log: Seq<BusOp>, base: int, samples: int) -> (int, int, int) {
    gyro_offsets_for(sample_sums(log, base, 1, sample_count(samples)), samples)
}

/// A prefix of a prefix is a prefix.
proof fn lemma_take_take(a: Seq<BusOp>, b: Seq<BusOp>, c: Seq<BusOp>, n: int, m: int)
    requires
        0 <= m <= n <= a.len(),
        a.take(n) == b,
        b.take(m) == c,
    ensures
        a.take(m) == c,
{
    assert forall|j: int| 0 <= j < m implies a.take(m)[j] == c[j] by {
        assert(a.take(n)[j] == a[j]);
        assert(b.take(m)[j] == b[j]);
    }
    assert(a.take(m) =~= c);
}

/// Extending a log of sample reads by the next sample read keeps it one.
proof fn lemma_sample_reads_extend(l0: Seq<BusOp>, l1: Seq<BusOp>, base: int)
    requires
        0 <= base <= l0.len(),
        sample_reads(l0, base),
        all_succeeded(l0, base, l0.len() as int),
        l1.len() == l0.len() + 1,
        l1.take(l0.len() as int) == l0,
        is_register_read(l1[l0.len() as int], sample_register(l0.len() - base), 6),
    ensures
        sample_reads(l1, base),
        all_succeeded(l1, base, l0.len() as int),
        forall|j: int| 0 <= j < l0.len() ==> l1[j] == l0[j],
{
    assert forall|j: int| 0 <= j < l0.len() implies l1[j] == l0[j] by {
        assert(l1.take(l0.len() as int)[j] == l1[j]);
    }
}

/// Sums over a log look only at its first `base + 2 * n` transactions.
proof fn lemma_axis_sum_prefix(
    l1: Seq<BusOp>,
    l2: Seq<BusOp>,
    base: int,
    parity: int,
    axis: int,
    n: nat,
)
    requires
        0 <= base,
        0 <= parity <= 1,
        base + 2 * n <= l1.len(),
        base + 2 * n <= l2.len(),
        forall|j: int| 0 <= j < base + 2 * n ==> l1[j] == l2[j],
    ensures
        axis_sum(l1, base, parity, axis, n) == axis_sum(l2, base, parity, axis, n),
    decreases n,
{
    if n > 0 {
        lemma_axis_sum_prefix(l1, l2, base, parity, axis, (n - 1) as nat);
        assert(l1[base + 2 * (n - 1) + parity] == l2[base + 2 * (n - 1) + parity]);
    }
}

/// An MPU-6500 on an I2C bus, with the offsets that calibration found.
pub struct Mpu6500<I2C> {
    i2c: I2C,
    offsets: Calibration,
    log: Ghost<Seq<BusOp>>,
}

impl<I2C> Mpu6500<I2C> {
    /// The offsets that readings are corrected by.
    pub closed spec fn calibration(&self) -> Calibration {
        self.offsets
    }

    /// The bus handle that the driver talks through.
    pub closed spec fn bus(&self) -> I2C {
        self.i2c
    }

    /// Every transaction that the driver has issued on the bus, oldest first.
    pub closed spec fn bus_log(&self) -> Seq<BusOp> {
        self.log@
    }

    /// The offsets that readings are corrected by.
    pub fn offsets(&self) -> (c: &Calibration)
        ensures
            *c == self.calibration(),
    {
        &self.offsets
    }
}

impl<I2C: I2c> Mpu6500<I2C> {
    /// `embedded_hal::i2c::I2c::write_read`: writes `write` to the device at
    /// `address` and reads into `read`, in one transaction; a bus error is
    /// reported by its `embedded_hal::i2c::Error::kind`. The contract records the
    /// transaction, its outcome and the bytes that `read` holds after it; it says
    /// nothing of those bytes, of the outcome or of the error's kind, which the
    /// device and the bus decide.
    #[verifier::external_body]
    fn bus_write_read<const N: usize>(
        &mut self,
        address: u8,
        write: &[u8],
        read: &mut [u8; N],
    ) -> (r: Result<(), ErrorKind>)
        ensures
            final(self).offsets == old(self).offsets,
            final(self).log@ == old(self).log@.push(
                BusOp::WriteRead { address, write: write@, read: final(read)@, result: r },
            ),
    {
        match self.i2c.write_read(address, write, read) {
            Ok(()) => Ok(()),
            Err(e) => Err(embedded_hal::i2c::Error::kind(&e)),
        }
    }

    /// `embedded_hal::i2c::I2c::write`: writes `write` to the device at
    /// `address`; a bus error is reported by its `embedded_hal::i2c::Error::kind`.
    /// The contract records the transaction and its outcome; it says nothing of
    /// the outcome or of the error's kind, which the device and the bus decide.
    #[verifier::external_body]
    fn bus_write(&mut self, address: u8, write: &[u8]) -> (r: Result<(), ErrorKind>)
        ensures
            final(self).offsets == old(self).offsets,
            final(self).log@ == old(self).log@.push(
                BusOp::Write { address, write: write@, result: r },
            ),
    {
        match self.i2c.write(address, write) {
            Ok(()) => Ok(()),
            Err(e) => Err(embedded_hal::i2c::Error::kind(&e)),
        }
    }

    /// A driver for the sensor on `i2c`, with no offsets and no transaction issued.
    pub fn new(i2c: I2C) -> (s: Self)
        ensures
            s.calibration().accel() == (0int, 0int, 0int),
            s.calibration().gyro() == (0int, 0int, 0int),
            s.bus_log() == Seq::<BusOp>::empty(),
            s.bus() == i2c,
    {
        Mpu6500 { i2c, offsets: Calibration::zero(), log: Ghost(Seq::empty()) }
    }

    /// Checks that the sensor identifies itself as an MPU-6500, then wakes it up.
    pub fn init(&mut self) -> (r: Result<(), Error<ErrorKind>>)
        ensures
            final(self).calibration() == old(self).calibration(),
            init_outcome(old(self).bus_log(), final(self).bus_log(), r),
    {
        let ghost pre = self.log@;
        let mut buf = [0u8; 1];
        let who: [u8; 1] = [WHOAMI_REG];
        assert(who@ =~= seq![WHOAMI_REG]);
        match self.bus_write_read(ADDRESS, &who, &mut buf) {
            Ok(()) => {},
            Err(e) => {
                assert(self.log@.take(pre.len() as int) =~= pre);
                return Err(Error::I2c(e));
            },
        }
        if buf[0] != WHOAMI_VAL {
            assert(self.log@.take(pre.len() as int) =~= pre);
            return Err(Error::InvalidDevice);
        }
        let wake: [u8; 2] = [PWR_MGMT_1, 0x00];
        assert(wake@ =~= seq![PWR_MGMT_1, 0x00]);
        let r = match self.bus_write(ADDRESS, &wake) {
            Ok(()) => Ok(()),
            Err(e) => Err(Error::I2c(e)),
        };
        assert(self.log@.take(pre.len() as int) =~= pre);
        r
    }

    /// Takes `samples` accelerometer and gyroscope samples from the sensor, which
    /// must lie still and upside down, and keeps their means as the offsets that
    /// later readings are corrected by. If a read fails, the offsets stay as
    /// they were.
    pub fn calibrate(&mut self, samples: i32) -> (r: Result<(), Error<ErrorKind>>)
        requires
            samples != 0,
            samples <= MAX_SAMPLES,
        ensures
            calibrate_outcome(old(self).bus_log(), final(self).bus_log(), samples as int, r),
            r is Ok ==> final(self).calibration().accel() == calibrated_accel(
                final(self).bus_log(),
                old(self).bus_log().len() as int,
                samples as int,
            ),
            r is Ok ==> final(self).calibration().gyro() == calibrated_gyro(
                final(self).bus_log(),
                old(self).bus_log().len() as int,
                samples as int,
            ),
            r is Err ==> final(self).calibration() == old(self).calibration(),
    {
        let ghost pre = self.log@;
        let ghost base = pre.len() as int;
        let ghost offsets0 = self.offsets;
        let mut sums = SampleSums::new();
        let mut i: i32 = 0;
        while i < samples
            invariant
                samples != 0,
                samples <= MAX_SAMPLES,
                0 <= i <= sample_count(samples as int),
                sums.num_samples() == i,
                base == pre.len(),
                pre == old(self).log@,
                offsets0 == old(self).offsets,
                self.offsets == offsets0,
                self.log@.len() == base + 2 * i,
                self.log@.take(base) == pre,
                sample_reads(self.log@, base),
                all_succeeded(self.log@, base, self.log@.len() as int),
                sums.accel_sum() == sample_sums(self.log@, base, 0, i as nat),
                sums.gyro_sum() == sample_sums(self.log@, base, 1, i as nat),
            decreases samples - i,
        {
            let ghost log0 = self.log@;
            proof {
                assert(sample_register(2 * i) == ACCEL_XOUT_H);
                assert(sample_register(2 * i + 1) == GYRO_XOUT_H);
            }
            let accel = match self.read_accel_raw() {
                Ok(t) => t,
                Err(e) => {
                    proof {
                        lemma_take_take(self.log@, log0, pre, log0.len() as int, base);
                        lemma_sample_reads_extend(log0, self.log@, base);
                    }
                    return Err(e);
                },
            };
            let ghost log1 = self.log@;
            proof {
                lemma_take_take(log1, log0, pre, log0.len() as int, base);
                lemma_sample_reads_extend(log0, log1, base);
            }
            let gyro = match self.read_gyro_raw() {
                Ok(t) => t,
                Err(e) => {
                    proof {
                        lemma_take_take(self.log@, log1, pre, log1.len() as int, base);
                        lemma_sample_reads_extend(log1, self.log@, base);
                    }
                    return Err(e);
                },
            };
            let ghost log2 = self.log@;
            proof {
                lemma_sample_reads_extend(log1, log2, base);
            }
            sums.add(accel, gyro);
            proof {
                lemma_take_take(log2, log1, pre, log1.len() as int, base);
                assert(log2[base + 2 * i] == log1[base + 2 * i]);
                assert forall|j: int| 0 <= j < base + 2 * i implies log0[j] == log2[j] by {
                    assert(log1[j] == log0[j]);
                }
                let n = i as nat;
                lemma_axis_sum_prefix(log0, log2, base, 0, 0, n);
                lemma_axis_sum_prefix(log0, log2, base, 0, 1, n);
                lemma_axis_sum_prefix(log0, log2, base, 0, 2, n);
                lemma_axis_sum_prefix(log0, log2, base, 1, 0, n);
                lemma_axis_sum_prefix(log0, log2, base, 1, 1, n);
                lemma_axis_sum_prefix(log0, log2, base, 1, 2, n);
            }
            i = i + 1;
        }
        self.offsets = sums.offsets(samples);
        Ok(())
    }

    /// Reads the accelerometer, corrected by the accelerometer offsets, in raw counts.
    pub fn read_accel_counts(&mut self) -> (r: Result<(i32, i32, i32), Error<ErrorKind>>)
        ensures
            final(self).calibration() == old(self).calibration(),
            corrected_read_outcome(
                old(self).bus_log(),
                final(self).bus_log(),
                ACCEL_XOUT_H,
                old(self).calibration().accel(),
                r,
            ),
    {
        match self.read_accel_raw() {
            Ok(raw) => Ok(self.offsets.correct_accel(raw)),
            Err(e) => Err(e),
        }
    }

    /// Reads the gyroscope, corrected by the gyroscope offsets, in raw counts.
    pub fn read_gyro_counts(&mut self) -> (r: Result<(i32, i32, i32), Error<ErrorKind>>)
        ensures
            final(self).calibration() == old(self).calibration(),
            corrected_read_outcome(
                old(self).bus_log(),
                final(self).bus_log(),
                GYRO_XOUT_H,
                old(self).calibration().gyro(),
                r,
            ),
    {
        match self.read_gyro_raw() {
            Ok(raw) => Ok(self.offsets.correct_gyro(raw)),
            Err(e) => Err(e),
        }
    }

    /// Reads the six-byte block at `register` and decodes it.
    fn read_block(&mut self, register: u8) -> (r: Result<(i16, i16, i16), Error<ErrorKind>>)
        ensures
            final(self).calibration() == old(self).calibration(),
            block_read_outcome(old(self).bus_log(), final(self).bus_log(), register, r),
    {
        let ghost pre = self.log@;
        let mut buf = [0u8; 6];
        let reg: [u8; 1] = [register];
        assert(reg@ =~= seq![register]);
        let r = match self.bus_write_read(ADDRESS, &reg, &mut buf) {
            Ok(()) => Ok(decode_triple(&buf)),
            Err(e) => Err(Error::I2c(e)),
        };
        assert(self.log@.take(pre.len() as int) =~= pre);
        r
    }

    /// Reads the raw accelerometer values.
    fn read_accel_raw(&mut self) -> (r: Result<(i16, i16, i16), Error<ErrorKind>>)
        ensures
            final(self).calibration() == old(self).calibration(),
            block_read_outcome(old(self).bus_log(), final(self).bus_log(), ACCEL_XOUT_H, r),
    {
        self.read_block(ACCEL_XOUT_H)
    }

    /// Reads the raw gyroscope values.
    fn read_gyro_raw(&mut self) -> (r: Result<(i16, i16, i16), Error<ErrorKind>>)
        ensures
            final(self).calibration() == old(self).calibration(),
            block_read_outcome(old(self).bus_log(), final(self).bus_log(), GYRO_XOUT_H, r),
    {
        self.read_block(GYRO_XOUT_H)
    }
}

} // verus!

verus! {

/// Summing `n` samples that all read `v` on an axis gives `n * v`.
proof fn lemma_axis_sum_constant(log: Seq<BusOp>, base: int, parity: int, axis: int, n: nat, v: int)
    requires
        forall|i: int| 0 <= i < n ==> axis_value(#[trigger] sample_bytes(log, base, parity, i), axis) == v,
    ensures
        axis_sum(log, base, parity, axis, n) == n * v,
    decreases n,
{
    if n > 0 {
        lemma_axis_sum_constant(log, base, parity, axis, (n - 1) as nat, v);
        assert(axis_value(sample_bytes(log, base, parity, n - 1), axis) == v);
        assert((n - 1) * v + v == n * v) by (nonlinear_arith);
    } else {
        assert(n * v == 0) by (nonlinear_arith)
            requires
                n == 0,
        ;
    }
}

/// The mean of `n` copies of `v` is `v`, however it is rounded.
proof fn lemma_mean_of_constant(n: int, v: int)
    requires
        n > 0,
    ensures
        quotient_toward_zero(n * v, n) == v,
{
    let m = magnitude(v) as int;
    assert(magnitude(n * v) == n * m) by (nonlinear_arith)
        requires
            n > 0,
            m == magnitude(v),
    ;
    assert((n * m) / n == m) by (nonlinear_arith)
        requires
            n > 0,
            m >= 0,
    ;
    assert((n * v < 0) == (v < 0)) by (nonlinear_arith)
        requires
            n > 0,
    ;
}

/// Calibrating a still sensor: when every accelerometer sample of a calibration
/// reads the block `accel` and every gyroscope sample the block `gyro`, the
/// gyroscope offsets are the gyroscope's reading and the accelerometer offsets
/// its reading with one g added on Z. A later reading of the same blocks then
/// corrects to no rotation at all and to minus one g on Z alone: the sensor
/// lies upside down.
pub proof fn law_still_sensor_reads_level(
    log: Seq<BusOp>,
    base: int,
    samples: int,
    accel: Seq<u8>,
    gyro: Seq<u8>,
)
    requires
        samples > 0,
        forall|i: int| 0 <= i < samples ==> #[trigger] sample_bytes(log, base, 0, i) == accel,
        forall|i: int| 0 <= i < samples ==> #[trigger] sample_bytes(log, base, 1, i) == gyro,
    ensures
        calibrated_accel(log, base, samples) == (
            triple_value(accel).0,
            triple_value(accel).1,
            triple_value(accel).2 + GRAVITY_COUNTS,
        ),
        calibrated_gyro(log, base, samples) == triple_value(gyro),
        corrected(triple_value(accel), calibrated_accel(log, base, samples)) == (
            0int,
            0int,
            -GRAVITY_COUNTS,
        ),
        corrected(triple_value(gyro), calibrated_gyro(log, base, samples)) == (0int, 0int, 0int),
{
    let n = samples as nat;
    lemma_axis_sum_constant(log, base, 0, 0, n, axis_value(accel, 0));
    lemma_axis_sum_constant(log, base, 0, 1, n, axis_value(accel, 1));
    lemma_axis_sum_constant(log, base, 0, 2, n, axis_value(accel, 2));
    lemma_axis_sum_constant(log, base, 1, 0, n, axis_value(gyro, 0));
    lemma_axis_sum_constant(log, base, 1, 1, n, axis_value(gyro, 1));
    lemma_axis_sum_constant(log, base, 1, 2, n, axis_value(gyro, 2));
    lemma_mean_of_constant(samples, axis_value(accel, 0));
    lemma_mean_of_constant(samples, axis_value(accel, 1));
    lemma_mean_of_constant(samples, axis_value(accel, 2));
    lemma_mean_of_constant(samples, axis_value(gyro, 0));
    lemma_mean_of_constant(samples, axis_value(gyro, 1));
    lemma_mean_of_constant(samples, axis_value(gyro, 2));
}

} // verus!

verus! {

/// Two runs of samples that agree everywhere below `n` have the same sums.
proof fn lemma_axis_sum_agree(l1: Seq<BusOp>, l2: Seq<BusOp>, base: int, parity: int, axis: int, n: nat)
    requires
        forall|i: int| 0 <= i < n ==> #[trigger] sample_bytes(l1, base, parity, i) == sample_bytes(l2, base, parity, i),
    ensures
        axis_sum(l1, base, parity, axis, n) == axis_sum(l2, base, parity, axis, n),
    decreases n,
{
    if n > 0 {
        lemma_axis_sum_agree(l1, l2, base, parity, axis, (n - 1) as nat);
        assert(sample_bytes(l1, base, parity, n - 1) == sample_bytes(l2, base, parity, n - 1));
    }
}

/// The `i`-th accelerometer sample of a calibration is the block read by its
/// transaction `2 * i`, and the `i`-th gyroscope sample the block read by its
/// transaction `2 * i + 1`.
pub proof fn law_samples_are_logged_reads(log: Seq<BusOp>, base: int, i: int)
    ensures
        sample_bytes(log, base, 0, i) == bytes_read(log[base + 2 * i]),
        sample_bytes(log, base, 1, i) == bytes_read(log[base + 2 * i + 1]),
{
}

/// A sum over no samples is zero, and the sum over `n + 1` samples is the sum
/// over the first `n` plus the value of sample `n`.
pub proof fn law_sum_adds_each_sample(log: Seq<BusOp>, base: int, parity: int, axis: int, n: nat)
    ensures
        axis_sum(log, base, parity, axis, 0) == 0,
        axis_sum(log, base, parity, axis, n + 1) == axis_sum(log, base, parity, axis, n)
            + axis_value(sample_bytes(log, base, parity, n as int), axis),
{
}

/// Every sample counts: two calibrations whose samples agree except for sample
/// `j` have sums that differ by exactly the difference of that sample's values.
pub proof fn law_every_sample_counts(
    l1: Seq<BusOp>,
    l2: Seq<BusOp>,
    base: int,
    parity: int,
    axis: int,
    n: nat,
    j: int,
)
    requires
        0 <= j < n,
        forall|i: int|
            0 <= i < n && i != j ==> #[trigger] sample_bytes(l1, base, parity, i) == sample_bytes(
                l2,
                base,
                parity,
                i,
            ),
    ensures
        axis_sum(l1, base, parity, axis, n) - axis_sum(l2, base, parity, axis, n) == axis_value(
            sample_bytes(l1, base, parity, j),
            axis,
        ) - axis_value(sample_bytes(l2, base, parity, j), axis),
    decreases n,
{
    let m = (n - 1) as nat;
    if j < m {
        law_every_sample_counts(l1, l2, base, parity, axis, m, j);
        assert(sample_bytes(l1, base, parity, m as int) == sample_bytes(l2, base, parity, m as int));
    } else {
        lemma_axis_sum_agree(l1, l2, base, parity, axis, m);
    }
}

/// The offsets of a calibration of `samples > 0` samples are, axis by axis, the
/// sums of the accelerometer (even transactions) and gyroscope (odd
/// transactions) samples divided by `samples`, rounded toward zero, with one g
/// (16384 counts) added on the accelerometer's Z alone.
pub proof fn law_offsets_are_means(log: Seq<BusOp>, base: int, samples: int)
    requires
        samples > 0,
    ensures
        calibrated_accel(log, base, samples) == (
            quotient_toward_zero(axis_sum(log, base, 0, 0, samples as nat), samples),
            quotient_toward_zero(axis_sum(log, base, 0, 1, samples as nat), samples),
            quotient_toward_zero(axis_sum(log, base, 0, 2, samples as nat), samples) + 16384,
        ),
        calibrated_gyro(log, base, samples) == (
            quotient_toward_zero(axis_sum(log, base, 1, 0, samples as nat), samples),
            quotient_toward_zero(axis_sum(log, base, 1, 1, samples as nat), samples),
            quotient_toward_zero(axis_sum(log, base, 1, 2, samples as nat), samples),
        ),
{
}

} // verus!
