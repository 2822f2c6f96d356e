//! Bus probing: the addresses an I2C scan tries, and the tally of repeated
//! identification reads of the sensor.
use vstd::prelude::*;

use crate::driver::WHOAMI_VAL;

verus! {

/// The first address an I2C scan tries; lower ones are reserved.
pub const SCAN_FIRST: u8 = 0x08;
/// One past the last address an I2C scan tries; higher ones are reserved.
pub const SCAN_END: u8 = 0x78;

/// An identification read confirms the sensor when the bus reports success and
/// the byte read is `WHOAMI_VAL`.
pub open spec fn confirms_identity<E>(outcome: Result<(), E>, id: u8) -> bool {
    outcome is Ok && id == WHOAMI_VAL
}

/// Whether an identification read confirmed the sensor.
pub fn identity_confirmed<E>(outcome: &Result<(), E>, id: u8) -> (b: bool)
    ensures
        b == confirms_identity(*outcome, id),
{
    match outcome {
        Ok(()) => id == WHOAMI_VAL,
        Err(_) => false,
    }
}

/// Counts of identification reads that confirmed the sensor and that did not.
#[derive(Clone, Copy, Debug, PartialEq, Eq, Structural)]
pub struct WhoamiTally {
    pub success: u32,
    pub errors: u32,
}

impl WhoamiTally {
    /// No reads counted yet.
    pub fn new() -> (t: WhoamiTally)
        ensures
            t.success == 0,
            t.errors == 0,
    {
        WhoamiTally { success: 0, errors: 0 }
    }

    /// Counts one identification read.
    pub fn record<E>(&mut self, outcome: &Result<(), E>, id: u8)
        requires
            confirms_identity(*outcome, id) ==> old(self).success < u32::MAX,
            !confirms_identity(*outcome, id) ==> old(self).errors < u32::MAX,
        ensures
            confirms_identity(*outcome, id) ==> final(self).success == old(self).success + 1
                && final(self).errors == old(self).errors,
            !confirms_identity(*outcome, id) ==> final(self).errors == old(self).errors + 1
                && final(self).success == old(self).success,
    {
        if identity_confirmed(outcome, id) {
            self.success = self.success + 1;
        } else {
            self.errors = self.errors + 1;
        }
    }
}

/// Only the MPU-6500's identity confirms it: a read confirms the sensor exactly
/// when the bus succeeded and the byte read is 0x70; every other byte, and
/// every failed read, counts as an error.
pub proof fn law_only_whoami_confirms<E>(outcome: Result<(), E>, id: u8)
    ensures
        confirms_identity(outcome, id) <==> (outcome is Ok && id == 0x70),
        id != 0x70 ==> !confirms_identity(outcome, id),
        outcome is Err ==> !confirms_identity(outcome, id),
{
}

} // verus!
