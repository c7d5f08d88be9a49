//! The laser projector's stored configuration.

use vstd::prelude::*;

verus! {

pub const MAXSPEED: u32 = 40000;
pub const MINSPEED: u32 = 10000;
pub const ACCELERATION: u32 = 100000;
pub const Y_HOME_POS: u32 = 300;
pub const X_HOME_POS: u32 = 580;
pub const TRANSFER_SIZE: u32 = 51;
pub const PROJECTOR_ID: u32 = 1;

/// Slot of the "configuration present" flag.
pub const LOAD_CONFIG: usize = 0;
pub const ACCELERATION_CONFIG: usize = 1;
pub const TRANSFER_SIZE_CONFIG: usize = 2;
pub const MAX_SPEED_CONFIG: usize = 3;
pub const MIN_SPEED_CONFIG: usize = 4;
pub const X_HOME_CONFIG: usize = 5;
pub const Y_HOME_CONFIG: usize = 6;
pub const PROJECTOR_ID_CONFIG: usize = 7;

/// Writes the factory configuration into the first eight slots of `config`
/// and marks it present; the other slots keep their values.
pub fn load_default_config(config: &mut Vec<u32>)
    requires
        old(config)@.len() >= 8,
    ensures
        final(config)@.len() == old(config)@.len(),
        final(config)@[0] == 1,
        final(config)@[1] == ACCELERATION,
        final(config)@[2] == TRANSFER_SIZE,
        final(config)@[3] == MAXSPEED,
        final(config)@[4] == MINSPEED,
        final(config)@[5] == X_HOME_POS,
        final(config)@[6] == Y_HOME_POS,
        final(config)@[7] == PROJECTOR_ID,
        forall|i: int| 8 <= i < old(config)@.len() ==> final(config)@[i] == old(config)@[i],
{
    config.set(LOAD_CONFIG, 1);
    config.set(ACCELERATION_CONFIG, ACCELERATION);
    config.set(TRANSFER_SIZE_CONFIG, TRANSFER_SIZE);
    config.set(MAX_SPEED_CONFIG, MAXSPEED);
    config.set(MIN_SPEED_CONFIG, MINSPEED);
    config.set(X_HOME_CONFIG, X_HOME_POS);
    config.set(Y_HOME_CONFIG, Y_HOME_POS);
    config.set(PROJECTOR_ID_CONFIG, PROJECTOR_ID);
}

} // verus!
