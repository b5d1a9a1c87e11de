//! Status Service (custom): a boolean the central may read, write and be
//! notified of.

use vstd::prelude::*;

verus! {

/// UUID of the Status Service (128-bit, custom).
pub const SERVICE_UUID128: u128 = 0x4088_13df_5dd4_1f87_ec11_cdb0_0110_2001;

/// UUID of the Status characteristic.
pub const STATUS_UUID128: u128 = 0x4088_13df_5dd4_1f87_ec11_cdb0_0110_2002;

/// Largest encoded status value.
pub const CAPACITY: usize = 4;

} // verus!
