//! Echo Service (custom): the central writes any data and the peripheral
//! notifies the same bytes back.

use vstd::prelude::*;

use super::ATT_PAYLOAD_MAX;

verus! {

/// UUID of the Echo Service (128-bit, custom).
pub const SERVICE_UUID128: u128 = 0x4088_13df_5dd4_1f87_ec11_cdb0_0110_1001;

/// UUID of the Echo characteristic.
pub const ECHO_UUID128: u128 = 0x4088_13df_5dd4_1f87_ec11_cdb0_0110_1002;

/// Largest echo payload: one ATT payload.
pub const CAPACITY: usize = ATT_PAYLOAD_MAX;

} // verus!
