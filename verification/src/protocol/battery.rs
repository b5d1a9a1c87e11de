//! Battery Service (standard BLE): the peripheral notifies its battery level
//! periodically; the central may also read it.

use vstd::prelude::*;

verus! {

/// UUID of the Battery Service (16-bit, assigned by the Bluetooth SIG).
pub const SERVICE_UUID16: u16 = 0x180F;

/// UUID of the Battery Level characteristic (16-bit, assigned by the Bluetooth SIG).
pub const LEVEL_UUID16: u16 = 0x2A19;

} // verus!
