//! Device Information Service (standard BLE): static, read-only strings.

use vstd::prelude::*;

verus! {

/// UUID of the Device Information Service.
pub const SERVICE_UUID16: u16 = 0x180A;

/// UUID of the Manufacturer Name String characteristic.
pub const MANUFACTURER_NAME_UUID16: u16 = 0x2A29;

/// UUID of the Model Number String characteristic.
pub const MODEL_NUMBER_UUID16: u16 = 0x2A24;

/// UUID of the Firmware Revision String characteristic.
pub const FIRMWARE_REVISION_UUID16: u16 = 0x2A26;

/// UUID of the Software Revision String characteristic.
pub const SOFTWARE_REVISION_UUID16: u16 = 0x2A28;

/// Longest device information string.
pub const STRING_CAPACITY: usize = 30;

} // verus!
