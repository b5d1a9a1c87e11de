//! Bulk Service (custom): control commands, a data stream in both directions
//! and transfer statistics.

use vstd::prelude::*;

use super::ATT_PAYLOAD_MAX;

verus! {

/// UUID of the Bulk Service (128-bit, custom).
pub const SERVICE_UUID128: u128 = 0x4088_13df_5dd4_1f87_ec11_cdb0_0110_3001;

/// UUID of the control characteristic (Idle / ResetStats / StartStream).
pub const CONTROL_UUID128: u128 = 0x4088_13df_5dd4_1f87_ec11_cdb0_0110_3002;

/// UUID of the data characteristic (write = upload, notify = download).
pub const DATA_UUID128: u128 = 0x4088_13df_5dd4_1f87_ec11_cdb0_0110_3003;

/// UUID of the statistics characteristic (rx/tx byte counts).
pub const STATS_UUID128: u128 = 0x4088_13df_5dd4_1f87_ec11_cdb0_0110_3004;

/// Largest encoded control value.
pub const CONTROL_CAPACITY: usize = 8;

/// Largest data chunk: one ATT payload.
pub const CHUNK_SIZE: usize = ATT_PAYLOAD_MAX;

/// Largest encoded statistics value.
pub const STATS_CAPACITY: usize = 16;

/// Control commands of the Bulk Service.
#[derive(Clone, Copy, Debug, PartialEq, Eq, Structural)]
pub enum BulkControlCommand {
    /// Idle: the state after the peripheral restarts.
    Idle,
    /// Reset the rx/tx counters to zero.
    ResetStats,
    /// Ask the peripheral to notify a stream of `total_bytes` bytes.
    StartStream { total_bytes: u32 },
}

/// Transfer statistics of the Bulk Service.
#[derive(Clone, Copy, Debug, PartialEq, Eq, Structural)]
pub struct BulkStats {
    /// Bytes the peripheral received (central upload direction).
    pub rx_bytes: u32,
    /// Bytes the peripheral sent (peripheral download direction).
    pub tx_bytes: u32,
}

impl Default for BulkStats {
    fn default() -> (r: Self)
        ensures
            r.rx_bytes == 0,
            r.tx_bytes == 0,
    {
        BulkStats { rx_bytes: 0, tx_bytes: 0 }
    }
}

} // verus!
