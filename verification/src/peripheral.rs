//! The peripheral's product logic: transfer statistics, the values its
//! characteristics start with, what a GATT write changes, and the decisions
//! of its periodic task.

use vstd::prelude::*;

use crate::protocol::bulk::{BulkControlCommand, BulkStats, CONTROL_CAPACITY, STATS_CAPACITY};
use crate::protocol::status::CAPACITY as STATUS_CAPACITY;
use crate::wire::{
    control_bytes, control_value, decode_control_command, lemma_varint_len, group_weight,
    spec_decode_control, spec_decode_stats, stats_bytes, stats_value, status_bytes, status_value,
};

verus! {

/// The value the Status characteristic starts with: `false`, encoded.
pub fn initial_status_value() -> (r: Vec<u8>)
    ensures
        r@ == status_bytes(false),
        r@.len() <= STATUS_CAPACITY,
{
    status_value(false)
}

/// The value the bulk control characteristic starts with and returns to
/// after a stream: `Idle`, encoded.
pub fn initial_bulk_control_value() -> (r: Vec<u8>)
    ensures
        r@ == control_bytes(BulkControlCommand::Idle),
        r@.len() <= CONTROL_CAPACITY,
{
    control_value(BulkControlCommand::Idle)
}

/// The value the bulk statistics characteristic starts with: zero counts,
/// encoded.
pub fn initial_bulk_stats_value() -> (r: Vec<u8>)
    ensures
        r@ == stats_bytes(BulkStats { rx_bytes: 0, tx_bytes: 0 }),
        r@.len() <= STATS_CAPACITY,
{
    stats_value(BulkStats { rx_bytes: 0, tx_bytes: 0 })
}

/// Byte counts a length adds to a 32-bit counter: the length modulo 2^32.
pub open spec fn counted(len: nat) -> u32 {
    (len % 0x1_0000_0000) as u32
}

/// A 32-bit counter after adding `len` bytes, wrapping around.
pub open spec fn wrapped_add(counter: u32, len: nat) -> u32 {
    ((counter as nat + counted(len) as nat) % 0x1_0000_0000) as u32
}

/// Cumulative transfer counts of the peripheral: bytes received from the
/// central (upload) and bytes sent to it (download).
pub struct TransferStats {
    rx_bytes: u32,
    tx_bytes: u32,
}

impl View for TransferStats {
    type V = BulkStats;

    closed spec fn view(&self) -> BulkStats {
        BulkStats { rx_bytes: self.rx_bytes, tx_bytes: self.tx_bytes }
    }
}

impl TransferStats {
    /// Counts starting at zero.
    pub fn new() -> (r: TransferStats)
        ensures
            r@ == (BulkStats { rx_bytes: 0, tx_bytes: 0 }),
    {
        TransferStats { rx_bytes: 0, tx_bytes: 0 }
    }

    /// Reset both counts to zero.
    pub fn reset_stats(&mut self)
        ensures
            final(self)@ == (BulkStats { rx_bytes: 0, tx_bytes: 0 }),
    {
        self.rx_bytes = 0;
        self.tx_bytes = 0;
    }

    /// Reset the sent count at the start of a download stream.
    pub fn begin_stream(&mut self)
        ensures
            final(self)@ == (BulkStats { rx_bytes: old(self)@.rx_bytes, tx_bytes: 0 }),
    {
        self.tx_bytes = 0;
    }

    /// Count bytes received from the central; the count wraps around.
    pub fn record_rx(&mut self, data: &[u8])
        ensures
            final(self)@ == (BulkStats {
                rx_bytes: wrapped_add(old(self)@.rx_bytes, data@.len()),
                tx_bytes: old(self)@.tx_bytes,
            }),
    {
        let len = data.len();
        #[verifier::truncate]
        let n = len as u32;
        assert(n == counted(len as nat)) by (bit_vector)
            requires n == len as u32;
        self.rx_bytes = self.rx_bytes.wrapping_add(n);
    }

    /// Count bytes sent to the central; the count wraps around.
    pub fn record_tx(&mut self, data: &[u8])
        ensures
            final(self)@ == (BulkStats {
                rx_bytes: old(self)@.rx_bytes,
                tx_bytes: wrapped_add(old(self)@.tx_bytes, data@.len()),
            }),
    {
        let len = data.len();
        #[verifier::truncate]
        let n = len as u32;
        assert(n == counted(len as nat)) by (bit_vector)
            requires n == len as u32;
        self.tx_bytes = self.tx_bytes.wrapping_add(n);
    }

    /// The current counts.
    pub fn snapshot(&self) -> (r: BulkStats)
        ensures
            r == self@,
    {
        BulkStats { rx_bytes: self.rx_bytes, tx_bytes: self.tx_bytes }
    }

    /// The statistics characteristic's value for the current counts.
    pub fn stats_value(&self) -> (r: Vec<u8>)
        ensures
            r@ == stats_bytes(self@),
            r@.len() <= STATS_CAPACITY,
    {
        proof {
            reveal_with_fuel(group_weight, 6);
            lemma_varint_len(self@.rx_bytes as nat, 5);
            lemma_varint_len(self@.tx_bytes as nat, 5);
        }
        stats_value(self.snapshot())
    }
}

/// Attribute handles of the product's characteristics.
#[derive(Clone, Copy, Debug)]
pub struct ProductHandles {
    /// Battery level.
    pub level: u16,
    /// Echo.
    pub echo: u16,
    /// Status.
    pub status: u16,
    /// Bulk control.
    pub bulk_control: u16,
    /// Bulk data.
    pub bulk_data: u16,
    /// Bulk statistics.
    pub bulk_stats: u16,
}

/// A GATT request from the central, by attribute handle.
#[derive(Clone, Debug)]
pub enum GattRequest {
    /// A read of the attribute.
    Read { handle: u16 },
    /// A write of `data` to the attribute.
    Write { handle: u16, data: Vec<u8> },
}

/// Whether a request is a write of a reset command to the bulk control
/// characteristic (writes to the echo and status characteristics are
/// matched first).
pub open spec fn is_reset_request(handles: ProductHandles, req: GattRequest) -> bool {
    match req {
        GattRequest::Write { handle, data } => handle != handles.echo && handle != handles.status
            && handle == handles.bulk_control
            && spec_decode_control(data@) == Some(BulkControlCommand::ResetStats),
        GattRequest::Read { .. } => false,
    }
}

/// Whether a request is an upload to the bulk data characteristic (writes
/// to the echo, status and control characteristics are matched first).
pub open spec fn is_upload_request(handles: ProductHandles, req: GattRequest) -> bool {
    match req {
        GattRequest::Write { handle, data } => handle != handles.echo && handle != handles.status
            && handle != handles.bulk_control && handle == handles.bulk_data,
        GattRequest::Read { .. } => false,
    }
}

/// Handle one GATT request: a reset command zeroes the counts, an upload
/// counts its bytes as received; either way the new statistics value is
/// returned for publishing. Other requests change nothing.
pub fn handle_gatt_event(stats: &mut TransferStats, handles: &ProductHandles, event: &GattRequest) -> (r: Option<Vec<u8>>)
    ensures
        is_reset_request(*handles, *event) ==> final(stats)@ == (BulkStats { rx_bytes: 0, tx_bytes: 0 }),
        is_upload_request(*handles, *event) ==> final(stats)@ == (BulkStats {
            rx_bytes: wrapped_add(old(stats)@.rx_bytes, event->Write_data@.len()),
            tx_bytes: old(stats)@.tx_bytes,
        }),
        !is_reset_request(*handles, *event) && !is_upload_request(*handles, *event) ==> final(stats)@ == old(stats)@ && r is None,
        is_reset_request(*handles, *event) || is_upload_request(*handles, *event) ==> (r matches Some(v) && v@ == stats_bytes(final(stats)@)),
{
    match event {
        GattRequest::Read { .. } => None,
        GattRequest::Write { handle, data } => {
            let h = *handle;
            if h == handles.echo || h == handles.status {
                None
            } else if h == handles.bulk_control {
                match decode_control_command(data.as_slice()) {
                    Ok(BulkControlCommand::ResetStats) => {
                        stats.reset_stats();
                        Some(stats.stats_value())
                    },
                    _ => None,
                }
            } else if h == handles.bulk_data {
                stats.record_rx(data.as_slice());
                Some(stats.stats_value())
            } else {
                None
            }
        },
    }
}

/// What the periodic task does in one round.
#[derive(Clone, Copy, Debug, PartialEq, Eq, Structural)]
pub enum TaskStep {
    /// Run a download stream of `total_bytes` bytes, then start the next
    /// round.
    Stream { total_bytes: u32 },
    /// Notify the echo value back (and clear it) when `echo` is set, then
    /// notify the battery level, then pause before the next round.
    Notify { echo: bool, battery_level: u8 },
}

/// Highest battery level, in percent.
pub const BATTERY_LEVEL_MAX: u8 = 100;

/// The peripheral's periodic task: bulk streams, echo replies and battery
/// notifications.
pub struct CustomTask {
    battery_tick: u8,
}

impl CustomTask {
    /// The battery level last notified, in percent.
    pub closed spec fn spec_tick(&self) -> u8 {
        self.battery_tick
    }

    /// A task whose battery level starts at zero.
    pub fn new() -> (r: CustomTask)
        ensures
            r.spec_tick() == 0,
    {
        CustomTask { battery_tick: 0 }
    }

    /// Decide one round from the current bulk control and echo values: a
    /// `StartStream` command runs a stream; otherwise the echo value is
    /// replied when non-empty and the battery level advances by one percent,
    /// from 100 back to 0, and is notified.
    pub fn step(&mut self, control_value: &[u8], echo_value: &[u8]) -> (r: TaskStep)
        ensures
            match spec_decode_control(control_value@) {
                Some(BulkControlCommand::StartStream { total_bytes }) =>
                    r == (TaskStep::Stream { total_bytes }) && final(self).spec_tick() == old(self).spec_tick(),
                _ => final(self).spec_tick() == ((old(self).spec_tick() as int + 1) % (BATTERY_LEVEL_MAX as int + 1)) as u8
                    && final(self).spec_tick() <= BATTERY_LEVEL_MAX
                    && r == (TaskStep::Notify { echo: echo_value@.len() > 0, battery_level: final(self).spec_tick() }),
            },
    {
        if let Ok(BulkControlCommand::StartStream { total_bytes }) = decode_control_command(control_value) {
            return TaskStep::Stream { total_bytes };
        }
        let next: u16 = (self.battery_tick as u16 + 1) % (BATTERY_LEVEL_MAX as u16 + 1);
        self.battery_tick = next as u8;
        TaskStep::Notify { echo: echo_value.len() > 0, battery_level: self.battery_tick }
    }
}

/// Counting an upload chunk by chunk gives the same count as counting it at
/// once: the received count after `a` and then `b` bytes is the count after
/// `a + b` bytes, so after a reset it reads the upload's size (modulo 2^32).
pub proof fn lemma_counts_accumulate(counter: u32, a: nat, b: nat)
    ensures
        wrapped_add(wrapped_add(counter, a), b) == wrapped_add(counter, a + b),
        wrapped_add(0, a) == counted(a),
{
    let m: int = 0x1_0000_0000;
    vstd::arithmetic::div_mod::lemma_add_mod_noop_right(counter as int, a as int, m);
    vstd::arithmetic::div_mod::lemma_add_mod_noop_right(counter as int, (a + b) as int, m);
    let w = wrapped_add(counter, a);
    assert(w as int == (counter as int + a as int) % m);
    vstd::arithmetic::div_mod::lemma_add_mod_noop_right(w as int, b as int, m);
    vstd::arithmetic::div_mod::lemma_add_mod_noop_right(b as int, counter as int + a as int, m);
    assert((w as int + b as int) % m == (counter as int + a as int + b as int) % m);
    vstd::arithmetic::div_mod::lemma_small_mod(counted(a) as nat, m as nat);
}

/// A reset written by the central is recognised as one by the peripheral,
/// and the statistics the peripheral then publishes read as zero on the
/// central's side, which ends the central's wait for the reset.
pub proof fn lemma_reset_round_trip(handles: ProductHandles, data: Vec<u8>)
    requires
        handles.bulk_control != handles.echo,
        handles.bulk_control != handles.status,
        data@ == control_bytes(BulkControlCommand::ResetStats),
    ensures
        is_reset_request(handles, GattRequest::Write { handle: handles.bulk_control, data }),
        spec_decode_stats(stats_bytes(BulkStats { rx_bytes: 0, tx_bytes: 0 }))
            == Some(BulkStats { rx_bytes: 0, tx_bytes: 0 }),
{
    crate::wire::lemma_control_roundtrip(BulkControlCommand::ResetStats, Seq::empty());
    assert(control_bytes(BulkControlCommand::ResetStats) + Seq::<u8>::empty()
        =~= control_bytes(BulkControlCommand::ResetStats));
    let zero = BulkStats { rx_bytes: 0, tx_bytes: 0 };
    crate::wire::lemma_stats_roundtrip(zero, Seq::empty());
    assert(stats_bytes(zero) + Seq::<u8>::empty() =~= stats_bytes(zero));
}

/// Only bulk writes touch the statistics: an upload is a write to the bulk
/// data handle, a reset is a write of a reset command to the bulk control
/// handle, and a read is neither.
pub proof fn lemma_only_bulk_writes_count(handles: ProductHandles, req: GattRequest)
    ensures
        is_upload_request(handles, req) ==> (req matches GattRequest::Write { handle, .. } && handle == handles.bulk_data),
        is_reset_request(handles, req) ==> (req matches GattRequest::Write { handle, data } && handle == handles.bulk_control
            && spec_decode_control(data@) == Some(BulkControlCommand::ResetStats)),
        req is Read ==> !is_upload_request(handles, req) && !is_reset_request(handles, req),
{
}

/// With distinct handles, a write to the status or echo characteristic
/// neither uploads nor resets, whatever it holds, while any write to the
/// bulk data characteristic is an upload.
pub proof fn lemma_writes_by_handle(handles: ProductHandles, data: Vec<u8>)
    requires
        handles.bulk_data != handles.echo,
        handles.bulk_data != handles.status,
        handles.bulk_data != handles.bulk_control,
        handles.bulk_control != handles.echo,
        handles.bulk_control != handles.status,
    ensures
        !is_upload_request(handles, GattRequest::Write { handle: handles.status, data }),
        !is_reset_request(handles, GattRequest::Write { handle: handles.status, data }),
        !is_upload_request(handles, GattRequest::Write { handle: handles.echo, data }),
        !is_reset_request(handles, GattRequest::Write { handle: handles.echo, data }),
        is_upload_request(handles, GattRequest::Write { handle: handles.bulk_data, data }),
        !is_reset_request(handles, GattRequest::Write { handle: handles.bulk_data, data }),
{
}

} // verus!
