//! Error kinds of the central-side BLE layers.

use vstd::prelude::*;

verus! {

#[verifier::external_type_specification]
#[verifier::external_body]
pub struct ExIoError(std::io::Error);

/// Errors that can occur during central-side BLE operations.
#[derive(Debug)]
pub enum BtleplusError {
    /// Bluetooth subsystem error.
    Bluetooth(String),
    /// Device was not found during scan.
    DeviceNotFound(String),
    /// Failed to connect to a device.
    ConnectionFailed(String),
    /// IO error (file, network, etc).
    Io(std::io::Error),
    /// Operation timed out.
    Timeout,
    /// Operation requires a connection but the device is not connected.
    NotConnected,
    /// Invalid operation (e.g. characteristic not found).
    InvalidOperation(String),
    /// Device selection failed before connection.
    SelectionFailed(String),
    /// Deserialize error.
    Deserialize(String),
    /// Serialize error.
    Serialize(String),
}

/// Errors of the single-session Windows BLE layer.
#[derive(Debug)]
pub enum WinbleError {
    /// Bluetooth subsystem error.
    Bluetooth(String),
    /// Device was not found during scan.
    DeviceNotFound(String),
    /// Failed to connect to a device.
    ConnectionFailed(String),
    /// IO error (file, network, etc).
    Io(std::io::Error),
    /// Operation timed out.
    Timeout,
    /// Operation requires a connection but the device is not connected.
    NotConnected,
    /// Invalid operation (e.g. characteristic not found).
    InvalidOperation(String),
    /// Deserialize error.
    Deserialize(String),
    /// Serialize error.
    Serialize(String),
}

/// Errors of the central's product session: what it checks of the data it
/// reads, writes and receives.
#[derive(Clone, Copy, Debug, PartialEq, Eq, Structural)]
pub enum SessionError {
    /// A value had the wrong number of bytes.
    UnexpectedLength { expected: usize, actual: usize },
    /// Echo data longer than the echo capacity.
    EchoTooLarge { len: usize, max: usize },
    /// Upload data longer than one bulk chunk.
    DataTooLarge { len: usize, max: usize },
    /// A received bulk chunk had an unexpected size.
    UnexpectedChunkSize { actual: usize, expected: usize },
    /// A received bulk chunk differs from the test pattern.
    DataMismatch { offset: usize },
    /// The statistics did not read as zero after a reset.
    StatsResetTimeout,
    /// No matching product candidate was found.
    NoCandidate,
    /// A matched peripheral carries no manufacturer data.
    MissingManufacturerData,
    /// A matched peripheral's manufacturer payload does not decode.
    InvalidManufacturerPayload,
}

} // verus!
