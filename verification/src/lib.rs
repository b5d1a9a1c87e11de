//! Verified core of the hello-espcx BLE product: the shared wire contract,
//! scan-time filtering and ranking on the central side, the bulk-transfer
//! integrity protocol, and the peripheral's decision logic.

pub mod protocol;
pub mod error;
pub mod uuid;
pub mod text;
pub mod properties;
pub mod central;
pub mod selection;
pub mod filter;
pub mod discovery;
pub mod winble;
pub mod stream;
pub mod wire;
pub mod advertising;
pub mod peripheral;
pub mod render;
pub mod gatt;
pub mod display;
