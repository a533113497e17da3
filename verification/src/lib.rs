//! Serial protocol, frame parsers, filters and device/host decision logic for
//! the espcap WiFi/BLE capture firmware and its companion CLI.

pub mod text;
pub mod error;
pub mod types;
pub mod mac;
pub mod ble;
pub mod pcap;
pub mod wifi;
pub mod ring;
pub mod dedup;
pub mod pattern;
pub mod filter;
pub mod command;
pub mod config;
pub mod event;
pub mod device;
pub mod host;
