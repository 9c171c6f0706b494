//! Talking to Sony game controllers over USB and Bluetooth.
//!
//! The library decides and computes; whoever uses it does the talking. It knows
//! which devices are controllers (`device`), what to send them (`controller`, with
//! the reports byte for byte in `sony_reports` and their checksum in `checksum`),
//! which of them are connected (`registry`), and how to disconnect one from the
//! radios of the host (`radio`).

pub mod address;
pub mod bytes;
pub mod checksum;
pub mod controller;
pub mod device;
pub mod error;
pub mod hex_dump;
pub mod radio;
pub mod registry;
pub mod sony_reports;
