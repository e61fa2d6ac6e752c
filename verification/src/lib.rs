//! Client-side codec and session logic for version 3.3 of the Tuya
//! local-network device protocol, and the data points of a dehumidifier that
//! speaks it.
//!
//! - [`tuya_protocol`] builds request frames and parses replies;
//!   [`frame_laws`] proves what holds of every frame.
//! - [`block_cipher`], [`checksum`] and [`wire`] hold what frames are made
//!   of: the payload cipher, the CRC-32, and big-endian integers.
//! - [`tuya_connection`] decides what a connection sends and reads, one
//!   transfer at a time; the socket itself belongs to the caller.
//! - [`json`] models the documents in the payloads, [`dps`] gives the data
//!   points their meaning, and [`server`] says what each tool does.
//! - [`config`] holds the settings of a connection, [`text`] the few
//!   operations on text that the rest needs.

pub mod block_cipher;
pub mod checksum;
pub mod config;
pub mod dps;
pub mod frame_laws;
pub mod json;
pub mod server;
pub mod text;
pub mod tuya_connection;
pub mod tuya_protocol;
pub mod wire;
