//! A minimal binary notification protocol: one typed event (a "hook") per TCP
//! connection, framed as a fixed 16-byte header followed by the payload.
//!
//! | offset | length | field     | content                              |
//! |--------|--------|-----------|--------------------------------------|
//! | 0      | 4      | identity  | the marker `99 99 99 99`             |
//! | 4      | 4      | version   | UTF-8 text, zero-padded to 4 bytes   |
//! | 8      | 8      | hook type | UTF-8 text, zero-padded to 8 bytes   |
//! | 16     | rest   | payload   | UTF-8 text or JSON text              |
//!
//! [`wire`] is the mathematical model of this format. [`hook_client`] builds
//! frames and [`hook_prot`] reads them back, each proved against the model.
//! [`json`] and [`text`] hold what is taken on trust from `serde_json` and
//! from the standard library.

pub mod error;
pub mod hook_client;
pub mod hook_prot;
pub mod json;
pub mod text;
pub mod wire;
