//! Field extraction over packet captures saved as JSON.
//!
//! A capture is a JSON array of packets, each a JSON object. Each packet
//! keeps its protocol layers under `_source.layers`, and each layer maps field
//! keys such as `ip.src` to values. A pass probes one layer and a few of its
//! fields in every packet, takes each value as JSON text, removes the quote
//! and backslash characters from it, and gives each distinct outcome once.
//!
//! - [`passes`] holds the five passes and [`passes::analyze`], which runs them
//!   all over one document.
//! - [`extract`] holds the pass itself, for any layer and fields, and says
//!   what it finds.
//! - [`probe`] looks one field up in one packet.
//! - [`result_set`] keeps the values gathered, each once.
//! - [`clean`] removes quotes and backslashes, from one value or from all
//!   that were gathered.
//! - [`json`] is the boundary to `serde_json`, which parses the document and
//!   writes values out as text.
//! - [`text`] views strings as sequences of characters.
//! - [`laws`] proves what holds of every pass.

pub mod clean;
pub mod error;
pub mod extract;
pub mod json;
pub mod laws;
pub mod passes;
pub mod probe;
pub mod result_set;
pub mod text;

pub use error::ExtractError;
pub use passes::{analyze, http, ip_address, mac_address, tcp, udp, Pass, Report};
