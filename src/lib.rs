//! A typed client for the JSON-over-HTTP control interface of the AnkiConnect
//! add-on: request envelopes are framed, response envelopes are read and the
//! result is decoded into the shape that each action promises.

pub mod api_version;
pub mod client;
pub mod decode;
pub mod envelope;
pub mod error;
pub mod json;
pub mod params;

pub use api_version::{ApiVersion, DEFAULT_API_VERSION};
pub use client::AnkiConnectClient;
pub use error::{AnkiConnectError, ErrorKind};
pub use json::Json;

