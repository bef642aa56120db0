//! Talking to a language server: requests, the client state, and the
//! framing of messages on the wire.
pub mod request;
pub mod raw_client;
pub mod client;
pub mod framing;

pub use client::Client;
pub use raw_client::RawClient;
pub use request::{ClientCapabilities, ClientInfo, InitializeParams, Request, RequestId, TextDocumentClientCapabilities};
