//! Language server protocol requests (a subset of the specification at
//! microsoft.github.io/language-server-protocol, with Rust types).
use vstd::prelude::*;

verus! {

/// The id of a request: a number or a string.
pub enum RequestId {
    Number(u64),
    String(String),
}

/// A request: its id, method and parameters.
pub struct Request<Params> {
    pub id: RequestId,
    pub method: String,
    pub params: Option<Params>,
}

/// Information about the client.
#[derive(Default)]
pub struct ClientInfo {
    /// The name of the client as defined by the client.
    pub name: String,
    /// The client's version as defined by the client.
    pub version: Option<String>,
}

/// The parameters of the `initialize` request.
#[allow(non_snake_case)]
#[derive(Default)]
pub struct InitializeParams {
    /// The process id of the parent process that started the server, or
    /// none.
    pub processId: Option<i64>,
    /// Information about the client.
    pub clientInfo: Option<ClientInfo>,
    /// The locale the client shows its user interface in.
    pub locale: Option<String>,
    /// The root path of the workspace; none if no folder is open.
    pub rootPath: Option<String>,
    /// The root uri of the workspace; none if no folder is open.
    pub rootUri: Option<String>,
    /// The capabilities provided by the client.
    pub capabilities: ClientCapabilities,
}

/// Text document specific client capabilities (none are declared).
#[derive(Default)]
pub struct TextDocumentClientCapabilities {}

/// The client's capabilities (none are declared).
#[derive(Default)]
pub struct ClientCapabilities {}

} // verus!
