//! A language server client for a working directory.
use vstd::prelude::*;
use crate::ext::std_items::{lossy_path_text, path_text};
use crate::lsp::raw_client::RawClient;
use crate::lsp::request::{ClientCapabilities, InitializeParams, Request, RequestId};

verus! {

/// A language server client working in `work_dir`.
pub struct Client {
    pub work_dir: std::path::PathBuf,
    pub raw: RawClient,
}

/// `r` is the `initialize` request with id 0 that declares the text of
/// `work_dir` as root path and nothing else.
pub open spec fn is_init_request(r: Request<InitializeParams>, work_dir: std::path::PathBuf) -> bool {
    &&& r.id matches RequestId::Number(n) && n == 0
    &&& r.method@ == "initialize"@
    &&& r.params matches Some(p) && {
        &&& p.processId is None
        &&& p.clientInfo is None
        &&& p.locale is None
        &&& p.rootPath matches Some(t) && t@ == lossy_path_text(work_dir)
        &&& p.rootUri is None
    }
}

impl Client {
    /// A client for the server binary `bin_path`, not running yet.
    pub fn new(bin_path: std::path::PathBuf, work_dir: std::path::PathBuf) -> (c: Client)
        ensures
            c.work_dir == work_dir,
            c.raw.bin_path == bin_path,
            c.raw.sender is None,
            c.raw.receiver is None,
    {
        Client { work_dir, raw: RawClient::new(bin_path) }
    }

    /// The `initialize` request this client sends first.
    pub fn init_request(&self) -> (r: Request<InitializeParams>)
        ensures
            is_init_request(r, self.work_dir),
    {
        make_init(&self.work_dir)
    }
}

/// The `initialize` request for the workspace at `work_dir`: id 0, and the
/// directory (as text) as root path.
pub fn make_init(work_dir: &std::path::PathBuf) -> (r: Request<InitializeParams>)
    ensures
        is_init_request(r, *work_dir),
{
    Request {
        id: RequestId::Number(0),
        method: String::from_str("initialize"),
        params: Some(
            InitializeParams {
                processId: None,
                clientInfo: None,
                locale: None,
                rootPath: Some(path_text(work_dir)),
                rootUri: None,
                capabilities: ClientCapabilities {},
            },
        ),
    }
}

} // verus!
