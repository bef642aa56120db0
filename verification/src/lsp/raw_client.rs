//! The channels to and from a running language server process.
use vstd::prelude::*;
use crate::ext::std_items::channel_send;

verus! {

/// A language server binary and, once it runs, the channels that carry
/// message bodies to and from it.
pub struct RawClient {
    pub bin_path: std::path::PathBuf,
    pub sender: Option<std::sync::mpsc::Sender<Vec<u8>>>,
    pub receiver: Option<std::sync::mpsc::Receiver<Vec<u8>>>,
}

impl RawClient {
    /// A client for `bin_path` that is not running yet.
    pub fn new(bin_path: std::path::PathBuf) -> (r: Self)
        ensures
            r.bin_path == bin_path,
            r.sender is None,
            r.receiver is None,
    {
        Self { bin_path, sender: None, receiver: None }
    }

    /// Hands the message body `data` to the writer of a running server; a
    /// client that is not running drops it.
    pub fn send(&self, data: Vec<u8>) {
        match &self.sender {
            Some(sender) => {
                channel_send(sender, data);
            },
            None => {},
        }
    }
}

} // verus!
