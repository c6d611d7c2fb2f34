use vstd::prelude::*;

verus! {

/// Every way a transport operation can fail.
///
/// Each fallible operation returns a result carrying one of these kinds;
/// nothing panics on an expected failure path. The variants are plain kinds:
/// where a real OS call fails, the embedding maps the platform error onto the
/// matching kind and keeps the underlying cause for its own diagnostics.
#[derive(Clone, Copy, Debug, PartialEq, Eq, Structural)]
pub enum Error {
    /// No candidate endpoint could be opened after exhausting the probe range.
    IPCConnectionFailed,
    /// A second connect was attempted while a handle is already held.
    AlreadyConnected,
    /// An I/O operation was attempted before a successful connect.
    NotConnected,
    /// The peer did not accept the whole buffer.
    WriteError,
    /// The stream ended before the requested number of bytes arrived.
    ReadError,
    /// Flushing buffered output on the handle failed.
    FlushError,
}

} // verus!
