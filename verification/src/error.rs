use vstd::prelude::*;

verus! {

/// The closed set of error kinds that any engine operation can return.
/// Errors are explicit return values; nothing is thrown.
#[derive(Clone, Copy, Debug, PartialEq, Eq, Structural)]
pub enum HttpError {
    /// The caller submitted an event that is not legal in the current state.
    InvalidTransition,
    /// The server attempted a protocol switch without a matching proposal.
    InvalidSwitch,
    /// An inbound request or response head failed to parse.
    MalformedHead,
    /// A chunk-size line of a chunked body failed to parse.
    InvalidChunkSize,
    /// The transport reached EOF in the middle of a length- or chunk-framed body.
    ConnectionClosedPrematurely,
    /// More body bytes were written than the declared content length allows.
    TooMuchData,
    /// Bytes arrived from the peer after it had already signalled EOF.
    PeerDataAfterClose,
}

} // verus!
