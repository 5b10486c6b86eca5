use vstd::prelude::*;

verus! {

/// Everything that can end a query without a result.
#[derive(Debug, PartialEq, Eq)]
pub enum SourceQueryError {
    /// The leading 32-bit tag of a datagram is neither "single" nor "split".
    UnknownPacketHeader(i32),
    /// The type byte of a datagram is none of `'T'`, `'A'`, `'I'`.
    UnknownPacketType(u8),
    /// The datagram ends before its header and type byte are complete.
    MalformedPacketHeader,
    /// A field of the body is cut short, unterminated or not valid UTF-8.
    MalformedPacketBody,
    /// The datagram is one fragment of a split response; such responses are
    /// recognised but not reassembled.
    UnsupportedSplitPacket,
    /// The host is down or behind a firewall.
    UnreachableHost,
    /// The named host answered a resolved challenge with anything but the
    /// server information.
    FussyHost(String),
    /// The channel was established, but writing to it failed.
    SendError,
    /// The channel was established, but reading from it failed.
    ReceiveError,
    /// No local endpoint could be bound.
    FailedPortBind,
    /// The host did not respond in time.
    TimeoutError,
    /// A packet that is not a response was handed to the server-info decoder.
    AttemptParseEmptyPacket,
}

} // verus!
