use vstd::prelude::*;

verus! {

/// Everything that can go wrong while reading, writing or dispatching packets.
#[derive(Debug, Clone, Copy, PartialEq, Eq, Structural)]
pub enum CodecError {
    /// The input ended before the value was complete.
    UnexpectedEof,
    /// A variable-length int kept its continuation bit set past five bytes.
    VarIntTooBig,
    /// A variable-length long kept its continuation bit set past ten bytes.
    VarLongTooBig,
    /// A length or identifier that must not be negative was negative.
    NegativeVarint,
    /// String bytes that are not UTF-8.
    InvalidUtf8,
    /// A handshake's next-state value that names no state.
    InvalidState,
    /// No packet of this id exists in the given state and direction.
    UnknownPacketId(i32),
    /// The packet exists, but not in the given protocol version.
    UnknownVersion(i32),
    /// The packet has no id in the given protocol version.
    NoPacketId(i32),
    /// A packet buffer was finished before its id was set.
    PacketIdNotSet,
}

} // verus!
