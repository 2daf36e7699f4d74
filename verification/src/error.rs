use vstd::prelude::*;

verus! {

/// Why an operation of this library was refused or failed.
#[derive(Debug, Clone, Copy, PartialEq, Eq, Structural)]
pub enum ErrorKind {
    /// Connecting, writing or reading failed on a channel, or the peer sent nothing back.
    Connection,
    /// A transport packet is shorter than the headers its classification has to read.
    MalformedPacket,
    /// A payload does not fit: the accumulation buffer or the decoder would be overrun.
    BufferLimit,
    /// The decoder rejected a reassembled access unit.
    Decode,
    /// Every sequence number of the session has been used.
    SequenceExhausted,
    /// The event does not fit the phase the receiver is in.
    OutOfTurn,
}

} // verus!
