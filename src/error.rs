use vstd::prelude::*;

verus! {

/// Error types for SBUS operations
#[derive(Debug, Clone, Copy, PartialEq, Eq, Structural)]
pub enum SbusError {
    /// The byte source failed or ended before a full frame was read
    ReadError,
    /// The first byte of a frame is not the header sentinel
    InvalidHeader(u8),
    /// The last byte of a frame is not an accepted footer
    InvalidFooter(u8),
    /// The stream buffer holds no bytes at all
    EmptyBuffer,
    /// Fewer than a frame's length of bytes are buffered after the search
    IncompleteData,
    /// A header was found, but no candidate frame passed validation
    InvalidFrame,
    /// Pushing bytes would exceed the stream buffer's capacity
    BufferOverflow,
}

} // verus!
