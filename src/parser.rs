//! Reading frames from a byte source that is already aligned on frames.
//!
//! A reader takes exactly one frame's length of bytes from its source,
//! validates them and decodes them; it does not search for a header. The
//! source itself (blocking or suspending) is driven by the caller, who hands
//! the outcome of the read to `packet_from_read`.
use core::marker::PhantomData;
use vstd::prelude::*;

use crate::error::SbusError;
use crate::packet::{frame_check, is_packet_of, SbusPacket};
use crate::SBUS_FRAME_LENGTH;

verus! {

/// The reading discipline of a `Parser`: `Blocking` or `Async`.
#[allow(private_bounds)]
pub trait Mode: Sealed {}

trait Sealed {}

/// Reads that occupy the calling thread until the bytes arrive.
pub struct Blocking {}

impl Mode for Blocking {}

impl Sealed for Blocking {}

/// Reads that suspend the calling task until the bytes arrive.
pub struct Async {}

impl Mode for Async {}

impl Sealed for Async {}

/// A frame reader over a byte source `R`, with reading discipline `M`.
pub struct Parser<R, M: Mode> {
    /// The byte source, owned by this reader for its lifetime.
    pub reader: R,
    /// The reading discipline, held only in the type.
    pub mode: PhantomData<M>,
}

impl<R> Parser<R, Blocking> {
    /// Creates a reader that blocks on `reader`.
    pub fn new_blocking(reader: R) -> (r: Self)
        ensures
            r.reader == reader,
    {
        Parser { reader, mode: PhantomData }
    }
}

impl<R> Parser<R, Async> {
    /// Creates a reader that suspends on `reader`.
    pub fn new(reader: R) -> (r: Self)
        ensures
            r.reader == reader,
    {
        Parser { reader, mode: PhantomData }
    }
}

/// The packet that one read of a frame's length from a byte source yields.
///
/// `read` holds the 25 bytes read, or `None` when the source failed or ended
/// before the frame was complete, which gives `ReadError`. The bytes are then
/// validated and decoded as `SbusPacket::from_array` does; no resynchronisation
/// is tried.
pub fn packet_from_read(read: Option<[u8; SBUS_FRAME_LENGTH]>) -> (r: Result<SbusPacket, SbusError>)
    ensures
        read is None ==> r == Err::<SbusPacket, SbusError>(SbusError::ReadError),
        read matches Some(frame) ==> {
            &&& r is Ok <==> frame_check(frame@) is Ok
            &&& r matches Ok(p) ==> is_packet_of(p, frame@)
            &&& r matches Err(e) ==> frame_check(frame@) == Err::<(), SbusError>(e)
        },
{
    match read {
        None => Err(SbusError::ReadError),
        Some(frame) => SbusPacket::from_array(&frame),
    }
}

} // verus!
