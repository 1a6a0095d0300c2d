//! Locating frames in a continuous, possibly noisy byte stream.
//!
//! `SBusPacketParser` keeps the bytes it was given in a fixed ring buffer and
//! searches them for the next frame that it accepts: it looks for the header
//! byte, validates the 25 bytes that start there, and on failure moves on by
//! exactly one byte.
use vstd::prelude::*;

use crate::error::SbusError;
use crate::packet::{frame_check, is_packet_of, SbusPacket};
use crate::{SBUS_FRAME_LENGTH, SBUS_HEADER};

verus! {

/// The number of bytes that the stream buffer holds at most: two frames.
pub const MAX_PACKET_SIZE: usize = 2 * SBUS_FRAME_LENGTH;

/// Slots of the ring: one more than its capacity, so that a full ring and an
/// empty one have different cursors.
const RING_SLOTS: usize = MAX_PACKET_SIZE + 1;

/// Bits of the flag byte that must be clear in a frame found in a stream.
pub const FLAG_MASK: u8 = 0xF0;

/// A 25-byte candidate that the stream search accepts: it passes frame
/// validation, and its flag byte has bits 4 to 7 clear.
pub open spec fn frame_accepted(frame: Seq<u8>) -> bool {
    &&& frame_check(frame) is Ok
    &&& frame[23] & FLAG_MASK == 0
}

/// The 25 bytes of `s` that start at position `i`.
pub open spec fn candidate(s: Seq<u8>, i: int) -> Seq<u8> {
    s.subrange(i, i + 25)
}

/// An accepted frame starts at position `i` of `s`.
pub open spec fn frame_at(s: Seq<u8>, i: int) -> bool {
    &&& 0 <= i
    &&& i + 25 <= s.len()
    &&& frame_accepted(candidate(s, i))
}

/// A header byte at position `i` of `s` with a whole frame's bytes after it.
pub open spec fn header_at(s: Seq<u8>, i: int) -> bool {
    &&& 0 <= i
    &&& i + 25 <= s.len()
    &&& s[i] == SBUS_HEADER
}

/// The first position at or after `p` where an accepted frame starts.
pub open spec fn first_frame_from(s: Seq<u8>, p: int) -> Option<int>
    decreases s.len() - p,
{
    if p < 0 || p + 25 > s.len() {
        None
    } else if frame_at(s, p) {
        Some(p)
    } else {
        first_frame_from(s, p + 1)
    }
}

/// The search from `p` finds the first accepted frame at or after `p`, and
/// finds none only when there is none.
pub proof fn lemma_first_frame_from(s: Seq<u8>, p: int)
    requires
        0 <= p,
    ensures
        first_frame_from(s, p) matches Some(i) ==> {
            &&& p <= i
            &&& frame_at(s, i)
            &&& forall|j: int| p <= j < i ==> !frame_at(s, j)
        },
        first_frame_from(s, p) is None ==> forall|j: int| p <= j ==> !frame_at(s, j),
    decreases s.len() - p,
{
    if p + 25 <= s.len() && !frame_at(s, p) {
        lemma_first_frame_from(s, p + 1);
    }
}

/// The search from `p` stops at `i` when a frame is accepted at `i` and at no
/// position from `p` on before it.
pub proof fn lemma_first_frame_at(s: Seq<u8>, p: int, i: int)
    requires
        0 <= p <= i,
        frame_at(s, i),
        forall|j: int| p <= j < i ==> !frame_at(s, j),
    ensures
        first_frame_from(s, p) == Some(i),
    decreases i - p,
{
    if p < i {
        lemma_first_frame_at(s, p + 1, i);
    }
}

/// Resynchronisation: after leading bytes of any kind (header bytes among
/// them) at which no accepted frame starts, the search finds the frame that
/// follows them, and nothing is left after it.
pub proof fn lemma_resync(prefix: Seq<u8>, frame: Seq<u8>)
    requires
        frame.len() == 25,
        frame_accepted(frame),
        forall|j: int| 0 <= j < prefix.len() ==> !frame_at(prefix + frame, j),
    ensures
        first_frame_from(prefix + frame, 0) == Some(prefix.len() as int),
        candidate(prefix + frame, prefix.len() as int) == frame,
        (prefix + frame).subrange(prefix.len() + 25int, (prefix + frame).len() as int)
            == Seq::<u8>::empty(),
{
    let s = prefix + frame;
    let n = prefix.len() as int;
    assert(candidate(s, n) =~= frame);
    assert(s.subrange(n + 25, s.len() as int) =~= Seq::<u8>::empty());
    lemma_first_frame_at(s, 0, n);
}

/// Consecutive frames: of two accepted frames back to back, the search finds
/// the first, and then, in what it leaves, the second, with nothing after it.
pub proof fn lemma_consecutive_frames(first: Seq<u8>, second: Seq<u8>)
    requires
        first.len() == 25,
        second.len() == 25,
        frame_accepted(first),
        frame_accepted(second),
    ensures
        first_frame_from(first + second, 0) == Some(0int),
        candidate(first + second, 0) == first,
        (first + second).subrange(25, 50) == second,
        first_frame_from(second, 0) == Some(0int),
        candidate(second, 0) == second,
        second.subrange(25, 25) == Seq::<u8>::empty(),
{
    let s = first + second;
    assert(candidate(s, 0) =~= first);
    assert(s.subrange(25, 50) =~= second);
    assert(candidate(second, 0) =~= second);
    assert(second.subrange(25, 25) =~= Seq::<u8>::empty());
    lemma_first_frame_at(s, 0, 0);
    lemma_first_frame_at(second, 0, 0);
}

/// The error of a search through `s` that found no frame.
pub open spec fn search_error(s: Seq<u8>) -> SbusError {
    if s.len() == 0 {
        SbusError::EmptyBuffer
    } else if exists|i: int| header_at(s, i) {
        SbusError::InvalidFrame
    } else {
        SbusError::IncompleteData
    }
}

/// What a search through `s` that found no frame leaves buffered: it drops
/// bytes until fewer than a frame's length remain.
pub open spec fn search_rest(s: Seq<u8>) -> Seq<u8> {
    if s.len() >= 25 {
        s.subrange(s.len() - 24, s.len() as int)
    } else {
        s
    }
}

/// A parser that finds SBUS frames in a byte stream.
///
/// The bytes wait in a ring of fixed size with a write cursor and a read
/// cursor; the number of buffered bytes is `(write - read) mod slots`.
pub struct SBusPacketParser {
    buffer: [u8; RING_SLOTS],
    write_pos: usize,
    read_pos: usize,
}

impl SBusPacketParser {
    /// Both cursors lie inside the ring.
    pub closed spec fn wf(&self) -> bool {
        &&& self.write_pos < RING_SLOTS
        &&& self.read_pos < RING_SLOTS
    }

    /// The number of buffered bytes.
    closed spec fn count(&self) -> int {
        if self.write_pos >= self.read_pos {
            self.write_pos - self.read_pos
        } else {
            self.write_pos + RING_SLOTS - self.read_pos
        }
    }

    /// The ring slot of the `i`-th buffered byte.
    closed spec fn slot(&self, i: int) -> int {
        if self.read_pos + i < RING_SLOTS {
            self.read_pos + i
        } else {
            self.read_pos + i - RING_SLOTS
        }
    }
}

impl View for SBusPacketParser {
    type V = Seq<u8>;

    /// The buffered bytes, oldest first.
    closed spec fn view(&self) -> Seq<u8> {
        Seq::new(self.count() as nat, |i: int| self.buffer@[self.slot(i)])
    }
}

impl SBusPacketParser {
    /// Creates a parser with an empty buffer.
    pub fn new() -> (r: Self)
        ensures
            r.wf(),
            r@ == Seq::<u8>::empty(),
    {
        let r = SBusPacketParser { buffer: [0u8; RING_SLOTS], write_pos: 0, read_pos: 0 };
        assert(r@ =~= Seq::<u8>::empty());
        r
    }

    /// The number of buffered bytes.
    fn available(&self) -> (r: usize)
        requires
            self.wf(),
        ensures
            r == self@.len(),
            r <= MAX_PACKET_SIZE,
    {
        if self.write_pos >= self.read_pos {
            self.write_pos - self.read_pos
        } else {
            self.write_pos + RING_SLOTS - self.read_pos
        }
    }

    /// The `i`-th buffered byte.
    fn byte_at(&self, i: usize) -> (r: u8)
        requires
            self.wf(),
            i < self@.len(),
        ensures
            r == self@[i as int],
    {
        let p = self.read_pos + i;
        if p < RING_SLOTS {
            self.buffer[p]
        } else {
            self.buffer[p - RING_SLOTS]
        }
    }

    /// Appends one byte; the buffer must have room for it.
    fn write_byte(&mut self, byte: u8)
        requires
            old(self).wf(),
            old(self)@.len() < MAX_PACKET_SIZE,
        ensures
            final(self).wf(),
            final(self)@ == old(self)@.push(byte),
    {
        let ghost before = self@;
        self.buffer[self.write_pos] = byte;
        self.write_pos = if self.write_pos + 1 == RING_SLOTS {
            0
        } else {
            self.write_pos + 1
        };
        assert(self@ =~= before.push(byte));
    }

    /// Drops the `n` oldest buffered bytes.
    fn advance(&mut self, n: usize)
        requires
            old(self).wf(),
            n <= old(self)@.len(),
        ensures
            final(self).wf(),
            final(self)@ == old(self)@.subrange(n as int, old(self)@.len() as int),
    {
        let ghost before = self@;
        let p = self.read_pos + n;
        self.read_pos = if p >= RING_SLOTS {
            p - RING_SLOTS
        } else {
            p
        };
        assert(self@ =~= before.subrange(n as int, before.len() as int));
    }

    /// Copies the 25 buffered bytes that start at the read cursor.
    fn front_frame(&self) -> (r: [u8; SBUS_FRAME_LENGTH])
        requires
            self.wf(),
            self@.len() >= SBUS_FRAME_LENGTH,
        ensures
            r@ == candidate(self@, 0),
    {
        let mut frame = [0u8; SBUS_FRAME_LENGTH];
        let mut i: usize = 0;
        while i < SBUS_FRAME_LENGTH
            invariant
                self.wf(),
                self@.len() >= SBUS_FRAME_LENGTH,
                i <= SBUS_FRAME_LENGTH,
                forall|j: int| 0 <= j < i ==> frame@[j] == self@[j],
            decreases SBUS_FRAME_LENGTH - i,
        {
            frame[i] = self.byte_at(i);
            i += 1;
        }
        assert(frame@ =~= candidate(self@, 0));
        frame
    }

    /// Appends one byte to the buffer.
    ///
    /// A full buffer rejects the byte with `BufferOverflow` and stays as it was.
    pub fn push_byte(&mut self, byte: u8) -> (r: Result<(), SbusError>)
        requires
            old(self).wf(),
        ensures
            final(self).wf(),
            old(self)@.len() < MAX_PACKET_SIZE ==> r is Ok && final(self)@ == old(self)@.push(
                byte,
            ),
            old(self)@.len() >= MAX_PACKET_SIZE ==> r == Err::<(), SbusError>(
                SbusError::BufferOverflow,
            ) && final(self)@ == old(self)@,
    {
        if self.available() >= MAX_PACKET_SIZE {
            return Err(SbusError::BufferOverflow);
        }
        self.write_byte(byte);
        Ok(())
    }

    /// Appends a block of bytes to the buffer, all or nothing.
    ///
    /// A block that does not fit is rejected whole with `BufferOverflow`, and
    /// the bytes already buffered stay as they were.
    pub fn push_bytes(&mut self, bytes: &[u8]) -> (r: Result<(), SbusError>)
        requires
            old(self).wf(),
        ensures
            final(self).wf(),
            old(self)@.len() + bytes@.len() <= MAX_PACKET_SIZE ==> r is Ok && final(self)@ == old(
                self,
            )@ + bytes@,
            old(self)@.len() + bytes@.len() > MAX_PACKET_SIZE ==> r == Err::<(), SbusError>(
                SbusError::BufferOverflow,
            ) && final(self)@ == old(self)@,
    {
        let len = self.available();
        if bytes.len() > MAX_PACKET_SIZE - len {
            return Err(SbusError::BufferOverflow);
        }
        let ghost before = self@;
        let mut i: usize = 0;
        while i < bytes.len()
            invariant
                self.wf(),
                i <= bytes@.len(),
                before.len() + bytes@.len() <= MAX_PACKET_SIZE,
                self@ == before + bytes@.subrange(0, i as int),
            decreases bytes@.len() - i,
        {
            self.write_byte(bytes[i]);
            i += 1;
            assert(before + bytes@.subrange(0, i as int) =~= (before + bytes@.subrange(
                0,
                i - 1 as int,
            )).push(bytes@[i - 1]));
        }
        assert(bytes@.subrange(0, i as int) =~= bytes@);
        Ok(())
    }

    /// Whether the oldest 25 buffered bytes form a frame that the search accepts.
    pub fn valid_frame(&self) -> (r: bool)
        requires
            self.wf(),
        ensures
            r == (self@.len() >= SBUS_FRAME_LENGTH && frame_accepted(candidate(self@, 0))),
    {
        if self.available() < SBUS_FRAME_LENGTH {
            return false;
        }
        let frame = self.front_frame();
        match SbusPacket::validate_frame(&frame) {
            Ok(()) => frame[23] & FLAG_MASK == 0,
            Err(_) => false,
        }
    }

    /// Searches the buffer for the next frame and decodes it.
    ///
    /// From the read cursor on, a byte that is not the header is dropped; at a
    /// header, the 25 bytes that start there are validated. An accepted frame
    /// is decoded and dropped from the buffer with everything before it. A
    /// rejected one costs exactly its first byte, and the search goes on. The
    /// search stops when fewer than 25 bytes are left; those stay buffered.
    ///
    /// Errors: `EmptyBuffer` when nothing is buffered; `InvalidFrame` when a
    /// candidate frame was rejected and none accepted; `IncompleteData` otherwise.
    pub fn try_parse(&mut self) -> (r: Result<SbusPacket, SbusError>)
        requires
            old(self).wf(),
        ensures
            final(self).wf(),
            first_frame_from(old(self)@, 0) matches Some(i) ==> (r matches Ok(p) && is_packet_of(
                p,
                candidate(old(self)@, i),
            ) && final(self)@ == old(self)@.subrange(i + 25, old(self)@.len() as int)),
            first_frame_from(old(self)@, 0) is None ==> r == Err::<SbusPacket, SbusError>(
                search_error(old(self)@),
            ) && final(self)@ == search_rest(old(self)@),
    {
        let ghost s = self@;
        if self.available() == 0 {
            assert(search_rest(s) =~= s);
            return Err(SbusError::EmptyBuffer);
        }
        let ghost mut k: int = 0;
        let mut rejected = false;
        while self.available() >= SBUS_FRAME_LENGTH
            invariant
                self.wf(),
                s == old(self)@,
                0 <= k <= s.len(),
                k == 0 || s.len() - k >= 24,
                self@ == s.subrange(k, s.len() as int),
                first_frame_from(s, 0) == first_frame_from(s, k),
                rejected == (exists|j: int| 0 <= j < k && header_at(s, j)),
            decreases s.len() - k,
        {
            assert(candidate(self@, 0) =~= candidate(s, k));
            if self.byte_at(0) == SBUS_HEADER {
                let frame = self.front_frame();
                match SbusPacket::from_array(&frame) {
                    Ok(packet) => {
                        if frame[23] & FLAG_MASK == 0 {
                            assert(frame_at(s, k));
                            assert(first_frame_from(s, k) == Some(k));
                            self.advance(SBUS_FRAME_LENGTH);
                            assert(self@ =~= s.subrange(k + 25, s.len() as int));
                            return Ok(packet);
                        }
                    },
                    Err(_) => {},
                }
                assert(header_at(s, k));
                rejected = true;
            }
            assert(!frame_at(s, k));
            self.advance(1);
            proof {
                assert(self@ =~= s.subrange(k + 1, s.len() as int));
                k = k + 1;
            }
        }
        proof {
            assert(first_frame_from(s, k) is None);
            if exists|j: int| header_at(s, j) {
                let j = choose|j: int| header_at(s, j);
                assert(0 <= j < k);
            }
            assert(search_rest(s) =~= s.subrange(k, s.len() as int));
        }
        if rejected {
            Err(SbusError::InvalidFrame)
        } else {
            Err(SbusError::IncompleteData)
        }
    }
}

} // verus!
