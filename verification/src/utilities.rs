use crate::error::DecodeError;
use vstd::prelude::*;

verus! {

/// The mathematical state of a byte cursor: the whole buffer and the index of
/// the next byte to be read.
pub struct Cursor {
    pub bytes: Seq<u8>,
    pub position: int,
}

/// What one read leaves behind: the value read or the reason it failed, and
/// the cursor as it stands afterwards.
pub struct Step<T> {
    pub value: Result<T, DecodeError>,
    pub rest: Cursor,
}

/// The unsigned value of two bytes, most significant first.
pub open spec fn be_u16(b0: u8, b1: u8) -> u16 {
    (b0 * 0x100 + b1) as u16
}

/// The unsigned value of four bytes, most significant first.
pub open spec fn be_u32(b0: u8, b1: u8, b2: u8, b3: u8) -> u32 {
    (b0 * 0x100_0000 + b1 * 0x1_0000 + b2 * 0x100 + b3) as u32
}

/// The unsigned value of eight bytes, most significant first.
pub open spec fn be_u64(b0: u8, b1: u8, b2: u8, b3: u8, b4: u8, b5: u8, b6: u8, b7: u8) -> u64 {
    (b0 * 0x100_0000_0000_0000 + b1 * 0x1_0000_0000_0000 + b2 * 0x100_0000_0000 + b3
        * 0x1_0000_0000 + b4 * 0x100_0000 + b5 * 0x1_0000 + b6 * 0x100 + b7) as u64
}

impl Cursor {
    /// A cursor at the start of `bytes`.
    pub open spec fn start(bytes: Seq<u8>) -> Cursor {
        Cursor { bytes, position: 0 }
    }

    /// The position is a valid count of bytes and the buffer is one that a
    /// machine can hold.
    pub open spec fn wf(self) -> bool {
        0 <= self.position <= usize::MAX && self.bytes.len() <= usize::MAX
    }

    /// The same buffer, `amount` bytes further on.
    pub open spec fn skip(self, amount: int) -> Cursor {
        Cursor { bytes: self.bytes, position: self.position + amount }
    }

    /// Whether the next `width` bytes all lie inside the buffer.
    pub open spec fn fits(self, width: int) -> bool {
        self.position + width <= self.bytes.len()
    }

    /// Where a read that does not fit comes to a halt: at the end of the
    /// buffer, or where it started if that is already past the end.
    pub open spec fn halt(self) -> int {
        if self.position >= self.bytes.len() {
            self.position
        } else {
            self.bytes.len() as int
        }
    }

    /// The outcome of a read that ran out of bytes. The bytes that were still
    /// there have been consumed; the error names the first index that was
    /// missing.
    pub open spec fn starved<T>(self) -> Step<T> {
        Step {
            value: Err(
                DecodeError::OutOfBounds {
                    position: self.halt() as usize,
                    length: self.bytes.len() as usize,
                },
            ),
            rest: Cursor { bytes: self.bytes, position: self.halt() },
        }
    }

    /// The big-endian 16-bit value that starts at the cursor.
    pub open spec fn u16_here(self) -> u16 {
        be_u16(self.bytes[self.position], self.bytes[self.position + 1])
    }

    /// The big-endian 32-bit value that starts at the cursor.
    pub open spec fn u32_here(self) -> u32 {
        be_u32(
            self.bytes[self.position],
            self.bytes[self.position + 1],
            self.bytes[self.position + 2],
            self.bytes[self.position + 3],
        )
    }

    /// The big-endian 64-bit value that starts at the cursor.
    pub open spec fn u64_here(self) -> u64 {
        be_u64(
            self.bytes[self.position],
            self.bytes[self.position + 1],
            self.bytes[self.position + 2],
            self.bytes[self.position + 3],
            self.bytes[self.position + 4],
            self.bytes[self.position + 5],
            self.bytes[self.position + 6],
            self.bytes[self.position + 7],
        )
    }

    /// Reading one byte.
    pub open spec fn read_u8(self) -> Step<u8> {
        if self.fits(1) {
            Step { value: Ok(self.bytes[self.position]), rest: self.skip(1) }
        } else {
            self.starved()
        }
    }

    /// Reading a big-endian 16-bit value.
    pub open spec fn read_u16(self) -> Step<u16> {
        if self.fits(2) {
            Step { value: Ok(self.u16_here()), rest: self.skip(2) }
        } else {
            self.starved()
        }
    }

    /// Reading a big-endian 32-bit value.
    pub open spec fn read_u32(self) -> Step<u32> {
        if self.fits(4) {
            Step { value: Ok(self.u32_here()), rest: self.skip(4) }
        } else {
            self.starved()
        }
    }

    /// Reading a big-endian 64-bit value.
    pub open spec fn read_u64(self) -> Step<u64> {
        if self.fits(8) {
            Step { value: Ok(self.u64_here()), rest: self.skip(8) }
        } else {
            self.starved()
        }
    }
}

/// Two reads one after the other, with their values joined into one. The
/// second read starts where the first stopped. If either fails, the whole
/// fails with that error, and the cursor stays where the failing read left it.
pub open spec fn in_sequence<A, B, C>(
    first: Step<A>,
    second: spec_fn(Cursor) -> Step<B>,
    join: spec_fn(A, B) -> C,
) -> Step<C> {
    match first.value {
        Err(error) => Step { value: Err(error), rest: first.rest },
        Ok(higher) => {
            let next = second(first.rest);
            match next.value {
                Err(error) => Step { value: Err(error), rest: next.rest },
                Ok(lower) => Step { value: Ok(join(higher, lower)), rest: next.rest },
            }
        },
    }
}

/// Shifting the high byte up and or-ing the low byte in gives the two-byte
/// big-endian value.
pub proof fn lemma_join_bytes(higher: u8, lower: u8)
    ensures
        ((higher as u16) << 8) | (lower as u16) == higher * 0x100 + lower,
{
    assert(((higher as u16) << 8) | (lower as u16) == higher * 0x100 + lower) by (bit_vector);
}

/// Shifting the high half up and or-ing the low half in gives the four-byte
/// big-endian value.
pub proof fn lemma_join_halves(higher: u16, lower: u16)
    ensures
        ((higher as u32) << 16) | (lower as u32) == higher * 0x1_0000 + lower,
{
    assert(((higher as u32) << 16) | (lower as u32) == higher * 0x1_0000 + lower) by (bit_vector);
}

/// Shifting the high word up and or-ing the low word in gives the eight-byte
/// big-endian value.
pub proof fn lemma_join_words(higher: u32, lower: u32)
    ensures
        ((higher as u64) << 32) | (lower as u64) == higher * 0x1_0000_0000 + lower,
{
    assert(((higher as u64) << 32) | (lower as u64) == higher * 0x1_0000_0000 + lower)
        by (bit_vector);
}

/// A 16-bit read is two 8-bit reads in sequence, the first shifted up by 8 bits
/// and or-ed with the second: in the value, in the final position, and in the
/// failure when the buffer ends early.
pub proof fn lemma_read_u16_composes(cursor: Cursor)
    requires
        cursor.wf(),
    ensures
        cursor.read_u16() == in_sequence(
            cursor.read_u8(),
            |rest: Cursor| rest.read_u8(),
            |higher: u8, lower: u8| ((higher as u16) << 8) | (lower as u16),
        ),
{
    if cursor.fits(2) {
        lemma_join_bytes(cursor.bytes[cursor.position], cursor.bytes[cursor.position + 1]);
    }
}

/// A 32-bit read is two 16-bit reads in sequence, the first shifted up by 16
/// bits and or-ed with the second.
pub proof fn lemma_read_u32_composes(cursor: Cursor)
    requires
        cursor.wf(),
    ensures
        cursor.read_u32() == in_sequence(
            cursor.read_u16(),
            |rest: Cursor| rest.read_u16(),
            |higher: u16, lower: u16| ((higher as u32) << 16) | (lower as u32),
        ),
{
    if cursor.fits(4) {
        lemma_join_halves(cursor.u16_here(), cursor.skip(2).u16_here());
    }
}

/// A 64-bit read is two 32-bit reads in sequence, the first shifted up by 32
/// bits and or-ed with the second.
pub proof fn lemma_read_u64_composes(cursor: Cursor)
    requires
        cursor.wf(),
    ensures
        cursor.read_u64() == in_sequence(
            cursor.read_u32(),
            |rest: Cursor| rest.read_u32(),
            |higher: u32, lower: u32| ((higher as u64) << 32) | (lower as u64),
        ),
{
    if cursor.fits(8) {
        lemma_join_words(cursor.u32_here(), cursor.skip(4).u32_here());
    }
}

/// A read leaves the buffer as it is and never moves the cursor back. It
/// succeeds exactly when all its bytes lie inside the buffer, and then moves
/// the cursor on by the number of bytes read. Otherwise it fails, names the
/// first byte that was missing, and leaves the cursor there.
pub proof fn lemma_reads_move_forward(cursor: Cursor)
    requires
        cursor.wf(),
    ensures
        cursor.read_u8().value is Ok <==> cursor.fits(1),
        cursor.read_u16().value is Ok <==> cursor.fits(2),
        cursor.read_u32().value is Ok <==> cursor.fits(4),
        cursor.read_u64().value is Ok <==> cursor.fits(8),
        cursor.fits(1) ==> cursor.read_u8().rest == cursor.skip(1),
        cursor.fits(2) ==> cursor.read_u16().rest == cursor.skip(2),
        cursor.fits(4) ==> cursor.read_u32().rest == cursor.skip(4),
        cursor.fits(8) ==> cursor.read_u64().rest == cursor.skip(8),
        !cursor.fits(1) ==> cursor.read_u8() == cursor.starved::<u8>(),
        !cursor.fits(2) ==> cursor.read_u16() == cursor.starved::<u16>(),
        !cursor.fits(4) ==> cursor.read_u32() == cursor.starved::<u32>(),
        !cursor.fits(8) ==> cursor.read_u64() == cursor.starved::<u64>(),
        cursor.starved::<u8>().rest.bytes == cursor.bytes,
        cursor.position <= cursor.starved::<u8>().rest.position == cursor.halt(),
        cursor.starved::<u8>().value == Err::<u8, DecodeError>(
            DecodeError::OutOfBounds {
                position: cursor.halt() as usize,
                length: cursor.bytes.len() as usize,
            },
        ),
        cursor.halt() >= cursor.bytes.len(),
{
}

/// Reads a byte buffer front to back in big-endian order.
pub struct ByteShifter<'a> {
    bytes: &'a [u8],
    current_byte: usize,
}

impl<'a> View for ByteShifter<'a> {
    type V = Cursor;

    closed spec fn view(&self) -> Cursor {
        Cursor { bytes: self.bytes@, position: self.current_byte as int }
    }
}

impl<'a> ByteShifter<'a> {
    /// A cursor over `bytes`, standing before the first byte.
    pub fn new(bytes: &'a [u8]) -> (shifter: Self)
        ensures
            shifter@ == Cursor::start(bytes@),
    {
        Self { bytes, current_byte: 0 }
    }

    /// The state of a cursor is always well formed.
    pub proof fn lemma_view_wf(&self)
        ensures
            self@.wf(),
    {
        assert(vstd::slice::spec_slice_len(self.bytes) == self.bytes@.len());
    }

    /// The index of the next byte to be read.
    pub fn position(&self) -> (position: usize)
        ensures
            position == self@.position,
    {
        self.current_byte
    }

    /// Moves the cursor `amount` bytes on without looking at them. The cursor
    /// may come to stand past the end of the buffer; the next read then fails.
    pub fn skip_bytes(&mut self, amount: usize)
        requires
            old(self)@.position + amount <= usize::MAX,
        ensures
            final(self)@ == old(self)@.skip(amount as int),
    {
        self.current_byte += amount;
    }

    /// Reads the next byte.
    pub fn read_byte(&mut self) -> (byte: Result<u8, DecodeError>)
        ensures
            old(self)@.read_u8() == (Step { value: byte, rest: final(self)@ }),
    {
        if self.current_byte < self.bytes.len() {
            let byte = self.bytes[self.current_byte];
            self.current_byte += 1;
            Ok(byte)
        } else {
            Err(DecodeError::OutOfBounds { position: self.current_byte, length: self.bytes.len() })
        }
    }

    /// Reads the next two bytes as one big-endian value: the first byte read
    /// becomes the high half, the second the low half.
    pub fn read_2_bytes(&mut self) -> (value: Result<u16, DecodeError>)
        ensures
            old(self)@.read_u16() == (Step { value, rest: final(self)@ }),
    {
        let higher = match self.read_byte() {
            Ok(byte) => byte,
            Err(e) => { return Err(e); },
        };
        let lower = match self.read_byte() {
            Ok(byte) => byte,
            Err(e) => { return Err(e); },
        };
        proof {
            lemma_join_bytes(higher, lower);
        }
        Ok(((higher as u16) << 8) | (lower as u16))
    }

    /// Reads the next four bytes as one big-endian value, as two 16-bit reads.
    pub fn read_4_bytes(&mut self) -> (value: Result<u32, DecodeError>)
        ensures
            old(self)@.read_u32() == (Step { value, rest: final(self)@ }),
    {
        let higher = match self.read_2_bytes() {
            Ok(half) => half,
            Err(e) => { return Err(e); },
        };
        let lower = match self.read_2_bytes() {
            Ok(half) => half,
            Err(e) => { return Err(e); },
        };
        proof {
            lemma_join_halves(higher, lower);
        }
        Ok(((higher as u32) << 16) | (lower as u32))
    }

    /// Reads the next eight bytes as one big-endian value, as two 32-bit reads.
    pub fn read_8_bytes(&mut self) -> (value: Result<u64, DecodeError>)
        ensures
            old(self)@.read_u64() == (Step { value, rest: final(self)@ }),
    {
        let higher = match self.read_4_bytes() {
            Ok(word) => word,
            Err(e) => { return Err(e); },
        };
        let lower = match self.read_4_bytes() {
            Ok(word) => word,
            Err(e) => { return Err(e); },
        };
        proof {
            lemma_join_words(higher, lower);
        }
        Ok(((higher as u64) << 32) | (lower as u64))
    }
}

} // verus!
