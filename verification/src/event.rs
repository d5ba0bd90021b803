//! The fixed-layout record that the event source emits, and its decoding
//! from a raw buffer.
//!
//! A record is 32 bytes in the machine's own byte order: the task id in
//! bytes 0..4, four bytes of padding, then sleep start, sleep end and runtime
//! as three 64-bit words.

use vstd::prelude::*;
use vstd::slice::slice_subrange;
use crate::task_stats::Observation;

verus! {

/// Size in bytes of one record.
pub const RECORD_SIZE: usize = 32;

/// The unsigned number that `bytes` spell with the lowest byte first.
pub open spec fn le_value(bytes: Seq<u8>) -> int
    decreases bytes.len(),
{
    if bytes.len() == 0 {
        0
    } else {
        bytes[0] + 256 * le_value(bytes.drop_first())
    }
}

/// The unsigned number that `bytes` spell with the highest byte first.
pub open spec fn be_value(bytes: Seq<u8>) -> int
    decreases bytes.len(),
{
    if bytes.len() == 0 {
        0
    } else {
        256 * be_value(bytes.drop_last()) + bytes.last()
    }
}

/// The two's complement reading of a 32-bit pattern.
pub open spec fn signed32(pattern: int) -> int {
    if pattern >= 0x8000_0000 {
        pattern - 0x1_0000_0000
    } else {
        pattern
    }
}

/// `value` is what `bytes` spell as an unsigned number in one of the two
/// byte orders. Which order a machine uses is not fixed here.
pub open spec fn spells(bytes: Seq<u8>, value: int) -> bool {
    value == le_value(bytes) || value == be_value(bytes)
}

/// `value` is what four `bytes` spell as a signed number in one of the two
/// byte orders.
pub open spec fn spells_signed(bytes: Seq<u8>, value: int) -> bool {
    value == signed32(le_value(bytes)) || value == signed32(be_value(bytes))
}

/// One decoded scheduling event.
#[derive(Clone, Copy, Debug, PartialEq, Eq, Structural)]
pub struct RawEvent {
    pub task_id: i32,
    pub sleep_start: u64,
    pub sleep_end: u64,
    pub runtime_ns: u64,
}

/// Why a buffer is not a record.
#[derive(Clone, Copy, Debug, PartialEq, Eq, Structural)]
pub enum DecodeError {
    /// The buffer has `length` bytes, not the size of a record.
    MalformedRecord { length: usize },
}

impl RawEvent {
    /// Each field is what its bytes of the record spell.
    pub open spec fn is_reading_of(self, bytes: Seq<u8>) -> bool {
        &&& bytes.len() == RECORD_SIZE
        &&& spells_signed(bytes.subrange(0, 4), self.task_id as int)
        &&& spells(bytes.subrange(8, 16), self.sleep_start as int)
        &&& spells(bytes.subrange(16, 24), self.sleep_end as int)
        &&& spells(bytes.subrange(24, 32), self.runtime_ns as int)
    }

    /// What the event says of its task.
    pub open spec fn observation_spec(self) -> Observation {
        Observation {
            runtime_ns: self.runtime_ns,
            sleep_start: self.sleep_start,
            sleep_end: self.sleep_end,
        }
    }

    /// What the event says of its task.
    pub fn observation(&self) -> (r: Observation)
        ensures
            r == self.observation_spec(),
    {
        Observation {
            runtime_ns: self.runtime_ns,
            sleep_start: self.sleep_start,
            sleep_end: self.sleep_end,
        }
    }
}

/// The error of the `plain` crate, carried through unread.
#[verifier::external_type_specification]
#[verifier::external_body]
pub struct ExPlainError(plain::Error);

/// Trusted: `plain::copy_from_bytes` into a `u64`. It fails exactly when
/// fewer than eight bytes are given; otherwise it copies the first eight
/// bytes over the word, whose value is then what they spell in the machine's
/// byte order.
#[verifier::external_body]
fn read_u64(bytes: &[u8]) -> (r: Result<u64, plain::Error>)
    ensures
        r is Ok <==> bytes@.len() >= 8,
        r is Ok ==> spells(bytes@.subrange(0, 8), r.unwrap() as int),
{
    let mut word: u64 = 0;
    match plain::copy_from_bytes(&mut word, bytes) {
        Ok(()) => Ok(word),
        Err(e) => Err(e),
    }
}

/// Trusted: `plain::copy_from_bytes` into an `i32`. It fails exactly when
/// fewer than four bytes are given; otherwise it copies the first four bytes
/// over the word, whose value is then what they spell, as a signed number,
/// in the machine's byte order.
#[verifier::external_body]
fn read_i32(bytes: &[u8]) -> (r: Result<i32, plain::Error>)
    ensures
        r is Ok <==> bytes@.len() >= 4,
        r is Ok ==> spells_signed(bytes@.subrange(0, 4), r.unwrap() as int),
{
    let mut word: i32 = 0;
    match plain::copy_from_bytes(&mut word, bytes) {
        Ok(()) => Ok(word),
        Err(e) => Err(e),
    }
}

/// Decodes one record. A buffer of any other size than a record's is
/// refused; a buffer of that size always decodes.
pub fn decode(bytes: &[u8]) -> (r: Result<RawEvent, DecodeError>)
    ensures
        r is Ok <==> bytes@.len() == RECORD_SIZE,
        r is Err ==> r == Err::<RawEvent, DecodeError>(
            DecodeError::MalformedRecord { length: bytes.len() },
        ),
        r is Ok ==> r.unwrap().is_reading_of(bytes@),
{
    let malformed = DecodeError::MalformedRecord { length: bytes.len() };
    if bytes.len() != RECORD_SIZE {
        return Err(malformed);
    }
    let task_id: i32 = match read_i32(slice_subrange(bytes, 0, 4)) {
        Ok(v) => v,
        Err(_) => { return Err(malformed); },
    };
    let sleep_start: u64 = match read_u64(slice_subrange(bytes, 8, 16)) {
        Ok(v) => v,
        Err(_) => { return Err(malformed); },
    };
    let sleep_end: u64 = match read_u64(slice_subrange(bytes, 16, 24)) {
        Ok(v) => v,
        Err(_) => { return Err(malformed); },
    };
    let runtime_ns: u64 = match read_u64(slice_subrange(bytes, 24, 32)) {
        Ok(v) => v,
        Err(_) => { return Err(malformed); },
    };
    proof {
        assert(bytes@.subrange(0, 4).subrange(0, 4) == bytes@.subrange(0, 4));
        assert(bytes@.subrange(8, 16).subrange(0, 8) == bytes@.subrange(8, 16));
        assert(bytes@.subrange(16, 24).subrange(0, 8) == bytes@.subrange(16, 24));
        assert(bytes@.subrange(24, 32).subrange(0, 8) == bytes@.subrange(24, 32));
    }
    Ok(RawEvent { task_id, sleep_start, sleep_end, runtime_ns })
}

} // verus!
