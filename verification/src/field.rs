//! Reading little-endian integers at fixed offsets of a record.
//!
//! These functions are the only place where a record can turn out to be too
//! short. They check nothing else: whatever the bytes hold is handed on.

use crate::error::ReplayError;
use vstd::prelude::*;

verus! {

/// Whether a field of `width` bytes at `offset` lies within a buffer of `len`
/// bytes.
pub open spec fn in_bounds(len: nat, offset: int, width: int) -> bool {
    0 <= offset && offset + width <= len
}

/// The value of the four bytes at `offset`, the lowest byte first.
pub open spec fn le_u32(bytes: Seq<u8>, offset: int) -> int {
    bytes[offset] + 0x100 * bytes[offset + 1] + 0x1_0000 * bytes[offset + 2] + 0x100_0000
        * bytes[offset + 3]
}

/// The value of the eight bytes at `offset`, the lowest byte first.
pub open spec fn le_u64(bytes: Seq<u8>, offset: int) -> int {
    le_u32(bytes, offset) + 0x1_0000_0000 * le_u32(bytes, offset + 4)
}

/// The value of the eight bytes at `offset` as a signed number in two's
/// complement, the lowest byte first.
pub open spec fn le_i64(bytes: Seq<u8>, offset: int) -> int {
    if le_u64(bytes, offset) < 0x8000_0000_0000_0000 {
        le_u64(bytes, offset)
    } else {
        le_u64(bytes, offset) - 0x1_0000_0000_0000_0000
    }
}

/// Four bytes never make more than a `u32`, nor eight more than a `u64`.
pub proof fn lemma_le_ranges(bytes: Seq<u8>, offset: int)
    ensures
        0 <= le_u32(bytes, offset) <= u32::MAX,
        0 <= le_u64(bytes, offset) <= u64::MAX,
        i64::MIN <= le_i64(bytes, offset) <= i64::MAX,
{
}

/// What reading one byte at `offset` gives.
pub open spec fn field_u8(bytes: Seq<u8>, offset: int) -> Result<u8, ReplayError> {
    if in_bounds(bytes.len(), offset, 1) {
        Ok(bytes[offset])
    } else {
        Err(ReplayError::TruncatedBuffer)
    }
}

/// What reading a `u32` at `offset` gives.
pub open spec fn field_u32(bytes: Seq<u8>, offset: int) -> Result<u32, ReplayError> {
    if in_bounds(bytes.len(), offset, 4) {
        Ok(le_u32(bytes, offset) as u32)
    } else {
        Err(ReplayError::TruncatedBuffer)
    }
}

/// What reading a `u64` at `offset` gives.
pub open spec fn field_u64(bytes: Seq<u8>, offset: int) -> Result<u64, ReplayError> {
    if in_bounds(bytes.len(), offset, 8) {
        Ok(le_u64(bytes, offset) as u64)
    } else {
        Err(ReplayError::TruncatedBuffer)
    }
}

/// What reading an `i64` at `offset` gives.
pub open spec fn field_i64(bytes: Seq<u8>, offset: int) -> Result<i64, ReplayError> {
    if in_bounds(bytes.len(), offset, 8) {
        Ok(le_i64(bytes, offset) as i64)
    } else {
        Err(ReplayError::TruncatedBuffer)
    }
}

/// The byte at `offset`.
pub fn read_u8(bytes: &[u8], offset: usize) -> (field: Result<u8, ReplayError>)
    ensures
        field == field_u8(bytes@, offset as int),
{
    if offset < bytes.len() {
        Ok(bytes[offset])
    } else {
        Err(ReplayError::TruncatedBuffer)
    }
}

/// The little-endian `u32` in the four bytes at `offset`.
pub fn read_u32(bytes: &[u8], offset: usize) -> (field: Result<u32, ReplayError>)
    ensures
        field == field_u32(bytes@, offset as int),
{
    if bytes.len() < 4 || offset > bytes.len() - 4 {
        return Err(ReplayError::TruncatedBuffer);
    }
    let b0: u32 = bytes[offset] as u32;
    let b1: u32 = bytes[offset + 1] as u32;
    let b2: u32 = bytes[offset + 2] as u32;
    let b3: u32 = bytes[offset + 3] as u32;
    Ok(b0 + 0x100 * b1 + 0x1_0000 * b2 + 0x100_0000 * b3)
}

/// The little-endian `u64` in the eight bytes at `offset`.
pub fn read_u64(bytes: &[u8], offset: usize) -> (field: Result<u64, ReplayError>)
    ensures
        field == field_u64(bytes@, offset as int),
{
    if bytes.len() < 8 || offset > bytes.len() - 8 {
        return Err(ReplayError::TruncatedBuffer);
    }
    let low = read_u32(bytes, offset);
    let high = read_u32(bytes, offset + 4);
    match (low, high) {
        (Ok(low), Ok(high)) => {
            let low: u64 = low as u64;
            let high: u64 = high as u64;
            Ok(low + 0x1_0000_0000 * high)
        },
        _ => Err(ReplayError::TruncatedBuffer),
    }
}

/// The little-endian `i64`, in two's complement, in the eight bytes at
/// `offset`.
pub fn read_i64(bytes: &[u8], offset: usize) -> (field: Result<i64, ReplayError>)
    ensures
        field == field_i64(bytes@, offset as int),
{
    match read_u64(bytes, offset) {
        Ok(raw) => {
            if raw < 0x8000_0000_0000_0000 {
                Ok(raw as i64)
            } else {
                let rest: i64 = (raw - 0x8000_0000_0000_0000) as i64;
                Ok(rest + i64::MIN)
            }
        },
        Err(e) => Err(e),
    }
}

} // verus!
