//! Scalar field decoders: read one fixed-width little-endian unsigned value
//! from the byte buffer at a given offset, with bounds checking.  `None`
//! signals the out-of-bounds condition; the caller turns it into a fatal
//! [`crate::diag::OutOfBounds`] error naming the field.
use vstd::prelude::*;

verus! {

/// The 16-bit little-endian value whose bytes sit at `i` and `i + 1`.
pub open spec fn u16_le(data: Seq<u8>, i: int) -> u16 {
    (data[i] + data[i + 1] * 0x100) as u16
}

/// The 32-bit little-endian value whose bytes sit at `i` through `i + 3`.
pub open spec fn u32_le(data: Seq<u8>, i: int) -> u32 {
    (data[i] + data[i + 1] * 0x100 + data[i + 2] * 0x10000 + data[i + 3] * 0x1000000) as u32
}

/// Read the byte at `offset`; `None` exactly when the buffer is shorter.
pub fn read_u8(data: &Vec<u8>, offset: usize) -> (r: Option<u8>)
    ensures
        r is Some <==> offset < data@.len(),
        r is Some ==> r == Some(data@[offset as int]),
{
    if offset < data.len() {
        Some(data[offset])
    } else {
        None
    }
}

/// Read a 16-bit little-endian value at `offset`; `None` exactly when the
/// two bytes do not fit in the buffer.
pub fn read_u16_le(data: &Vec<u8>, offset: usize) -> (r: Option<u16>)
    ensures
        r is Some <==> offset + 2 <= data@.len(),
        r is Some ==> r == Some(u16_le(data@, offset as int)),
{
    if data.len() >= 2 && offset <= data.len() - 2 {
        let lo = data[offset];
        let hi = data[offset + 1];
        Some(lo as u16 + hi as u16 * 0x100)
    } else {
        None
    }
}

/// Read a 32-bit little-endian value at `offset`; `None` exactly when the
/// four bytes do not fit in the buffer.
pub fn read_u32_le(data: &Vec<u8>, offset: usize) -> (r: Option<u32>)
    ensures
        r is Some <==> offset + 4 <= data@.len(),
        r is Some ==> r == Some(u32_le(data@, offset as int)),
{
    if data.len() >= 4 && offset <= data.len() - 4 {
        let b0 = data[offset];
        let b1 = data[offset + 1];
        let b2 = data[offset + 2];
        let b3 = data[offset + 3];
        Some(b0 as u32 + b1 as u32 * 0x100 + b2 as u32 * 0x10000 + b3 as u32 * 0x1000000)
    } else {
        None
    }
}

} // verus!
