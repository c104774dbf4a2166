//! Fixed-width integers as they lie in a dictionary file.
//!
//! Counters and sizes of the directories are little-endian; the length of
//! the XML header, keyword length prefixes and record offsets are
//! big-endian. Every reader returns `None` when the integer would extend
//! past the end of the buffer.

use vstd::prelude::*;
use vstd::slice::slice_subrange;
use vstd::slice::slice_to_vec;

verus! {

/// The big-endian value of the two bytes at `pos`.
pub open spec fn be16(s: Seq<u8>, pos: int) -> int {
    s[pos] as int * 256 + s[pos + 1] as int
}

/// The big-endian value of the four bytes at `pos`.
pub open spec fn be32(s: Seq<u8>, pos: int) -> int {
    s[pos] as int * 16777216 + s[pos + 1] as int * 65536 + s[pos + 2] as int * 256 + s[pos
        + 3] as int
}

/// The big-endian value of the eight bytes at `pos`.
pub open spec fn be64(s: Seq<u8>, pos: int) -> int {
    be32(s, pos) * 4294967296 + be32(s, pos + 4)
}

/// The little-endian value of the four bytes at `pos`.
pub open spec fn le32(s: Seq<u8>, pos: int) -> int {
    s[pos] as int + s[pos + 1] as int * 256 + s[pos + 2] as int * 65536 + s[pos + 3] as int
        * 16777216
}

/// The little-endian value of the eight bytes at `pos`.
pub open spec fn le64(s: Seq<u8>, pos: int) -> int {
    le32(s, pos) + le32(s, pos + 4) * 4294967296
}

/// Whether `width` bytes starting at `pos` lie inside a buffer of `len` bytes.
pub open spec fn in_bounds(len: int, pos: int, width: int) -> bool {
    0 <= pos && pos + width <= len
}

/// The width in bytes of a directory counter: eight in the wide layout,
/// four in the narrow one.
pub open spec fn counter_width(wide: bool) -> int {
    if wide {
        8
    } else {
        4
    }
}

/// The value of the directory counter at `pos`.
pub open spec fn counter_at(s: Seq<u8>, pos: int, wide: bool) -> int {
    if wide {
        le64(s, pos)
    } else {
        le32(s, pos)
    }
}

/// The value of the record offset that opens a key entry at `pos`.
pub open spec fn record_offset_at(s: Seq<u8>, pos: int, wide: bool) -> int {
    if wide {
        be64(s, pos)
    } else {
        be32(s, pos)
    }
}

/// The width in bytes of the length prefix of a directory keyword: two in
/// the wide layout, one in the narrow one.
pub open spec fn prefix_width(wide: bool) -> int {
    if wide {
        2
    } else {
        1
    }
}

/// The value of the directory keyword's length prefix at `pos`.
pub open spec fn prefix_at(s: Seq<u8>, pos: int, wide: bool) -> int {
    if wide {
        be16(s, pos)
    } else {
        s[pos] as int
    }
}

/// The first position at or after `from` that holds the byte `b`.
pub open spec fn byte_position(s: Seq<u8>, b: u8, from: int) -> Option<int>
    decreases s.len() - from,
{
    if from < 0 || from >= s.len() {
        None
    } else if s[from] == b {
        Some(from)
    } else {
        byte_position(s, b, from + 1)
    }
}

/// Finds the first position at or after `from` that holds the byte `b`.
pub fn find_byte(s: &[u8], b: u8, from: usize) -> (res: Option<usize>)
    ensures
        match res {
            Some(pos) => byte_position(s@, b, from as int) == Some(pos as int) && from <= pos
                < s@.len(),
            None => byte_position(s@, b, from as int) is None,
        },
{
    let mut i: usize = from;
    while i < s.len()
        invariant
            from <= i,
            byte_position(s@, b, from as int) == byte_position(s@, b, i as int),
        decreases s@.len() - i,
    {
        if s[i] == b {
            return Some(i);
        }
        i = i + 1;
    }
    None
}

/// Reads the big-endian `u16` at `pos`.
pub fn read_be_u16(bytes: &[u8], pos: usize) -> (res: Option<u16>)
    ensures
        res == if in_bounds(bytes@.len() as int, pos as int, 2) {
            Some(be16(bytes@, pos as int) as u16)
        } else {
            None
        },
        res is Some ==> res.unwrap() as int == be16(bytes@, pos as int),
{
    if bytes.len() < 2 || pos > bytes.len() - 2 {
        return None;
    }
    let hi: u16 = bytes[pos] as u16;
    let lo: u16 = bytes[pos + 1] as u16;
    Some(hi * 256 + lo)
}

/// Reads the big-endian `u32` at `pos`.
pub fn read_be_u32(bytes: &[u8], pos: usize) -> (res: Option<u32>)
    ensures
        res == if in_bounds(bytes@.len() as int, pos as int, 4) {
            Some(be32(bytes@, pos as int) as u32)
        } else {
            None
        },
        res is Some ==> res.unwrap() as int == be32(bytes@, pos as int),
{
    if bytes.len() < 4 || pos > bytes.len() - 4 {
        return None;
    }
    let b0: u32 = bytes[pos] as u32;
    let b1: u32 = bytes[pos + 1] as u32;
    let b2: u32 = bytes[pos + 2] as u32;
    let b3: u32 = bytes[pos + 3] as u32;
    Some(b0 * 16777216 + b1 * 65536 + b2 * 256 + b3)
}

/// Reads the big-endian `u64` at `pos`.
pub fn read_be_u64(bytes: &[u8], pos: usize) -> (res: Option<u64>)
    ensures
        res == if in_bounds(bytes@.len() as int, pos as int, 8) {
            Some(be64(bytes@, pos as int) as u64)
        } else {
            None
        },
        res is Some ==> res.unwrap() as int == be64(bytes@, pos as int),
{
    if bytes.len() < 8 || pos > bytes.len() - 8 {
        return None;
    }
    let hi: u64 = match read_be_u32(bytes, pos) {
        Some(v) => v as u64,
        None => { return None; },
    };
    let lo: u64 = match read_be_u32(bytes, pos + 4) {
        Some(v) => v as u64,
        None => { return None; },
    };
    Some(hi * 4294967296 + lo)
}

/// Reads the little-endian `u32` at `pos`.
pub fn read_le_u32(bytes: &[u8], pos: usize) -> (res: Option<u32>)
    ensures
        res == if in_bounds(bytes@.len() as int, pos as int, 4) {
            Some(le32(bytes@, pos as int) as u32)
        } else {
            None
        },
        res is Some ==> res.unwrap() as int == le32(bytes@, pos as int),
{
    if bytes.len() < 4 || pos > bytes.len() - 4 {
        return None;
    }
    let b0: u32 = bytes[pos] as u32;
    let b1: u32 = bytes[pos + 1] as u32;
    let b2: u32 = bytes[pos + 2] as u32;
    let b3: u32 = bytes[pos + 3] as u32;
    Some(b0 + b1 * 256 + b2 * 65536 + b3 * 16777216)
}

/// Reads the little-endian `u64` at `pos`.
pub fn read_le_u64(bytes: &[u8], pos: usize) -> (res: Option<u64>)
    ensures
        res == if in_bounds(bytes@.len() as int, pos as int, 8) {
            Some(le64(bytes@, pos as int) as u64)
        } else {
            None
        },
        res is Some ==> res.unwrap() as int == le64(bytes@, pos as int),
{
    if bytes.len() < 8 || pos > bytes.len() - 8 {
        return None;
    }
    let lo: u64 = match read_le_u32(bytes, pos) {
        Some(v) => v as u64,
        None => { return None; },
    };
    let hi: u64 = match read_le_u32(bytes, pos + 4) {
        Some(v) => v as u64,
        None => { return None; },
    };
    Some(lo + hi * 4294967296)
}

/// Reads the directory counter at `pos`: a little-endian `u64` in the wide
/// layout, a little-endian `u32` in the narrow one.
pub fn read_counter(bytes: &[u8], pos: usize, wide: bool) -> (res: Option<u64>)
    ensures
        res is Some <==> in_bounds(bytes@.len() as int, pos as int, counter_width(wide)),
        res is Some ==> res.unwrap() as int == counter_at(bytes@, pos as int, wide),
{
    if wide {
        read_le_u64(bytes, pos)
    } else {
        match read_le_u32(bytes, pos) {
            Some(v) => Some(v as u64),
            None => None,
        }
    }
}

/// Reads the record offset at `pos`: a big-endian `u64` in the wide layout,
/// a big-endian `u32` in the narrow one.
pub fn read_record_offset(bytes: &[u8], pos: usize, wide: bool) -> (res: Option<u64>)
    ensures
        res is Some <==> in_bounds(bytes@.len() as int, pos as int, counter_width(wide)),
        res is Some ==> res.unwrap() as int == record_offset_at(bytes@, pos as int, wide),
{
    if wide {
        read_be_u64(bytes, pos)
    } else {
        match read_be_u32(bytes, pos) {
            Some(v) => Some(v as u64),
            None => None,
        }
    }
}

/// Reads the length prefix of a directory keyword at `pos`: a big-endian
/// `u16` in the wide layout, one byte in the narrow one.
pub fn read_prefix(bytes: &[u8], pos: usize, wide: bool) -> (res: Option<u16>)
    ensures
        res is Some <==> in_bounds(bytes@.len() as int, pos as int, prefix_width(wide)),
        res is Some ==> res.unwrap() as int == prefix_at(bytes@, pos as int, wide),
{
    if wide {
        read_be_u16(bytes, pos)
    } else if pos < bytes.len() {
        Some(bytes[pos] as u16)
    } else {
        None
    }
}

/// Copies the bytes `from..to` of a buffer.
pub(crate) fn copy_range(bytes: &[u8], from: usize, to: usize) -> (res: Vec<u8>)
    requires
        from <= to <= bytes@.len(),
    ensures
        res@ == bytes@.subrange(from as int, to as int),
{
    slice_to_vec(slice_subrange(bytes, from, to))
}

} // verus!
