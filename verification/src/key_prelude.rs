//! The second layer of a dictionary file: the key prelude and the buffer
//! that holds the key-block directory.
//!
//! In the wide layout the prelude holds five 64-bit counters and is closed
//! by the Adler-32 checksum of their forty bytes; in the narrow layout it
//! holds four 32-bit counters and no checksum.

use vstd::prelude::*;
use crate::checksum::adler32;
use crate::checksum::adler32_of;
use crate::codec::block_payload;
use crate::codec::decode_block;
use crate::codec::derive_directory_key;
use crate::codec::directory_key;
use crate::codec::unscramble;
use crate::codec::unscrambled;
use crate::error::MDictError;
use crate::wire::counter_at;
use crate::wire::in_bounds;
use crate::wire::le32;
use crate::wire::read_counter;
use crate::wire::read_le_u32;

verus! {

/// The counters that precede the key-block directory.
#[derive(Clone, Copy, Debug, PartialEq, Eq, Structural)]
pub struct MDictKeyPrelude {
    /// The number of key blocks.
    pub blocks: u64,
    /// The number of entries in all key blocks together.
    pub entries: u64,
    /// The size of the directory once decompressed. In the narrow layout
    /// the directory is not compressed and this is its size in the file.
    pub directory_nominal: u64,
    /// The size of the directory buffer in the file.
    pub directory_size: u64,
    /// The nominal size of all records together.
    pub records_nominal: u64,
}

/// The length of the key prelude in the file.
pub open spec fn key_prelude_len(wide: bool) -> int {
    if wide {
        44
    } else {
        16
    }
}

/// The position, relative to the prelude, of the last four bytes of the
/// field that holds the size of the directory buffer.
pub open spec fn length_tail_at(wide: bool) -> int {
    if wide {
        28
    } else {
        8
    }
}

/// The key prelude that stands at `pos`.
pub open spec fn key_prelude(file: Seq<u8>, pos: int, wide: bool) -> Result<
    MDictKeyPrelude,
    MDictError,
> {
    if !in_bounds(file.len() as int, pos, key_prelude_len(wide)) {
        Err(MDictError::Io)
    } else if wide {
        if adler32_of(file.subrange(pos, pos + 40)) != le32(file, pos + 40) {
            Err(MDictError::CorruptHeader)
        } else {
            Ok(
                MDictKeyPrelude {
                    blocks: counter_at(file, pos, true) as u64,
                    entries: counter_at(file, pos + 8, true) as u64,
                    directory_nominal: counter_at(file, pos + 16, true) as u64,
                    directory_size: counter_at(file, pos + 24, true) as u64,
                    records_nominal: counter_at(file, pos + 32, true) as u64,
                },
            )
        }
    } else {
        Ok(
            MDictKeyPrelude {
                blocks: counter_at(file, pos, false) as u64,
                entries: counter_at(file, pos + 4, false) as u64,
                directory_nominal: counter_at(file, pos + 8, false) as u64,
                directory_size: counter_at(file, pos + 8, false) as u64,
                records_nominal: counter_at(file, pos + 12, false) as u64,
            },
        )
    }
}

/// The entries of the key-block directory as they lie in memory: the
/// directory buffer that follows the prelude at `pos`, unscrambled where
/// the header says it is scrambled, and in the wide layout decoded as a
/// block.
pub open spec fn directory_payload(
    file: Seq<u8>,
    pos: int,
    wide: bool,
    scrambled: bool,
    prelude: MDictKeyPrelude,
) -> Result<Seq<u8>, MDictError> {
    let start = pos + key_prelude_len(wide);
    if !in_bounds(file.len() as int, start, prelude.directory_size as int) {
        Err(MDictError::Io)
    } else {
        let buffer = file.subrange(start, start + prelude.directory_size);
        let tail = file.subrange(pos + length_tail_at(wide), pos + length_tail_at(wide) + 4);
        let plain = if scrambled {
            unscrambled(buffer, directory_key(tail))
        } else {
            buffer
        };
        if wide {
            match block_payload(plain, prelude.directory_nominal as nat) {
                Some(payload) => Ok(payload),
                None => Err(MDictError::CorruptBlock),
            }
        } else {
            Ok(plain)
        }
    }
}

/// Reads the key prelude that stands at `pos`.
pub fn parse_key_prelude(file: &[u8], pos: usize, wide: bool) -> (res: Result<
    MDictKeyPrelude,
    MDictError,
>)
    ensures
        res == key_prelude(file@, pos as int, wide),
        res is Ok ==> pos + key_prelude_len(wide) <= file@.len(),
{
    let len: usize = if wide {
        44
    } else {
        16
    };
    if file.len() < len || pos > file.len() - len {
        return Err(MDictError::Io);
    }
    if wide {
        let stamp: u32 = match read_le_u32(file, pos + 40) {
            Some(s) => s,
            None => { return Err(MDictError::Io); },
        };
        if adler32(vstd::slice::slice_subrange(file, pos, pos + 40)) != stamp {
            return Err(MDictError::CorruptHeader);
        }
        match (
            read_counter(file, pos, true),
            read_counter(file, pos + 8, true),
            read_counter(file, pos + 16, true),
            read_counter(file, pos + 24, true),
            read_counter(file, pos + 32, true),
        ) {
            (Some(blocks), Some(entries), Some(nominal), Some(size), Some(records)) => Ok(
                MDictKeyPrelude {
                    blocks,
                    entries,
                    directory_nominal: nominal,
                    directory_size: size,
                    records_nominal: records,
                },
            ),
            _ => Err(MDictError::Io),
        }
    } else {
        match (
            read_counter(file, pos, false),
            read_counter(file, pos + 4, false),
            read_counter(file, pos + 8, false),
            read_counter(file, pos + 12, false),
        ) {
            (Some(blocks), Some(entries), Some(size), Some(records)) => Ok(
                MDictKeyPrelude {
                    blocks,
                    entries,
                    directory_nominal: size,
                    directory_size: size,
                    records_nominal: records,
                },
            ),
            _ => Err(MDictError::Io),
        }
    }
}

/// Reads the entries of the key-block directory into memory. `pos` is the
/// position of the key prelude, which the file holds in full.
pub fn read_directory_payload(
    file: &[u8],
    pos: usize,
    wide: bool,
    scrambled: bool,
    prelude: &MDictKeyPrelude,
) -> (res: Result<Vec<u8>, MDictError>)
    requires
        pos + key_prelude_len(wide) <= file@.len(),
    ensures
        match res {
            Ok(payload) => directory_payload(file@, pos as int, wide, scrambled, *prelude) == Ok::<
                Seq<u8>,
                MDictError,
            >(payload@),
            Err(e) => directory_payload(file@, pos as int, wide, scrambled, *prelude) == Err::<
                Seq<u8>,
                MDictError,
            >(e),
        },
{
    let total: usize = file.len();
    let start: usize = if wide {
        pos + 44
    } else {
        pos + 16
    };
    if prelude.directory_size > (total - start) as u64 {
        return Err(MDictError::Io);
    }
    let size: usize = prelude.directory_size as usize;
    let buffer = vstd::slice::slice_subrange(file, start, start + size);
    let tail_at: usize = if wide {
        pos + 28
    } else {
        pos + 8
    };
    let plain: Vec<u8> = if scrambled {
        let key = derive_directory_key(vstd::slice::slice_subrange(file, tail_at, tail_at + 4));
        unscramble(buffer, key.as_slice())
    } else {
        vstd::slice::slice_to_vec(buffer)
    };
    if wide {
        decode_block(plain.as_slice(), prelude.directory_nominal)
    } else {
        Ok(plain)
    }
}

} // verus!
