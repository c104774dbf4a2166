//! The record-block directory: one entry for each record block.
//!
//! The directory follows the key blocks. Its prelude holds four counters:
//! the number of record blocks, the number of entries, the size of the
//! directory and the size of all compressed record blocks together. Each
//! entry holds the sizes of one block before and after decompression. The
//! record blocks follow the directory, one after another.

use vstd::prelude::*;
use crate::error::MDictError;
use crate::record::MDictRecordBlockIndex;
use crate::wire::counter_at;
use crate::wire::counter_width;
use crate::wire::in_bounds;
use crate::wire::read_counter;

verus! {

/// The counters that precede the record-block directory.
#[derive(Clone, Copy, Debug, PartialEq, Eq, Structural)]
pub struct MDictRecordPrelude {
    /// The number of record blocks.
    pub blocks: u64,
    /// The number of entries in all record blocks together.
    pub entries: u64,
    /// The size of the directory in the file.
    pub directory_size: u64,
    /// The size of all compressed record blocks together.
    pub records_size: u64,
}

/// The record prelude that stands at `pos`, or `None` where the file ends
/// before it does.
pub open spec fn record_prelude(file: Seq<u8>, pos: int, wide: bool) -> Option<MDictRecordPrelude> {
    if !in_bounds(file.len() as int, pos, 4 * counter_width(wide)) {
        None
    } else {
        Some(
            MDictRecordPrelude {
                blocks: counter_at(file, pos, wide) as u64,
                entries: counter_at(file, pos + counter_width(wide), wide) as u64,
                directory_size: counter_at(file, pos + 2 * counter_width(wide), wide) as u64,
                records_size: counter_at(file, pos + 3 * counter_width(wide), wide) as u64,
            },
        )
    }
}

/// The size that a directory of `blocks` entries has in the file.
pub open spec fn directory_size_of(blocks: u64, wide: bool) -> int {
    if wide {
        blocks * 16
    } else {
        blocks * 8
    }
}

/// The state of the walk over a record directory: the entries read so
/// far, the position in the file, the offset in the file of the next
/// block, and the sizes of the blocks read so far, compressed and
/// decompressed.
pub struct RecordWalk {
    pub blocks: Seq<MDictRecordBlockIndex>,
    pub pos: int,
    pub offset: u64,
    pub comp_total: u64,
    pub nominal: u64,
}

/// The walk over `remaining` more entries of a record directory. It fails
/// where an entry leaves the file and where an offset or a total leaves
/// 64 bits.
pub open spec fn record_walk(file: Seq<u8>, wide: bool, remaining: nat, walk: RecordWalk) -> Option<
    RecordWalk,
>
    decreases remaining,
{
    if remaining == 0 {
        Some(walk)
    } else if !in_bounds(file.len() as int, walk.pos, 2 * counter_width(wide)) {
        None
    } else {
        let comp = counter_at(file, walk.pos, wide) as u64;
        let decomp = counter_at(file, walk.pos + counter_width(wide), wide) as u64;
        if walk.offset + comp > u64::MAX || walk.comp_total + comp > u64::MAX || walk.nominal
            + decomp > u64::MAX {
            None
        } else {
            record_walk(
                file,
                wide,
                (remaining - 1) as nat,
                RecordWalk {
                    blocks: walk.blocks.push(
                        MDictRecordBlockIndex {
                            offset: walk.offset,
                            comp_size: comp,
                            decomp_size: decomp,
                        },
                    ),
                    pos: walk.pos + 2 * counter_width(wide),
                    offset: (walk.offset + comp) as u64,
                    comp_total: (walk.comp_total + comp) as u64,
                    nominal: (walk.nominal + decomp) as u64,
                },
            )
        }
    }
}

/// The record-block directory whose prelude stands at `pos`, in a file
/// whose key directory announces `entries` keywords. A prelude or a
/// directory that leaves the file is an I/O error; a prelude that
/// contradicts the key directory, the directory or itself is a corrupt
/// header.
pub open spec fn record_directory(file: Seq<u8>, pos: int, wide: bool, entries: u64) -> Result<
    Seq<MDictRecordBlockIndex>,
    MDictError,
> {
    match record_prelude(file, pos, wide) {
        None => Err(MDictError::Io),
        Some(prelude) => {
            let start = pos + 4 * counter_width(wide);
            if prelude.entries != entries || prelude.directory_size != directory_size_of(
                prelude.blocks,
                wide,
            ) {
                Err(MDictError::CorruptHeader)
            } else if !in_bounds(file.len() as int, start, prelude.directory_size as int) {
                Err(MDictError::Io)
            } else {
                match record_walk(
                    file,
                    wide,
                    prelude.blocks as nat,
                    RecordWalk {
                        blocks: Seq::empty(),
                        pos: start,
                        offset: (start + prelude.directory_size) as u64,
                        comp_total: 0,
                        nominal: 0,
                    },
                ) {
                    None => Err(MDictError::CorruptHeader),
                    Some(walk) => if walk.comp_total != prelude.records_size {
                        Err(MDictError::CorruptHeader)
                    } else {
                        Ok(walk.blocks)
                    },
                }
            }
        },
    }
}

/// Reads the record prelude that stands at `pos`.
pub fn parse_record_prelude(file: &[u8], pos: usize, wide: bool) -> (res: Option<
    MDictRecordPrelude,
>)
    ensures
        res == record_prelude(file@, pos as int, wide),
        res is Some ==> pos + 4 * counter_width(wide) <= file@.len(),
{
    let width: usize = if wide {
        8
    } else {
        4
    };
    if file.len() < 4 * width || pos > file.len() - 4 * width {
        return None;
    }
    match (
        read_counter(file, pos, wide),
        read_counter(file, pos + width, wide),
        read_counter(file, pos + 2 * width, wide),
        read_counter(file, pos + 3 * width, wide),
    ) {
        (Some(blocks), Some(entries), Some(directory_size), Some(records_size)) => Some(
            MDictRecordPrelude { blocks, entries, directory_size, records_size },
        ),
        _ => None,
    }
}

/// Reads the record-block directory whose prelude stands at `pos`.
#[verifier::loop_isolation(false)]
pub fn parse_record_directory(file: &[u8], pos: usize, wide: bool, entries: u64) -> (res: Result<
    Vec<MDictRecordBlockIndex>,
    MDictError,
>)
    ensures
        match res {
            Ok(blocks) => record_directory(file@, pos as int, wide, entries) == Ok::<
                Seq<MDictRecordBlockIndex>,
                MDictError,
            >(blocks@),
            Err(e) => record_directory(file@, pos as int, wide, entries) == Err::<
                Seq<MDictRecordBlockIndex>,
                MDictError,
            >(e),
        },
{
    let total: usize = file.len();
    let prelude = match parse_record_prelude(file, pos, wide) {
        Some(p) => p,
        None => { return Err(MDictError::Io); },
    };
    let width: usize = if wide {
        8
    } else {
        4
    };
    let stride: u64 = if wide {
        16
    } else {
        8
    };
    if prelude.entries != entries || prelude.blocks > u64::MAX / stride || prelude.directory_size
        != prelude.blocks * stride {
        return Err(MDictError::CorruptHeader);
    }
    let start: usize = pos + 4 * width;
    if prelude.directory_size > (total - start) as u64 {
        return Err(MDictError::Io);
    }
    let mut blocks: Vec<MDictRecordBlockIndex> = Vec::new();
    let mut at: usize = start;
    let mut offset: u64 = start as u64 + prelude.directory_size;
    let mut comp_total: u64 = 0;
    let mut nominal: u64 = 0;
    let mut i: u64 = 0;
    let ghost first = RecordWalk {
        blocks: Seq::empty(),
        pos: start as int,
        offset: offset,
        comp_total: 0,
        nominal: 0,
    };
    while i < prelude.blocks
        invariant
            i <= prelude.blocks,
            total == file@.len(),
            at <= total,
            width as int == counter_width(wide),
            record_walk(file@, wide, prelude.blocks as nat, first) == record_walk(
                file@,
                wide,
                (prelude.blocks - i) as nat,
                RecordWalk {
                    blocks: blocks@,
                    pos: at as int,
                    offset: offset,
                    comp_total: comp_total,
                    nominal: nominal,
                },
            ),
        decreases prelude.blocks - i,
    {
        if total - at < 2 * width {
            return Err(MDictError::CorruptHeader);
        }
        let (comp, decomp) = match (read_counter(file, at, wide), read_counter(file, at + width, wide)) {
            (Some(c), Some(d)) => (c, d),
            _ => { return Err(MDictError::CorruptHeader); },
        };
        if comp > u64::MAX - offset || comp > u64::MAX - comp_total || decomp > u64::MAX - nominal {
            return Err(MDictError::CorruptHeader);
        }
        let block = MDictRecordBlockIndex { offset, comp_size: comp, decomp_size: decomp };
        blocks.push(block);
        at = at + 2 * width;
        offset = offset + comp;
        comp_total = comp_total + comp;
        nominal = nominal + decomp;
        i = i + 1;
    }
    if comp_total != prelude.records_size {
        return Err(MDictError::CorruptHeader);
    }
    Ok(blocks)
}

} // verus!
