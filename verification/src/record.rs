//! Where a record lies: its block, and its place inside the block.
//!
//! A key entry names its record by the offset among all decompressed
//! record blocks laid end to end. The record belongs to the block whose
//! range holds that offset, and ends where the next record begins or, for
//! the last record of a block, where the block ends.

use vstd::prelude::*;
use crate::error::MDictError;

verus! {

/// The place of one entry's bytes inside its decompressed record block.
#[derive(Clone, Copy, Debug, PartialEq, Eq, Structural)]
pub struct MDictRecordIndex {
    /// The number of the record block.
    pub block: u32,
    /// The offset of the entry inside the decompressed block.
    pub offset: u32,
    /// The length of the entry in bytes.
    pub len: u32,
}

/// One record block as the record directory describes it.
#[derive(Clone, Copy, Debug, PartialEq, Eq, Structural)]
pub struct MDictRecordBlockIndex {
    /// The offset of the compressed block in the file.
    pub offset: u64,
    /// The size of the compressed block.
    pub comp_size: u64,
    /// The size of the block once decompressed.
    pub decomp_size: u64,
}

/// The offset at which block `b` begins among all decompressed record
/// blocks laid end to end.
pub open spec fn nominal_start(blocks: Seq<MDictRecordBlockIndex>, b: int) -> int
    decreases b,
{
    if b <= 0 {
        0
    } else {
        nominal_start(blocks, b - 1) + blocks[b - 1].decomp_size
    }
}

/// The first block at or after `from` that ends after the offset `g`.
pub open spec fn block_of(blocks: Seq<MDictRecordBlockIndex>, g: int, from: int) -> Option<int>
    decreases blocks.len() - from,
{
    if from < 0 || from >= blocks.len() {
        None
    } else if g < nominal_start(blocks, from + 1) {
        Some(from)
    } else {
        block_of(blocks, g, from + 1)
    }
}

/// The place of the record that begins at the offset `g`, where the next
/// record, if there is one, begins at `next`. There is none where no block
/// holds `g`, where the next record does not begin after `g`, and where
/// the block's number, the offset in the block or the length leaves 32
/// bits.
pub open spec fn record_location(
    blocks: Seq<MDictRecordBlockIndex>,
    g: int,
    next: Option<int>,
) -> Option<MDictRecordIndex> {
    match block_of(blocks, g, 0) {
        None => None,
        Some(b) => {
            let start = nominal_start(blocks, b);
            let end = nominal_start(blocks, b + 1);
            let stop = match next {
                Some(n) => if n < end {
                    n
                } else {
                    end
                },
                None => end,
            };
            if stop <= g || b > u32::MAX || g - start > u32::MAX || stop - g > u32::MAX {
                None
            } else {
                Some(
                    MDictRecordIndex {
                        block: b as u32,
                        offset: (g - start) as u32,
                        len: (stop - g) as u32,
                    },
                )
            }
        },
    }
}

/// The starts of the blocks never decrease.
pub proof fn lemma_nominal_start_monotone(blocks: Seq<MDictRecordBlockIndex>, a: int, b: int)
    requires
        0 <= a <= b,
    ensures
        0 <= nominal_start(blocks, a) <= nominal_start(blocks, b),
    decreases b,
{
    if a < b {
        lemma_nominal_start_monotone(blocks, a, b - 1);
    } else if b > 0 {
        lemma_nominal_start_monotone(blocks, 0, b - 1);
        lemma_nominal_start_monotone(blocks, b - 1, b - 1);
    }
}

/// The blocks before one that begins at or before `g` do not hold `g`.
pub proof fn lemma_block_of_skip(blocks: Seq<MDictRecordBlockIndex>, g: int, from: int, to: int)
    requires
        0 <= from <= to <= blocks.len(),
        nominal_start(blocks, to) <= g,
    ensures
        block_of(blocks, g, from) == block_of(blocks, g, to),
    decreases to - from,
{
    if from < to {
        lemma_nominal_start_monotone(blocks, from + 1, to);
        lemma_block_of_skip(blocks, g, from + 1, to);
    }
}

/// The block that is found for an offset holds the offset: it begins at
/// or before the offset and ends after it.
pub proof fn lemma_block_of_holds(blocks: Seq<MDictRecordBlockIndex>, g: int, from: int)
    requires
        0 <= from,
        nominal_start(blocks, from) <= g,
        block_of(blocks, g, from) is Some,
    ensures
        from <= block_of(blocks, g, from).unwrap() < blocks.len(),
        nominal_start(blocks, block_of(blocks, g, from).unwrap()) <= g < nominal_start(
            blocks,
            block_of(blocks, g, from).unwrap() + 1,
        ),
    decreases blocks.len() - from,
{
    if from < blocks.len() && g >= nominal_start(blocks, from + 1) {
        lemma_block_of_holds(blocks, g, from + 1);
    }
}

/// A record that has a place lies in its block, is not empty, begins at
/// its offset among all records, and ends where the next record begins or,
/// where that is not in the same block, where the block ends.
pub proof fn lemma_location_shape(blocks: Seq<MDictRecordBlockIndex>, g: int, next: Option<int>)
    requires
        0 <= g,
        record_location(blocks, g, next) is Some,
    ensures
        placed_in(record_location(blocks, g, next).unwrap(), blocks),
        record_location(blocks, g, next).unwrap().len > 0,
        nominal_start(blocks, record_location(blocks, g, next).unwrap().block as int)
            + record_location(blocks, g, next).unwrap().offset == g,
        g + record_location(blocks, g, next).unwrap().len == if next is Some && next.unwrap()
            < nominal_start(blocks, record_location(blocks, g, next).unwrap().block + 1) {
            next.unwrap()
        } else {
            nominal_start(blocks, record_location(blocks, g, next).unwrap().block + 1)
        },
{
    lemma_block_of_holds(blocks, g, 0);
}

/// The offset at which the record after record `i` begins, if there is
/// one.
pub open spec fn next_offset(offsets: Seq<u64>, i: int) -> Option<int> {
    if i + 1 < offsets.len() {
        Some(offsets[i + 1] as int)
    } else {
        None
    }
}

/// The place of record `i` among records that begin at `offsets`.
pub open spec fn location_of(
    offsets: Seq<u64>,
    blocks: Seq<MDictRecordBlockIndex>,
    i: int,
) -> Option<MDictRecordIndex> {
    record_location(blocks, offsets[i] as int, next_offset(offsets, i))
}

/// Whether every record has a place.
pub open spec fn routable(offsets: Seq<u64>, blocks: Seq<MDictRecordBlockIndex>) -> bool {
    forall|i: int| 0 <= i < offsets.len() ==> (#[trigger] location_of(offsets, blocks, i)) is Some
}

/// The places of all records, in the order of their offsets.
pub open spec fn routed(offsets: Seq<u64>, blocks: Seq<MDictRecordBlockIndex>) -> Seq<
    MDictRecordIndex,
> {
    Seq::new(offsets.len(), |i: int| location_of(offsets, blocks, i).unwrap())
}

/// Whether a record lies inside one of the blocks of a directory.
pub open spec fn placed_in(place: MDictRecordIndex, blocks: Seq<MDictRecordBlockIndex>) -> bool {
    place.block < blocks.len() && place.offset + place.len <= blocks[place.block as int].decomp_size
}

/// The records that are routed to one block tile it: each record begins
/// where the one before it ends, none is empty, and the last record of a
/// block ends where the block ends. The blocks of the records never
/// descend.
pub proof fn lemma_routed_tiles(offsets: Seq<u64>, blocks: Seq<MDictRecordBlockIndex>, i: int)
    requires
        routable(offsets, blocks),
        0 <= i < offsets.len(),
    ensures
        placed_in(routed(offsets, blocks)[i], blocks),
        routed(offsets, blocks)[i].len > 0,
        i + 1 < offsets.len() ==> routed(offsets, blocks)[i].block <= routed(
            offsets,
            blocks,
        )[i + 1].block,
        i + 1 < offsets.len() && routed(offsets, blocks)[i].block == routed(
            offsets,
            blocks,
        )[i + 1].block ==> routed(offsets, blocks)[i].offset + routed(offsets, blocks)[i].len
            == routed(offsets, blocks)[i + 1].offset,
        i + 1 >= offsets.len() || routed(offsets, blocks)[i].block < routed(
            offsets,
            blocks,
        )[i + 1].block ==> routed(offsets, blocks)[i].offset + routed(offsets, blocks)[i].len
            == blocks[routed(offsets, blocks)[i].block as int].decomp_size,
{
    let here = location_of(offsets, blocks, i);
    lemma_location_shape(blocks, offsets[i] as int, next_offset(offsets, i));
    let b = here.unwrap().block as int;
    if i + 1 < offsets.len() {
        let there = location_of(offsets, blocks, i + 1);
        lemma_location_shape(blocks, offsets[i + 1] as int, next_offset(offsets, i + 1));
        let c = there.unwrap().block as int;
        if c < b {
            lemma_nominal_start_monotone(blocks, c + 1, b);
        }
        if b < c {
            lemma_nominal_start_monotone(blocks, b + 1, c);
        }
    }
}

/// Finds the place of every record. The records begin at `offsets`, in
/// the order of their keywords, and lie in the blocks of a directory.
pub fn route_records(offsets: &Vec<u64>, blocks: &Vec<MDictRecordBlockIndex>) -> (res: Result<
    Vec<MDictRecordIndex>,
    MDictError,
>)
    ensures
        match res {
            Ok(places) => routable(offsets@, blocks@) && places@ == routed(offsets@, blocks@)
                && forall|k: int| 0 <= k < places@.len() ==> placed_in(#[trigger] places@[k], blocks@),
            Err(e) => e == MDictError::CorruptIndex && !routable(offsets@, blocks@),
        },
{
    let mut places: Vec<MDictRecordIndex> = Vec::new();
    let mut cur: usize = 0;
    let mut base: u64 = 0;
    let mut i: usize = 0;
    while i < offsets.len()
        invariant
            i <= offsets@.len(),
            cur <= blocks@.len(),
            base as int == nominal_start(blocks@, cur as int),
            i < offsets@.len() ==> base <= offsets@[i as int],
            places@.len() == i,
            forall|k: int|
                0 <= k < i ==> (#[trigger] location_of(offsets@, blocks@, k)) == Some(places@[k]),
            forall|k: int| 0 <= k < i ==> placed_in(#[trigger] places@[k], blocks@),
        decreases offsets@.len() - i,
    {
        let g: u64 = offsets[i];
        proof {
            lemma_block_of_skip(blocks@, g as int, 0, cur as int);
        }
        while cur < blocks.len() && g - base >= blocks[cur].decomp_size
            invariant
                cur <= blocks@.len(),
                base as int == nominal_start(blocks@, cur as int),
                base <= g,
                block_of(blocks@, g as int, 0) == block_of(blocks@, g as int, cur as int),
            decreases blocks@.len() - cur,
        {
            base = base + blocks[cur].decomp_size;
            cur = cur + 1;
        }
        if cur >= blocks.len() {
            return Err(MDictError::CorruptIndex);
        }
        let within: u64 = g - base;
        let room: u64 = blocks[cur].decomp_size - within;
        let len: u64 = if i + 1 < offsets.len() {
            let next: u64 = offsets[i + 1];
            if next <= g {
                return Err(MDictError::CorruptIndex);
            }
            if next - g < room {
                next - g
            } else {
                room
            }
        } else {
            room
        };
        if cur > u32::MAX as usize || within > u32::MAX as u64 || len > u32::MAX as u64 {
            return Err(MDictError::CorruptIndex);
        }
        let place = MDictRecordIndex { block: cur as u32, offset: within as u32, len: len as u32 };
        assert(location_of(offsets@, blocks@, i as int) == Some(place));
        places.push(place);
        i = i + 1;
    }
    Ok(places)
}

} // verus!
