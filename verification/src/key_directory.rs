//! The key-block directory: one entry for each key block.
//!
//! An entry holds the number of keywords of its block, the first and the
//! last keyword, each behind the count of its code units, and the sizes of
//! the block before and after decompression. The blocks lie in the file
//! one after another, in the order of their entries.

use vstd::prelude::*;
use crate::error::MDictError;
use crate::text::decode_text;
use crate::text::text_of;
use crate::text::MDictEncoding;
use crate::wire::counter_at;
use crate::wire::counter_width;
use crate::wire::in_bounds;
use crate::wire::prefix_at;
use crate::wire::prefix_width;
use crate::wire::read_counter;
use crate::wire::read_prefix;

verus! {

/// One key block as the key-block directory describes it.
#[derive(Clone, Debug)]
pub struct MDictKeyBlockInfo {
    /// The number of keywords in the block.
    pub entries: u64,
    /// The first keyword of the block.
    pub first_keyword: String,
    /// The last keyword of the block.
    pub last_keyword: String,
    /// The size of the compressed block.
    pub comp_size: u64,
    /// The size of the block once decompressed.
    pub decomp_size: u64,
    /// The offset of the compressed block in the file.
    pub offset: u64,
}

/// A directory entry as contracts see it.
pub struct MDictKeyBlockInfoView {
    pub entries: u64,
    pub first_keyword: Seq<char>,
    pub last_keyword: Seq<char>,
    pub comp_size: u64,
    pub decomp_size: u64,
    pub offset: u64,
}

impl View for MDictKeyBlockInfo {
    type V = MDictKeyBlockInfoView;

    open spec fn view(&self) -> MDictKeyBlockInfoView {
        MDictKeyBlockInfoView {
            entries: self.entries,
            first_keyword: self.first_keyword@,
            last_keyword: self.last_keyword@,
            comp_size: self.comp_size,
            decomp_size: self.decomp_size,
            offset: self.offset,
        }
    }
}

/// The entries of a directory, each by its view.
pub open spec fn key_block_views(blocks: Seq<MDictKeyBlockInfo>) -> Seq<MDictKeyBlockInfoView> {
    Seq::new(blocks.len(), |i: int| blocks[i]@)
}

/// The number of bytes of one code unit of an encoding.
pub open spec fn unit_width(encoding: MDictEncoding) -> int {
    if encoding is Utf16Le {
        2
    } else {
        1
    }
}

/// The keyword that stands at `pos` behind the count of its code units,
/// and the position after it.
pub open spec fn directory_keyword(
    payload: Seq<u8>,
    pos: int,
    wide: bool,
    encoding: MDictEncoding,
) -> Option<(Seq<char>, int)> {
    if !in_bounds(payload.len() as int, pos, prefix_width(wide)) {
        None
    } else {
        let start = pos + prefix_width(wide);
        let len = prefix_at(payload, pos, wide) * unit_width(encoding);
        if !in_bounds(payload.len() as int, start, len) {
            None
        } else {
            match text_of(encoding, payload.subrange(start, start + len)) {
                Some(text) => Some((text, start + len)),
                None => None,
            }
        }
    }
}

/// The directory entry that stands at `pos`, for a block that lies at
/// `offset` in the file, and the position after the entry.
pub open spec fn directory_entry(
    payload: Seq<u8>,
    pos: int,
    wide: bool,
    encoding: MDictEncoding,
    offset: u64,
) -> Option<(MDictKeyBlockInfoView, int)> {
    if !in_bounds(payload.len() as int, pos, counter_width(wide)) {
        None
    } else {
        match directory_keyword(payload, pos + counter_width(wide), wide, encoding) {
            None => None,
            Some((first, after_first)) => match directory_keyword(
                payload,
                after_first,
                wide,
                encoding,
            ) {
                None => None,
                Some((last, after_last)) => if !in_bounds(
                    payload.len() as int,
                    after_last,
                    2 * counter_width(wide),
                ) {
                    None
                } else {
                    Some(
                        (
                            MDictKeyBlockInfoView {
                                entries: counter_at(payload, pos, wide) as u64,
                                first_keyword: first,
                                last_keyword: last,
                                comp_size: counter_at(payload, after_last, wide) as u64,
                                decomp_size: counter_at(
                                    payload,
                                    after_last + counter_width(wide),
                                    wide,
                                ) as u64,
                                offset: offset,
                            },
                            after_last + 2 * counter_width(wide),
                        ),
                    )
                },
            },
        }
    }
}

/// The state of the walk over a directory: the entries read so far, the
/// position in the payload, the offset in the file of the next block, and
/// the number of keywords of the blocks read so far.
pub struct DirectoryWalk {
    pub blocks: Seq<MDictKeyBlockInfoView>,
    pub pos: int,
    pub offset: u64,
    pub entries: u64,
}

/// The walk over `remaining` more entries of a directory. It fails where
/// an entry does not fit in the payload or does not decode, and where the
/// offset of a block or the number of keywords leaves 64 bits.
pub open spec fn directory_walk(
    payload: Seq<u8>,
    wide: bool,
    encoding: MDictEncoding,
    remaining: nat,
    walk: DirectoryWalk,
) -> Option<DirectoryWalk>
    decreases remaining,
{
    if remaining == 0 {
        Some(walk)
    } else {
        match directory_entry(payload, walk.pos, wide, encoding, walk.offset) {
            None => None,
            Some((block, next)) => if walk.offset + block.comp_size > u64::MAX || walk.entries
                + block.entries > u64::MAX {
                None
            } else {
                directory_walk(
                    payload,
                    wide,
                    encoding,
                    (remaining - 1) as nat,
                    DirectoryWalk {
                        blocks: walk.blocks.push(block),
                        pos: next,
                        offset: (walk.offset + block.comp_size) as u64,
                        entries: (walk.entries + block.entries) as u64,
                    },
                )
            },
        }
    }
}

/// The key-block directory that `payload` holds for `count` blocks, the
/// first of which lies at `start` in the file, and the offset in the file
/// at which the last block ends. The keywords of all blocks together must
/// be as many as `entries`. Any violation is a corrupt index.
pub open spec fn key_directory(
    payload: Seq<u8>,
    wide: bool,
    encoding: MDictEncoding,
    count: u64,
    entries: u64,
    start: u64,
) -> Result<(Seq<MDictKeyBlockInfoView>, u64), MDictError> {
    match directory_walk(
        payload,
        wide,
        encoding,
        count as nat,
        DirectoryWalk { blocks: Seq::empty(), pos: 0, offset: start, entries: 0 },
    ) {
        None => Err(MDictError::CorruptIndex),
        Some(walk) => if walk.entries != entries {
            Err(MDictError::CorruptIndex)
        } else {
            Ok((walk.blocks, walk.offset))
        },
    }
}

/// The number of keywords of all blocks of a directory together.
pub open spec fn total_keywords(blocks: Seq<MDictKeyBlockInfoView>) -> int
    decreases blocks.len(),
{
    if blocks.len() == 0 {
        0
    } else {
        total_keywords(blocks.drop_last()) + blocks.last().entries
    }
}

/// A walk that counts the keywords of the blocks before it goes on
/// counting those of the blocks it reads.
pub proof fn lemma_walk_counts(
    payload: Seq<u8>,
    wide: bool,
    encoding: MDictEncoding,
    remaining: nat,
    walk: DirectoryWalk,
)
    requires
        directory_walk(payload, wide, encoding, remaining, walk) is Some,
        walk.entries == total_keywords(walk.blocks),
    ensures
        directory_walk(payload, wide, encoding, remaining, walk).unwrap().entries
            == total_keywords(directory_walk(payload, wide, encoding, remaining, walk).unwrap().blocks),
        directory_walk(payload, wide, encoding, remaining, walk).unwrap().blocks.len()
            == walk.blocks.len() + remaining,
    decreases remaining,
{
    if remaining > 0 {
        let (block, next) = directory_entry(payload, walk.pos, wide, encoding, walk.offset).unwrap();
        let further = DirectoryWalk {
            blocks: walk.blocks.push(block),
            pos: next,
            offset: (walk.offset + block.comp_size) as u64,
            entries: (walk.entries + block.entries) as u64,
        };
        assert(further.blocks.drop_last() == walk.blocks);
        lemma_walk_counts(payload, wide, encoding, (remaining - 1) as nat, further);
    }
}

/// The blocks of a directory are as many as its prelude announces, and
/// their keywords together as many as it announces.
pub proof fn lemma_directory_counts(
    payload: Seq<u8>,
    wide: bool,
    encoding: MDictEncoding,
    count: u64,
    entries: u64,
    start: u64,
)
    requires
        key_directory(payload, wide, encoding, count, entries, start) is Ok,
    ensures
        key_directory(payload, wide, encoding, count, entries, start).unwrap().0.len() == count,
        total_keywords(key_directory(payload, wide, encoding, count, entries, start).unwrap().0)
            == entries,
{
    lemma_walk_counts(
        payload,
        wide,
        encoding,
        count as nat,
        DirectoryWalk { blocks: Seq::empty(), pos: 0, offset: start, entries: 0 },
    );
}

/// Reads the keyword that stands at `pos` behind the count of its code
/// units.
fn read_directory_keyword(payload: &[u8], pos: usize, wide: bool, encoding: MDictEncoding) -> (res:
    Option<(String, usize)>)
    ensures
        match res {
            Some((text, next)) => directory_keyword(payload@, pos as int, wide, encoding) == Some(
                (text@, next as int),
            ) && next <= payload@.len(),
            None => directory_keyword(payload@, pos as int, wide, encoding) is None,
        },
{
    let total: usize = payload.len();
    let count: usize = match read_prefix(payload, pos, wide) {
        Some(c) => c as usize,
        None => { return None; },
    };
    let start: usize = if wide {
        pos + 2
    } else {
        pos + 1
    };
    let len: usize = match encoding {
        MDictEncoding::Utf16Le => count * 2,
        _ => count,
    };
    if len > total - start {
        return None;
    }
    match decode_text(encoding, vstd::slice::slice_subrange(payload, start, start + len)) {
        Some(text) => Some((text, start + len)),
        None => None,
    }
}

/// Reads the directory entry that stands at `pos`.
fn read_directory_entry(
    payload: &[u8],
    pos: usize,
    wide: bool,
    encoding: MDictEncoding,
    offset: u64,
) -> (res: Option<(MDictKeyBlockInfo, usize)>)
    ensures
        match res {
            Some((block, next)) => directory_entry(payload@, pos as int, wide, encoding, offset)
                == Some((block@, next as int)) && next <= payload@.len(),
            None => directory_entry(payload@, pos as int, wide, encoding, offset) is None,
        },
{
    let total: usize = payload.len();
    let width: usize = if wide {
        8
    } else {
        4
    };
    let entries: u64 = match read_counter(payload, pos, wide) {
        Some(n) => n,
        None => { return None; },
    };
    let (first, after_first) = match read_directory_keyword(payload, pos + width, wide, encoding) {
        Some(r) => r,
        None => { return None; },
    };
    let (last, after_last) = match read_directory_keyword(payload, after_first, wide, encoding) {
        Some(r) => r,
        None => { return None; },
    };
    if total - after_last < 2 * width {
        return None;
    }
    match (read_counter(payload, after_last, wide), read_counter(payload, after_last + width, wide)) {
        (Some(comp_size), Some(decomp_size)) => Some(
            (
                MDictKeyBlockInfo {
                    entries,
                    first_keyword: first,
                    last_keyword: last,
                    comp_size,
                    decomp_size,
                    offset,
                },
                after_last + 2 * width,
            ),
        ),
        _ => None,
    }
}

/// Reads the key-block directory that `payload` holds for `count` blocks,
/// the first of which lies at `start` in the file.
pub fn parse_key_directory(
    payload: &[u8],
    wide: bool,
    encoding: MDictEncoding,
    count: u64,
    entries: u64,
    start: u64,
) -> (res: Result<(Vec<MDictKeyBlockInfo>, u64), MDictError>)
    ensures
        match res {
            Ok((blocks, end)) => key_directory(payload@, wide, encoding, count, entries, start)
                == Ok::<(Seq<MDictKeyBlockInfoView>, u64), MDictError>(
                (key_block_views(blocks@), end),
            ),
            Err(e) => key_directory(payload@, wide, encoding, count, entries, start) == Err::<
                (Seq<MDictKeyBlockInfoView>, u64),
                MDictError,
            >(e),
        },
{
    let mut blocks: Vec<MDictKeyBlockInfo> = Vec::new();
    let mut pos: usize = 0;
    let mut offset: u64 = start;
    let mut seen: u64 = 0;
    let mut i: u64 = 0;
    assert(key_block_views(blocks@) =~= Seq::empty());
    while i < count
        invariant
            i <= count,
            pos <= payload@.len(),
            directory_walk(
                payload@,
                wide,
                encoding,
                count as nat,
                DirectoryWalk { blocks: Seq::empty(), pos: 0, offset: start, entries: 0 },
            ) == directory_walk(
                payload@,
                wide,
                encoding,
                (count - i) as nat,
                DirectoryWalk {
                    blocks: key_block_views(blocks@),
                    pos: pos as int,
                    offset: offset,
                    entries: seen,
                },
            ),
        decreases count - i,
    {
        let (block, next) = match read_directory_entry(payload, pos, wide, encoding, offset) {
            Some(r) => r,
            None => { return Err(MDictError::CorruptIndex); },
        };
        if block.comp_size > u64::MAX - offset || block.entries > u64::MAX - seen {
            return Err(MDictError::CorruptIndex);
        }
        offset = offset + block.comp_size;
        seen = seen + block.entries;
        let ghost before = key_block_views(blocks@);
        let ghost item = block@;
        blocks.push(block);
        assert(key_block_views(blocks@) =~= before.push(item));
        pos = next;
        i = i + 1;
    }
    if seen != entries {
        return Err(MDictError::CorruptIndex);
    }
    Ok((blocks, offset))
}

} // verus!
