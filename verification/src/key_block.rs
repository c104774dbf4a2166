//! The key blocks: the keywords of a dictionary, each with the offset of
//! its record.
//!
//! The payload of a key block is a run of entries. An entry holds the
//! big-endian offset of the record among all decompressed records, then
//! the keyword and its terminator: two zero bytes at an even distance
//! from the keyword's start where the layout is wide and the text UTF-16,
//! one zero byte otherwise.

use vstd::prelude::*;
use vstd::string::StringSliceAdditionalSpecFns;
use vstd::utf8::encode_utf8;
use crate::codec::block_payload;
use crate::codec::decode_block;
use crate::error::MDictError;
use crate::key_directory::key_block_views;
use crate::key_directory::MDictKeyBlockInfo;
use crate::key_directory::MDictKeyBlockInfoView;
use crate::order::fold_ordered;
use crate::order::folded_before;
use crate::text::decode_text;
use crate::text::text_of;
use crate::text::MDictEncoding;
use crate::wire::counter_width;
use crate::wire::in_bounds;
use crate::wire::read_record_offset;
use crate::wire::record_offset_at;

verus! {

/// A keyword and the offset of its record among all decompressed records.
#[derive(Clone, Debug)]
pub struct MDictKeyEntry {
    /// The keyword.
    pub keyword: String,
    /// The offset of the record in the concatenation of all decompressed
    /// record blocks.
    pub offset: u64,
}

/// A key entry as contracts see it.
pub struct MDictKeyEntryView {
    pub keyword: Seq<char>,
    pub offset: u64,
}

impl View for MDictKeyEntry {
    type V = MDictKeyEntryView;

    open spec fn view(&self) -> MDictKeyEntryView {
        MDictKeyEntryView { keyword: self.keyword@, offset: self.offset }
    }
}

/// The entries of a list, each by its view.
pub open spec fn key_entry_views(entries: Seq<MDictKeyEntry>) -> Seq<MDictKeyEntryView> {
    Seq::new(entries.len(), |i: int| entries[i]@)
}

/// The width in bytes of the terminator of a keyword.
pub open spec fn terminator_width(wide: bool, encoding: MDictEncoding) -> int {
    if wide && encoding is Utf16Le {
        2
    } else {
        1
    }
}

/// The first position at `from`, or a multiple of `step` after it, at
/// which `step` zero bytes stand.
pub open spec fn terminator_position(payload: Seq<u8>, from: int, step: int) -> Option<int>
    decreases payload.len() - from,
{
    if from < 0 || step < 1 || from + step > payload.len() {
        None
    } else if payload[from] == 0 && (step == 1 || payload[from + 1] == 0) {
        Some(from)
    } else {
        terminator_position(payload, from + step, step)
    }
}

/// The key entry that stands at `pos`, and the position after it.
pub open spec fn key_entry(payload: Seq<u8>, pos: int, wide: bool, encoding: MDictEncoding) -> Option<
    (MDictKeyEntryView, int),
> {
    if !in_bounds(payload.len() as int, pos, counter_width(wide)) {
        None
    } else {
        let start = pos + counter_width(wide);
        match terminator_position(payload, start, terminator_width(wide, encoding)) {
            None => None,
            Some(end) => match text_of(encoding, payload.subrange(start, end)) {
                None => None,
                Some(text) => Some(
                    (
                        MDictKeyEntryView {
                            keyword: text,
                            offset: record_offset_at(payload, pos, wide) as u64,
                        },
                        end + terminator_width(wide, encoding),
                    ),
                ),
            },
        }
    }
}

/// The entries of a payload from `pos` on, behind those read before, or
/// `None` where an entry is cut short or does not decode.
pub open spec fn entries_walk(
    payload: Seq<u8>,
    wide: bool,
    encoding: MDictEncoding,
    pos: int,
    read: Seq<MDictKeyEntryView>,
) -> Option<Seq<MDictKeyEntryView>>
    decreases payload.len() - pos,
{
    if pos < 0 || pos >= payload.len() {
        Some(read)
    } else {
        match key_entry(payload, pos, wide, encoding) {
            None => None,
            Some((entry, next)) => if next <= pos || next > payload.len() {
                None
            } else {
                entries_walk(payload, wide, encoding, next, read.push(entry))
            },
        }
    }
}

/// Whether no keyword comes before the one it follows, by the bytes of
/// their UTF-8 forms after case folding.
pub open spec fn keywords_fold_sorted(entries: Seq<MDictKeyEntryView>) -> bool {
    forall|j: int|
        0 <= j < entries.len() - 1 ==> fold_ordered(
            encode_utf8(#[trigger] entries[j].keyword),
            encode_utf8(entries[j + 1].keyword),
        )
}

/// The entries of a key block that is announced to hold `expected`
/// keywords. A payload with another number of entries, or with a keyword
/// out of order, is a corrupt index.
pub open spec fn key_block_entries(
    payload: Seq<u8>,
    wide: bool,
    encoding: MDictEncoding,
    expected: u64,
) -> Result<Seq<MDictKeyEntryView>, MDictError> {
    match entries_walk(payload, wide, encoding, 0, Seq::empty()) {
        None => Err(MDictError::CorruptIndex),
        Some(entries) => if entries.len() != expected || !keywords_fold_sorted(entries) {
            Err(MDictError::CorruptIndex)
        } else {
            Ok(entries)
        },
    }
}

/// The entries of the key blocks from block `i` on, behind those read
/// before. A block that leaves the file is an I/O error; one that does not
/// decode is a corrupt block.
pub open spec fn blocks_walk(
    file: Seq<u8>,
    blocks: Seq<MDictKeyBlockInfoView>,
    wide: bool,
    encoding: MDictEncoding,
    i: int,
    read: Seq<MDictKeyEntryView>,
) -> Result<Seq<MDictKeyEntryView>, MDictError>
    decreases blocks.len() - i,
{
    if i < 0 || i >= blocks.len() {
        Ok(read)
    } else {
        let b = blocks[i];
        if !in_bounds(file.len() as int, b.offset as int, b.comp_size as int) {
            Err(MDictError::Io)
        } else {
            match block_payload(
                file.subrange(b.offset as int, b.offset + b.comp_size),
                b.decomp_size as nat,
            ) {
                None => Err(MDictError::CorruptBlock),
                Some(payload) => match key_block_entries(payload, wide, encoding, b.entries) {
                    Err(e) => Err(e),
                    Ok(entries) => blocks_walk(file, blocks, wide, encoding, i + 1, read + entries),
                },
            }
        }
    }
}

/// The key entries of a file, in the order of the file.
pub open spec fn key_entries(
    file: Seq<u8>,
    blocks: Seq<MDictKeyBlockInfoView>,
    wide: bool,
    encoding: MDictEncoding,
) -> Result<Seq<MDictKeyEntryView>, MDictError> {
    blocks_walk(file, blocks, wide, encoding, 0, Seq::empty())
}

/// Finds the terminator of the keyword that starts at `from`.
fn find_terminator(payload: &[u8], from: usize, step: usize) -> (res: Option<usize>)
    requires
        1 <= step <= 2,
    ensures
        match res {
            Some(pos) => terminator_position(payload@, from as int, step as int) == Some(
                pos as int,
            ) && from <= pos && pos + step <= payload@.len(),
            None => terminator_position(payload@, from as int, step as int) is None,
        },
{
    let total: usize = payload.len();
    let mut i: usize = from;
    while i <= total && step <= total - i
        invariant
            from <= i,
            1 <= step <= 2,
            total == payload@.len(),
            terminator_position(payload@, from as int, step as int) == terminator_position(
                payload@,
                i as int,
                step as int,
            ),
        decreases total + 2 - i,
    {
        if payload[i] == 0 && (step == 1 || payload[i + 1] == 0) {
            return Some(i);
        }
        i = i + step;
    }
    None
}

/// Reads the key entry that stands at `pos`.
fn read_key_entry(payload: &[u8], pos: usize, wide: bool, encoding: MDictEncoding) -> (res: Option<
    (MDictKeyEntry, usize),
>)
    ensures
        match res {
            Some((entry, next)) => key_entry(payload@, pos as int, wide, encoding) == Some(
                (entry@, next as int),
            ) && pos < next <= payload@.len(),
            None => key_entry(payload@, pos as int, wide, encoding) is None,
        },
{
    let total: usize = payload.len();
    let offset: u64 = match read_record_offset(payload, pos, wide) {
        Some(o) => o,
        None => { return None; },
    };
    let start: usize = if wide {
        pos + 8
    } else {
        pos + 4
    };
    let step: usize = match encoding {
        MDictEncoding::Utf16Le => if wide {
            2
        } else {
            1
        },
        _ => 1,
    };
    let end: usize = match find_terminator(payload, start, step) {
        Some(e) => e,
        None => { return None; },
    };
    match decode_text(encoding, vstd::slice::slice_subrange(payload, start, end)) {
        Some(keyword) => Some((MDictKeyEntry { keyword, offset }, end + step)),
        None => None,
    }
}

/// Tests whether no keyword comes before the one it follows once the case
/// of both is folded.
pub fn check_fold_sorted(entries: &Vec<MDictKeyEntry>) -> (res: bool)
    ensures
        res == keywords_fold_sorted(key_entry_views(entries@)),
{
    let mut j: usize = 1;
    while j < entries.len()
        invariant
            1 <= j,
            forall|k: int|
                0 <= k < j - 1 && k < entries@.len() - 1 ==> fold_ordered(
                    encode_utf8(#[trigger] key_entry_views(entries@)[k].keyword),
                    encode_utf8(key_entry_views(entries@)[k + 1].keyword),
                ),
        decreases entries@.len() - j,
    {
        let earlier = entries[j - 1].keyword.as_str().as_bytes();
        let later = entries[j].keyword.as_str().as_bytes();
        if folded_before(later, earlier) {
            assert(!fold_ordered(
                encode_utf8(key_entry_views(entries@)[j - 1].keyword),
                encode_utf8(key_entry_views(entries@)[(j - 1) + 1].keyword),
            ));
            return false;
        }
        j = j + 1;
    }
    true
}

/// Reads the entries of a key block that is announced to hold `expected`
/// keywords.
pub fn parse_key_block(payload: &[u8], wide: bool, encoding: MDictEncoding, expected: u64) -> (res:
    Result<Vec<MDictKeyEntry>, MDictError>)
    ensures
        match res {
            Ok(entries) => key_block_entries(payload@, wide, encoding, expected) == Ok::<
                Seq<MDictKeyEntryView>,
                MDictError,
            >(key_entry_views(entries@)),
            Err(e) => key_block_entries(payload@, wide, encoding, expected) == Err::<
                Seq<MDictKeyEntryView>,
                MDictError,
            >(e),
        },
{
    let mut entries: Vec<MDictKeyEntry> = Vec::new();
    let mut pos: usize = 0;
    assert(key_entry_views(entries@) =~= Seq::empty());
    while pos < payload.len()
        invariant
            entries_walk(payload@, wide, encoding, 0, Seq::empty()) == entries_walk(
                payload@,
                wide,
                encoding,
                pos as int,
                key_entry_views(entries@),
            ),
        decreases payload@.len() - pos,
    {
        let (entry, next) = match read_key_entry(payload, pos, wide, encoding) {
            Some(r) => r,
            None => { return Err(MDictError::CorruptIndex); },
        };
        let ghost before = key_entry_views(entries@);
        let ghost item = entry@;
        entries.push(entry);
        assert(key_entry_views(entries@) =~= before.push(item));
        pos = next;
    }
    if entries.len() as u64 != expected || !check_fold_sorted(&entries) {
        return Err(MDictError::CorruptIndex);
    }
    Ok(entries)
}

/// Reads the key entries of a file, in the order of the file.
pub fn parse_key_entries(
    file: &[u8],
    blocks: &Vec<MDictKeyBlockInfo>,
    wide: bool,
    encoding: MDictEncoding,
) -> (res: Result<Vec<MDictKeyEntry>, MDictError>)
    ensures
        match res {
            Ok(entries) => key_entries(file@, key_block_views(blocks@), wide, encoding) == Ok::<
                Seq<MDictKeyEntryView>,
                MDictError,
            >(key_entry_views(entries@)),
            Err(e) => key_entries(file@, key_block_views(blocks@), wide, encoding) == Err::<
                Seq<MDictKeyEntryView>,
                MDictError,
            >(e),
        },
{
    let total: usize = file.len();
    let mut entries: Vec<MDictKeyEntry> = Vec::new();
    let mut i: usize = 0;
    assert(key_entry_views(entries@) =~= Seq::empty());
    while i < blocks.len()
        invariant
            total == file@.len(),
            key_entries(file@, key_block_views(blocks@), wide, encoding) == blocks_walk(
                file@,
                key_block_views(blocks@),
                wide,
                encoding,
                i as int,
                key_entry_views(entries@),
            ),
        decreases blocks@.len() - i,
    {
        let offset: u64 = blocks[i].offset;
        let comp_size: u64 = blocks[i].comp_size;
        let decomp_size: u64 = blocks[i].decomp_size;
        let expected: u64 = blocks[i].entries;
        if offset > total as u64 || comp_size > total as u64 - offset {
            return Err(MDictError::Io);
        }
        let from: usize = offset as usize;
        let block = vstd::slice::slice_subrange(file, from, from + comp_size as usize);
        let payload: Vec<u8> = match decode_block(block, decomp_size) {
            Ok(p) => p,
            Err(e) => { return Err(e); },
        };
        let mut found: Vec<MDictKeyEntry> = match parse_key_block(
            payload.as_slice(),
            wide,
            encoding,
            expected,
        ) {
            Ok(f) => f,
            Err(e) => { return Err(e); },
        };
        let ghost before = key_entry_views(entries@);
        let ghost more = key_entry_views(found@);
        entries.append(&mut found);
        assert(key_entry_views(entries@) =~= before + more);
        i = i + 1;
    }
    Ok(entries)
}

} // verus!
