//! The rows of the persistent index cache.
//!
//! The cache is a small relational store beside the MDX file. It mirrors
//! the in-memory index: one table of record blocks and one table of
//! keywords for the MDX file, the same two for the MDD files, and a table
//! of metadata that records the version of the library that wrote it.
//! Integers are stored in the signed types of the store; a value above
//! the signed range is stored as the negative number with the same bits.

use vstd::prelude::*;
use vstd::string::StringSliceAdditionalSpecFns;
use vstd::utf8::decode_utf8;
use vstd::utf8::encode_utf8_decode_utf8;
use vstd::utf8::valid_utf8;
use crate::error::MDictError;
use crate::header::MDictHeader;
use crate::header::MDictHeaderView;
use crate::lookup::decode_definition;
use crate::lookup::definition_text;
use crate::lookup::extract_record;
use crate::lookup::record_bytes;
use crate::mem_index::resource_file_views;
use crate::mem_index::resources_placed;
use crate::mem_index::MDictMemIndexView;
use crate::mem_index::MDictResourceFile;
use crate::mem_index::MDictResourceFileView;
use crate::order::same_bytes;
use crate::record::placed_in;
use crate::record::MDictRecordBlockIndex;
use crate::record::MDictRecordIndex;
use crate::text::string_from_utf8;

verus! {

/// The version that a cache must record to be served.
pub const CACHE_VERSION: &'static str = "0.1.0";

/// The key of the metadata row that records the version.
pub const VERSION_KEY: &'static str = "version";

/// The statements that create the tables of an empty cache.
pub const CREATE_TABLES: &'static str =
    "CREATE TABLE meta (key TEXT PRIMARY KEY, value TEXT);
CREATE TABLE mdx_block (block_index INT PRIMARY KEY, block_offset INT, block_size INT);
CREATE TABLE mdx_index (keyword TEXT, block_index INT, record_offset INT, record_size INT);
CREATE TABLE mdd_block (file_index INT, block_index INT, block_offset INT, block_size INT, PRIMARY KEY (file_index, block_index));
CREATE TABLE mdd_index (keyword TEXT, file_index INT, block_index INT, record_offset INT, record_size INT);";

/// The statement that makes the keywords of the MDX file unique.
pub const CREATE_MDX_KEY: &'static str = "CREATE UNIQUE INDEX mdx_key ON mdx_index (keyword)";

/// The statement that makes the keys of the MDD files unique.
pub const CREATE_MDD_KEY: &'static str = "CREATE UNIQUE INDEX mdd_key ON mdd_index (keyword)";

/// The statement that records a metadata row.
pub const INSERT_META: &'static str = "insert into meta (key, value) values ( ?1, ?2)";

/// The statement that stores a row of `mdx_block`.
pub const INSERT_MDX_BLOCK: &'static str =
    "insert into mdx_block (block_index, block_offset, block_size) values ( ?1, ?2, ?3 )";

/// The statement that stores a row of `mdx_index`.
pub const INSERT_MDX_INDEX: &'static str =
    "insert into mdx_index (keyword, block_index, record_offset, record_size) values ( ?1, ?2, ?3 , ?4)";

/// The statement that stores a row of `mdd_block`.
pub const INSERT_MDD_BLOCK: &'static str =
    "insert into mdd_block (file_index, block_index, block_offset, block_size) values ( ?1, ?2, ?3, ?4 )";

/// The statement that stores a row of `mdd_index`.
pub const INSERT_MDD_INDEX: &'static str =
    "insert into mdd_index (keyword, file_index, block_index, record_offset, record_size) values ( ?1, ?2, ?3, ?4, ?5 )";

/// The query for the version that a cache records.
pub const SELECT_VERSION: &'static str = "select value from meta where key = \"version\"";

/// The query for a keyword of the MDX file, joined with its block.
pub const SELECT_WORD: &'static str =
    "select * from mdx_index natural join mdx_block where keyword = ?1";

/// The query for a key of the MDD files, joined with its block.
pub const SELECT_RESOURCE: &'static str =
    "select * from mdd_index natural join mdd_block where keyword = ?1";

/// A row of the table `mdx_block`.
#[derive(Clone, Copy, Debug, PartialEq, Eq, Structural)]
pub struct MdxBlock {
    pub block_index: i32,
    pub block_offset: i64,
    pub block_size: i64,
}

/// A row of the table `mdx_index`.
#[derive(Clone, Debug)]
pub struct MdxIndex {
    pub keyword: String,
    pub block_index: i32,
    pub record_offset: i32,
    pub record_size: i32,
}

/// A row of `mdx_index` joined with its row of `mdx_block`.
#[derive(Clone, Debug)]
pub struct MdxQuery {
    pub keyword: String,
    pub block_index: i32,
    pub record_offset: i32,
    pub record_size: i32,
    pub block_offset: i64,
    pub block_size: i64,
}

/// A row of the table `mdd_block`.
#[derive(Clone, Copy, Debug, PartialEq, Eq, Structural)]
pub struct MddBlock {
    pub file_index: i32,
    pub block_index: i32,
    pub block_offset: i64,
    pub block_size: i64,
}

/// A row of the table `mdd_index`.
#[derive(Clone, Debug)]
pub struct MddIndex {
    pub keyword: String,
    pub file_index: i32,
    pub block_index: i32,
    pub record_offset: i32,
    pub record_size: i32,
}

/// A row of `mdd_index` joined with its row of `mdd_block`.
#[derive(Clone, Debug)]
pub struct MddQuery {
    pub keyword: String,
    pub file_index: i32,
    pub block_index: i32,
    pub record_offset: i32,
    pub record_size: i32,
    pub block_offset: i64,
    pub block_size: i64,
}

/// The value that a 32-bit number is stored as.
pub open spec fn stored32(value: u32) -> i32 {
    if value <= i32::MAX {
        value as i32
    } else {
        (value - 0x1_0000_0000) as i32
    }
}

/// The value that a 64-bit number is stored as.
pub open spec fn stored64(value: u64) -> i64 {
    if value <= i64::MAX {
        value as i64
    } else {
        (value - 0x1_0000_0000_0000_0000) as i64
    }
}

/// The 32-bit number that a stored value stands for.
pub open spec fn loaded32(stored: i32) -> u32 {
    if stored >= 0 {
        stored as u32
    } else {
        (stored + 0x1_0000_0000) as u32
    }
}

/// The 64-bit number that a stored value stands for.
pub open spec fn loaded64(stored: i64) -> u64 {
    if stored >= 0 {
        stored as u64
    } else {
        (stored + 0x1_0000_0000_0000_0000) as u64
    }
}

/// The number that a position in a list is stored as: its low 32 bits.
pub open spec fn stored_position(position: int) -> i32 {
    stored32((position % 0x1_0000_0000) as u32)
}

/// What is stored is loaded unchanged, and what is loaded is stored
/// unchanged.
pub proof fn lemma_store_round_trip(narrow: u32, wide: u64, stored_narrow: i32, stored_wide: i64)
    ensures
        loaded32(stored32(narrow)) == narrow,
        loaded64(stored64(wide)) == wide,
        stored32(loaded32(stored_narrow)) == stored_narrow,
        stored64(loaded64(stored_wide)) == stored_wide,
{
}

/// Stores a 32-bit number.
pub fn store32(value: u32) -> (res: i32)
    ensures
        res == stored32(value),
{
    if value <= 0x7fff_ffff {
        value as i32
    } else {
        let below: u32 = value - 0x8000_0000;
        (below as i32) - 0x7fff_ffff - 1
    }
}

/// Loads a 32-bit number.
pub fn load32(stored: i32) -> (res: u32)
    ensures
        res == loaded32(stored),
{
    if stored >= 0 {
        stored as u32
    } else {
        let above: i32 = stored + 0x7fff_ffff + 1;
        (above as u32) + 0x8000_0000
    }
}

/// Stores a 64-bit number.
pub fn store64(value: u64) -> (res: i64)
    ensures
        res == stored64(value),
{
    if value <= 0x7fff_ffff_ffff_ffff {
        value as i64
    } else {
        let below: u64 = value - 0x8000_0000_0000_0000;
        (below as i64) - 0x7fff_ffff_ffff_ffff - 1
    }
}

/// Loads a 64-bit number.
pub fn load64(stored: i64) -> (res: u64)
    ensures
        res == loaded64(stored),
{
    if stored >= 0 {
        stored as u64
    } else {
        let above: i64 = stored + 0x7fff_ffff_ffff_ffff + 1;
        (above as u64) + 0x8000_0000_0000_0000
    }
}

/// Stores the position of an entry in a list.
pub fn store_position(position: usize) -> (res: i32)
    ensures
        res == stored_position(position as int),
{
    let low: u64 = (position as u64) % 0x1_0000_0000;
    store32(low as u32)
}

/// The row of `mdx_block` for the block at `position` of a directory.
pub open spec fn mdx_block_row(position: int, block: MDictRecordBlockIndex) -> MdxBlock {
    MdxBlock {
        block_index: stored_position(position),
        block_offset: stored64(block.offset),
        block_size: stored64(block.comp_size),
    }
}

/// The row of `mdd_block` for the block at `position` of the directory of
/// file `file`.
pub open spec fn mdd_block_row(file: int, position: int, block: MDictRecordBlockIndex) -> MddBlock {
    MddBlock {
        file_index: stored_position(file),
        block_index: stored_position(position),
        block_offset: stored64(block.offset),
        block_size: stored64(block.comp_size),
    }
}

/// The rows of `mdd_block` for the files before file `n`, in the order of
/// the files and of their blocks.
pub open spec fn mdd_block_rows_of(files: Seq<MDictResourceFileView>, n: int) -> Seq<MddBlock>
    decreases n,
{
    if n <= 0 {
        Seq::empty()
    } else {
        mdd_block_rows_of(files, n - 1) + Seq::new(
            files[n - 1].record_blocks.len(),
            |j: int| mdd_block_row(n - 1, j, files[n - 1].record_blocks[j]),
        )
    }
}

/// Makes the rows of `mdx_block` for a record directory.
pub fn mdx_block_rows(blocks: &Vec<MDictRecordBlockIndex>) -> (rows: Vec<MdxBlock>)
    ensures
        rows@.len() == blocks@.len(),
        forall|i: int| 0 <= i < rows@.len() ==> #[trigger] rows@[i] == mdx_block_row(i, blocks@[i]),
{
    let mut rows: Vec<MdxBlock> = Vec::new();
    let mut i: usize = 0;
    while i < blocks.len()
        invariant
            i <= blocks@.len(),
            rows@.len() == i,
            forall|k: int| 0 <= k < i ==> #[trigger] rows@[k] == mdx_block_row(k, blocks@[k]),
        decreases blocks@.len() - i,
    {
        rows.push(
            MdxBlock {
                block_index: store_position(i),
                block_offset: store64(blocks[i].offset),
                block_size: store64(blocks[i].comp_size),
            },
        );
        i = i + 1;
    }
    rows
}

/// Makes the rows of `mdd_block` for the record directories of the MDD
/// files.
pub fn mdd_block_rows(files: &Vec<MDictResourceFile>) -> (rows: Vec<MddBlock>)
    ensures
        rows@ == mdd_block_rows_of(resource_file_views(files@), files@.len() as int),
{
    let mut rows: Vec<MddBlock> = Vec::new();
    let mut i: usize = 0;
    while i < files.len()
        invariant
            i <= files@.len(),
            rows@ == mdd_block_rows_of(resource_file_views(files@), i as int),
        decreases files@.len() - i,
    {
        let ghost before = rows@;
        let ghost blocks = resource_file_views(files@)[i as int].record_blocks;
        let mut j: usize = 0;
        while j < files[i].record_blocks.len()
            invariant
                i < files@.len(),
                blocks == files@[i as int].record_blocks@,
                j <= blocks.len(),
                rows@.len() == before.len() + j,
                forall|k: int| 0 <= k < before.len() ==> rows@[k] == before[k],
                forall|k: int|
                    0 <= k < j ==> #[trigger] rows@[before.len() + k] == mdd_block_row(
                        i as int,
                        k,
                        blocks[k],
                    ),
            decreases blocks.len() - j,
        {
            rows.push(
                MddBlock {
                    file_index: store_position(i),
                    block_index: store_position(j),
                    block_offset: store64(files[i].record_blocks[j].offset),
                    block_size: store64(files[i].record_blocks[j].comp_size),
                },
            );
            j = j + 1;
        }
        proof {
            let added = Seq::new(blocks.len(), |k: int| mdd_block_row(i as int, k, blocks[k]));
            assert forall|k: int| 0 <= k < rows@.len() implies rows@[k] == (before + added)[k] by {
                if k >= before.len() {
                    assert(rows@[before.len() + (k - before.len())] == mdd_block_row(
                        i as int,
                        k - before.len(),
                        blocks[k - before.len()],
                    ));
                }
            }
            assert(rows@ =~= before + added);
        }
        i = i + 1;
    }
    rows
}

/// Makes the rows of `mdx_index` for the keywords of an index, as
/// `MDictMemIndex::word_entries` lists them.
pub fn mdx_index_rows(entries: &Vec<(String, MDictRecordIndex)>) -> (rows: Vec<MdxIndex>)
    ensures
        rows@.len() == entries@.len(),
        forall|i: int|
            0 <= i < rows@.len() ==> (#[trigger] rows@[i]).keyword@ == entries@[i].0@
                && rows@[i].block_index == stored32(entries@[i].1.block) && rows@[i].record_offset
                == stored32(entries@[i].1.offset) && rows@[i].record_size == stored32(
                entries@[i].1.len,
            ),
{
    let mut rows: Vec<MdxIndex> = Vec::new();
    let mut i: usize = 0;
    while i < entries.len()
        invariant
            i <= entries@.len(),
            rows@.len() == i,
            forall|k: int|
                0 <= k < i ==> (#[trigger] rows@[k]).keyword@ == entries@[k].0@
                    && rows@[k].block_index == stored32(entries@[k].1.block)
                    && rows@[k].record_offset == stored32(entries@[k].1.offset)
                    && rows@[k].record_size == stored32(entries@[k].1.len),
        decreases entries@.len() - i,
    {
        let place = entries[i].1;
        rows.push(
            MdxIndex {
                keyword: entries[i].0.clone(),
                block_index: store32(place.block),
                record_offset: store32(place.offset),
                record_size: store32(place.len),
            },
        );
        i = i + 1;
    }
    rows
}

/// Whether every key of a list of resource entries is well-formed UTF-8.
pub open spec fn keys_are_text(entries: Seq<(Vec<u8>, u8, MDictRecordIndex)>) -> bool {
    forall|i: int| 0 <= i < entries.len() ==> valid_utf8(#[trigger] entries[i].0@)
}

/// Makes the rows of `mdd_index` for the resource keys of an index, as
/// `MDictMemIndex::resource_entries` lists them. A key that is not
/// well-formed UTF-8 cannot be stored as text: the index is corrupt.
pub fn mdd_index_rows(entries: &Vec<(Vec<u8>, u8, MDictRecordIndex)>) -> (res: Result<
    Vec<MddIndex>,
    MDictError,
>)
    ensures
        match res {
            Ok(rows) => keys_are_text(entries@) && rows@.len() == entries@.len() && forall|i: int|
                0 <= i < rows@.len() ==> (#[trigger] rows@[i]).keyword@ == decode_utf8(
                    entries@[i].0@,
                ) && rows@[i].file_index == entries@[i].1 && rows@[i].block_index == stored32(
                    entries@[i].2.block,
                ) && rows@[i].record_offset == stored32(entries@[i].2.offset)
                    && rows@[i].record_size == stored32(entries@[i].2.len),
            Err(e) => e == MDictError::CorruptIndex && !keys_are_text(entries@),
        },
{
    let mut rows: Vec<MddIndex> = Vec::new();
    let mut i: usize = 0;
    while i < entries.len()
        invariant
            i <= entries@.len(),
            rows@.len() == i,
            forall|k: int| 0 <= k < i ==> valid_utf8(#[trigger] entries@[k].0@),
            forall|k: int|
                0 <= k < i ==> (#[trigger] rows@[k]).keyword@ == decode_utf8(entries@[k].0@)
                    && rows@[k].file_index == entries@[k].1 && rows@[k].block_index == stored32(
                    entries@[k].2.block,
                ) && rows@[k].record_offset == stored32(entries@[k].2.offset)
                    && rows@[k].record_size == stored32(entries@[k].2.len),
        decreases entries@.len() - i,
    {
        let place = entries[i].2;
        let keyword = match string_from_utf8(vstd::slice::slice_to_vec(entries[i].0.as_slice())) {
            Some(k) => k,
            None => {
                return Err(MDictError::CorruptIndex);
            },
        };
        rows.push(
            MddIndex {
                keyword,
                file_index: entries[i].1 as i32,
                block_index: store32(place.block),
                record_offset: store32(place.offset),
                record_size: store32(place.len),
            },
        );
        i = i + 1;
    }
    Ok(rows)
}

/// The place of the record that a joined row names, and its block in the
/// record directory `blocks`. The cache is stale, and the index corrupt,
/// where the directory has no such block, where the block does not lie
/// where the row says, and where the record leaves the block.
pub open spec fn cached_location(
    block_index: i32,
    record_offset: i32,
    record_size: i32,
    block_offset: i64,
    block_size: i64,
    blocks: Seq<MDictRecordBlockIndex>,
) -> Result<(MDictRecordIndex, MDictRecordBlockIndex), MDictError> {
    let place = MDictRecordIndex {
        block: loaded32(block_index),
        offset: loaded32(record_offset),
        len: loaded32(record_size),
    };
    if !placed_in(place, blocks) || blocks[place.block as int].offset != loaded64(block_offset)
        || blocks[place.block as int].comp_size != loaded64(block_size) {
        Err(MDictError::CorruptIndex)
    } else {
        Ok((place, blocks[place.block as int]))
    }
}

/// Finds the record that a joined row names in a record directory.
fn locate_cached(
    block_index: i32,
    record_offset: i32,
    record_size: i32,
    block_offset: i64,
    block_size: i64,
    blocks: &Vec<MDictRecordBlockIndex>,
) -> (res: Result<(MDictRecordIndex, MDictRecordBlockIndex), MDictError>)
    ensures
        res == cached_location(
            block_index,
            record_offset,
            record_size,
            block_offset,
            block_size,
            blocks@,
        ),
{
    let place = MDictRecordIndex {
        block: load32(block_index),
        offset: load32(record_offset),
        len: load32(record_size),
    };
    if place.block as usize >= blocks.len() {
        return Err(MDictError::CorruptIndex);
    }
    let block = blocks[place.block as usize];
    if place.offset as u64 + place.len as u64 > block.decomp_size || block.offset != load64(
        block_offset,
    ) || block.comp_size != load64(block_size) {
        return Err(MDictError::CorruptIndex);
    }
    Ok((place, block))
}

impl MdxQuery {
    /// The place of the keyword's record and its block in the record
    /// directory of the MDX file.
    pub fn location(&self, blocks: &Vec<MDictRecordBlockIndex>) -> (res: Result<
        (MDictRecordIndex, MDictRecordBlockIndex),
        MDictError,
    >)
        ensures
            res == cached_location(
                self.block_index,
                self.record_offset,
                self.record_size,
                self.block_offset,
                self.block_size,
                blocks@,
            ),
    {
        locate_cached(
            self.block_index,
            self.record_offset,
            self.record_size,
            self.block_offset,
            self.block_size,
            blocks,
        )
    }
}

/// The number of the file, the place of the record and the block that a
/// joined row of the MDD tables names. The index is corrupt where there
/// is no such file, and where the row contradicts the file's directory.
pub open spec fn cached_resource_location(
    file_index: i32,
    block_index: i32,
    record_offset: i32,
    record_size: i32,
    block_offset: i64,
    block_size: i64,
    files: Seq<MDictResourceFileView>,
) -> Result<(u8, MDictRecordIndex, MDictRecordBlockIndex), MDictError> {
    if file_index < 0 || file_index >= files.len() || file_index > u8::MAX {
        Err(MDictError::CorruptIndex)
    } else {
        match cached_location(
            block_index,
            record_offset,
            record_size,
            block_offset,
            block_size,
            files[file_index as int].record_blocks,
        ) {
            Err(e) => Err(e),
            Ok((place, block)) => Ok((file_index as u8, place, block)),
        }
    }
}

impl MddQuery {
    /// The number of the file that holds the resource, the place of its
    /// record and its block in the record directory of that file.
    pub fn location(&self, files: &Vec<MDictResourceFile>) -> (res: Result<
        (u8, MDictRecordIndex, MDictRecordBlockIndex),
        MDictError,
    >)
        ensures
            res == cached_resource_location(
                self.file_index,
                self.block_index,
                self.record_offset,
                self.record_size,
                self.block_offset,
                self.block_size,
                resource_file_views(files@),
            ),
    {
        if self.file_index < 0 || self.file_index > 255 || self.file_index as usize >= files.len() {
            return Err(MDictError::CorruptIndex);
        }
        let file: usize = self.file_index as usize;
        match locate_cached(
            self.block_index,
            self.record_offset,
            self.record_size,
            self.block_offset,
            self.block_size,
            &files[file].record_blocks,
        ) {
            Err(e) => Err(e),
            Ok((place, block)) => Ok((file as u8, place, block)),
        }
    }
}

/// A record that lies in a block of a directory is found again through
/// the rows that the cache stores for it: the joined row of the record and
/// of its block yields the same place and the same block.
pub proof fn lemma_cached_location_round_trip(
    place: MDictRecordIndex,
    blocks: Seq<MDictRecordBlockIndex>,
)
    requires
        placed_in(place, blocks),
    ensures
        cached_location(
            stored32(place.block),
            stored32(place.offset),
            stored32(place.len),
            mdx_block_row(place.block as int, blocks[place.block as int]).block_offset,
            mdx_block_row(place.block as int, blocks[place.block as int]).block_size,
            blocks,
        ) == Ok::<(MDictRecordIndex, MDictRecordBlockIndex), MDictError>(
            (place, blocks[place.block as int]),
        ),
        mdx_block_row(place.block as int, blocks[place.block as int]).block_index == stored32(
            place.block,
        ),
{
}

/// The definition that a joined row of the MDX tables leads to, given the
/// bytes of the record block it names.
pub open spec fn cached_word(
    block_index: i32,
    record_offset: i32,
    record_size: i32,
    block_offset: i64,
    block_size: i64,
    blocks: Seq<MDictRecordBlockIndex>,
    header: MDictHeaderView,
    block: Seq<u8>,
) -> Result<Seq<char>, MDictError> {
    match cached_location(block_index, record_offset, record_size, block_offset, block_size, blocks) {
        Err(e) => Err(e),
        Ok((place, directory)) => match record_bytes(
            block,
            directory.decomp_size as nat,
            header,
            place,
        ) {
            Err(e) => Err(e),
            Ok(record) => definition_text(record, header.encoding),
        },
    }
}

/// The resource that a joined row of the MDD tables leads to, given the
/// bytes of the record block it names.
pub open spec fn cached_resource(
    file_index: i32,
    block_index: i32,
    record_offset: i32,
    record_size: i32,
    block_offset: i64,
    block_size: i64,
    files: Seq<MDictResourceFileView>,
    block: Seq<u8>,
) -> Result<Seq<u8>, MDictError> {
    match cached_resource_location(
        file_index,
        block_index,
        record_offset,
        record_size,
        block_offset,
        block_size,
        files,
    ) {
        Err(e) => Err(e),
        Ok((file, place, directory)) => record_bytes(
            block,
            directory.decomp_size as nat,
            files[file as int].header,
            place,
        ),
    }
}

impl MdxQuery {
    /// Reads the definition that the row leads to out of the bytes
    /// `block` of the record block it names.
    pub fn read(&self, blocks: &Vec<MDictRecordBlockIndex>, header: &MDictHeader, block: &[u8]) -> (res:
        Result<String, MDictError>)
        ensures
            match res {
                Ok(text) => cached_word(
                    self.block_index,
                    self.record_offset,
                    self.record_size,
                    self.block_offset,
                    self.block_size,
                    blocks@,
                    header@,
                    block@,
                ) == Ok::<Seq<char>, MDictError>(text@),
                Err(e) => cached_word(
                    self.block_index,
                    self.record_offset,
                    self.record_size,
                    self.block_offset,
                    self.block_size,
                    blocks@,
                    header@,
                    block@,
                ) == Err::<Seq<char>, MDictError>(e),
            },
    {
        let (place, directory) = match self.location(blocks) {
            Ok(l) => l,
            Err(e) => { return Err(e); },
        };
        let record = match extract_record(block, directory.decomp_size, header, &place) {
            Ok(r) => r,
            Err(e) => { return Err(e); },
        };
        decode_definition(record.as_slice(), header.encoding)
    }
}

impl MddQuery {
    /// Reads the resource that the row leads to out of the bytes `block`
    /// of the record block it names.
    pub fn read(&self, files: &Vec<MDictResourceFile>, block: &[u8]) -> (res: Result<
        Vec<u8>,
        MDictError,
    >)
        ensures
            match res {
                Ok(data) => cached_resource(
                    self.file_index,
                    self.block_index,
                    self.record_offset,
                    self.record_size,
                    self.block_offset,
                    self.block_size,
                    resource_file_views(files@),
                    block@,
                ) == Ok::<Seq<u8>, MDictError>(data@),
                Err(e) => cached_resource(
                    self.file_index,
                    self.block_index,
                    self.record_offset,
                    self.record_size,
                    self.block_offset,
                    self.block_size,
                    resource_file_views(files@),
                    block@,
                ) == Err::<Seq<u8>, MDictError>(e),
            },
    {
        let (file, place, directory) = match self.location(files) {
            Ok(l) => l,
            Err(e) => { return Err(e); },
        };
        extract_record(block, directory.decomp_size, &files[file as usize].header, &place)
    }
}

/// A dictionary that is served from its cache returns what the index
/// built from the files returns: the rows that the cache stores for a
/// keyword or a resource key of a well-formed index lead, for any bytes of
/// the record block, to the result of the lookup in the index.
pub proof fn lemma_cache_serves_the_same(index: MDictMemIndexView, key: Seq<u8>, block: Seq<u8>)
    requires
        index.wf(),
    ensures
        index.has_word(key) ==> cached_word(
            stored32(index.words[key].1.block),
            stored32(index.words[key].1.offset),
            stored32(index.words[key].1.len),
            stored64(index.word_blocks[index.words[key].1.block as int].offset),
            stored64(index.word_blocks[index.words[key].1.block as int].comp_size),
            index.word_blocks,
            index.header,
            block,
        ) == index.word_in_block(key, block),
        index.resources.contains_key(key) ==> cached_resource(
            index.resources[key].0 as i32,
            stored32(index.resources[key].1.block),
            stored32(index.resources[key].1.offset),
            stored32(index.resources[key].1.len),
            stored64(
                index.resource_files[index.resources[key].0 as int].record_blocks[index.resources[key].1.block as int].offset,
            ),
            stored64(
                index.resource_files[index.resources[key].0 as int].record_blocks[index.resources[key].1.block as int].comp_size,
            ),
            index.resource_files,
            block,
        ) == index.resource_in_block(key, block),
{
    reveal(resources_placed);
    if index.has_word(key) {
        lemma_cached_location_round_trip(index.words[key].1, index.word_blocks);
    }
    if index.resources.contains_key(key) {
        lemma_cached_location_round_trip(
            index.resources[key].1,
            index.resource_files[index.resources[key].0 as int].record_blocks,
        );
    }
}

/// What to do with the cache that was found beside a dictionary.
#[derive(Clone, Copy, Debug, PartialEq, Eq, Structural)]
pub enum CacheAction {
    /// Open the cache read-only and serve lookups from it.
    Open,
    /// Remove what is there, build the index from the files and write a
    /// fresh cache.
    Rebuild,
}

/// What to do with a cache that records `version`, or with none where
/// there is no cache or it records no version: it is served only where
/// it records the version of this library.
pub open spec fn action_for(version: Option<Seq<char>>) -> CacheAction {
    match version {
        Some(v) => if v == CACHE_VERSION@ {
            CacheAction::Open
        } else {
            CacheAction::Rebuild
        },
        None => CacheAction::Rebuild,
    }
}

/// The view of an optional text.
pub open spec fn text_view(text: Option<&str>) -> Option<Seq<char>> {
    match text {
        Some(t) => Some(t@),
        None => None,
    }
}

/// Decides what to do with the cache found beside a dictionary, given the
/// version that it records, if it records one.
pub fn cache_action(version: Option<&str>) -> (res: CacheAction)
    ensures
        res == action_for(text_view(version)),
{
    match version {
        None => CacheAction::Rebuild,
        Some(v) => {
            proof {
                encode_utf8_decode_utf8(v@);
                encode_utf8_decode_utf8(CACHE_VERSION@);
            }
            if same_bytes(v.as_bytes(), CACHE_VERSION.as_bytes()) {
                CacheAction::Open
            } else {
                CacheAction::Rebuild
            }
        },
    }
}

} // verus!
