//! The layered header of a dictionary file: the XML header, the key-block
//! directory and the record-block directory.

use vstd::prelude::*;
use crate::error::MDictError;
use crate::header::header_layer;
use crate::header::key_view;
use crate::header::parse_header;
use crate::header::MDictHeader;
use crate::header::MDictHeaderView;
use crate::header::MDictMode;
use crate::key_directory::key_block_views;
use crate::key_directory::key_directory;
use crate::key_directory::parse_key_directory;
use crate::key_directory::MDictKeyBlockInfo;
use crate::key_directory::MDictKeyBlockInfoView;
use crate::key_prelude::directory_payload;
use crate::key_prelude::key_prelude;
use crate::key_prelude::key_prelude_len;
use crate::key_prelude::parse_key_prelude;
use crate::key_prelude::read_directory_payload;
use crate::record::MDictRecordBlockIndex;
use crate::record_directory::parse_record_directory;
use crate::record_directory::record_directory;

verus! {

/// What the layered header of a file says: its configuration, where its
/// key blocks lie and where its record blocks lie.
#[derive(Clone, Debug)]
pub struct MDictLayout {
    /// The configuration of the file.
    pub header: MDictHeader,
    /// The key-block directory.
    pub key_blocks: Vec<MDictKeyBlockInfo>,
    /// The record-block directory.
    pub record_blocks: Vec<MDictRecordBlockIndex>,
}

/// A layout as contracts see it.
pub struct MDictLayoutView {
    pub header: MDictHeaderView,
    pub key_blocks: Seq<MDictKeyBlockInfoView>,
    pub record_blocks: Seq<MDictRecordBlockIndex>,
}

impl View for MDictLayout {
    type V = MDictLayoutView;

    open spec fn view(&self) -> MDictLayoutView {
        MDictLayoutView {
            header: self.header@,
            key_blocks: key_block_views(self.key_blocks@),
            record_blocks: self.record_blocks@,
        }
    }
}

/// The header `header` with the number of entries set, both among the
/// keys and among the records.
pub open spec fn with_counts(header: MDictHeaderView, entries: u64) -> MDictHeaderView {
    MDictHeaderView {
        version_major: header.version_major,
        version_minor: header.version_minor,
        encoding: header.encoding,
        key_header_encrypted: header.key_header_encrypted,
        key_index_encrypted: header.key_index_encrypted,
        encrypt_key: header.encrypt_key,
        record_count: entries,
        key_count: entries,
        title: header.title,
        description: header.description,
        creation_date: header.creation_date,
        register_by: header.register_by,
        reg_code: header.reg_code,
    }
}

/// The layout of a file, read in mode `mode` with the user's key `key`.
/// The key blocks begin where the directory buffer ends, and the record
/// directory where the last key block ends.
#[verifier::opaque]
pub open spec fn layout_of(file: Seq<u8>, mode: MDictMode, key: Option<Seq<u8>>) -> Result<
    MDictLayoutView,
    MDictError,
> {
    match header_layer(file, mode, key) {
        Err(e) => Err(e),
        Ok((header, pos)) => match key_prelude(file, pos, header.wide()) {
            Err(e) => Err(e),
            Ok(prelude) => match directory_payload(
                file,
                pos,
                header.wide(),
                header.key_header_encrypted,
                prelude,
            ) {
                Err(e) => Err(e),
                Ok(payload) => match key_directory(
                    payload,
                    header.wide(),
                    header.encoding,
                    prelude.blocks,
                    prelude.entries,
                    (pos + key_prelude_len(header.wide()) + prelude.directory_size) as u64,
                ) {
                    Err(e) => Err(e),
                    Ok((key_blocks, end)) => match record_directory(
                        file,
                        end as int,
                        header.wide(),
                        prelude.entries,
                    ) {
                        Err(e) => Err(e),
                        Ok(record_blocks) => Ok(
                            MDictLayoutView {
                                header: with_counts(header, prelude.entries),
                                key_blocks: key_blocks,
                                record_blocks: record_blocks,
                            },
                        ),
                    },
                },
            },
        },
    }
}

/// Reads the layout of a file in mode `mode`, with the user's key `key`
/// where there is one.
pub fn parse_layout(file: &[u8], mode: MDictMode, key: Option<Vec<u8>>) -> (res: Result<
    MDictLayout,
    MDictError,
>)
    ensures
        match res {
            Ok(layout) => layout_of(file@, mode, key_view(key)) == Ok::<
                MDictLayoutView,
                MDictError,
            >(layout@),
            Err(e) => layout_of(file@, mode, key_view(key)) == Err::<MDictLayoutView, MDictError>(
                e,
            ),
        },
{
    reveal(layout_of);
    let total: usize = file.len();
    let (mut header, pos) = match parse_header(file, mode, key) {
        Ok(r) => r,
        Err(e) => { return Err(e); },
    };
    let wide: bool = header.wide();
    let prelude = match parse_key_prelude(file, pos, wide) {
        Ok(p) => p,
        Err(e) => { return Err(e); },
    };
    let payload: Vec<u8> = match read_directory_payload(
        file,
        pos,
        wide,
        header.key_header_encrypted,
        &prelude,
    ) {
        Ok(p) => p,
        Err(e) => { return Err(e); },
    };
    let prelude_len: usize = if wide {
        44
    } else {
        16
    };
    let start: u64 = (pos + prelude_len) as u64 + prelude.directory_size;
    let (key_blocks, end) = match parse_key_directory(
        payload.as_slice(),
        wide,
        header.encoding,
        prelude.blocks,
        prelude.entries,
        start,
    ) {
        Ok(r) => r,
        Err(e) => { return Err(e); },
    };
    if end > total as u64 {
        return Err(MDictError::Io);
    }
    let record_blocks = match parse_record_directory(file, end as usize, wide, prelude.entries) {
        Ok(r) => r,
        Err(e) => { return Err(e); },
    };
    header.key_count = prelude.entries;
    header.record_count = prelude.entries;
    Ok(MDictLayout { header, key_blocks, record_blocks })
}

} // verus!
