//! The index of one dictionary file: its layout and, for every keyword in
//! the order of the file, the place of its record.

use vstd::prelude::*;
use vstd::utf8::encode_utf8;
use crate::error::MDictError;
use crate::header::key_view;
use crate::header::MDictMode;
use crate::key_block::key_entries;
use crate::key_block::key_entry_views;
use crate::key_block::parse_key_entries;
use crate::key_block::MDictKeyEntry;
use crate::key_block::MDictKeyEntryView;
use crate::layout::layout_of;
use crate::layout::parse_layout;
use crate::layout::MDictLayout;
use crate::layout::MDictLayoutView;
use crate::record::placed_in;
use crate::record::routable;
use crate::record::route_records;
use crate::record::routed;
use crate::record::MDictRecordIndex;

verus! {

/// The index of one dictionary file.
#[derive(Clone, Debug)]
pub struct MDictIndex {
    /// What the layered header of the file says.
    pub layout: MDictLayout,
    /// The keywords of the file with the offsets of their records, in the
    /// order of the file.
    pub entries: Vec<MDictKeyEntry>,
    /// The place of the record of each keyword.
    pub places: Vec<MDictRecordIndex>,
}

/// The index of a file as contracts see it.
pub struct MDictIndexView {
    pub layout: MDictLayoutView,
    pub entries: Seq<MDictKeyEntryView>,
    pub places: Seq<MDictRecordIndex>,
}

impl View for MDictIndex {
    type V = MDictIndexView;

    open spec fn view(&self) -> MDictIndexView {
        MDictIndexView {
            layout: self.layout@,
            entries: key_entry_views(self.entries@),
            places: self.places@,
        }
    }
}

/// The offsets of the records of a list of entries.
pub open spec fn entry_offsets(entries: Seq<MDictKeyEntryView>) -> Seq<u64> {
    Seq::new(entries.len(), |i: int| entries[i].offset)
}

/// The keywords of a list of entries, each in UTF-8.
pub open spec fn entry_keys(entries: Seq<MDictKeyEntryView>) -> Seq<Seq<u8>> {
    Seq::new(entries.len(), |i: int| encode_utf8(entries[i].keyword))
}

impl MDictIndexView {
    /// The keywords of the file, each in UTF-8, in the order of the file.
    pub open spec fn keys(self) -> Seq<Seq<u8>> {
        entry_keys(self.entries)
    }

    /// Whether every record lies inside a block of the record directory,
    /// and the header counts as many keywords as the index holds.
    pub open spec fn wf(self) -> bool {
        &&& self.places.len() == self.entries.len()
        &&& self.entries.len() == self.layout.header.key_count
        &&& forall|k: int|
            0 <= k < self.places.len() ==> placed_in(
                #[trigger] self.places[k],
                self.layout.record_blocks,
            )
    }
}

/// The index of a file read in mode `mode` with the user's key `key`. The
/// keywords must be as many as the header counts, and every record must
/// have a place; otherwise the index is corrupt.
#[verifier::opaque]
pub open spec fn index_of(file: Seq<u8>, mode: MDictMode, key: Option<Seq<u8>>) -> Result<
    MDictIndexView,
    MDictError,
> {
    match layout_of(file, mode, key) {
        Err(e) => Err(e),
        Ok(layout) => match key_entries(
            file,
            layout.key_blocks,
            layout.header.wide(),
            layout.header.encoding,
        ) {
            Err(e) => Err(e),
            Ok(entries) => if entries.len() != layout.header.key_count || !routable(
                entry_offsets(entries),
                layout.record_blocks,
            ) {
                Err(MDictError::CorruptIndex)
            } else {
                Ok(
                    MDictIndexView {
                        layout: layout,
                        entries: entries,
                        places: routed(entry_offsets(entries), layout.record_blocks),
                    },
                )
            },
        },
    }
}

/// Collects the offsets of the records of a list of entries.
fn collect_offsets(entries: &Vec<MDictKeyEntry>) -> (res: Vec<u64>)
    ensures
        res@ == entry_offsets(key_entry_views(entries@)),
{
    let mut out: Vec<u64> = Vec::new();
    let mut i: usize = 0;
    while i < entries.len()
        invariant
            i <= entries@.len(),
            out@.len() == i,
            forall|j: int| 0 <= j < i ==> out@[j] == entries@[j].offset,
        decreases entries@.len() - i,
    {
        out.push(entries[i].offset);
        i = i + 1;
    }
    out
}

impl MDictIndex {
    /// Reads the index of a file in mode `mode`, with the user's key `key`
    /// where there is one.
    pub fn new(file: &[u8], mode: MDictMode, key: Option<Vec<u8>>) -> (res: Result<
        MDictIndex,
        MDictError,
    >)
        ensures
            match res {
                Ok(index) => index_of(file@, mode, key_view(key)) == Ok::<
                    MDictIndexView,
                    MDictError,
                >(index@) && index@.wf(),
                Err(e) => index_of(file@, mode, key_view(key)) == Err::<MDictIndexView, MDictError>(
                    e,
                ),
            },
    {
        reveal(index_of);
        let layout = match parse_layout(file, mode, key) {
            Ok(l) => l,
            Err(e) => { return Err(e); },
        };
        let wide: bool = layout.header.wide();
        let entries = match parse_key_entries(
            file,
            &layout.key_blocks,
            wide,
            layout.header.encoding,
        ) {
            Ok(e) => e,
            Err(e) => { return Err(e); },
        };
        if entries.len() as u64 != layout.header.key_count {
            return Err(MDictError::CorruptIndex);
        }
        let offsets = collect_offsets(&entries);
        let places = match route_records(&offsets, &layout.record_blocks) {
            Ok(p) => p,
            Err(e) => { return Err(e); },
        };
        Ok(MDictIndex { layout, entries, places })
    }
}

} // verus!
