//! The in-memory index of a dictionary: the keywords of its MDX file and
//! the resource keys of its MDD files, each with the place of its record.

use vstd::prelude::*;
use vstd::string::StringSliceAdditionalSpecFns;
use vstd::utf8::decode_utf8_encode_utf8;
use vstd::utf8::encode_utf8;
use vstd::utf8::encode_utf8_valid_utf8;
use vstd::utf8::valid_utf8;
use crate::error::MDictError;
use crate::header::key_view;
use crate::header::MDictHeader;
use crate::header::MDictHeaderView;
use crate::header::MDictMode;
use crate::index::entry_keys;
use crate::index::index_of;
use crate::index::MDictIndex;
use crate::index::MDictIndexView;
use crate::key_block::key_entry_views;
use crate::key_block::MDictKeyEntry;
use crate::keymap::empty_entries;
use crate::keymap::key_views;
use crate::keymap::map_entries;
use crate::keymap::map_get;
use crate::keymap::map_insert;
use crate::keymap::map_keys;
use crate::keymap::map_new;
use crate::keymap::Located;
use crate::lookup::decode_definition;
use crate::lookup::definition_text;
use crate::lookup::extract_record;
use crate::lookup::lookup;
use crate::lookup::record_bytes;
use crate::lookup::record_in_file;
use crate::order::lemma_ascending_is_distinct;
use crate::order::strictly_ascending;
use crate::record::placed_in;
use crate::record::MDictRecordBlockIndex;
use crate::record::MDictRecordIndex;
use crate::resource_key::free_of_backslash;
use crate::resource_key::lemma_resource_key_shape;
use crate::resource_key::BACKSLASH;
use crate::resource_key::normalise_resource_key;
use crate::resource_key::resource_key;
use crate::text::string_from_utf8;
use patricia_tree::PatriciaMap;

verus! {

/// The most resource files that one dictionary can have: a record names
/// its file by one byte.
pub const MAX_RESOURCE_FILES: usize = 256;

/// What the index keeps of one MDD file.
#[derive(Clone, Debug)]
pub struct MDictResourceFile {
    /// The configuration of the file.
    pub header: MDictHeader,
    /// The record directory of the file.
    pub record_blocks: Vec<MDictRecordBlockIndex>,
}

/// What the index keeps of one MDD file, as contracts see it.
pub struct MDictResourceFileView {
    pub header: MDictHeaderView,
    pub record_blocks: Seq<MDictRecordBlockIndex>,
}

impl View for MDictResourceFile {
    type V = MDictResourceFileView;

    open spec fn view(&self) -> MDictResourceFileView {
        MDictResourceFileView { header: self.header@, record_blocks: self.record_blocks@ }
    }
}

/// The in-memory index of a dictionary.
pub struct MDictMemIndex {
    mdx_index: PatriciaMap<Located>,
    mdx_block: Vec<MDictRecordBlockIndex>,
    mdd_index: PatriciaMap<Located>,
    mdd_files: Vec<MDictResourceFile>,
    header: MDictHeader,
}

/// An in-memory index as contracts see it.
pub struct MDictMemIndexView {
    /// The keywords, in UTF-8, with the places of their records.
    pub words: Map<Seq<u8>, Located>,
    /// The record directory of the MDX file.
    pub word_blocks: Seq<MDictRecordBlockIndex>,
    /// The resource keys with the files and places of their records.
    pub resources: Map<Seq<u8>, Located>,
    /// The configurations and record directories of the MDD files.
    pub resource_files: Seq<MDictResourceFileView>,
    /// The configuration of the MDX file.
    pub header: MDictHeaderView,
}

/// The entries of a list of resource files, each by its view.
pub open spec fn resource_file_views(files: Seq<MDictResourceFile>) -> Seq<MDictResourceFileView> {
    Seq::new(files.len(), |i: int| files[i]@)
}

/// The contents of a list of files, each by its view.
pub open spec fn file_views(files: Seq<Vec<u8>>) -> Seq<Seq<u8>> {
    Seq::new(files.len(), |i: int| files[i]@)
}

/// The map `base` after the first `n` keywords were inserted in order,
/// each with the place of its record in file zero. A keyword that occurs
/// again takes the place of the earlier one.
pub open spec fn with_words(
    base: Map<Seq<u8>, Located>,
    keys: Seq<Seq<u8>>,
    places: Seq<MDictRecordIndex>,
    n: int,
) -> Map<Seq<u8>, Located>
    decreases n,
{
    if n <= 0 {
        base
    } else {
        with_words(base, keys, places, n - 1).insert(keys[n - 1], (0u8, places[n - 1]))
    }
}

/// Whether every stored path begins with a backslash.
pub open spec fn paths_rooted(paths: Seq<Seq<u8>>) -> bool {
    forall|i: int| 0 <= i < paths.len() ==> (#[trigger] resource_key(paths[i])) is Some
}

/// The map `base` after the keys of the first `n` stored paths of file
/// `file` were inserted in order, each with the place of its record.
pub open spec fn with_resources(
    base: Map<Seq<u8>, Located>,
    paths: Seq<Seq<u8>>,
    places: Seq<MDictRecordIndex>,
    file: u8,
    n: int,
) -> Map<Seq<u8>, Located>
    decreases n,
{
    if n <= 0 {
        base
    } else {
        with_resources(base, paths, places, file, n - 1).insert(
            resource_key(paths[n - 1]).unwrap(),
            (file, places[n - 1]),
        )
    }
}

/// The resource keys and the list of files after the file `file`, the
/// `number`-th of its dictionary, was added to those of the files before.
/// A stored path that does not begin with a backslash is a corrupt index.
#[verifier::opaque]
pub open spec fn resources_step(
    file: Seq<u8>,
    key: Option<Seq<u8>>,
    number: u8,
    resources: Map<Seq<u8>, Located>,
    known: Seq<MDictResourceFileView>,
) -> Result<(Map<Seq<u8>, Located>, Seq<MDictResourceFileView>), MDictError> {
    match index_of(file, MDictMode::Mdd, key) {
        Err(e) => Err(e),
        Ok(index) => if !paths_rooted(index.keys()) {
            Err(MDictError::CorruptIndex)
        } else {
            Ok(
                (
                    with_resources(
                        resources,
                        index.keys(),
                        index.places,
                        number,
                        index.keys().len() as int,
                    ),
                    known.push(
                        MDictResourceFileView {
                            header: index.layout.header,
                            record_blocks: index.layout.record_blocks,
                        },
                    ),
                ),
            )
        },
    }
}

/// The resource keys and the list of files from file `i` on, added to
/// those of the files before.
pub open spec fn resources_walk(
    files: Seq<Seq<u8>>,
    key: Option<Seq<u8>>,
    i: int,
    resources: Map<Seq<u8>, Located>,
    known: Seq<MDictResourceFileView>,
) -> Result<(Map<Seq<u8>, Located>, Seq<MDictResourceFileView>), MDictError>
    decreases files.len() - i,
{
    if i < 0 || i >= files.len() {
        Ok((resources, known))
    } else {
        match resources_step(files[i], key, i as u8, resources, known) {
            Err(e) => Err(e),
            Ok((more, lists)) => resources_walk(files, key, i + 1, more, lists),
        }
    }
}

/// Whether every keyword is well-formed UTF-8 and names a record of file
/// zero that lies inside one of the blocks of `blocks`.
pub open spec fn words_placed(
    words: Map<Seq<u8>, Located>,
    blocks: Seq<MDictRecordBlockIndex>,
) -> bool {
    forall|k: Seq<u8>| #[trigger]
        words.contains_key(k) ==> valid_utf8(k) && words[k].0 == 0 && placed_in(words[k].1, blocks)
}

/// Whether every resource key is free of backslashes and names a record
/// of one of the files that lies inside one of that file's blocks.
#[verifier::opaque]
pub open spec fn resources_placed(
    resources: Map<Seq<u8>, Located>,
    files: Seq<MDictResourceFileView>,
) -> bool {
    forall|k: Seq<u8>| #[trigger]
        resources.contains_key(k) ==> free_of_backslash(k) && resources[k].0 < files.len()
            && placed_in(resources[k].1, files[resources[k].0 as int].record_blocks)
}

/// The index of the dictionary whose MDX file holds `mdx` and whose MDD
/// files hold `mdds`, in their order, read with the user's key `key`.
/// More resource files than a record can name are an invalid input.
pub open spec fn dictionary_of(mdx: Seq<u8>, mdds: Seq<Seq<u8>>, key: Option<Seq<u8>>) -> Result<
    MDictMemIndexView,
    MDictError,
> {
    if mdds.len() > MAX_RESOURCE_FILES {
        Err(MDictError::InvalidInput)
    } else {
        match index_of(mdx, MDictMode::Mdx, key) {
            Err(e) => Err(e),
            Ok(index) => match resources_walk(mdds, key, 0, empty_entries(), Seq::empty()) {
                Err(e) => Err(e),
                Ok((resources, files)) => Ok(
                    MDictMemIndexView {
                        words: with_words(
                            empty_entries(),
                            index.keys(),
                            index.places,
                            index.keys().len() as int,
                        ),
                        word_blocks: index.layout.record_blocks,
                        resources: resources,
                        resource_files: files,
                        header: index.layout.header,
                    },
                ),
            },
        }
    }
}

impl MDictMemIndexView {
    /// Whether every keyword is well-formed UTF-8 and names a record of
    /// the MDX file that lies inside one of its blocks, and every
    /// resource key is free of backslashes and names a record of one of
    /// the MDD files that lies inside one of that file's blocks.
    pub open spec fn wf(self) -> bool {
        words_placed(self.words, self.word_blocks) && resources_placed(
            self.resources,
            self.resource_files,
        )
    }

    /// Whether the index holds the keyword `key`.
    pub open spec fn has_word(self, key: Seq<u8>) -> bool {
        self.words.contains_key(key)
    }

    /// The definition of `key` in the MDX file `file`: not found where the
    /// index does not hold the keyword; otherwise the record is read at
    /// its place and decoded.
    pub open spec fn word(self, key: Seq<u8>, file: Seq<u8>) -> Result<Seq<char>, MDictError> {
        if !self.words.contains_key(key) {
            Err(MDictError::NotFound)
        } else {
            let place = self.words[key].1;
            match record_in_file(file, self.word_blocks[place.block as int], self.header, place) {
                Err(e) => Err(e),
                Ok(record) => definition_text(record, self.header.encoding),
            }
        }
    }

    /// The definition of `key`, given the bytes `block` of its record
    /// block.
    pub open spec fn word_in_block(self, key: Seq<u8>, block: Seq<u8>) -> Result<
        Seq<char>,
        MDictError,
    > {
        if !self.words.contains_key(key) {
            Err(MDictError::NotFound)
        } else {
            let place = self.words[key].1;
            match record_bytes(
                block,
                self.word_blocks[place.block as int].decomp_size as nat,
                self.header,
                place,
            ) {
                Err(e) => Err(e),
                Ok(record) => definition_text(record, self.header.encoding),
            }
        }
    }

    /// The resource `key` in the MDD files `files`: not found where the
    /// index does not hold the key; an I/O error where the file of the
    /// record is not among `files`; otherwise the record as it lies at
    /// its place.
    pub open spec fn resource(self, key: Seq<u8>, files: Seq<Seq<u8>>) -> Result<
        Seq<u8>,
        MDictError,
    > {
        if !self.resources.contains_key(key) {
            Err(MDictError::NotFound)
        } else {
            let file = self.resources[key].0 as int;
            let place = self.resources[key].1;
            if file >= files.len() {
                Err(MDictError::Io)
            } else {
                record_in_file(
                    files[file],
                    self.resource_files[file].record_blocks[place.block as int],
                    self.resource_files[file].header,
                    place,
                )
            }
        }
    }

    /// The resource `key`, given the bytes `block` of its record block.
    pub open spec fn resource_in_block(self, key: Seq<u8>, block: Seq<u8>) -> Result<
        Seq<u8>,
        MDictError,
    > {
        if !self.resources.contains_key(key) {
            Err(MDictError::NotFound)
        } else {
            let file = self.resources[key].0 as int;
            let place = self.resources[key].1;
            record_bytes(
                block,
                self.resource_files[file].record_blocks[place.block as int].decomp_size as nat,
                self.resource_files[file].header,
                place,
            )
        }
    }
}

/// A lookup reports a key as not found exactly where the index does not
/// hold it, whatever the files hold: the definition of a keyword that the
/// index lists is found, though its record may fail to read or decode.
pub proof fn lemma_found_iff_held(
    index: MDictMemIndexView,
    key: Seq<u8>,
    file: Seq<u8>,
    files: Seq<Seq<u8>>,
    block: Seq<u8>,
)
    ensures
        index.has_word(key) <==> index.word(key, file) != Err::<Seq<char>, MDictError>(
            MDictError::NotFound,
        ),
        index.has_word(key) <==> index.word_in_block(key, block) != Err::<Seq<char>, MDictError>(
            MDictError::NotFound,
        ),
        index.resources.contains_key(key) <==> index.resource(key, files) != Err::<
            Seq<u8>,
            MDictError,
        >(MDictError::NotFound),
        index.resources.contains_key(key) <==> index.resource_in_block(key, block) != Err::<
            Seq<u8>,
            MDictError,
        >(MDictError::NotFound),
{
}

/// The keys of the map after the first `n` keywords were inserted are the
/// keys it had before and those keywords.
pub proof fn lemma_with_words_domain(
    base: Map<Seq<u8>, Located>,
    keys: Seq<Seq<u8>>,
    places: Seq<MDictRecordIndex>,
    n: int,
)
    requires
        0 <= n <= keys.len(),
    ensures
        forall|k: Seq<u8>| #[trigger]
            with_words(base, keys, places, n).contains_key(k) <==> base.contains_key(k) || exists|
                i: int,
            |
                0 <= i < n && #[trigger] keys[i] == k,
    decreases n,
{
    if n > 0 {
        lemma_with_words_domain(base, keys, places, n - 1);
        let before = with_words(base, keys, places, n - 1);
        assert(with_words(base, keys, places, n) == before.insert(keys[n - 1], (0u8, places[n - 1])));
        assert forall|k: Seq<u8>| #[trigger]
            with_words(base, keys, places, n).contains_key(k) <==> base.contains_key(k) || exists|
                i: int,
            |
                0 <= i < n && #[trigger] keys[i] == k by {
            if k == keys[n - 1] {
                assert(keys[n - 1] == k);
            } else if before.contains_key(k) && !base.contains_key(k) {
                let i = choose|i: int| 0 <= i < n - 1 && #[trigger] keys[i] == k;
                assert(0 <= i < n && keys[i] == k);
            }
        }
    }
}

/// Where no keyword occurs twice, the map holds as many keys as keywords
/// were inserted.
pub proof fn lemma_distinct_keywords_counted(
    keys: Seq<Seq<u8>>,
    places: Seq<MDictRecordIndex>,
    n: int,
)
    requires
        0 <= n <= keys.len(),
        keys.no_duplicates(),
    ensures
        with_words(empty_entries(), keys, places, n).dom().finite(),
        with_words(empty_entries(), keys, places, n).dom().len() == n,
    decreases n,
{
    if n > 0 {
        lemma_distinct_keywords_counted(keys, places, n - 1);
        lemma_with_words_domain(empty_entries(), keys, places, n - 1);
        let before = with_words(empty_entries(), keys, places, n - 1);
        if before.contains_key(keys[n - 1]) {
            assert(!empty_entries().contains_key(keys[n - 1]));
            let i = choose|i: int| 0 <= i < n - 1 && #[trigger] keys[i] == keys[n - 1];
            assert(keys[i] != keys[n - 1]);
        }
        assert(with_words(empty_entries(), keys, places, n) == before.insert(
            keys[n - 1],
            (0u8, places[n - 1]),
        ));
        assert(with_words(empty_entries(), keys, places, n).dom() =~= before.dom().insert(
            keys[n - 1],
        ));
    } else {
        assert(with_words(empty_entries(), keys, places, n).dom() =~= Set::<Seq<u8>>::empty());
    }
}

/// The index of a dictionary whose MDX file holds no keyword twice lists
/// as many keywords as the header of the file counts. A file that holds
/// `apple` twice is left out: its index lists the keyword once.
pub proof fn lemma_keyword_count(mdx: Seq<u8>, mdds: Seq<Seq<u8>>, key: Option<Seq<u8>>)
    requires
        dictionary_of(mdx, mdds, key) is Ok,
        index_of(mdx, MDictMode::Mdx, key).unwrap().keys().no_duplicates(),
    ensures
        dictionary_of(mdx, mdds, key).unwrap().words.dom().finite(),
        dictionary_of(mdx, mdds, key).unwrap().words.dom().len() == dictionary_of(
            mdx,
            mdds,
            key,
        ).unwrap().header.key_count,
{
    reveal(index_of);
    let index = index_of(mdx, MDictMode::Mdx, key).unwrap();
    lemma_distinct_keywords_counted(index.keys(), index.places, index.keys().len() as int);
}

/// The keys of the map after the keys of the first `n` stored paths were
/// inserted are free of backslashes, but for those it had before.
pub proof fn lemma_with_resources_keys(
    base: Map<Seq<u8>, Located>,
    paths: Seq<Seq<u8>>,
    places: Seq<MDictRecordIndex>,
    file: u8,
    n: int,
)
    requires
        0 <= n <= paths.len(),
        paths_rooted(paths),
    ensures
        forall|k: Seq<u8>| #[trigger]
            with_resources(base, paths, places, file, n).contains_key(k) ==> base.contains_key(k)
                || free_of_backslash(k),
    decreases n,
{
    if n > 0 {
        lemma_with_resources_keys(base, paths, places, file, n - 1);
        assert(resource_key(paths[n - 1]) is Some);
        lemma_resource_key_shape(paths[n - 1]);
        let before = with_resources(base, paths, places, file, n - 1);
        let added = resource_key(paths[n - 1]).unwrap();
        assert(with_resources(base, paths, places, file, n) == before.insert(
            added,
            (file, places[n - 1]),
        ));
        assert forall|k: Seq<u8>| #[trigger]
            with_resources(base, paths, places, file, n).contains_key(k) implies base.contains_key(
            k,
        ) || free_of_backslash(k) by {
            if k != added {
                assert(before.contains_key(k));
            }
        }
    }
}

/// No resource key that the files from file `i` on add holds a backslash.
pub proof fn lemma_resources_walk_keys(
    files: Seq<Seq<u8>>,
    key: Option<Seq<u8>>,
    i: int,
    resources: Map<Seq<u8>, Located>,
    known: Seq<MDictResourceFileView>,
)
    requires
        0 <= i,
        resources_walk(files, key, i, resources, known) is Ok,
        forall|k: Seq<u8>| #[trigger] resources.contains_key(k) ==> free_of_backslash(k),
    ensures
        forall|k: Seq<u8>| #[trigger]
            resources_walk(files, key, i, resources, known).unwrap().0.contains_key(k)
                ==> free_of_backslash(k),
    decreases files.len() - i,
{
    if i < files.len() {
        reveal(resources_step);
        let index = index_of(files[i], MDictMode::Mdd, key).unwrap();
        let n = index.keys().len() as int;
        lemma_with_resources_keys(resources, index.keys(), index.places, i as u8, n);
        let step = resources_step(files[i], key, i as u8, resources, known).unwrap();
        lemma_resources_walk_keys(files, key, i + 1, step.0, step.1);
    }
}

/// No resource key of a dictionary holds a backslash, and so none begins
/// with one.
pub proof fn lemma_resource_keys_plain(mdx: Seq<u8>, mdds: Seq<Seq<u8>>, key: Option<Seq<u8>>)
    requires
        dictionary_of(mdx, mdds, key) is Ok,
    ensures
        forall|k: Seq<u8>| #[trigger]
            dictionary_of(mdx, mdds, key).unwrap().resources.contains_key(k) ==> free_of_backslash(
                k,
            ) && (k.len() > 0 ==> k[0] != BACKSLASH),
{
    lemma_resources_walk_keys(mdds, key, 0, empty_entries(), Seq::empty());
}

/// What every index of a dictionary offers: the test for a keyword, the
/// definition of a keyword and the bytes of a resource. The files are
/// handed in by their contents.
pub trait MDictLookup {
    /// Tests whether the index holds the keyword `key`.
    fn word_exists(&self, key: &str) -> bool;

    /// Looks up the definition of `key` in the contents `mdx` of the MDX
    /// file.
    fn lookup_word(&self, key: &str, mdx: &[u8]) -> Result<String, MDictError>;

    /// Looks up the resource `key` in the contents `mdds` of the MDD
    /// files, given in their order.
    fn lookup_resource(&self, key: &str, mdds: &Vec<Vec<u8>>) -> Result<Vec<u8>, MDictError>;
}

/// The texts of a list of strings, each in UTF-8.
pub open spec fn string_keys(words: Seq<String>) -> Seq<Seq<u8>> {
    Seq::new(words.len(), |i: int| encode_utf8(words[i]@))
}

/// The keywords of a list of entries, each in UTF-8.
pub open spec fn word_keys(entries: Seq<(String, MDictRecordIndex)>) -> Seq<Seq<u8>> {
    Seq::new(entries.len(), |i: int| encode_utf8(entries[i].0@))
}

/// The keys of a list of resource entries.
pub open spec fn resource_keys(entries: Seq<(Vec<u8>, u8, MDictRecordIndex)>) -> Seq<Seq<u8>> {
    Seq::new(entries.len(), |i: int| entries[i].0@)
}

/// Copies an optional key.
pub fn copy_key(key: &Option<Vec<u8>>) -> (res: Option<Vec<u8>>)
    ensures
        key_view(res) == key_view(*key),
{
    match key {
        Some(k) => Some(vstd::slice::slice_to_vec(k.as_slice())),
        None => None,
    }
}

/// Inserts every keyword of an MDX file with the place of its record.
fn insert_words(
    map: &mut PatriciaMap<Located>,
    entries: &Vec<MDictKeyEntry>,
    places: &Vec<MDictRecordIndex>,
    directory: &Vec<MDictRecordBlockIndex>,
)
    requires
        places@.len() == entries@.len(),
        forall|k: int| 0 <= k < places@.len() ==> placed_in(#[trigger] places@[k], directory@),
    ensures
        map_entries(*final(map)) == with_words(
            map_entries(*old(map)),
            entry_keys(key_entry_views(entries@)),
            places@,
            entries@.len() as int,
        ),
        forall|k: Seq<u8>| #[trigger]
            map_entries(*final(map)).contains_key(k) ==> (map_entries(*old(map)).contains_key(k)
                && map_entries(*final(map))[k] == map_entries(*old(map))[k]) || (valid_utf8(k)
                && map_entries(*final(map))[k].0 == 0 && placed_in(
                map_entries(*final(map))[k].1,
                directory@,
            )),
{
    let ghost keys = entry_keys(key_entry_views(entries@));
    let mut i: usize = 0;
    while i < entries.len()
        invariant
            i <= entries@.len(),
            places@.len() == entries@.len(),
            keys == entry_keys(key_entry_views(entries@)),
            forall|k: int| 0 <= k < places@.len() ==> placed_in(#[trigger] places@[k], directory@),
            map_entries(*map) == with_words(map_entries(*old(map)), keys, places@, i as int),
            forall|k: Seq<u8>| #[trigger]
                map_entries(*map).contains_key(k) ==> (map_entries(*old(map)).contains_key(k)
                    && map_entries(*map)[k] == map_entries(*old(map))[k]) || (valid_utf8(k)
                    && map_entries(*map)[k].0 == 0 && placed_in(map_entries(*map)[k].1, directory@)),
        decreases entries@.len() - i,
    {
        let word = entries[i].keyword.as_str().as_bytes();
        proof {
            encode_utf8_valid_utf8(entries@[i as int].keyword@);
        }
        map_insert(map, word, (0u8, places[i]));
        i = i + 1;
    }
}

/// Inserts the key of every stored path of an MDD file with the place of
/// its record, up to the first path that does not begin with a backslash.
/// Returns whether every path begins with one.
fn insert_resources(
    map: &mut PatriciaMap<Located>,
    entries: &Vec<MDictKeyEntry>,
    places: &Vec<MDictRecordIndex>,
    file: u8,
    directory: &Vec<MDictRecordBlockIndex>,
) -> (rooted: bool)
    requires
        places@.len() == entries@.len(),
        forall|k: int| 0 <= k < places@.len() ==> placed_in(#[trigger] places@[k], directory@),
    ensures
        rooted == paths_rooted(entry_keys(key_entry_views(entries@))),
        rooted ==> map_entries(*final(map)) == with_resources(
            map_entries(*old(map)),
            entry_keys(key_entry_views(entries@)),
            places@,
            file,
            entries@.len() as int,
        ),
        forall|k: Seq<u8>| #[trigger]
            map_entries(*final(map)).contains_key(k) ==> (map_entries(*old(map)).contains_key(k)
                && map_entries(*final(map))[k] == map_entries(*old(map))[k]) || (free_of_backslash(
                k,
            ) && map_entries(*final(map))[k].0 == file && placed_in(
                map_entries(*final(map))[k].1,
                directory@,
            )),
{
    let ghost paths = entry_keys(key_entry_views(entries@));
    let mut j: usize = 0;
    while j < entries.len()
        invariant
            j <= entries@.len(),
            places@.len() == entries@.len(),
            paths == entry_keys(key_entry_views(entries@)),
            forall|k: int| 0 <= k < places@.len() ==> placed_in(#[trigger] places@[k], directory@),
            forall|k: int| 0 <= k < j ==> (#[trigger] resource_key(paths[k])) is Some,
            map_entries(*map) == with_resources(map_entries(*old(map)), paths, places@, file, j as int),
            forall|k: Seq<u8>| #[trigger]
                map_entries(*map).contains_key(k) ==> (map_entries(*old(map)).contains_key(k)
                    && map_entries(*map)[k] == map_entries(*old(map))[k]) || (free_of_backslash(k)
                    && map_entries(*map)[k].0 == file && placed_in(
                    map_entries(*map)[k].1,
                    directory@,
                )),
        decreases entries@.len() - j,
    {
        let path = entries[j].keyword.as_str().as_bytes();
        assert(path@ == paths[j as int]);
        let resource = match normalise_resource_key(path) {
            Some(r) => r,
            None => {
                return false;
            },
        };
        map_insert(map, resource.as_slice(), (file, places[j]));
        j = j + 1;
    }
    true
}

/// Adds the resource keys, the configuration and the record directory of
/// one more MDD file, given by its contents.
fn add_resource_file(
    map: &mut PatriciaMap<Located>,
    known: &mut Vec<MDictResourceFile>,
    file: &[u8],
    key: Option<Vec<u8>>,
) -> (res: Result<(), MDictError>)
    requires
        old(known)@.len() < MAX_RESOURCE_FILES,
        resources_placed(map_entries(*old(map)), resource_file_views(old(known)@)),
    ensures
        match res {
            Ok(_) => resources_step(
                file@,
                key_view(key),
                old(known)@.len() as u8,
                map_entries(*old(map)),
                resource_file_views(old(known)@),
            ) == Ok::<(Map<Seq<u8>, Located>, Seq<MDictResourceFileView>), MDictError>(
                (map_entries(*final(map)), resource_file_views(final(known)@)),
            ) && resources_placed(map_entries(*final(map)), resource_file_views(final(known)@))
                && final(known)@.len() == old(known)@.len() + 1,
            Err(e) => resources_step(
                file@,
                key_view(key),
                old(known)@.len() as u8,
                map_entries(*old(map)),
                resource_file_views(old(known)@),
            ) == Err::<(Map<Seq<u8>, Located>, Seq<MDictResourceFileView>), MDictError>(e),
        },
{
    reveal(resources_step);
    reveal(resources_placed);
    let parsed = match MDictIndex::new(file, MDictMode::Mdd, key) {
        Ok(p) => p,
        Err(e) => { return Err(e); },
    };
    let ghost before = resource_file_views(known@);
    let number: u8 = known.len() as u8;
    let MDictIndex { layout, entries, places } = parsed;
    if !insert_resources(map, &entries, &places, number, &layout.record_blocks) {
        return Err(MDictError::CorruptIndex);
    }
    let added = MDictResourceFile { header: layout.header, record_blocks: layout.record_blocks };
    let ghost added_view = added@;
    known.push(added);
    assert(resource_file_views(known@) =~= before.push(added_view));
    Ok(())
}

impl View for MDictMemIndex {
    type V = MDictMemIndexView;

    closed spec fn view(&self) -> MDictMemIndexView {
        MDictMemIndexView {
            words: map_entries(self.mdx_index),
            word_blocks: self.mdx_block@,
            resources: map_entries(self.mdd_index),
            resource_files: resource_file_views(self.mdd_files@),
            header: self.header@,
        }
    }
}

impl MDictMemIndex {
    #[verifier::type_invariant]
    spec fn inv(self) -> bool {
        self@.wf()
    }

    /// Builds the index of a dictionary from the contents of its MDX file
    /// and of its MDD files, in their order, with the user's key where
    /// there is one.
    pub fn new(mdx: &[u8], mdds: &Vec<Vec<u8>>, key: Option<Vec<u8>>) -> (res: Result<
        MDictMemIndex,
        MDictError,
    >)
        ensures
            match res {
                Ok(index) => dictionary_of(mdx@, file_views(mdds@), key_view(key)) == Ok::<
                    MDictMemIndexView,
                    MDictError,
                >(index@) && index@.wf(),
                Err(e) => dictionary_of(mdx@, file_views(mdds@), key_view(key)) == Err::<
                    MDictMemIndexView,
                    MDictError,
                >(e),
            },
    {
        if mdds.len() > MAX_RESOURCE_FILES {
            return Err(MDictError::InvalidInput);
        }
        let mdx_parsed = match MDictIndex::new(mdx, MDictMode::Mdx, copy_key(&key)) {
            Ok(p) => p,
            Err(e) => { return Err(e); },
        };
        let ghost mdx_view = mdx_parsed@;
        let MDictIndex { layout, entries, places } = mdx_parsed;
        let mdx_block = layout.record_blocks;
        let header = layout.header;
        let mut mdx_index = map_new();
        insert_words(&mut mdx_index, &entries, &places, &mdx_block);
        let mut mdd_index = map_new();
        let mut mdd_files: Vec<MDictResourceFile> = Vec::new();
        let mut f: usize = 0;
        assert(resource_file_views(mdd_files@) =~= Seq::empty());
        assert(resources_placed(map_entries(mdd_index), resource_file_views(mdd_files@))) by {
            reveal(resources_placed);
        }
        while f < mdds.len()
            invariant
                f <= mdds@.len() <= MAX_RESOURCE_FILES,
                mdd_files@.len() == f,
                index_of(mdx@, MDictMode::Mdx, key_view(key)) == Ok::<MDictIndexView, MDictError>(
                    mdx_view,
                ),
                resources_walk(file_views(mdds@), key_view(key), 0, empty_entries(), Seq::empty())
                    == resources_walk(
                    file_views(mdds@),
                    key_view(key),
                    f as int,
                    map_entries(mdd_index),
                    resource_file_views(mdd_files@),
                ),
                resources_placed(map_entries(mdd_index), resource_file_views(mdd_files@)),
            decreases mdds@.len() - f,
        {
            match add_resource_file(&mut mdd_index, &mut mdd_files, mdds[f].as_slice(), copy_key(&key)) {
                Ok(_) => {},
                Err(e) => { return Err(e); },
            }
            f = f + 1;
        }
        let index = MDictMemIndex { mdx_index, mdx_block, mdd_index, mdd_files, header };
        Ok(index)
    }

    /// The configuration of the MDX file.
    pub fn header(&self) -> (res: &MDictHeader)
        ensures
            res@ == self@.header,
    {
        &self.header
    }

    /// Tests whether the index holds the keyword `key`.
    pub fn word_exists(&self, key: &str) -> (res: bool)
        ensures
            res == self@.has_word(key.spec_bytes()),
    {
        map_get(&self.mdx_index, key.as_bytes()).is_some()
    }

    /// Tests whether the index holds the resource key `key`.
    pub fn resource_exists(&self, key: &str) -> (res: bool)
        ensures
            res == self@.resources.contains_key(key.spec_bytes()),
    {
        map_get(&self.mdd_index, key.as_bytes()).is_some()
    }

    /// The place of the record of the keyword `key` and the block that
    /// holds it, if the index holds the keyword.
    pub fn word_location(&self, key: &str) -> (res: Option<(MDictRecordIndex, MDictRecordBlockIndex)>)
        ensures
            self@.wf(),
            res is Some <==> self@.has_word(key.spec_bytes()),
            res is Some ==> res.unwrap().0 == self@.words[key.spec_bytes()].1 && res.unwrap().1
                == self@.word_blocks[res.unwrap().0.block as int],
    {
        proof {
            use_type_invariant(self);
        }
        match map_get(&self.mdx_index, key.as_bytes()) {
            Some((_, place)) => {
                Some((place, self.mdx_block[place.block as usize]))
            },
            None => None,
        }
    }

    /// The number of the file that holds the resource `key`, the place of
    /// its record and the block that holds it, if the index holds the key.
    pub fn resource_location(&self, key: &str) -> (res: Option<
        (u8, MDictRecordIndex, MDictRecordBlockIndex),
    >)
        ensures
            self@.wf(),
            res is Some <==> self@.resources.contains_key(key.spec_bytes()),
            res is Some ==> res.unwrap().0 < self@.resource_files.len(),
            res is Some ==> res.unwrap().0 == self@.resources[key.spec_bytes()].0 && res.unwrap().1
                == self@.resources[key.spec_bytes()].1 && res.unwrap().2
                == self@.resource_files[res.unwrap().0 as int].record_blocks[res.unwrap().1.block as int],
    {
        proof {
            use_type_invariant(self);
            reveal(resources_placed);
        }
        match map_get(&self.mdd_index, key.as_bytes()) {
            Some((file, place)) => {
                let block = self.mdd_files[file as usize].record_blocks[place.block as usize];
                Some((file, place, block))
            },
            None => None,
        }
    }

    /// Looks up the definition of `key` in the contents `mdx` of the MDX
    /// file.
    pub fn lookup_word(&self, key: &str, mdx: &[u8]) -> (res: Result<String, MDictError>)
        ensures
            match res {
                Ok(text) => self@.word(key.spec_bytes(), mdx@) == Ok::<Seq<char>, MDictError>(text@),
                Err(e) => self@.word(key.spec_bytes(), mdx@) == Err::<Seq<char>, MDictError>(e),
            },
            res == Err::<String, MDictError>(MDictError::NotFound) <==> !self@.has_word(
                key.spec_bytes(),
            ),
    {
        match self.word_location(key) {
            None => Err(MDictError::NotFound),
            Some((place, block)) => {
                let record = match lookup(mdx, &place, &block, &self.header) {
                    Ok(r) => r,
                    Err(e) => { return Err(e); },
                };
                decode_definition(record.as_slice(), self.header.encoding)
            },
        }
    }

    /// Reads the definition of `key` out of the bytes `block` of its
    /// record block, as [`MDictMemIndex::word_location`] locates it.
    pub fn read_word(&self, key: &str, block: &[u8]) -> (res: Result<String, MDictError>)
        ensures
            match res {
                Ok(text) => self@.word_in_block(key.spec_bytes(), block@) == Ok::<
                    Seq<char>,
                    MDictError,
                >(text@),
                Err(e) => self@.word_in_block(key.spec_bytes(), block@) == Err::<
                    Seq<char>,
                    MDictError,
                >(e),
            },
    {
        match self.word_location(key) {
            None => Err(MDictError::NotFound),
            Some((place, directory)) => {
                let record = match extract_record(block, directory.decomp_size, &self.header, &place) {
                    Ok(r) => r,
                    Err(e) => { return Err(e); },
                };
                decode_definition(record.as_slice(), self.header.encoding)
            },
        }
    }

    /// Looks up the resource `key` in the contents `mdds` of the MDD
    /// files, given in their order.
    pub fn lookup_resource(&self, key: &str, mdds: &Vec<Vec<u8>>) -> (res: Result<
        Vec<u8>,
        MDictError,
    >)
        ensures
            match res {
                Ok(data) => self@.resource(key.spec_bytes(), file_views(mdds@)) == Ok::<
                    Seq<u8>,
                    MDictError,
                >(data@),
                Err(e) => self@.resource(key.spec_bytes(), file_views(mdds@)) == Err::<
                    Seq<u8>,
                    MDictError,
                >(e),
            },
            res == Err::<Vec<u8>, MDictError>(MDictError::NotFound) <==> !self@.resources.contains_key(
                key.spec_bytes(),
            ),
    {
        match self.resource_location(key) {
            None => Err(MDictError::NotFound),
            Some((file, place, block)) => {
                if file as usize >= mdds.len() {
                    return Err(MDictError::Io);
                }
                lookup(mdds[file as usize].as_slice(), &place, &block, &self.mdd_files[file as usize].header)
            },
        }
    }

    /// Reads the resource `key` out of the bytes `block` of its record
    /// block, as [`MDictMemIndex::resource_location`] locates it.
    pub fn read_resource(&self, key: &str, block: &[u8]) -> (res: Result<Vec<u8>, MDictError>)
        ensures
            match res {
                Ok(data) => self@.resource_in_block(key.spec_bytes(), block@) == Ok::<
                    Seq<u8>,
                    MDictError,
                >(data@),
                Err(e) => self@.resource_in_block(key.spec_bytes(), block@) == Err::<
                    Seq<u8>,
                    MDictError,
                >(e),
            },
    {
        match self.resource_location(key) {
            None => Err(MDictError::NotFound),
            Some((file, place, directory)) => {
                extract_record(
                    block,
                    directory.decomp_size,
                    &self.mdd_files[file as usize].header,
                    &place,
                )
            },
        }
    }

    /// The record directory of the MDX file.
    pub fn word_blocks(&self) -> (res: &Vec<MDictRecordBlockIndex>)
        ensures
            res@ == self@.word_blocks,
    {
        &self.mdx_block
    }

    /// The configurations and record directories of the MDD files.
    pub fn resource_files(&self) -> (res: &Vec<MDictResourceFile>)
        ensures
            resource_file_views(res@) == self@.resource_files,
    {
        &self.mdd_files
    }

    /// The keywords of the MDX file in ascending order of their bytes,
    /// each once and with the place of its record.
    pub fn word_entries(&self) -> (res: Vec<(String, MDictRecordIndex)>)
        ensures
            word_keys(res@).to_set() == self@.words.dom(),
            strictly_ascending(word_keys(res@)),
            res@.len() == self@.words.dom().len(),
            forall|i: int|
                0 <= i < res@.len() ==> self@.has_word(#[trigger] word_keys(res@)[i])
                    && self@.words[word_keys(res@)[i]].1 == res@[i].1,
    {
        proof {
            use_type_invariant(self);
        }
        let keys = map_keys(&self.mdx_index);
        let mut words: Vec<(String, MDictRecordIndex)> = Vec::new();
        let mut i: usize = 0;
        while i < keys.len()
            invariant
                i <= keys@.len(),
                words@.len() == i,
                self@.wf(),
                self@.words == map_entries(self.mdx_index),
                key_views(keys@).to_set() == self@.words.dom(),
                forall|j: int|
                    0 <= j < i ==> encode_utf8((#[trigger] words@[j]).0@) == keys@[j]@
                        && self@.words[keys@[j]@].1 == words@[j].1,
            decreases keys@.len() - i,
        {
            proof {
                assert(key_views(keys@)[i as int] == keys@[i as int]@);
                assert(self@.words.contains_key(keys@[i as int]@));
                decode_utf8_encode_utf8(keys@[i as int]@);
            }
            let place = match map_get(&self.mdx_index, keys[i].as_slice()) {
                Some((_, p)) => p,
                None => MDictRecordIndex { block: 0, offset: 0, len: 0 },
            };
            let word = match string_from_utf8(vstd::slice::slice_to_vec(keys[i].as_slice())) {
                Some(w) => w,
                None => String::new(),
            };
            words.push((word, place));
            i = i + 1;
        }
        proof {
            assert(word_keys(words@) =~= key_views(keys@));
            lemma_ascending_is_distinct(word_keys(words@));
            word_keys(words@).unique_seq_to_set();
        }
        words
    }

    /// The resource keys of the MDD files in ascending order of their
    /// bytes, each once, with the number of its file and the place of its
    /// record.
    pub fn resource_entries(&self) -> (res: Vec<(Vec<u8>, u8, MDictRecordIndex)>)
        ensures
            resource_keys(res@).to_set() == self@.resources.dom(),
            strictly_ascending(resource_keys(res@)),
            forall|i: int|
                0 <= i < res@.len() ==> self@.resources.contains_key(
                    #[trigger] resource_keys(res@)[i],
                ) && self@.resources[resource_keys(res@)[i]] == (res@[i].1, res@[i].2),
    {
        let keys = map_keys(&self.mdd_index);
        let mut found: Vec<(Vec<u8>, u8, MDictRecordIndex)> = Vec::new();
        let mut i: usize = 0;
        while i < keys.len()
            invariant
                i <= keys@.len(),
                found@.len() == i,
                self@.resources == map_entries(self.mdd_index),
                key_views(keys@).to_set() == self@.resources.dom(),
                forall|j: int|
                    0 <= j < i ==> (#[trigger] found@[j]).0@ == keys@[j]@
                        && self@.resources[keys@[j]@] == (found@[j].1, found@[j].2),
            decreases keys@.len() - i,
        {
            proof {
                assert(key_views(keys@)[i as int] == keys@[i as int]@);
            }
            let (file, place) = match map_get(&self.mdd_index, keys[i].as_slice()) {
                Some(l) => l,
                None => (0u8, MDictRecordIndex { block: 0, offset: 0, len: 0 }),
            };
            found.push((vstd::slice::slice_to_vec(keys[i].as_slice()), file, place));
            i = i + 1;
        }
        proof {
            assert(resource_keys(found@) =~= key_views(keys@));
        }
        found
    }

    /// The keywords of the MDX file in ascending order of their bytes,
    /// each once.
    pub fn keyword_iter(&self) -> (res: Vec<String>)
        ensures
            string_keys(res@).to_set() == self@.words.dom(),
            strictly_ascending(string_keys(res@)),
            res@.len() == self@.words.dom().len(),
            forall|i: int| 0 <= i < res@.len() ==> self@.has_word(#[trigger] string_keys(res@)[i]),
    {
        let mut entries = self.word_entries();
        let ghost listed = entries@;
        let mut words: Vec<String> = Vec::new();
        let mut i: usize = 0;
        while i < entries.len()
            invariant
                i <= entries@.len(),
                words@.len() == i,
                entries@.len() == listed.len(),
                forall|j: int| i <= j < entries@.len() ==> entries@[j] == listed[j],
                forall|j: int| 0 <= j < i ==> (#[trigger] words@[j])@ == listed[j].0@,
            decreases entries@.len() - i,
        {
            let mut taken: (String, MDictRecordIndex) = (
                String::new(),
                MDictRecordIndex { block: 0, offset: 0, len: 0 },
            );
            std::mem::swap(&mut entries[i], &mut taken);
            words.push(taken.0);
            i = i + 1;
        }
        proof {
            assert(string_keys(words@) =~= word_keys(listed));
        }
        words
    }
}

impl MDictLookup for MDictMemIndex {
    fn word_exists(&self, key: &str) -> (res: bool)
        ensures
            res == self@.has_word(key.spec_bytes()),
    {
        MDictMemIndex::word_exists(self, key)
    }

    fn lookup_word(&self, key: &str, mdx: &[u8]) -> (res: Result<String, MDictError>)
        ensures
            match res {
                Ok(text) => self@.word(key.spec_bytes(), mdx@) == Ok::<Seq<char>, MDictError>(text@),
                Err(e) => self@.word(key.spec_bytes(), mdx@) == Err::<Seq<char>, MDictError>(e),
            },
    {
        MDictMemIndex::lookup_word(self, key, mdx)
    }

    fn lookup_resource(&self, key: &str, mdds: &Vec<Vec<u8>>) -> (res: Result<Vec<u8>, MDictError>)
        ensures
            match res {
                Ok(data) => self@.resource(key.spec_bytes(), file_views(mdds@)) == Ok::<
                    Seq<u8>,
                    MDictError,
                >(data@),
                Err(e) => self@.resource(key.spec_bytes(), file_views(mdds@)) == Err::<
                    Seq<u8>,
                    MDictError,
                >(e),
            },
    {
        MDictMemIndex::lookup_resource(self, key, mdds)
    }
}

} // verus!
