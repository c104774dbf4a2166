use mdict_index::cache::cache_action;
use mdict_index::cache::load32;
use mdict_index::cache::load64;
use mdict_index::cache::mdx_block_rows;
use mdict_index::cache::mdx_index_rows;
use mdict_index::cache::mdd_index_rows;
use mdict_index::cache::store32;
use mdict_index::cache::store64;
use mdict_index::cache::store_position;
use mdict_index::cache::CACHE_VERSION;
use mdict_index::cache_protocol::begin;
use mdict_index::cache_protocol::step;
use mdict_index::CacheCommand;
use mdict_index::CacheEvent;
use mdict_index::CacheState;
use mdict_index::checksum::adler32;
use mdict_index::codec::decode_block;
use mdict_index::codec::derive_directory_key;
use mdict_index::codec::derive_record_key;
use mdict_index::codec::read_codec;
use mdict_index::codec::unscramble;
use mdict_index::codec::BlockCodec;
use mdict_index::header::parse_attributes;
use mdict_index::header::parse_encoding_label;
use mdict_index::header::parse_header;
use mdict_index::key_block::parse_key_block;
use mdict_index::key_directory::parse_key_directory;
use mdict_index::key_prelude::parse_key_prelude;
use mdict_index::lookup::decode_definition;
use mdict_index::lookup::extract_record;
use mdict_index::lookup::lookup;
use mdict_index::number::parse_decimal;
use mdict_index::number::parse_version;
use mdict_index::order::fold_case;
use mdict_index::order::folded_before;
use mdict_index::order::same_bytes;
use mdict_index::paths::check_extension;
use mdict_index::paths::first_probe;
use mdict_index::paths::is_mdx_extension;
use mdict_index::paths::mdd_extension;
use mdict_index::paths::next_probe;
use mdict_index::paths::Probe;
use mdict_index::record::route_records;
use mdict_index::record_directory::parse_record_directory;
use mdict_index::record_directory::parse_record_prelude;
use mdict_index::resource_key::normalise_resource_key;
use mdict_index::text::decode_text;
use mdict_index::wire::read_be_u16;
use mdict_index::wire::read_be_u32;
use mdict_index::wire::read_be_u64;
use mdict_index::wire::read_counter;
use mdict_index::wire::read_le_u32;
use mdict_index::wire::read_le_u64;
use mdict_index::wire::read_prefix;
use mdict_index::wire::read_record_offset;
use mdict_index::xml::find_attribute;
use mdict_index::xml::starts_at;
use mdict_index::xml::unescape;
use mdict_index::CacheAction;
use mdict_index::MDictEncoding;
use mdict_index::MDictError;
use mdict_index::MDictHeader;
use mdict_index::MDictMode;
use mdict_index::MDictRecordBlockIndex;
use mdict_index::MDictRecordIndex;

fn plain_header() -> MDictHeader {
    parse_attributes(b"<Dictionary GeneratedByEngineVersion=\"2.0\"/>", MDictMode::Mdx, None).unwrap()
}

fn stored_block(payload: &[u8]) -> Vec<u8> {
    let mut block = vec![0, 0, 0, 0];
    block.extend_from_slice(&adler32(payload).to_le_bytes());
    block.extend_from_slice(payload);
    block
}

#[test]
fn adler32_of_known_texts() {
    assert_eq!(adler32(b""), 1);
    assert_eq!(adler32(b"a"), 0x0062_0062);
    assert_eq!(adler32(b"Wikipedia"), 0x11e6_0398);
    assert_eq!(adler32(&[0xff; 6000]), adler32::RollingAdler32::from_buffer(&[0xff; 6000]).hash());
}

#[test]
fn adler32_agrees_with_the_reference() {
    let mut data: Vec<u8> = Vec::new();
    let mut seed: u32 = 12345;
    for _ in 0..5000 {
        seed = seed.wrapping_mul(1103515245).wrapping_add(12345);
        data.push((seed >> 16) as u8);
    }
    for len in [0usize, 1, 2, 255, 256, 4096, 5000] {
        assert_eq!(adler32(&data[..len]), adler32::RollingAdler32::from_buffer(&data[..len]).hash());
    }
}

#[test]
fn integers_are_read_in_their_byte_order() {
    let bytes = [0x01u8, 0x02, 0x03, 0x04, 0x05, 0x06, 0x07, 0x08, 0x09];
    assert_eq!(read_be_u16(&bytes, 0), Some(0x0102));
    assert_eq!(read_be_u16(&bytes, 7), Some(0x0809));
    assert_eq!(read_be_u16(&bytes, 8), None);
    assert_eq!(read_be_u32(&bytes, 1), Some(0x0203_0405));
    assert_eq!(read_be_u32(&bytes, 6), None);
    assert_eq!(read_be_u64(&bytes, 1), Some(0x0203_0405_0607_0809));
    assert_eq!(read_be_u64(&bytes, 2), None);
    assert_eq!(read_le_u32(&bytes, 0), Some(0x0403_0201));
    assert_eq!(read_le_u32(&bytes, 5), Some(0x0908_0706));
    assert_eq!(read_le_u32(&bytes, usize::MAX), None);
    assert_eq!(read_le_u64(&bytes, 0), Some(0x0807_0605_0403_0201));
    assert_eq!(read_le_u64(&[0xff; 8], 0), Some(u64::MAX));
    assert_eq!(read_be_u64(&[0xff; 8], 0), Some(u64::MAX));
    assert_eq!(read_le_u64(&bytes, 2), None);
    assert_eq!(read_le_u32(&[], 0), None);
}

#[test]
fn counters_offsets_and_prefixes_go_by_the_layout() {
    let bytes = [0x01u8, 0x02, 0x03, 0x04, 0x05, 0x06, 0x07, 0x08];
    assert_eq!(read_counter(&bytes, 0, true), Some(0x0807_0605_0403_0201));
    assert_eq!(read_counter(&bytes, 0, false), Some(0x0403_0201));
    assert_eq!(read_counter(&bytes, 4, true), None);
    assert_eq!(read_counter(&bytes, 4, false), Some(0x0807_0605));
    assert_eq!(read_record_offset(&bytes, 0, true), Some(0x0102_0304_0506_0708));
    assert_eq!(read_record_offset(&bytes, 0, false), Some(0x0102_0304));
    assert_eq!(read_record_offset(&bytes, 5, false), None);
    assert_eq!(read_prefix(&bytes, 0, true), Some(0x0102));
    assert_eq!(read_prefix(&bytes, 0, false), Some(0x01));
    assert_eq!(read_prefix(&bytes, 7, true), None);
    assert_eq!(read_prefix(&bytes, 7, false), Some(0x08));
    assert_eq!(read_prefix(&bytes, 8, false), None);
}

#[test]
fn a_scrambled_buffer_is_unscrambled_byte_by_byte() {
    let zero = [0u8; 16];
    assert_eq!(unscramble(&[0x12], &zero), vec![0x21]);
    assert_eq!(unscramble(&[0x12, 0x34], &zero), vec![0x21, 0x43 ^ 0x12 ^ 0x01]);
    let mut key = [0u8; 16];
    key[2] = 0xf0;
    assert_eq!(unscramble(&[0x00, 0x00, 0xab], &key), vec![0x00, 0x01, 0xba ^ 0x02 ^ 0xf0]);
    assert_eq!(unscramble(&[], &zero), Vec::<u8>::new());
    let long = [0u8; 300];
    let plain = unscramble(&long, &zero);
    assert_eq!(plain[255], 0xff);
    assert_eq!(plain[256], 0x00);
    assert_eq!(plain[257], 0x01);
    let mut keyed = [0u8; 16];
    keyed[1] = 0x0f;
    assert_eq!(unscramble(&[0u8; 18], &keyed)[17], 17 ^ 0x0f);
}

#[test]
fn the_keys_are_ripemd128_digests() {
    assert_eq!(
        derive_record_key(b""),
        vec![0xcd, 0xf2, 0x62, 0x13, 0xa1, 0x50, 0xdc, 0x3e, 0xcb, 0x61, 0x0f, 0x18, 0xf6, 0xb3, 0x8b, 0x46]
    );
    assert_eq!(
        derive_record_key(b"abc"),
        vec![0xc1, 0x4a, 0x12, 0x19, 0x9c, 0x66, 0xe4, 0xba, 0x84, 0x63, 0x6b, 0x0f, 0x69, 0x14, 0x4c, 0x77]
    );
    assert_eq!(derive_directory_key(&[1, 2, 3, 4]), derive_record_key(&[1, 2, 3, 4, 0x95, 0x36, 0, 0]));
    assert_ne!(derive_directory_key(&[1, 2, 3, 4]), derive_directory_key(&[1, 2, 3, 5]));
}

#[test]
fn the_tag_of_a_block_names_its_codec() {
    assert_eq!(read_codec(&[0, 0, 0, 0, 9, 9, 9, 9]), Some(BlockCodec::Stored));
    assert_eq!(read_codec(&[1, 0, 0, 0, 9, 9, 9, 9]), Some(BlockCodec::Lzo));
    assert_eq!(read_codec(&[2, 0, 0, 0, 9, 9, 9, 9]), Some(BlockCodec::Deflate));
    assert_eq!(read_codec(&[3, 0, 0, 0, 9, 9, 9, 9]), None);
    assert_eq!(read_codec(&[2, 0, 0, 1, 9, 9, 9, 9]), None);
    assert_eq!(read_codec(&[0, 1, 0, 0, 9, 9, 9, 9]), None);
    assert_eq!(read_codec(&[2, 0, 0, 0]), Some(BlockCodec::Deflate));
    assert_eq!(read_codec(&[2, 0, 0]), None);
    assert_eq!(read_codec(&[]), None);
}

#[test]
fn a_block_is_decoded_when_tag_size_and_checksum_fit() {
    let payload = b"hello, block";
    let block = stored_block(payload);
    assert_eq!(decode_block(&block, 12).unwrap(), payload.to_vec());
    assert_eq!(decode_block(&block, 11), Err(MDictError::CorruptBlock));
    assert_eq!(decode_block(&block, 13), Err(MDictError::CorruptBlock));
    assert_eq!(decode_block(&block[..7], 0), Err(MDictError::CorruptBlock));
    assert_eq!(decode_block(&[], 0), Err(MDictError::CorruptBlock));
    assert_eq!(decode_block(&stored_block(b""), 0).unwrap(), Vec::<u8>::new());
    let mut stamped = block.clone();
    stamped[4] ^= 1;
    assert_eq!(decode_block(&stamped, 12), Err(MDictError::CorruptBlock));
    let mut tagged = block.clone();
    tagged[0] = 7;
    assert_eq!(decode_block(&tagged, 12), Err(MDictError::CorruptBlock));
    assert_eq!(decode_block(&block, u64::MAX), Err(MDictError::CorruptBlock));
    assert_eq!(decode_block(&block, 0x8000_0000), Err(MDictError::CorruptBlock));
}

#[test]
fn a_deflate_block_is_inflated() {
    let payload: Vec<u8> = std::iter::repeat(b"deflate me ".iter().copied()).take(100).flatten().collect();
    let mut block = vec![2, 0, 0, 0];
    block.extend_from_slice(&adler32(&payload).to_le_bytes());
    let body = miniz_oxide::deflate::compress_to_vec(&payload, 6);
    assert_ne!(body, payload);
    block.extend_from_slice(&body);
    assert_eq!(decode_block(&block, payload.len() as u64).unwrap(), payload);
    assert_eq!(decode_block(&block, payload.len() as u64 - 1), Err(MDictError::CorruptBlock));
    let last = block.len() - 1;
    block.truncate(last);
    assert_eq!(decode_block(&block, payload.len() as u64), Err(MDictError::CorruptBlock));
}

#[test]
fn an_lzo_block_is_expanded() {
    let payload: Vec<u8> = std::iter::repeat(b"lzo lzo lzo ".iter().copied()).take(100).flatten().collect();
    let mut body: Vec<u8> = Vec::with_capacity(rust_lzo::worst_compress(payload.len()));
    assert!(rust_lzo::LZOContext::new().compress(&payload, &mut body) == rust_lzo::LZOError::OK);
    assert_ne!(body, payload);
    let mut block = vec![1, 0, 0, 0];
    block.extend_from_slice(&adler32(&payload).to_le_bytes());
    block.extend_from_slice(&body);
    assert_eq!(decode_block(&block, payload.len() as u64).unwrap(), payload);
    assert_eq!(decode_block(&block, payload.len() as u64 - 1), Err(MDictError::CorruptBlock));
    assert_eq!(decode_block(&block, payload.len() as u64 + 1), Err(MDictError::CorruptBlock));
    block.truncate(12);
    assert_eq!(decode_block(&block, payload.len() as u64), Err(MDictError::CorruptBlock));
}

#[test]
fn an_attribute_is_found_by_its_name() {
    let xml = b"<Dictionary Title=\"One\" DataSourceTitle=\"Two\" Description=\"a &amp;&lt;&gt;&quot; b\" Empty=\"\" Open=\"x";
    assert_eq!(find_attribute(xml, b"Title"), Some(b"One".to_vec()));
    assert_eq!(find_attribute(xml, b"DataSourceTitle"), Some(b"Two".to_vec()));
    assert_eq!(find_attribute(xml, b"Description"), Some(b"a &<>\" b".to_vec()));
    assert_eq!(find_attribute(xml, b"Empty"), Some(Vec::new()));
    assert_eq!(find_attribute(xml, b"Open"), None);
    assert_eq!(find_attribute(xml, b"Missing"), None);
    assert_eq!(find_attribute(xml, b"itle"), None);
    assert_eq!(find_attribute(b"Title=\"x\"", b"Title"), None);
    assert_eq!(find_attribute(b"\tTitle=\"x\"", b"Title"), Some(b"x".to_vec()));
    assert_eq!(find_attribute(b" Title =\"x\" Title=\"y\"", b"Title"), Some(b"y".to_vec()));
    assert_eq!(find_attribute(b"", b"Title"), None);
}

#[test]
fn entities_are_replaced() {
    assert_eq!(unescape(b"&lt;&gt;&amp;&quot;"), b"<>&\"".to_vec());
    assert_eq!(unescape(b"&amp;lt;"), b"&lt;".to_vec());
    assert_eq!(unescape(b"&lt"), b"&lt".to_vec());
    assert_eq!(unescape(b"&apos; & &#38;"), b"&apos; & &#38;".to_vec());
    assert_eq!(unescape(b""), Vec::<u8>::new());
    assert!(starts_at(b"abcdef", 2, b"cde"));
    assert!(!starts_at(b"abcdef", 4, b"efg"));
    assert!(starts_at(b"abc", 3, b""));
    assert!(!starts_at(b"abc", 4, b""));
}

#[test]
fn decimal_numbers_are_read() {
    assert_eq!(parse_decimal(b"0"), Some(0));
    assert_eq!(parse_decimal(b"007"), Some(7));
    assert_eq!(parse_decimal(b"4294967295"), Some(u32::MAX));
    assert_eq!(parse_decimal(b"4294967296"), None);
    assert_eq!(parse_decimal(b"99999999999999999999"), None);
    assert_eq!(parse_decimal(b""), None);
    assert_eq!(parse_decimal(b"12a"), None);
    assert_eq!(parse_decimal(b"-1"), None);
    assert_eq!(parse_decimal(b" 1"), None);
}

#[test]
fn version_numbers_are_read() {
    assert_eq!(parse_version(b"2.0"), Some((2, 0)));
    assert_eq!(parse_version(b"1.2"), Some((1, 2)));
    assert_eq!(parse_version(b"2"), Some((2, 0)));
    assert_eq!(parse_version(b"10.25"), Some((10, 25)));
    assert_eq!(parse_version(b"2."), None);
    assert_eq!(parse_version(b".5"), None);
    assert_eq!(parse_version(b"1.2.3"), None);
    assert_eq!(parse_version(b""), None);
    assert_eq!(parse_version(b"v2"), None);
}

#[test]
fn encoding_labels_are_known_by_name() {
    assert_eq!(parse_encoding_label(b"UTF-8"), Some(MDictEncoding::Utf8));
    assert_eq!(parse_encoding_label(b"utf-16"), Some(MDictEncoding::Utf16Le));
    assert_eq!(parse_encoding_label(b"Gbk"), Some(MDictEncoding::Gbk));
    assert_eq!(parse_encoding_label(b"bIG5"), Some(MDictEncoding::Big5));
    assert_eq!(parse_encoding_label(b"latin1"), Some(MDictEncoding::Latin1));
    assert_eq!(parse_encoding_label(b"utf8"), None);
    assert_eq!(parse_encoding_label(b""), None);
    assert_eq!(parse_encoding_label(b"UTF-8 "), None);
}

#[test]
fn the_attributes_make_the_header() {
    let xml = b"<Dictionary GeneratedByEngineVersion=\"1.2\" Encrypted=\"3\" Encoding=\"Big5\" Title=\"T &amp; t\" RegCode=\"0123\"/>";
    let header = parse_attributes(xml, MDictMode::Mdx, Some(vec![1, 2])).unwrap();
    assert_eq!(header.version_major, 1);
    assert_eq!(header.version_minor, 2);
    assert_eq!(header.encoding, MDictEncoding::Big5);
    assert!(header.key_header_encrypted);
    assert!(header.key_index_encrypted);
    assert_eq!(header.encrypt_key, Some(vec![1, 2]));
    assert_eq!(header.title, "T & t");
    assert_eq!(header.description, "");
    assert_eq!(header.reg_code, "0123");
    assert_eq!(header.key_count, 0);
    assert!(!header.wide());
    assert_eq!(parse_attributes(xml, MDictMode::Mdx, None).err(), Some(MDictError::EncryptionRequired));
    let odd = b"<Dictionary GeneratedByEngineVersion=\"2.0\" Encrypted=\"4\"/>";
    let header = parse_attributes(odd, MDictMode::Mdx, None).unwrap();
    assert!(!header.key_header_encrypted);
    assert!(!header.key_index_encrypted);
}

#[test]
fn the_header_layer_ends_where_the_key_prelude_begins() {
    let xml = "<Dictionary GeneratedByEngineVersion=\"2.0\" Title=\"x\"/>";
    let mut text: Vec<u8> = Vec::new();
    for unit in xml.encode_utf16() {
        text.extend_from_slice(&unit.to_le_bytes());
    }
    let mut file: Vec<u8> = (text.len() as u32).to_be_bytes().to_vec();
    file.extend_from_slice(&text);
    file.extend_from_slice(&adler32(&text).to_le_bytes());
    file.extend_from_slice(b"rest");
    let (header, next) = parse_header(&file, MDictMode::Mdx, None).unwrap();
    assert_eq!(header.title, "x");
    assert_eq!(next, 8 + text.len());
    let mut odd = file.clone();
    odd[3] += 1;
    assert!(parse_header(&odd, MDictMode::Mdx, None).is_err());
    let mut unpaired: Vec<u8> = vec![0, 0, 0, 2, 0x00, 0xd8];
    unpaired.extend_from_slice(&adler32(&[0x00, 0xd8]).to_le_bytes());
    assert_eq!(parse_header(&unpaired, MDictMode::Mdx, None).err(), Some(MDictError::CorruptHeader));
}

#[test]
fn case_is_folded_for_ascii_letters_only() {
    assert_eq!(fold_case(b"AbC-xyZ09"), b"abc-xyz09".to_vec());
    assert_eq!(fold_case(&[0x40, 0x41, 0x5a, 0x5b, 0xc9]), vec![0x40, 0x61, 0x7a, 0x5b, 0xc9]);
    assert!(folded_before(b"Apple", b"banana"));
    assert!(folded_before(b"apple", b"Banana"));
    assert!(!folded_before(b"Apple", b"apple"));
    assert!(!folded_before(b"b", b"A"));
    assert!(folded_before(b"app", b"APPLE"));
    assert!(!folded_before(b"apple", b"app"));
    assert!(!folded_before(b"", b""));
    assert!(folded_before(b"", b"a"));
    assert!(same_bytes(b"abc", b"abc"));
    assert!(!same_bytes(b"abc", b"abd"));
    assert!(!same_bytes(b"abc", b"ab"));
    assert!(same_bytes(b"", b""));
}

#[test]
fn a_stored_path_becomes_a_key() {
    assert_eq!(normalise_resource_key(b"\\image\\cat.png"), Some(b"image/cat.png".to_vec()));
    assert_eq!(normalise_resource_key(b"\\a"), Some(b"a".to_vec()));
    assert_eq!(normalise_resource_key(b"\\"), Some(Vec::new()));
    assert_eq!(normalise_resource_key(b"\\\\x"), Some(b"/x".to_vec()));
    assert_eq!(normalise_resource_key(b"\\a/b"), Some(b"a/b".to_vec()));
    assert_eq!(normalise_resource_key(b"image\\cat.png"), None);
    assert_eq!(normalise_resource_key(b"/image"), None);
    assert_eq!(normalise_resource_key(b""), None);
}

fn directory(sizes: &[u64]) -> Vec<MDictRecordBlockIndex> {
    let mut offset = 1000;
    let mut out = Vec::new();
    for size in sizes {
        out.push(MDictRecordBlockIndex { offset, comp_size: 10, decomp_size: *size });
        offset += 10;
    }
    out
}

#[test]
fn a_record_ends_where_the_next_begins_or_its_block_ends() {
    let blocks = directory(&[100, 50, 0, 30]);
    let places = route_records(&vec![0, 40, 100, 120, 150, 179], &blocks).unwrap();
    assert_eq!(
        places,
        vec![
            MDictRecordIndex { block: 0, offset: 0, len: 40 },
            MDictRecordIndex { block: 0, offset: 40, len: 60 },
            MDictRecordIndex { block: 1, offset: 0, len: 20 },
            MDictRecordIndex { block: 1, offset: 20, len: 30 },
            MDictRecordIndex { block: 3, offset: 0, len: 29 },
            MDictRecordIndex { block: 3, offset: 29, len: 1 },
        ]
    );
    assert_eq!(
        route_records(&vec![90], &blocks).unwrap(),
        vec![MDictRecordIndex { block: 0, offset: 90, len: 10 }]
    );
    assert_eq!(
        route_records(&vec![10, 160], &blocks).unwrap(),
        vec![
            MDictRecordIndex { block: 0, offset: 10, len: 90 },
            MDictRecordIndex { block: 3, offset: 10, len: 20 },
        ]
    );
    assert_eq!(route_records(&Vec::new(), &blocks).unwrap(), Vec::new());
    assert_eq!(route_records(&Vec::new(), &Vec::new()).unwrap(), Vec::new());
}

#[test]
fn records_that_cannot_be_placed_are_a_corrupt_index() {
    let blocks = directory(&[100, 50]);
    assert_eq!(route_records(&vec![150], &blocks), Err(MDictError::CorruptIndex));
    assert_eq!(route_records(&vec![0, 0], &blocks), Err(MDictError::CorruptIndex));
    assert_eq!(route_records(&vec![10, 5], &blocks), Err(MDictError::CorruptIndex));
    assert_eq!(route_records(&vec![0], &Vec::new()), Err(MDictError::CorruptIndex));
    assert_eq!(route_records(&vec![u64::MAX], &blocks), Err(MDictError::CorruptIndex));
    let huge = directory(&[0x2_0000_0000]);
    assert_eq!(route_records(&vec![0], &huge), Err(MDictError::CorruptIndex));
    assert_eq!(
        route_records(&vec![0, 5, 0x1_0000_0000], &huge),
        Err(MDictError::CorruptIndex)
    );
    let big = directory(&[u64::MAX, u64::MAX]);
    assert_eq!(route_records(&vec![7, 9], &big), Err(MDictError::CorruptIndex));
    assert_eq!(
        route_records(&vec![7, 9, 10], &big)
            .err(),
        Some(MDictError::CorruptIndex)
    );
    let edge = directory(&[u64::MAX, 4]);
    assert_eq!(
        route_records(&vec![u64::MAX - 2, u64::MAX - 1], &edge),
        Err(MDictError::CorruptIndex)
    );
}

#[test]
fn the_record_directory_is_read_with_its_offsets() {
    for wide in [true, false] {
        let width = if wide { 8 } else { 4 };
        let field = |v: u64| -> Vec<u8> {
            if wide {
                v.to_le_bytes().to_vec()
            } else {
                (v as u32).to_le_bytes().to_vec()
            }
        };
        let mut file = vec![0xaa; 5];
        file.extend(field(2));
        file.extend(field(7));
        file.extend(field(4 * width));
        file.extend(field(30));
        file.extend(field(10));
        file.extend(field(100));
        file.extend(field(20));
        file.extend(field(200));
        let start = file.len() as u64;
        let prelude = parse_record_prelude(&file, 5, wide).unwrap();
        assert_eq!(prelude.blocks, 2);
        assert_eq!(prelude.entries, 7);
        assert_eq!(prelude.directory_size, 4 * width);
        assert_eq!(prelude.records_size, 30);
        assert_eq!(
            parse_record_directory(&file, 5, wide, 7).unwrap(),
            vec![
                MDictRecordBlockIndex { offset: start, comp_size: 10, decomp_size: 100 },
                MDictRecordBlockIndex { offset: start + 10, comp_size: 20, decomp_size: 200 },
            ]
        );
        assert_eq!(parse_record_directory(&file, 5, wide, 8), Err(MDictError::CorruptHeader));
        assert_eq!(parse_record_directory(&file[..file.len() - 1], 5, wide, 7), Err(MDictError::Io));
        assert_eq!(parse_record_directory(&file, file.len() - 3, wide, 7), Err(MDictError::Io));
        assert_eq!(parse_record_prelude(&file, file.len(), wide), None);
        let mut total = file.clone();
        total[5 + 3 * width as usize] += 1;
        assert_eq!(parse_record_directory(&total, 5, wide, 7), Err(MDictError::CorruptHeader));
        let mut size = file.clone();
        size[5 + 2 * width as usize] += 1;
        assert_eq!(parse_record_directory(&size, 5, wide, 7), Err(MDictError::CorruptHeader));
    }
}

#[test]
fn the_key_prelude_is_read_in_both_layouts() {
    let mut narrow: Vec<u8> = Vec::new();
    for v in [3u32, 9, 77, 1234] {
        narrow.extend_from_slice(&v.to_le_bytes());
    }
    let prelude = parse_key_prelude(&narrow, 0, false).unwrap();
    assert_eq!(prelude.blocks, 3);
    assert_eq!(prelude.entries, 9);
    assert_eq!(prelude.directory_nominal, 77);
    assert_eq!(prelude.directory_size, 77);
    assert_eq!(prelude.records_nominal, 1234);
    assert_eq!(parse_key_prelude(&narrow, 1, false), Err(MDictError::Io));

    let mut wide: Vec<u8> = vec![0];
    for v in [3u64, 9, 500, 77, 1234] {
        wide.extend_from_slice(&v.to_le_bytes());
    }
    let stamp = adler32(&wide[1..]);
    wide.extend_from_slice(&stamp.to_le_bytes());
    let prelude = parse_key_prelude(&wide, 1, true).unwrap();
    assert_eq!(prelude.blocks, 3);
    assert_eq!(prelude.entries, 9);
    assert_eq!(prelude.directory_nominal, 500);
    assert_eq!(prelude.directory_size, 77);
    assert_eq!(prelude.records_nominal, 1234);
    assert_eq!(parse_key_prelude(&wide, 2, true), Err(MDictError::Io));
    wide[1] = 4;
    assert_eq!(parse_key_prelude(&wide, 1, true), Err(MDictError::CorruptHeader));
}

#[test]
fn the_key_directory_is_read_with_its_offsets() {
    let mut payload: Vec<u8> = Vec::new();
    payload.extend_from_slice(&2u64.to_le_bytes());
    payload.extend_from_slice(&[0, 1, b'a']);
    payload.extend_from_slice(&[0, 2, b'b', b'c']);
    payload.extend_from_slice(&40u64.to_le_bytes());
    payload.extend_from_slice(&400u64.to_le_bytes());
    payload.extend_from_slice(&1u64.to_le_bytes());
    payload.extend_from_slice(&[0, 0]);
    payload.extend_from_slice(&[0, 1, b'z']);
    payload.extend_from_slice(&60u64.to_le_bytes());
    payload.extend_from_slice(&600u64.to_le_bytes());
    let (blocks, end) = parse_key_directory(&payload, true, MDictEncoding::Utf8, 2, 3, 1000).unwrap();
    assert_eq!(end, 1100);
    assert_eq!(blocks.len(), 2);
    assert_eq!(blocks[0].entries, 2);
    assert_eq!(blocks[0].first_keyword, "a");
    assert_eq!(blocks[0].last_keyword, "bc");
    assert_eq!(blocks[0].comp_size, 40);
    assert_eq!(blocks[0].decomp_size, 400);
    assert_eq!(blocks[0].offset, 1000);
    assert_eq!(blocks[1].first_keyword, "");
    assert_eq!(blocks[1].last_keyword, "z");
    assert_eq!(blocks[1].offset, 1040);
    assert_eq!(
        parse_key_directory(&payload, true, MDictEncoding::Utf8, 2, 4, 1000).err(),
        Some(MDictError::CorruptIndex)
    );
    assert_eq!(
        parse_key_directory(&payload, true, MDictEncoding::Utf8, 3, 3, 1000).err(),
        Some(MDictError::CorruptIndex)
    );
    assert_eq!(
        parse_key_directory(&payload, true, MDictEncoding::Utf8, 2, 3, u64::MAX - 50).err(),
        Some(MDictError::CorruptIndex)
    );
    assert_eq!(parse_key_directory(&payload, true, MDictEncoding::Utf8, 0, 0, 5).unwrap().1, 5);
}

#[test]
fn the_entries_of_a_key_block_are_read() {
    let mut payload: Vec<u8> = Vec::new();
    payload.extend_from_slice(&5u32.to_be_bytes());
    payload.extend_from_slice(b"ant\0");
    payload.extend_from_slice(&9u32.to_be_bytes());
    payload.extend_from_slice(b"Bee\0");
    let entries = parse_key_block(&payload, false, MDictEncoding::Utf8, 2).unwrap();
    assert_eq!(entries.len(), 2);
    assert_eq!(entries[0].keyword, "ant");
    assert_eq!(entries[0].offset, 5);
    assert_eq!(entries[1].keyword, "Bee");
    assert_eq!(entries[1].offset, 9);
    assert_eq!(
        parse_key_block(&payload, false, MDictEncoding::Utf8, 3).err(),
        Some(MDictError::CorruptIndex)
    );
    assert_eq!(
        parse_key_block(&payload[..payload.len() - 1], false, MDictEncoding::Utf8, 2).err(),
        Some(MDictError::CorruptIndex)
    );
    assert_eq!(
        parse_key_block(&payload[..6], false, MDictEncoding::Utf8, 1).err(),
        Some(MDictError::CorruptIndex)
    );
    assert_eq!(parse_key_block(&[], false, MDictEncoding::Utf8, 0).unwrap().len(), 0);

    let mut wide: Vec<u8> = Vec::new();
    wide.extend_from_slice(&7u64.to_be_bytes());
    wide.extend_from_slice(&[b'a', 0, 0x00, 0x01, 0, 0]);
    let entries = parse_key_block(&wide, true, MDictEncoding::Utf16Le, 1).unwrap();
    assert_eq!(entries[0].keyword, "a\u{100}");
    assert_eq!(entries[0].offset, 7);
    let mut narrow: Vec<u8> = Vec::new();
    narrow.extend_from_slice(&7u32.to_be_bytes());
    narrow.extend_from_slice(&[0x01, 0x01, 0x00]);
    let entries = parse_key_block(&narrow, false, MDictEncoding::Utf16Le, 1).unwrap();
    assert_eq!(entries[0].keyword, "\u{101}");
    let mut cut: Vec<u8> = Vec::new();
    cut.extend_from_slice(&7u32.to_be_bytes());
    cut.extend_from_slice(&[0x41, 0x00, 0x00]);
    assert_eq!(
        parse_key_block(&cut, false, MDictEncoding::Utf16Le, 1).err(),
        Some(MDictError::CorruptIndex)
    );
}

#[test]
fn a_record_is_cut_out_of_its_block() {
    let header = plain_header();
    let block = stored_block(b"first\0second\0");
    let place = MDictRecordIndex { block: 0, offset: 6, len: 7 };
    assert_eq!(extract_record(&block, 13, &header, &place).unwrap(), b"second\0".to_vec());
    let whole = MDictRecordIndex { block: 0, offset: 0, len: 13 };
    assert_eq!(extract_record(&block, 13, &header, &whole).unwrap(), b"first\0second\0".to_vec());
    let empty = MDictRecordIndex { block: 0, offset: 13, len: 0 };
    assert_eq!(extract_record(&block, 13, &header, &empty).unwrap(), Vec::<u8>::new());
    let outside = MDictRecordIndex { block: 0, offset: 7, len: 7 };
    assert_eq!(extract_record(&block, 13, &header, &outside), Err(MDictError::CorruptIndex));
    let far = MDictRecordIndex { block: 0, offset: u32::MAX, len: u32::MAX };
    assert_eq!(extract_record(&block, 13, &header, &far), Err(MDictError::CorruptIndex));
    assert_eq!(extract_record(&block, 12, &header, &place), Err(MDictError::CorruptBlock));

    let mut file = vec![0u8; 10];
    file.extend_from_slice(&block);
    file.extend_from_slice(&[0u8; 3]);
    let span = MDictRecordBlockIndex { offset: 10, comp_size: block.len() as u64, decomp_size: 13 };
    assert_eq!(lookup(&file, &place, &span, &header).unwrap(), b"second\0".to_vec());
    let beyond = MDictRecordBlockIndex { offset: 10, comp_size: block.len() as u64 + 4, decomp_size: 13 };
    assert_eq!(lookup(&file, &place, &beyond, &header), Err(MDictError::Io));
    let lost = MDictRecordBlockIndex { offset: u64::MAX, comp_size: u64::MAX, decomp_size: 13 };
    assert_eq!(lookup(&file, &place, &lost, &header), Err(MDictError::Io));
    let shifted = MDictRecordBlockIndex { offset: 11, comp_size: block.len() as u64, decomp_size: 13 };
    assert_eq!(lookup(&file, &place, &shifted, &header), Err(MDictError::CorruptBlock));
}

#[test]
fn scrambled_records_are_not_read_without_a_key() {
    let mut header = plain_header();
    header.key_index_encrypted = true;
    let block = stored_block(b"first\0second\0");
    let place = MDictRecordIndex { block: 0, offset: 0, len: 5 };
    assert_eq!(extract_record(&block, 13, &header, &place), Err(MDictError::EncryptionRequired));
}

#[test]
fn a_definition_loses_one_terminator() {
    assert_eq!(decode_definition(b"text\0", MDictEncoding::Utf8).unwrap(), "text");
    assert_eq!(decode_definition(b"text", MDictEncoding::Utf8).unwrap(), "text");
    assert_eq!(decode_definition(b"text\0\0", MDictEncoding::Utf8).unwrap(), "text\0");
    assert_eq!(decode_definition(b"", MDictEncoding::Utf8).unwrap(), "");
    assert_eq!(decode_definition(b"t\0e\0\0\0", MDictEncoding::Utf16Le).unwrap(), "te");
    assert_eq!(decode_definition(b"t\0e\0", MDictEncoding::Utf16Le).unwrap(), "te");
    assert_eq!(decode_definition(b"t\0\0\x01", MDictEncoding::Utf16Le).unwrap(), "t\u{100}");
    assert_eq!(decode_definition(b"t\0\0", MDictEncoding::Utf16Le), Err(MDictError::CorruptBlock));
    assert_eq!(decode_definition(&[0xe9, 0x00], MDictEncoding::Latin1).unwrap(), "\u{e9}");
    assert_eq!(decode_definition(&[0xe9, 0x00], MDictEncoding::Utf8), Err(MDictError::CorruptBlock));
}

#[test]
fn text_is_decoded_from_every_encoding() {
    assert_eq!(decode_text(MDictEncoding::Utf8, "h\u{e9}".as_bytes()), Some(String::from("h\u{e9}")));
    assert_eq!(decode_text(MDictEncoding::Utf8, &[0xc3]), None);
    assert_eq!(decode_text(MDictEncoding::Utf8, &[0xef, 0xbb, 0xbf, b'a']), Some(String::from("\u{feff}a")));
    assert_eq!(decode_text(MDictEncoding::Utf16Le, &[0x3c, 0xd8, 0x4e, 0xdf]), Some(String::from("\u{1f34e}")));
    assert_eq!(decode_text(MDictEncoding::Utf16Le, &[0x3c, 0xd8]), None);
    assert_eq!(decode_text(MDictEncoding::Utf16Le, &[0x41]), None);
    assert_eq!(decode_text(MDictEncoding::Gbk, &[0xc4, 0xe3, 0x41]), Some(String::from("\u{4f60}A")));
    assert_eq!(decode_text(MDictEncoding::Gbk, &[0xc4]), None);
    assert_eq!(decode_text(MDictEncoding::Big5, &[0xa7, 0x41]), Some(String::from("\u{4f60}")));
    assert_eq!(decode_text(MDictEncoding::Big5, &[0xa7]), None);
    assert_eq!(decode_text(MDictEncoding::Latin1, &[0x41, 0x80, 0xff]), Some(String::from("A\u{80}\u{ff}")));
    assert_eq!(decode_text(MDictEncoding::Latin1, &[]), Some(String::new()));
}

#[test]
fn numbers_are_stored_with_their_bits() {
    assert_eq!(store32(0), 0);
    assert_eq!(store32(0x7fff_ffff), i32::MAX);
    assert_eq!(store32(0x8000_0000), i32::MIN);
    assert_eq!(store32(u32::MAX), -1);
    assert_eq!(store64(u64::MAX), -1);
    assert_eq!(store64(0x8000_0000_0000_0000), i64::MIN);
    assert_eq!(store64(12345), 12345);
    assert_eq!(load32(-1), u32::MAX);
    assert_eq!(load32(i32::MIN), 0x8000_0000);
    assert_eq!(load32(17), 17);
    assert_eq!(load64(-2), u64::MAX - 1);
    assert_eq!(load64(i64::MIN), 0x8000_0000_0000_0000);
    assert_eq!(store_position(5), 5);
    for value in [0u32, 1, 0x7fff_ffff, 0x8000_0000, 0xdead_beef, u32::MAX] {
        assert_eq!(store32(value), value as i32);
        assert_eq!(load32(store32(value)), value);
    }
    for value in [0u64, 1, i64::MAX as u64, 0x8000_0000_0000_0000, u64::MAX] {
        assert_eq!(store64(value), value as i64);
        assert_eq!(load64(store64(value)), value);
    }
}

#[test]
fn rows_are_made_for_blocks_and_keywords() {
    let blocks = directory(&[100, 50]);
    let rows = mdx_block_rows(&blocks);
    assert_eq!(rows.len(), 2);
    assert_eq!((rows[0].block_index, rows[0].block_offset, rows[0].block_size), (0, 1000, 10));
    assert_eq!((rows[1].block_index, rows[1].block_offset, rows[1].block_size), (1, 1010, 10));
    let words = mdx_index_rows(&vec![
        (String::from("apple"), MDictRecordIndex { block: 1, offset: 2, len: 3 }),
        (String::from("pear"), MDictRecordIndex { block: u32::MAX, offset: 0x8000_0000, len: 0 }),
    ]);
    assert_eq!(words[0].keyword, "apple");
    assert_eq!((words[0].block_index, words[0].record_offset, words[0].record_size), (1, 2, 3));
    assert_eq!((words[1].block_index, words[1].record_offset, words[1].record_size), (-1, i32::MIN, 0));
    let resources = mdd_index_rows(&vec![(
        b"img/cat.png".to_vec(),
        200u8,
        MDictRecordIndex { block: 4, offset: 5, len: 6 },
    )])
    .unwrap();
    assert_eq!(resources[0].keyword, "img/cat.png");
    assert_eq!(resources[0].file_index, 200);
    assert_eq!((resources[0].block_index, resources[0].record_offset, resources[0].record_size), (4, 5, 6));
    assert_eq!(
        mdd_index_rows(&vec![(vec![0xff], 0u8, MDictRecordIndex { block: 0, offset: 0, len: 0 })]).err(),
        Some(MDictError::CorruptIndex)
    );
}

#[test]
fn a_cache_is_served_only_at_the_version_of_the_library() {
    assert_eq!(cache_action(Some(CACHE_VERSION)), CacheAction::Open);
    assert_eq!(cache_action(Some("0.1.0")), CacheAction::Open);
    assert_eq!(cache_action(Some("0.1.1")), CacheAction::Rebuild);
    assert_eq!(cache_action(Some("0.1")), CacheAction::Rebuild);
    assert_eq!(cache_action(Some("")), CacheAction::Rebuild);
    assert_eq!(cache_action(None), CacheAction::Rebuild);
}

#[test]
fn only_the_extension_mdx_names_a_dictionary() {
    assert!(is_mdx_extension("mdx"));
    assert!(is_mdx_extension("MDX"));
    assert!(is_mdx_extension("MdX"));
    assert!(!is_mdx_extension("mdd"));
    assert!(!is_mdx_extension("mdxx"));
    assert!(!is_mdx_extension(""));
    assert_eq!(check_extension(Some("Mdx")), Ok(()));
    assert_eq!(check_extension(Some("txt")), Err(MDictError::InvalidInput));
    assert_eq!(check_extension(None), Err(MDictError::InvalidInput));
}

#[test]
fn resource_files_are_numbered_from_the_second_on() {
    assert_eq!(mdd_extension(0), "mdd");
    assert_eq!(mdd_extension(1), "1.mdd");
    assert_eq!(mdd_extension(9), "9.mdd");
    assert_eq!(mdd_extension(10), "10.mdd");
    assert_eq!(mdd_extension(255), "255.mdd");
    assert_eq!(mdd_extension(1234567890), "1234567890.mdd");
}

#[test]
fn the_search_for_resource_files_stops_at_the_first_gap() {
    assert_eq!(first_probe(), Probe::Look(0));
    assert_eq!(next_probe(0, false), Probe::Done(0));
    assert_eq!(next_probe(0, true), Probe::Look(1));
    assert_eq!(next_probe(1, true), Probe::Look(2));
    assert_eq!(next_probe(2, false), Probe::Done(2));
    assert_eq!(next_probe(254, true), Probe::Look(255));
    assert_eq!(next_probe(255, true), Probe::Done(256));
    assert_eq!(next_probe(255, false), Probe::Done(255));
    assert_eq!(next_probe(usize::MAX, true), Probe::Done(usize::MAX));
}

#[test]
fn every_error_has_its_message() {
    assert_eq!(MDictError::NotFound.message(), "Not found in index");
    assert_eq!(MDictError::InvalidInput.message(), "invalid input");
    assert_eq!(MDictError::Io.message(), "unexpected end of file");
    assert_eq!(MDictError::CorruptHeader.message(), "corrupt header");
    assert_eq!(MDictError::CorruptBlock.message(), "corrupt block");
    assert_eq!(MDictError::CorruptIndex.message(), "corrupt index");
    assert_eq!(MDictError::UnsupportedVersion.message(), "unsupported version");
    assert_eq!(MDictError::UnsupportedEncoding.message(), "unsupported encoding");
    assert_eq!(MDictError::EncryptionRequired.message(), "encryption key required");
}

fn run(events: &[CacheEvent]) -> (Vec<CacheCommand>, CacheState) {
    let (mut state, first) = begin();
    let mut commands = vec![first];
    for event in events {
        let (next, command) = step(state, event);
        state = next;
        commands.push(command);
    }
    (commands, state)
}

#[test]
fn a_missing_cache_is_built_once_and_served() {
    let current = CacheEvent::Found(Some(String::from(CACHE_VERSION)));
    let (commands, state) = run(&[CacheEvent::Missing, CacheEvent::Built, current]);
    assert_eq!(
        commands,
        vec![CacheCommand::Probe, CacheCommand::Build, CacheCommand::Probe, CacheCommand::Serve]
    );
    assert_eq!(state, CacheState::Ready);
}

#[test]
fn a_current_cache_is_served_as_it_is() {
    let current = CacheEvent::Found(Some(String::from(CACHE_VERSION)));
    let (commands, state) = run(&[current]);
    assert_eq!(commands, vec![CacheCommand::Probe, CacheCommand::Serve]);
    assert_eq!(state, CacheState::Ready);
}

#[test]
fn a_stale_or_incomplete_cache_is_rebuilt() {
    let current = || CacheEvent::Found(Some(String::from(CACHE_VERSION)));
    for found in [CacheEvent::Found(Some(String::from("0.0.9"))), CacheEvent::Found(None)] {
        let (commands, state) = run(&[found, CacheEvent::Built, current()]);
        assert_eq!(
            commands,
            vec![CacheCommand::Probe, CacheCommand::Build, CacheCommand::Probe, CacheCommand::Serve]
        );
        assert_eq!(state, CacheState::Ready);
    }
}

#[test]
fn a_cache_is_never_built_twice() {
    let stale = || CacheEvent::Found(Some(String::from("0.0.9")));
    let (commands, state) = run(&[stale(), CacheEvent::Built, stale()]);
    assert_eq!(
        commands,
        vec![CacheCommand::Probe, CacheCommand::Build, CacheCommand::Probe, CacheCommand::GiveUp]
    );
    assert_eq!(state, CacheState::Failed);
    let (commands, state) = run(&[CacheEvent::Missing, CacheEvent::Built, CacheEvent::Missing]);
    assert_eq!(commands[3], CacheCommand::GiveUp);
    assert_eq!(state, CacheState::Failed);
    let (commands, state) = run(&[CacheEvent::Missing, CacheEvent::BuildFailed]);
    assert_eq!(commands, vec![CacheCommand::Probe, CacheCommand::Build, CacheCommand::GiveUp]);
    assert_eq!(state, CacheState::Failed);
}

#[test]
fn an_event_out_of_turn_fails_the_opening() {
    let current = || CacheEvent::Found(Some(String::from(CACHE_VERSION)));
    assert_eq!(run(&[CacheEvent::Built]).1, CacheState::Failed);
    assert_eq!(run(&[CacheEvent::BuildFailed]).1, CacheState::Failed);
    assert_eq!(run(&[CacheEvent::Missing, current()]).1, CacheState::Failed);
    assert_eq!(run(&[current(), current()]).1, CacheState::Failed);
    assert_eq!(run(&[CacheEvent::Built, current()]).0[2], CacheCommand::GiveUp);
}
