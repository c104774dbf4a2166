//! The retrieval of one record from its block.
//!
//! A record block is unscrambled where the header says that the records
//! are scrambled, decoded, and cut at the record's place. A definition is
//! then freed of its terminator, if it ends in one, and decoded from the
//! encoding of the dictionary.

use vstd::prelude::*;
use crate::codec::block_payload;
use crate::codec::decode_block;
use crate::codec::derive_record_key;
use crate::codec::record_key;
use crate::codec::unscramble;
use crate::codec::unscrambled;
use crate::error::MDictError;
use crate::header::MDictHeader;
use crate::header::MDictHeaderView;
use crate::record::MDictRecordBlockIndex;
use crate::record::MDictRecordIndex;
use crate::text::decode_text;
use crate::text::text_of;
use crate::text::MDictEncoding;
use crate::wire::copy_range;
use crate::wire::in_bounds;

verus! {

/// The bytes at `place` in the payload of a record block. A place that
/// leaves the payload is a corrupt index.
pub open spec fn record_at(payload: Seq<u8>, place: MDictRecordIndex) -> Result<Seq<u8>, MDictError> {
    if place.offset + place.len > payload.len() {
        Err(MDictError::CorruptIndex)
    } else {
        Ok(payload.subrange(place.offset as int, place.offset + place.len))
    }
}

/// The bytes of the record at `place` in a record block that is announced
/// to decompress to `size` bytes. Records that are scrambled cannot be
/// read without the user's key; a block that does not decode is a corrupt
/// block; a place that leaves the block is a corrupt index.
pub open spec fn record_bytes(
    block: Seq<u8>,
    size: nat,
    header: MDictHeaderView,
    place: MDictRecordIndex,
) -> Result<Seq<u8>, MDictError> {
    if header.key_index_encrypted && header.encrypt_key is None {
        Err(MDictError::EncryptionRequired)
    } else {
        let plain = if header.key_index_encrypted {
            unscrambled(block, record_key(header.encrypt_key.unwrap()))
        } else {
            block
        };
        match block_payload(plain, size) {
            None => Err(MDictError::CorruptBlock),
            Some(payload) => record_at(payload, place),
        }
    }
}

/// The bytes of the record at `place` in the block `block` of a file. A
/// block that leaves the file is an I/O error.
pub open spec fn record_in_file(
    file: Seq<u8>,
    block: MDictRecordBlockIndex,
    header: MDictHeaderView,
    place: MDictRecordIndex,
) -> Result<Seq<u8>, MDictError> {
    if !in_bounds(file.len() as int, block.offset as int, block.comp_size as int) {
        Err(MDictError::Io)
    } else {
        record_bytes(
            file.subrange(block.offset as int, block.offset + block.comp_size),
            block.decomp_size as nat,
            header,
            place,
        )
    }
}

/// Whether a record ends in the terminator of its encoding: two zero
/// bytes at an even length in UTF-16, one zero byte otherwise.
pub open spec fn ends_in_terminator(record: Seq<u8>, encoding: MDictEncoding) -> bool {
    if encoding is Utf16Le {
        record.len() >= 2 && record.len() % 2 == 0 && record[record.len() - 1] == 0 && record[record.len()
            - 2] == 0
    } else {
        record.len() >= 1 && record[record.len() - 1] == 0
    }
}

/// A record without the terminator it may end in.
pub open spec fn without_terminator(record: Seq<u8>, encoding: MDictEncoding) -> Seq<u8> {
    if !ends_in_terminator(record, encoding) {
        record
    } else if encoding is Utf16Le {
        record.take(record.len() - 2)
    } else {
        record.take(record.len() - 1)
    }
}

/// The text of a definition: its record, without a terminator, decoded
/// from the dictionary's encoding. A record that does not decode is a
/// corrupt block.
pub open spec fn definition_text(record: Seq<u8>, encoding: MDictEncoding) -> Result<
    Seq<char>,
    MDictError,
> {
    match text_of(encoding, without_terminator(record, encoding)) {
        Some(text) => Ok(text),
        None => Err(MDictError::CorruptBlock),
    }
}

/// The text of a UTF-8 definition is its record without the terminator,
/// byte for byte: encoded again, it gives those bytes back.
pub proof fn lemma_utf8_definition_round_trip(record: Seq<u8>)
    requires
        definition_text(record, MDictEncoding::Utf8) is Ok,
    ensures
        vstd::utf8::encode_utf8(definition_text(record, MDictEncoding::Utf8).unwrap())
            == without_terminator(record, MDictEncoding::Utf8),
{
    vstd::utf8::decode_utf8_encode_utf8(without_terminator(record, MDictEncoding::Utf8));
}

/// The text of a Latin-1 definition has one character for each byte of
/// its record without the terminator, and each character is its byte.
pub proof fn lemma_latin1_definition_round_trip(record: Seq<u8>)
    ensures
        definition_text(record, MDictEncoding::Latin1) is Ok,
        definition_text(record, MDictEncoding::Latin1).unwrap().len() == without_terminator(
            record,
            MDictEncoding::Latin1,
        ).len(),
        forall|i: int|
            0 <= i < without_terminator(record, MDictEncoding::Latin1).len() ==> (
            #[trigger] definition_text(record, MDictEncoding::Latin1).unwrap()[i]) as int
                == without_terminator(record, MDictEncoding::Latin1)[i] as int,
{
}

/// Cuts the record at `place` out of a record block that is announced to
/// decompress to `size` bytes.
pub fn extract_record(block: &[u8], size: u64, header: &MDictHeader, place: &MDictRecordIndex) -> (res:
    Result<Vec<u8>, MDictError>)
    ensures
        match res {
            Ok(record) => record_bytes(block@, size as nat, header@, *place) == Ok::<
                Seq<u8>,
                MDictError,
            >(record@),
            Err(e) => record_bytes(block@, size as nat, header@, *place) == Err::<
                Seq<u8>,
                MDictError,
            >(e),
        },
{
    let payload: Vec<u8> = if header.key_index_encrypted {
        match &header.encrypt_key {
            None => { return Err(MDictError::EncryptionRequired); },
            Some(user_key) => {
                let key = derive_record_key(user_key.as_slice());
                let plain = unscramble(block, key.as_slice());
                match decode_block(plain.as_slice(), size) {
                    Ok(p) => p,
                    Err(e) => { return Err(e); },
                }
            },
        }
    } else {
        match decode_block(block, size) {
            Ok(p) => p,
            Err(e) => { return Err(e); },
        }
    };
    cut_record(payload.as_slice(), place)
}

/// Cuts the record at `place` out of the payload of its record block.
pub fn cut_record(payload: &[u8], place: &MDictRecordIndex) -> (res: Result<Vec<u8>, MDictError>)
    ensures
        match res {
            Ok(record) => record_at(payload@, *place) == Ok::<Seq<u8>, MDictError>(record@),
            Err(e) => record_at(payload@, *place) == Err::<Seq<u8>, MDictError>(e),
        },
{
    let from: usize = place.offset as usize;
    let len: usize = place.len as usize;
    if from > payload.len() || len > payload.len() - from {
        return Err(MDictError::CorruptIndex);
    }
    Ok(copy_range(payload, from, from + len))
}

/// Reads the record at `place` in the block `block` of a file.
pub fn lookup(
    file: &[u8],
    place: &MDictRecordIndex,
    block: &MDictRecordBlockIndex,
    header: &MDictHeader,
) -> (res: Result<Vec<u8>, MDictError>)
    ensures
        match res {
            Ok(record) => record_in_file(file@, *block, header@, *place) == Ok::<
                Seq<u8>,
                MDictError,
            >(record@),
            Err(e) => record_in_file(file@, *block, header@, *place) == Err::<Seq<u8>, MDictError>(
                e,
            ),
        },
{
    let total: usize = file.len();
    if block.offset > total as u64 || block.comp_size > total as u64 - block.offset {
        return Err(MDictError::Io);
    }
    let from: usize = block.offset as usize;
    let bytes = vstd::slice::slice_subrange(file, from, from + block.comp_size as usize);
    extract_record(bytes, block.decomp_size, header, place)
}

/// Decodes the text of a definition from its record.
pub fn decode_definition(record: &[u8], encoding: MDictEncoding) -> (res: Result<String, MDictError>)
    ensures
        match res {
            Ok(text) => definition_text(record@, encoding) == Ok::<Seq<char>, MDictError>(text@),
            Err(e) => definition_text(record@, encoding) == Err::<Seq<char>, MDictError>(e),
        },
{
    let n: usize = record.len();
    let keep: usize = match encoding {
        MDictEncoding::Utf16Le => if n >= 2 && n % 2 == 0 && record[n - 1] == 0 && record[n - 2]
            == 0 {
            n - 2
        } else {
            n
        },
        _ => if n >= 1 && record[n - 1] == 0 {
            n - 1
        } else {
            n
        },
    };
    let body = vstd::slice::slice_subrange(record, 0, keep);
    assert(body@ == without_terminator(record@, encoding)) by {
        assert(record@.subrange(0, n as int) == record@);
    }
    match decode_text(encoding, body) {
        Some(text) => Ok(text),
        None => Err(MDictError::CorruptBlock),
    }
}

} // verus!
