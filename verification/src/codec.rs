//! The codec kit: the scramble of encrypted buffers and the decoding of
//! compressed blocks.
//!
//! Every compressed block opens with a four-byte tag that names its codec
//! and the little-endian Adler-32 checksum of its decompressed payload.

use vstd::prelude::*;
use crate::backend::inflate;
use crate::backend::inflate_output;
use crate::backend::lzo_expand;
use crate::backend::lzo_output;
use crate::backend::ripemd128;
use crate::backend::ripemd128_of;
use crate::checksum::adler32;
use crate::checksum::adler32_of;
use crate::error::MDictError;
use crate::wire::le32;
use crate::wire::read_le_u32;

verus! {

/// The largest decompressed size that a block may declare.
pub const MAX_BLOCK_SIZE: u64 = 0x7fff_ffff;

/// The length of the prefix of a block: its tag and its checksum.
pub const BLOCK_PREFIX: usize = 8;

/// The byte with the two halves of `b` exchanged.
pub open spec fn swap_halves(b: u8) -> u8 {
    (b / 16 + (b % 16) * 16) as u8
}

/// The plain byte at position `pos` of a scrambled buffer: the byte with
/// its halves exchanged, combined with the scrambled byte before it, the
/// low eight bits of the position and the key byte of the position.
pub open spec fn plain_byte(cur: u8, prev: u8, pos: int, key: u8) -> u8 {
    swap_halves(cur) ^ prev ^ ((pos % 256) as u8) ^ key
}

/// The plain form of a scrambled buffer under a sixteen-byte key. The byte
/// before the first one counts as zero.
pub open spec fn unscrambled(input: Seq<u8>, key: Seq<u8>) -> Seq<u8> {
    Seq::new(
        input.len(),
        |i: int|
            plain_byte(
                input[i],
                if i == 0 {
                    0u8
                } else {
                    input[i - 1]
                },
                i,
                key[i % 16],
            ),
    )
}

/// The constant that closes the input of the directory key's digest.
pub open spec fn directory_salt() -> Seq<u8> {
    seq![0x95u8, 0x36u8, 0x00u8, 0x00u8]
}

/// The key that unscrambles a key-block directory: the RIPEMD-128 digest of
/// the last four bytes of the field that holds the directory's length,
/// followed by the salt.
pub open spec fn directory_key(length_tail: Seq<u8>) -> Seq<u8> {
    ripemd128_of(length_tail + directory_salt())
}

/// The key that unscrambles record blocks: the RIPEMD-128 digest of the
/// user's key.
pub open spec fn record_key(user_key: Seq<u8>) -> Seq<u8> {
    ripemd128_of(user_key)
}

/// Exchanges the two halves of a byte.
fn swap_byte_halves(b: u8) -> (res: u8)
    ensures
        res == swap_halves(b),
{
    assert(((b >> 4) | (b << 4)) == (b / 16 + (b % 16) * 16) as u8) by (bit_vector);
    (b >> 4) | (b << 4)
}

/// Unscrambles `input` under `key`.
pub fn unscramble(input: &[u8], key: &[u8]) -> (res: Vec<u8>)
    requires
        key@.len() == 16,
    ensures
        res@ == unscrambled(input@, key@),
{
    let mut out: Vec<u8> = Vec::new();
    let mut prev: u8 = 0;
    let mut i: usize = 0;
    while i < input.len()
        invariant
            i <= input@.len(),
            key@.len() == 16,
            out@.len() == i,
            prev == if i == 0 {
                0u8
            } else {
                input@[i - 1]
            },
            forall|j: int| 0 <= j < i ==> out@[j] == unscrambled(input@, key@)[j],
        decreases input@.len() - i,
    {
        let cur: u8 = input[i];
        let plain: u8 = swap_byte_halves(cur) ^ prev ^ ((i % 256) as u8) ^ key[i % 16];
        out.push(plain);
        prev = cur;
        i = i + 1;
    }
    out
}

/// Derives the key of a scrambled key-block directory from the last four
/// bytes of its length field.
pub fn derive_directory_key(length_tail: &[u8]) -> (key: Vec<u8>)
    ensures
        key@ == directory_key(length_tail@),
        key@.len() == 16,
{
    let mut material: Vec<u8> = vstd::slice::slice_to_vec(length_tail);
    material.push(0x95);
    material.push(0x36);
    material.push(0x00);
    material.push(0x00);
    assert(material@ =~= length_tail@ + directory_salt());
    ripemd128(material.as_slice())
}

/// Derives the key of scrambled record blocks from the user's key.
pub fn derive_record_key(user_key: &[u8]) -> (key: Vec<u8>)
    ensures
        key@ == record_key(user_key@),
        key@.len() == 16,
{
    ripemd128(user_key)
}

/// How the body of a block is compressed.
#[derive(Clone, Copy, Debug, PartialEq, Eq, Structural)]
pub enum BlockCodec {
    /// The body is the payload.
    Stored,
    /// The body is an LZO1X stream.
    Lzo,
    /// The body is a raw deflate stream.
    Deflate,
}

/// The codec that the tag of a block names, if the block holds a tag and
/// the tag names a codec.
pub open spec fn codec_of_tag(block: Seq<u8>) -> Option<BlockCodec> {
    if block.len() < 4 || block[1] != 0 || block[2] != 0 || block[3] != 0 {
        None
    } else if block[0] == 0 {
        Some(BlockCodec::Stored)
    } else if block[0] == 1 {
        Some(BlockCodec::Lzo)
    } else if block[0] == 2 {
        Some(BlockCodec::Deflate)
    } else {
        None
    }
}

/// What the body of a block expands to under its codec, when the payload is
/// announced to have `size` bytes.
pub open spec fn expanded(codec: BlockCodec, body: Seq<u8>, size: nat) -> Option<Seq<u8>> {
    match codec {
        BlockCodec::Stored => Some(body),
        BlockCodec::Lzo => lzo_output(body, size),
        BlockCodec::Deflate => inflate_output(body, size),
    }
}

/// What is accepted of the expansion of a block's body: the payload, where
/// there is one, it has the announced size and its Adler-32 checksum is
/// the stamp of the block.
pub open spec fn accepted_payload(expansion: Option<Seq<u8>>, size: nat, stamp: int) -> Option<
    Seq<u8>,
> {
    match expansion {
        None => None,
        Some(payload) => if payload.len() == size && adler32_of(payload) == stamp {
            Some(payload)
        } else {
            None
        },
    }
}

/// The payload of a block that is announced to decompress to `size` bytes:
/// what its body expands to, provided that the tag names a codec, the size
/// is in range, the payload has the announced size and its Adler-32
/// checksum is the one the prefix holds.
pub open spec fn block_payload(block: Seq<u8>, size: nat) -> Option<Seq<u8>> {
    if block.len() < 8 || size > MAX_BLOCK_SIZE {
        None
    } else {
        match codec_of_tag(block) {
            None => None,
            Some(codec) => accepted_payload(
                expanded(codec, block.skip(8), size),
                size,
                le32(block, 4),
            ),
        }
    }
}

/// Reads the codec that the tag of a block names.
pub fn read_codec(block: &[u8]) -> (res: Option<BlockCodec>)
    ensures
        res == codec_of_tag(block@),
{
    if block.len() < 4 || block[1] != 0 || block[2] != 0 || block[3] != 0 {
        None
    } else if block[0] == 0 {
        Some(BlockCodec::Stored)
    } else if block[0] == 1 {
        Some(BlockCodec::Lzo)
    } else if block[0] == 2 {
        Some(BlockCodec::Deflate)
    } else {
        None
    }
}

/// Decodes a block that is announced to decompress to `size` bytes. Any
/// violation is reported as a corrupt block.
pub fn decode_block(block: &[u8], size: u64) -> (res: Result<Vec<u8>, MDictError>)
    ensures
        match res {
            Ok(payload) => block_payload(block@, size as nat) == Some(payload@),
            Err(e) => e == MDictError::CorruptBlock && block_payload(block@, size as nat) is None,
        },
{
    if block.len() < BLOCK_PREFIX || size > MAX_BLOCK_SIZE {
        return Err(MDictError::CorruptBlock);
    }
    let codec = match read_codec(block) {
        Some(c) => c,
        None => { return Err(MDictError::CorruptBlock); },
    };
    let stamp: u32 = match read_le_u32(block, 4) {
        Some(v) => v,
        None => { return Err(MDictError::CorruptBlock); },
    };
    let body = vstd::slice::slice_subrange(block, BLOCK_PREFIX, block.len());
    let limit: usize = size as usize;
    let expansion: Option<Vec<u8>> = match codec {
        BlockCodec::Stored => Some(vstd::slice::slice_to_vec(body)),
        BlockCodec::Lzo => lzo_expand(body, limit),
        BlockCodec::Deflate => inflate(body, limit),
    };
    check_payload(expansion, size, stamp)
}

/// Accepts the expansion of a block's body as the payload of the block,
/// where it has the announced size and the checksum that the block is
/// stamped with. Anything else is a corrupt block.
pub fn check_payload(expansion: Option<Vec<u8>>, size: u64, stamp: u32) -> (res: Result<
    Vec<u8>,
    MDictError,
>)
    ensures
        match res {
            Ok(payload) => expansion == Some(payload) && payload@.len() == size && adler32_of(
                payload@,
            ) == stamp,
            Err(e) => e == MDictError::CorruptBlock && (expansion is None
                || expansion.unwrap()@.len() != size || adler32_of(expansion.unwrap()@) != stamp),
        },
{
    match expansion {
        None => Err(MDictError::CorruptBlock),
        Some(payload) => {
            if payload.len() as u64 == size && adler32(payload.as_slice()) == stamp {
                Ok(payload)
            } else {
                Err(MDictError::CorruptBlock)
            }
        },
    }
}

} // verus!
