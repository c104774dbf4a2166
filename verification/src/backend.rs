//! The decompressors and the digest that the codec relies on.

use vstd::prelude::*;

verus! {

/// What `miniz_oxide` inflates the raw deflate stream `input` to when the
/// output may grow to `limit` bytes, or `None` where it reports an error.
pub uninterp spec fn inflate_output(input: Seq<u8>, limit: nat) -> Option<Seq<u8>>;

/// What `rust-lzo` decompresses the LZO1X stream `input` to in an output
/// buffer of `capacity` bytes, or `None` where it reports an error.
pub uninterp spec fn lzo_output(input: Seq<u8>, capacity: nat) -> Option<Seq<u8>>;

/// The RIPEMD-128 digest of `data`.
pub uninterp spec fn ripemd128_of(data: Seq<u8>) -> Seq<u8>;

/// Calls `miniz_oxide::inflate::decompress_to_vec_with_limit`. The contract
/// only names the outcome; the limit is kept in the range of an allocation.
#[verifier::external_body]
pub(crate) fn inflate(input: &[u8], limit: usize) -> (res: Option<Vec<u8>>)
    requires
        limit <= isize::MAX,
    ensures
        match res {
            Some(out) => inflate_output(input@, limit as nat) == Some(out@),
            None => inflate_output(input@, limit as nat) is None,
        },
{
    miniz_oxide::inflate::decompress_to_vec_with_limit(input, limit).ok()
}

/// Calls `LZOContext::decompress_to_slice` of `rust-lzo` on a zeroed
/// buffer of `capacity` bytes and keeps the part that it filled. The
/// contract only names the outcome; the capacity is kept in the range of
/// an allocation.
#[verifier::external_body]
pub(crate) fn lzo_expand(input: &[u8], capacity: usize) -> (res: Option<Vec<u8>>)
    requires
        capacity <= isize::MAX,
    ensures
        match res {
            Some(out) => lzo_output(input@, capacity as nat) == Some(out@),
            None => lzo_output(input@, capacity as nat) is None,
        },
{
    let mut buffer = vec![0u8; capacity];
    let (filled, status) = rust_lzo::LZOContext::decompress_to_slice(input, &mut buffer);
    let len = filled.len();
    if status == rust_lzo::LZOError::OK {
        buffer.truncate(len);
        Some(buffer)
    } else {
        None
    }
}

/// Calls `Ripemd128::digest` of the `ripemd` crate. The contract names the
/// digest and states its length, sixteen bytes.
#[verifier::external_body]
pub(crate) fn ripemd128(data: &[u8]) -> (res: Vec<u8>)
    ensures
        res@ == ripemd128_of(data@),
        res@.len() == 16,
{
    <ripemd::Ripemd128 as ripemd::Digest>::digest(data).to_vec()
}

} // verus!
