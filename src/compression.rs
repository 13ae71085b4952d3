//! Whole-buffer zstd compression.

use vstd::prelude::*;
use crate::error::LockitError;

verus! {

/// The zstd frame that `zstd::stream::encode_all` writes for `data` at the default level.
pub uninterp spec fn zstd_encode_of(data: Seq<u8>) -> Seq<u8>;

/// What `zstd::stream::decode_all` recovers from `data`; `None` where it fails.
pub uninterp spec fn zstd_decode_of(data: Seq<u8>) -> Option<Seq<u8>>;

#[verifier::external_type_specification]
#[verifier::external_body]
pub struct ExIoError(std::io::Error);

/// Relies on `zstd::stream::encode_all` at level 0 (zstd's default level):
/// the frame depends on the input alone; the encoder fails only on a bad level
/// or dictionary (level 0 and no dictionary are valid), and reading a slice
/// into a `Vec` does not fail.
#[verifier::external_body]
fn zstd_encode_all(data: &[u8]) -> (r: Result<Vec<u8>, std::io::Error>)
    ensures
        r is Ok,
        r is Ok ==> r->Ok_0@ == zstd_encode_of(data@),
{
    zstd::stream::encode_all(data, 0)
}

/// Relies on `zstd::stream::decode_all`: success and result depend on the
/// input alone, and zstd is lossless, so a frame that `encode_all` wrote
/// decodes to exactly what was encoded.
#[verifier::external_body]
fn zstd_decode_all(data: &[u8]) -> (r: Result<Vec<u8>, std::io::Error>)
    ensures
        r is Ok <==> zstd_decode_of(data@) is Some,
        r is Ok ==> r->Ok_0@ == zstd_decode_of(data@)->0,
        forall|x: Seq<u8>| data@ == #[trigger] zstd_encode_of(x) ==> (r is Ok && r->Ok_0@ == x),
{
    zstd::stream::decode_all(data)
}

/// Compresses a whole buffer with zstd at its default level.
pub fn compress_data(data: &[u8]) -> (r: Result<Vec<u8>, LockitError>)
    ensures
        r is Ok && r->Ok_0@ == zstd_encode_of(data@),
{
    match zstd_encode_all(data) {
        Ok(frame) => Ok(frame),
        Err(_) => unreached(),
    }
}

/// Decompresses a whole zstd buffer.
pub fn decompress_data(data: &[u8]) -> (r: Result<Vec<u8>, LockitError>)
    ensures
        r is Ok <==> zstd_decode_of(data@) is Some,
        r is Ok ==> r->Ok_0@ == zstd_decode_of(data@)->0,
        forall|x: Seq<u8>| data@ == #[trigger] zstd_encode_of(x) ==> (r is Ok && r->Ok_0@ == x),
        r is Err ==> r->Err_0 == LockitError::Compression,
{
    match zstd_decode_all(data) {
        Ok(plain) => Ok(plain),
        Err(_) => Err(LockitError::Compression),
    }
}

} // verus!
