//! Whole-buffer encryption: compress, then seal; open, then decompress.

use vstd::prelude::*;
use crate::compression::{compress_data, decompress_data, zstd_decode_of, zstd_encode_of};
use crate::crypto::{
    decrypt_data,
    encrypt_data,
    lemma_envelope_round_trip,
    opens_to,
    seal_envelope,
    HEADER_LEN,
    MAX_PLAINTEXT_LEN,
    NONCE_LEN,
    SALT_LEN,
    TAG_LEN,
};
use crate::error::LockitError;

verus! {

/// The bytes that whole-buffer encryption writes for `x` under `p`: the zstd
/// frame of `x`, sealed with the given salt and nonce.
pub open spec fn sealed_stream(x: Seq<u8>, p: Seq<char>, salt: Seq<u8>, nonce: Seq<u8>) -> Seq<u8> {
    seal_envelope(zstd_encode_of(x), p, salt, nonce)
}

/// `e` is some sealing of `x` under `p`, with a salt and nonce of the right lengths.
pub open spec fn is_sealed_stream(e: Seq<u8>, x: Seq<u8>, p: Seq<char>) -> bool {
    exists|salt: Seq<u8>, nonce: Seq<u8>|
        salt.len() == SALT_LEN && nonce.len() == NONCE_LEN && e == sealed_stream(x, p, salt, nonce)
}

/// `e` authenticates under `p` and holds the zstd frame of `x`.
pub open spec fn stream_holds(e: Seq<u8>, p: Seq<char>, x: Seq<u8>) -> bool {
    opens_to(e, p, zstd_encode_of(x))
}

/// `x` is what decompressing the authenticated content of `e` gives; that
/// content is the envelope less its header and tag.
pub open spec fn stream_opens(e: Seq<u8>, p: Seq<char>, x: Seq<u8>) -> bool {
    exists|c: Seq<u8>|
        opens_to(e, p, c) && c.len() + HEADER_LEN + TAG_LEN == e.len() && zstd_decode_of(c)
            == Some(x)
}

/// `e` authenticates under `p` and what it holds decompresses.
pub open spec fn stream_decodes(e: Seq<u8>, p: Seq<char>) -> bool {
    exists|c: Seq<u8>| #[trigger] opens_to(e, p, c) && zstd_decode_of(c) is Some
}

/// `e` does not authenticate under `p` at all.
pub open spec fn stream_rejected(e: Seq<u8>, p: Seq<char>) -> bool {
    forall|c: Seq<u8>| !#[trigger] opens_to(e, p, c)
}

/// Compresses `input`, then seals it under `password` with a fresh salt and nonce.
pub fn encrypt_data_via_pipe(input: &[u8], password: &str) -> (r: Result<Vec<u8>, LockitError>)
    ensures
        r is Ok ==> is_sealed_stream(r->Ok_0@, input@, password@),
        r is Ok ==> r->Ok_0@.len() == HEADER_LEN + zstd_encode_of(input@).len() + TAG_LEN,
        r is Ok ==> zstd_encode_of(input@).len() <= MAX_PLAINTEXT_LEN,
        r is Err ==> (r->Err_0 == LockitError::Encryption <==> zstd_encode_of(input@).len()
            > MAX_PLAINTEXT_LEN),
        r is Err ==> (r->Err_0 == LockitError::Encryption || r->Err_0
            == LockitError::RandomSource),
{
    let compressed = compress_data(input)?;
    let sealed = encrypt_data(compressed.as_slice(), password)?;
    proof {
        let (salt, nonce) = choose|salt: Seq<u8>, nonce: Seq<u8>|
            salt.len() == SALT_LEN && nonce.len() == NONCE_LEN && sealed@ == seal_envelope(
                compressed@,
                password@,
                salt,
                nonce,
            );
        assert(sealed@ == sealed_stream(input@, password@, salt, nonce));
    }
    Ok(sealed)
}

/// Opens an envelope under `password`, then decompresses what it holds.
pub fn decrypt_data_via_pipe(input: &[u8], password: &str) -> (r: Result<Vec<u8>, LockitError>)
    ensures
        r is Ok <==> stream_decodes(input@, password@),
        r is Ok ==> stream_opens(input@, password@, r->Ok_0@),
        forall|x: Seq<u8>| #[trigger]
            stream_holds(input@, password@, x) ==> (r is Ok && r->Ok_0@ == x),
        r is Err ==> (r->Err_0 == LockitError::Authentication <==> stream_rejected(
            input@,
            password@,
        )),
        r is Err ==> (r->Err_0 == LockitError::Authentication || r->Err_0
            == LockitError::Compression),
{
    let opened = decrypt_data(input, password);
    match opened {
        Ok(compressed) => {
            let plain = decompress_data(compressed.as_slice());
            assert forall|x: Seq<u8>| #[trigger] stream_holds(input@, password@, x) implies (
            plain is Ok && plain->Ok_0@ == x) by {
                assert(opens_to(input@, password@, zstd_encode_of(x)));
            }
            assert forall|c: Seq<u8>| #[trigger]
                opens_to(input@, password@, c) && zstd_decode_of(c) is Some implies plain is Ok by {
                assert(compressed@ == c);
            }
            match plain {
                Ok(p) => {
                    assert(opens_to(input@, password@, compressed@));
                    Ok(p)
                },
                Err(e) => Err(e),
            }
        },
        Err(e) => {
            assert forall|c: Seq<u8>| !#[trigger] opens_to(input@, password@, c) by {
            }
            Err(e)
        },
    }
}

/// Round trip: the sealing of `x` under `p`, whatever its salt and nonce, is a
/// stream that `decrypt_data_via_pipe` turns back into `x`.
pub proof fn lemma_stream_round_trip(x: Seq<u8>, p: Seq<char>, salt: Seq<u8>, nonce: Seq<u8>)
    requires
        zstd_encode_of(x).len() <= MAX_PLAINTEXT_LEN,
        salt.len() == SALT_LEN,
        nonce.len() == NONCE_LEN,
    ensures
        stream_holds(sealed_stream(x, p, salt, nonce), p, x),
{
    lemma_envelope_round_trip(zstd_encode_of(x), p, salt, nonce);
}

} // verus!
