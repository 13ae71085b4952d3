//! Key derivation and the sealed envelope: `salt ‖ nonce ‖ AES-256-GCM(ciphertext ‖ tag)`.

use aes_gcm::aead::{AeadInPlace, KeyInit};
use aes_gcm::{Aes256Gcm, Key, Nonce};
use hkdf::Hkdf;
use rand::rngs::OsRng;
use rand::RngCore;
use sha2::Sha256;
use vstd::prelude::*;
use vstd::slice::slice_to_vec;
use vstd::utf8::encode_utf8;
use crate::error::LockitError;

verus! {

/// Length of the random salt that opens every envelope.
pub const SALT_LEN: usize = 16;

/// Length of the AES-GCM nonce that follows the salt.
pub const NONCE_LEN: usize = 12;

/// Length of the derived AES-256 key.
pub const KEY_LEN: usize = 32;

/// Length of the authentication tag that AES-GCM appends.
pub const TAG_LEN: usize = 16;

/// Salt and nonce together: the fixed header of an envelope.
pub const HEADER_LEN: usize = 28;

/// Longest plaintext that AES-GCM seals, in bytes (2^36).
pub const MAX_PLAINTEXT_LEN: u64 = 68719476736;

/// Output of HKDF-SHA256 (extract with `salt`, expand with empty info) on `ikm`, `len` bytes long.
pub uninterp spec fn hkdf_sha256_of(salt: Seq<u8>, ikm: Seq<u8>, len: nat) -> Seq<u8>;

/// AES-256-GCM ciphertext followed by its 16-byte tag, for empty associated data.
pub uninterp spec fn aes256gcm_seal_of(key: Seq<u8>, nonce: Seq<u8>, plaintext: Seq<u8>) -> Seq<u8>;

#[verifier::external_type_specification]
#[verifier::external_body]
pub struct ExAeadError(aes_gcm::Error);

#[verifier::external_type_specification]
#[verifier::external_body]
pub struct ExInvalidLength(hkdf::InvalidLength);

#[verifier::external_type_specification]
#[verifier::external_body]
pub struct ExRandError(rand::Error);

/// Relies on `OsRng::try_fill_bytes`: on success the buffer of `len` bytes is
/// filled from the operating system's secure source; nothing is known of the values.
#[verifier::external_body]
pub(crate) fn random_bytes(len: usize) -> (r: Result<Vec<u8>, rand::Error>)
    ensures
        r is Ok ==> r->Ok_0@.len() == len,
{
    let mut bytes = vec![0u8; len];
    OsRng.try_fill_bytes(&mut bytes)?;
    Ok(bytes)
}

/// Relies on `Hkdf::<Sha256>::new` and `Hkdf::expand` with empty info: the
/// output depends on salt, key material and length alone, and `expand` refuses
/// lengths above 255 blocks of 32 bytes.
#[verifier::external_body]
fn hkdf_sha256(salt: &[u8], ikm: &[u8], len: usize) -> (r: Result<Vec<u8>, hkdf::InvalidLength>)
    ensures
        r is Ok <==> len <= 8160,
        r is Ok ==> r->Ok_0@ == hkdf_sha256_of(salt@, ikm@, len as nat),
        r is Ok ==> r->Ok_0@.len() == len,
{
    let mut okm = vec![0u8; len];
    Hkdf::<Sha256>::new(Some(salt), ikm).expand(&[], &mut okm)?;
    Ok(okm)
}

/// Relies on `Aes256Gcm::new` and `AeadInPlace::encrypt_in_place` with empty
/// associated data: the buffer becomes ciphertext plus tag; plaintexts longer
/// than `P_MAX` (2^36 bytes) are refused.
#[verifier::external_body]
fn aes256gcm_seal(key: &[u8], nonce: &[u8], plaintext: &[u8]) -> (r: Result<Vec<u8>, aes_gcm::Error>)
    requires
        key@.len() == KEY_LEN,
        nonce@.len() == NONCE_LEN,
    ensures
        r is Ok <==> plaintext@.len() <= MAX_PLAINTEXT_LEN,
        r is Ok ==> r->Ok_0@ == aes256gcm_seal_of(key@, nonce@, plaintext@),
        r is Ok ==> r->Ok_0@.len() == plaintext@.len() + TAG_LEN,
{
    let cipher = Aes256Gcm::new(Key::<Aes256Gcm>::from_slice(key));
    let mut buffer = plaintext.to_vec();
    cipher.encrypt_in_place(Nonce::from_slice(nonce), b"", &mut buffer)?;
    Ok(buffer)
}

/// Relies on `Aes256Gcm::new` and `AeadInPlace::decrypt_in_place` with empty
/// associated data: the 16-byte tag is split off the end and checked against
/// the ciphertext before the keystream is applied, so the result is 16 bytes
/// shorter than the input and the call succeeds exactly on what sealing the
/// recovered plaintext under the same key and nonce produces (for plaintexts
/// that sealing accepts).
#[verifier::external_body]
fn aes256gcm_open(key: &[u8], nonce: &[u8], sealed: &[u8]) -> (r: Result<Vec<u8>, aes_gcm::Error>)
    requires
        key@.len() == KEY_LEN,
        nonce@.len() == NONCE_LEN,
    ensures
        r is Ok ==> r->Ok_0@.len() + TAG_LEN == sealed@.len(),
        r is Ok && r->Ok_0@.len() <= MAX_PLAINTEXT_LEN ==> sealed@ == aes256gcm_seal_of(
            key@,
            nonce@,
            r->Ok_0@,
        ),
        forall|p: Seq<u8>|
            p.len() <= MAX_PLAINTEXT_LEN && sealed@ == #[trigger] aes256gcm_seal_of(key@, nonce@, p)
                ==> (r is Ok && r->Ok_0@ == p),
{
    let cipher = Aes256Gcm::new(Key::<Aes256Gcm>::from_slice(key));
    let mut buffer = sealed.to_vec();
    cipher.decrypt_in_place(Nonce::from_slice(nonce), b"", &mut buffer)?;
    Ok(buffer)
}

/// The key that a passphrase and a salt derive.
pub open spec fn derived_key(passphrase: Seq<char>, salt: Seq<u8>) -> Seq<u8> {
    hkdf_sha256_of(salt, encode_utf8(passphrase), KEY_LEN as nat)
}

/// The envelope `salt ‖ nonce ‖ ciphertext+tag` of `plaintext` under `passphrase`.
pub open spec fn seal_envelope(
    plaintext: Seq<u8>,
    passphrase: Seq<char>,
    salt: Seq<u8>,
    nonce: Seq<u8>,
) -> Seq<u8> {
    salt + nonce + aes256gcm_seal_of(derived_key(passphrase, salt), nonce, plaintext)
}

/// `envelope` is the sealing of `plaintext` under `passphrase`, with the salt
/// and nonce that the envelope itself carries.
pub open spec fn opens_to(envelope: Seq<u8>, passphrase: Seq<char>, plaintext: Seq<u8>) -> bool {
    &&& envelope.len() >= HEADER_LEN
    &&& plaintext.len() <= MAX_PLAINTEXT_LEN
    &&& envelope == seal_envelope(
        plaintext,
        passphrase,
        envelope.subrange(0, SALT_LEN as int),
        envelope.subrange(SALT_LEN as int, HEADER_LEN as int),
    )
}

/// Derives the 32-byte key for `password` and `salt` (HKDF-SHA256, empty info).
pub fn derive_key(password: &str, salt: &[u8]) -> (key: Vec<u8>)
    ensures
        key@ == derived_key(password@, salt@),
        key@.len() == KEY_LEN,
{
    match hkdf_sha256(salt, password.as_bytes(), KEY_LEN) {
        Ok(key) => key,
        Err(_) => unreached(),
    }
}

/// Seals `data` under `password` with the given salt and nonce.
pub fn encrypt_data_with(data: &[u8], password: &str, salt: &[u8], nonce: &[u8]) -> (r: Result<
    Vec<u8>,
    LockitError,
>)
    requires
        salt@.len() == SALT_LEN,
        nonce@.len() == NONCE_LEN,
    ensures
        r is Ok <==> data@.len() <= MAX_PLAINTEXT_LEN,
        r is Ok ==> r->Ok_0@ == seal_envelope(data@, password@, salt@, nonce@),
        r is Ok ==> r->Ok_0@.len() == HEADER_LEN + data@.len() + TAG_LEN,
        r is Err ==> r->Err_0 == LockitError::Encryption,
{
    let key = derive_key(password, salt);
    match aes256gcm_seal(key.as_slice(), nonce, data) {
        Ok(sealed) => {
            let mut out = slice_to_vec(salt);
            out.extend_from_slice(nonce);
            out.extend_from_slice(sealed.as_slice());
            assert(out@ =~= seal_envelope(data@, password@, salt@, nonce@));
            Ok(out)
        },
        Err(_) => Err(LockitError::Encryption),
    }
}

/// Seals `data` under `password` with a fresh random salt and nonce.
pub fn encrypt_data(data: &[u8], password: &str) -> (r: Result<Vec<u8>, LockitError>)
    ensures
        r is Ok ==> exists|salt: Seq<u8>, nonce: Seq<u8>|
            salt.len() == SALT_LEN && nonce.len() == NONCE_LEN && r->Ok_0@ == seal_envelope(
                data@,
                password@,
                salt,
                nonce,
            ),
        r is Ok ==> data@.len() <= MAX_PLAINTEXT_LEN,
        r is Ok ==> r->Ok_0@.len() == HEADER_LEN + data@.len() + TAG_LEN,
        r is Err ==> (r->Err_0 == LockitError::Encryption <==> data@.len() > MAX_PLAINTEXT_LEN),
        r is Err ==> (r->Err_0 == LockitError::Encryption || r->Err_0 == LockitError::RandomSource),
{
    let salt = match random_bytes(SALT_LEN) {
        Ok(s) => s,
        Err(_) => {
            if data.len() as u64 > MAX_PLAINTEXT_LEN {
                return Err(LockitError::Encryption);
            }
            return Err(LockitError::RandomSource);
        },
    };
    let nonce = match random_bytes(NONCE_LEN) {
        Ok(n) => n,
        Err(_) => {
            if data.len() as u64 > MAX_PLAINTEXT_LEN {
                return Err(LockitError::Encryption);
            }
            return Err(LockitError::RandomSource);
        },
    };
    encrypt_data_with(data, password, salt.as_slice(), nonce.as_slice())
}

/// Opens an envelope made by `encrypt_data` under `password`. An envelope
/// that authenticates to more than `MAX_PLAINTEXT_LEN` bytes is refused like
/// any other: sealing never produces one.
pub fn decrypt_data(data: &[u8], password: &str) -> (r: Result<Vec<u8>, LockitError>)
    ensures
        r is Ok ==> opens_to(data@, password@, r->Ok_0@),
        r is Ok ==> r->Ok_0@.len() + HEADER_LEN + TAG_LEN == data@.len(),
        forall|x: Seq<u8>| #[trigger] opens_to(data@, password@, x) ==> (r is Ok && r->Ok_0@ == x),
        r is Err ==> r->Err_0 == LockitError::Authentication,
{
    if data.len() < HEADER_LEN {
        return Err(LockitError::Authentication);
    }
    let salt = &data[0..SALT_LEN];
    let nonce = &data[SALT_LEN..HEADER_LEN];
    let sealed = &data[HEADER_LEN..data.len()];
    let key = derive_key(password, salt);
    proof {
        assert(data@ =~= salt@ + nonce@ + sealed@);
        assert forall|x: Seq<u8>| #[trigger] opens_to(data@, password@, x) implies sealed@
            == aes256gcm_seal_of(key@, nonce@, x) by {
            let s = seal_envelope(x, password@, salt@, nonce@);
            assert(sealed@ =~= s.subrange(HEADER_LEN as int, s.len() as int));
        }
    }
    match aes256gcm_open(key.as_slice(), nonce, sealed) {
        Ok(plain) => {
            if plain.len() as u64 > MAX_PLAINTEXT_LEN {
                return Err(LockitError::Authentication);
            }
            assert(data@ =~= seal_envelope(plain@, password@, salt@, nonce@));
            Ok(plain)
        },
        Err(_) => Err(LockitError::Authentication),
    }
}

/// Round trip: an envelope sealed from `x` under `p`, whatever its salt and
/// nonce, is one that `decrypt_data` opens to `x` under `p`.
pub proof fn lemma_envelope_round_trip(x: Seq<u8>, p: Seq<char>, salt: Seq<u8>, nonce: Seq<u8>)
    requires
        x.len() <= MAX_PLAINTEXT_LEN,
        salt.len() == SALT_LEN,
        nonce.len() == NONCE_LEN,
    ensures
        opens_to(seal_envelope(x, p, salt, nonce), p, x),
{
    let e = seal_envelope(x, p, salt, nonce);
    assert(e.subrange(0, SALT_LEN as int) =~= salt);
    assert(e.subrange(SALT_LEN as int, HEADER_LEN as int) =~= nonce);
}

} // verus!
