//! File names: the marker suffixes and the reversible encryption of a name.

use vstd::prelude::*;
use vstd::string::StrSliceExecFns;
use vstd::utf8::{decode_utf8, encode_utf8, encode_utf8_decode_utf8, encode_utf8_valid_utf8, valid_utf8};
use crate::crypto::{
    decrypt_data,
    encrypt_data,
    lemma_envelope_round_trip,
    opens_to,
    seal_envelope,
    HEADER_LEN,
    MAX_PLAINTEXT_LEN,
    NONCE_LEN,
    SALT_LEN,
    TAG_LEN,
};
use crate::error::LockitError;
use crate::hexcode::{
    hex_decode,
    hex_decode_str,
    hex_encode,
    hex_encode_bytes,
    is_hex,
    lemma_hex_round_trip,
};
use crate::text::{ends_with, join, prefix_of, str_ends_with};

verus! {

/// Extension that marks an encrypted file.
pub const FILE_EXTENSION: &'static str = "lockit";

/// Segment that, in front of the file extension, marks an encrypted directory archive.
pub const DIRECTORY_EXTENSION: &'static str = "dir";

/// `.lockit`: what an encrypted file's name ends with.
pub open spec fn file_suffix() -> Seq<char> {
    "."@ + FILE_EXTENSION@
}

/// `.dir.lockit`: what an encrypted directory archive's name ends with.
pub open spec fn archive_suffix() -> Seq<char> {
    "."@ + DIRECTORY_EXTENSION@ + file_suffix()
}

/// The suffix of an encrypted file's name.
pub fn file_suffix_string() -> (r: String)
    ensures
        r@ == file_suffix(),
{
    join(".", FILE_EXTENSION)
}

/// The suffix of an encrypted directory archive's name.
pub fn archive_suffix_string() -> (r: String)
    ensures
        r@ == archive_suffix(),
{
    let dir = join(".", DIRECTORY_EXTENSION);
    let file = file_suffix_string();
    join(dir.as_str(), file.as_str())
}

/// The stem of `name` when `name` is a non-empty stem followed by `suffix`.
pub fn split_marker(name: &str, suffix: &str) -> (r: Option<String>)
    ensures
        r is Some <==> has_marker(name@, suffix@),
        r is Some ==> r->Some_0@ == strip_marker(name@, suffix@),
{
    let n = name.unicode_len();
    let m = suffix.unicode_len();
    if n > m && str_ends_with(name, suffix) {
        Some(prefix_of(name, n - m))
    } else {
        None
    }
}

/// `name` is a non-empty stem followed by `suffix`.
pub open spec fn has_marker(name: Seq<char>, suffix: Seq<char>) -> bool {
    ends_with(name, suffix) && name.len() > suffix.len()
}

/// `name` without its last `suffix.len()` characters.
pub open spec fn strip_marker(name: Seq<char>, suffix: Seq<char>) -> Seq<char> {
    name.subrange(0, name.len() - suffix.len())
}

#[verifier::external_type_specification]
#[verifier::external_body]
pub struct ExFromUtf8Error(std::string::FromUtf8Error);

/// Relies on `String::from_utf8`: it accepts exactly the valid UTF-8 byte
/// sequences and keeps the characters they encode.
#[verifier::external_body]
fn string_from_utf8(bytes: Vec<u8>) -> (r: Result<String, std::string::FromUtf8Error>)
    ensures
        r is Ok <==> valid_utf8(bytes@),
        r is Ok ==> encode_utf8(r->Ok_0@) == bytes@,
{
    String::from_utf8(bytes)
}

/// `h` is the hex spelling of some sealing of the UTF-8 bytes of `name` under `p`.
pub open spec fn is_sealed_name(h: Seq<char>, name: Seq<char>, p: Seq<char>) -> bool {
    exists|salt: Seq<u8>, nonce: Seq<u8>|
        salt.len() == SALT_LEN && nonce.len() == NONCE_LEN && h == hex_encode(
            seal_envelope(encode_utf8(name), p, salt, nonce),
        )
}

/// `h` is hex whose bytes authenticate under `p` and hold the UTF-8 bytes of `name`.
pub open spec fn name_holds(h: Seq<char>, p: Seq<char>, name: Seq<char>) -> bool {
    is_hex(h) && opens_to(hex_decode(h), p, encode_utf8(name))
}

/// `h` is hex, but its bytes do not authenticate under `p`.
pub open spec fn name_rejected(h: Seq<char>, p: Seq<char>) -> bool {
    is_hex(h) && forall|c: Seq<u8>| !#[trigger] opens_to(hex_decode(h), p, c)
}

/// Encrypts a file name: its UTF-8 bytes sealed under `password`, spelled in hex.
pub fn encrypt_filename(filename: &str, password: &str) -> (r: Result<String, LockitError>)
    ensures
        r is Ok ==> is_sealed_name(r->Ok_0@, filename@, password@),
        r is Ok ==> encode_utf8(filename@).len() <= MAX_PLAINTEXT_LEN,
        r is Ok ==> r->Ok_0@.len() == 2 * (HEADER_LEN + encode_utf8(filename@).len() + TAG_LEN),
        r is Err ==> (r->Err_0 == LockitError::Encryption <==> encode_utf8(filename@).len()
            > MAX_PLAINTEXT_LEN),
        r is Err ==> (r->Err_0 == LockitError::Encryption || r->Err_0
            == LockitError::RandomSource),
{
    let sealed = encrypt_data(filename.as_bytes(), password)?;
    let h = hex_encode_bytes(sealed.as_slice());
    proof {
        let (salt, nonce) = choose|salt: Seq<u8>, nonce: Seq<u8>|
            salt.len() == SALT_LEN && nonce.len() == NONCE_LEN && sealed@ == seal_envelope(
                encode_utf8(filename@),
                password@,
                salt,
                nonce,
            );
        assert(h@ == hex_encode(seal_envelope(encode_utf8(filename@), password@, salt, nonce)));
    }
    Ok(h)
}

/// Decrypts a name that `encrypt_filename` produced.
pub fn decrypt_filename(hex_encoded: &str, password: &str) -> (r: Result<String, LockitError>)
    ensures
        r is Ok ==> name_holds(hex_encoded@, password@, r->Ok_0@),
        r is Ok ==> hex_decode(hex_encoded@).len() == HEADER_LEN + encode_utf8(r->Ok_0@).len()
            + TAG_LEN,
        forall|n: Seq<char>| #[trigger]
            name_holds(hex_encoded@, password@, n) ==> (r is Ok && r->Ok_0@ == n),
        forall|c: Seq<u8>|
            is_hex(hex_encoded@) && #[trigger] opens_to(hex_decode(hex_encoded@), password@, c)
                && !valid_utf8(c) ==> r == Err::<String, LockitError>(LockitError::MalformedName),
        !is_hex(hex_encoded@) ==> r == Err::<String, LockitError>(LockitError::MalformedName),
        r is Err ==> (r->Err_0 == LockitError::Authentication <==> name_rejected(
            hex_encoded@,
            password@,
        )),
        r is Err ==> (r->Err_0 == LockitError::Authentication || r->Err_0
            == LockitError::MalformedName),
{
    let bytes = match hex_decode_str(hex_encoded) {
        Ok(b) => b,
        Err(_) => return Err(LockitError::MalformedName),
    };
    let plain = decrypt_data(bytes.as_slice(), password)?;
    proof {
        broadcast use encode_utf8_valid_utf8;

    }
    match string_from_utf8(plain) {
        Ok(name) => {
            proof {
                broadcast use encode_utf8_decode_utf8;

                assert forall|n: Seq<char>| #[trigger]
                    name_holds(hex_encoded@, password@, n) implies name@ == n by {
                    assert(decode_utf8(encode_utf8(name@)) == decode_utf8(encode_utf8(n)));
                }
            }
            Ok(name)
        },
        Err(_) => Err(LockitError::MalformedName),
    }
}

/// `out` is the name under which the result is written: on encryption `name`
/// itself or its encryption (two hex digits per envelope byte), on decryption
/// `name` (a stem without its marker) itself or its decryption.
pub open spec fn renamed(
    out: Seq<char>,
    name: Seq<char>,
    p: Seq<char>,
    encrypt: bool,
    encrypt_filenames: bool,
) -> bool {
    if !encrypt_filenames {
        out == name
    } else if encrypt {
        &&& is_sealed_name(out, name, p)
        &&& encode_utf8(name).len() <= MAX_PLAINTEXT_LEN
        &&& out.len() == 2 * (HEADER_LEN + encode_utf8(name).len() + TAG_LEN)
    } else {
        &&& name_holds(name, p, out)
        &&& hex_decode(name).len() == HEADER_LEN + encode_utf8(out).len() + TAG_LEN
    }
}

/// `name` can be turned back into a plain name under `p`.
pub open spec fn name_resolves(name: Seq<char>, p: Seq<char>, encrypt_filenames: bool) -> bool {
    !encrypt_filenames || exists|n: Seq<char>| name_holds(name, p, n)
}

/// The errors that renaming `name` may report, and when.
pub open spec fn rename_error(e: LockitError, name: Seq<char>, p: Seq<char>, encrypt: bool) -> bool {
    if encrypt {
        &&& (e == LockitError::Encryption <==> encode_utf8(name).len() > MAX_PLAINTEXT_LEN)
        &&& (e == LockitError::Encryption || e == LockitError::RandomSource)
    } else {
        &&& (e == LockitError::Authentication <==> name_rejected(name, p))
        &&& (e == LockitError::Authentication || e == LockitError::MalformedName)
        &&& (!is_hex(name) ==> e == LockitError::MalformedName)
    }
}

/// The name under which the result of processing `name` is written (without
/// any marker): see `renamed`.
pub fn get_new_filename(name: &str, password: &str, encrypt: bool, encrypt_filenames: bool) -> (r:
    Result<String, LockitError>)
    ensures
        r is Ok ==> renamed(r->Ok_0@, name@, password@, encrypt, encrypt_filenames),
        !encrypt_filenames ==> r is Ok,
        forall|n: Seq<char>|
            encrypt_filenames && !encrypt && #[trigger] name_holds(name@, password@, n) ==> (r is Ok
                && r->Ok_0@ == n),
        r is Err ==> encrypt_filenames && rename_error(r->Err_0, name@, password@, encrypt),
{
    if !encrypt_filenames {
        Ok(name.to_owned())
    } else if encrypt {
        encrypt_filename(name, password)
    } else {
        decrypt_filename(name, password)
    }
}

/// Decrypting the encryption of a name under the same passphrase gives the
/// name back, whatever salt and nonce the encryption drew.
pub proof fn lemma_name_round_trip(n: Seq<char>, p: Seq<char>, salt: Seq<u8>, nonce: Seq<u8>)
    requires
        encode_utf8(n).len() <= MAX_PLAINTEXT_LEN,
        salt.len() == SALT_LEN,
        nonce.len() == NONCE_LEN,
    ensures
        name_holds(hex_encode(seal_envelope(encode_utf8(n), p, salt, nonce)), p, n),
{
    let e = seal_envelope(encode_utf8(n), p, salt, nonce);
    lemma_hex_round_trip(e);
    lemma_envelope_round_trip(encode_utf8(n), p, salt, nonce);
}

} // verus!
