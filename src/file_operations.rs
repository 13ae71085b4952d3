//! What processing one file or one directory archive produces, as names and bytes.

use vstd::prelude::*;
use vstd::utf8::encode_utf8;
use crate::cli::Mode;
use crate::error::LockitError;
use crate::compression::zstd_encode_of;
use crate::crypto::{seal_envelope, HEADER_LEN, MAX_PLAINTEXT_LEN, NONCE_LEN, SALT_LEN, TAG_LEN};
use crate::hexcode::{hex_encode, hex_digit};
use crate::names::{
    lemma_name_round_trip,
    DIRECTORY_EXTENSION,
    archive_suffix,
    archive_suffix_string,
    file_suffix,
    file_suffix_string,
    get_new_filename,
    has_marker,
    name_holds,
    name_resolves,
    rename_error,
    renamed,
    split_marker,
    strip_marker,
};
use crate::pipe::{
    lemma_stream_round_trip,
    sealed_stream,
    decrypt_data_via_pipe,
    encrypt_data_via_pipe,
    is_sealed_stream,
    stream_holds,
    stream_opens,
    stream_decodes,
    stream_rejected,
};
use crate::text::{ends_with, join};

verus! {

/// What a path is on disk.
#[derive(Debug, Clone, Copy, PartialEq, Eq, Structural)]
pub enum PathKind {
    File,
    Directory,
    /// Absent, a symbolic link, or anything else that is neither a file nor a directory.
    Other,
}

/// What to do with one path.
#[derive(Debug, Clone, Copy, PartialEq, Eq, Structural)]
pub enum PathAction {
    /// Erase the file; nothing is encrypted or decrypted.
    EraseFile,
    /// Erase every file below the directory, then the directory.
    EraseDirectory,
    /// Encrypt or decrypt the file (`process_file_with_flags`).
    ProcessFile,
    /// Pack the whole directory into one archive stream and seal it (`seal_directory_archive`).
    ArchiveDirectory,
    /// Go through the directory's entries, choosing for each in the same way.
    ProcessEntries,
    /// Report the path and leave it alone.
    Skip,
}

/// Chooses what to do with one path: removal erases without touching the
/// cipher; a file is processed; a directory is archived when encrypting in
/// archive mode, else walked entry by entry.
pub fn path_action(kind: PathKind, mode: Mode, dir_mode: bool) -> (r: PathAction)
    ensures
        kind == PathKind::Other ==> r == PathAction::Skip,
        kind == PathKind::File && mode == Mode::Remove ==> r == PathAction::EraseFile,
        kind == PathKind::File && mode != Mode::Remove ==> r == PathAction::ProcessFile,
        kind == PathKind::Directory && mode == Mode::Remove ==> r == PathAction::EraseDirectory,
        kind == PathKind::Directory && mode == Mode::Encrypt && dir_mode ==> r
            == PathAction::ArchiveDirectory,
        kind == PathKind::Directory && mode != Mode::Remove && !(mode == Mode::Encrypt && dir_mode)
            ==> r == PathAction::ProcessEntries,
{
    match kind {
        PathKind::Other => PathAction::Skip,
        PathKind::File => {
            if mode == Mode::Remove {
                PathAction::EraseFile
            } else {
                PathAction::ProcessFile
            }
        },
        PathKind::Directory => {
            if mode == Mode::Remove {
                PathAction::EraseDirectory
            } else if mode == Mode::Encrypt && dir_mode {
                PathAction::ArchiveDirectory
            } else {
                PathAction::ProcessEntries
            }
        },
    }
}

/// What processing one file produced, for the caller to write out.
#[derive(Debug)]
pub enum ProcessedFile {
    /// Write `contents` to a file named `name`, beside the original.
    File { name: String, contents: Vec<u8> },
    /// Unpack the archive stream `archive` into a directory named `name`, beside the original.
    Directory { name: String, archive: Vec<u8> },
}

impl ProcessedFile {
    /// The name of what is written.
    pub open spec fn name_view(self) -> Seq<char> {
        match self {
            ProcessedFile::File { name, .. } => name@,
            ProcessedFile::Directory { name, .. } => name@,
        }
    }

    /// The bytes that are written or unpacked.
    pub open spec fn bytes_view(self) -> Seq<u8> {
        match self {
            ProcessedFile::File { contents, .. } => contents@,
            ProcessedFile::Directory { archive, .. } => archive@,
        }
    }
}

/// Encrypting `name` holding `contents` under `p` gave `r`: a file whose name
/// is the renamed `name` followed by `suffix`, holding the sealed `contents`.
pub open spec fn sealed_as(
    name: Seq<char>,
    contents: Seq<u8>,
    p: Seq<char>,
    encrypt_filenames: bool,
    suffix: Seq<char>,
    r: Result<ProcessedFile, LockitError>,
) -> bool {
    match r {
        Ok(f) => {
            &&& f is File
            &&& ends_with(f.name_view(), suffix)
            &&& renamed(strip_marker(f.name_view(), suffix), name, p, true, encrypt_filenames)
            &&& is_sealed_stream(f.bytes_view(), contents, p)
            &&& zstd_encode_of(contents).len() <= MAX_PLAINTEXT_LEN
            &&& f.bytes_view().len() == HEADER_LEN + zstd_encode_of(contents).len() + TAG_LEN
        },
        Err(e) => {
            &&& e == LockitError::Encryption || e == LockitError::RandomSource
            &&& e == LockitError::Encryption ==> (zstd_encode_of(contents).len() > MAX_PLAINTEXT_LEN
                || (encrypt_filenames && encode_utf8(name).len() > MAX_PLAINTEXT_LEN))
            &&& zstd_encode_of(contents).len() > MAX_PLAINTEXT_LEN ==> e == LockitError::Encryption
        },
    }
}

/// Decrypting the stem `stem` holding `contents` under `p` gave `r`, a
/// directory to unpack when `directory` holds, else a file.
pub open spec fn opened_as(
    stem: Seq<char>,
    contents: Seq<u8>,
    p: Seq<char>,
    encrypt_filenames: bool,
    directory: bool,
    r: Result<ProcessedFile, LockitError>,
) -> bool {
    &&& r is Ok ==> {
        &&& (directory <==> r->Ok_0 is Directory)
        &&& stream_opens(contents, p, r->Ok_0.bytes_view())
        &&& renamed(r->Ok_0.name_view(), stem, p, false, encrypt_filenames)
    }
    &&& stream_decodes(contents, p) && name_resolves(stem, p, encrypt_filenames) ==> r is Ok
    &&& forall|x: Seq<u8>| #[trigger]
        stream_holds(contents, p, x) ==> (name_resolves(stem, p, encrypt_filenames) ==> r is Ok)
            && (r is Ok ==> r->Ok_0.bytes_view() == x)
    &&& forall|n: Seq<char>|
        encrypt_filenames && #[trigger] name_holds(stem, p, n) ==> (r is Ok ==> r->Ok_0.name_view()
            == n)
    &&& r is Err ==> {
        let e = r->Err_0;
        ||| e == LockitError::Authentication && stream_rejected(contents, p)
        ||| e == LockitError::Compression && !stream_rejected(contents, p) && !stream_decodes(
            contents,
            p,
        )
        ||| stream_decodes(contents, p) && encrypt_filenames && rename_error(e, stem, p, false)
    }
}

/// Compresses and seals `contents`, and names the result after `name` followed by `suffix`.
fn seal_named(name: &str, contents: &[u8], password: &str, encrypt_filenames: bool, suffix: &str) -> (r:
    Result<ProcessedFile, LockitError>)
    ensures
        sealed_as(name@, contents@, password@, encrypt_filenames, suffix@, r),
{
    let sealed = encrypt_data_via_pipe(contents, password)?;
    let new_name = match get_new_filename(name, password, true, encrypt_filenames) {
        Ok(n) => n,
        Err(e) => {
            return Err(e);
        },
    };
    let out = join(new_name.as_str(), suffix);
    assert(strip_marker(out@, suffix@) =~= new_name@);
    assert(out@.subrange(out@.len() - suffix@.len(), out@.len() as int) =~= suffix@);
    Ok(ProcessedFile::File { name: out, contents: sealed })
}

/// Opens and decompresses `contents`, and names the result after the stem `stem`.
fn open_named(stem: &str, contents: &[u8], password: &str, encrypt_filenames: bool, directory: bool) -> (r:
    Result<ProcessedFile, LockitError>)
    ensures
        opened_as(stem@, contents@, password@, encrypt_filenames, directory, r),
{
    let plain = decrypt_data_via_pipe(contents, password)?;
    let new_name = match get_new_filename(stem, password, false, encrypt_filenames) {
        Ok(n) => n,
        Err(e) => {
            return Err(e);
        },
    };
    if directory {
        Ok(ProcessedFile::Directory { name: new_name, archive: plain })
    } else {
        Ok(ProcessedFile::File { name: new_name, contents: plain })
    }
}

/// Processes one file named `file_name` holding `contents`.
///
/// Encryption compresses and seals the contents and names the result after
/// the (possibly encrypted) name plus `.lockit`. Decryption of a name ending
/// in `.dir.lockit` yields a directory archive to unpack; of a name ending in
/// `.lockit`, the original file; any other name is refused.
pub fn process_file_with_flags(
    file_name: &str,
    contents: &[u8],
    password: &str,
    encrypt: bool,
    encrypt_filenames: bool,
) -> (r: Result<ProcessedFile, LockitError>)
    ensures
        encrypt ==> sealed_as(file_name@, contents@, password@, encrypt_filenames, file_suffix(), r),
        !encrypt && has_marker(file_name@, archive_suffix()) ==> opened_as(
            strip_marker(file_name@, archive_suffix()),
            contents@,
            password@,
            encrypt_filenames,
            true,
            r,
        ),
        !encrypt && !has_marker(file_name@, archive_suffix()) && has_marker(
            file_name@,
            file_suffix(),
        ) ==> opened_as(
            strip_marker(file_name@, file_suffix()),
            contents@,
            password@,
            encrypt_filenames,
            false,
            r,
        ),
        !encrypt && !has_marker(file_name@, archive_suffix()) && !has_marker(
            file_name@,
            file_suffix(),
        ) ==> r == Err::<ProcessedFile, LockitError>(LockitError::UnsupportedExtension),
{
    let file_suffix = file_suffix_string();
    if encrypt {
        return seal_named(file_name, contents, password, encrypt_filenames, file_suffix.as_str());
    }
    let archive_suffix = archive_suffix_string();
    if let Some(stem) = split_marker(file_name, archive_suffix.as_str()) {
        return open_named(stem.as_str(), contents, password, encrypt_filenames, true);
    }
    match split_marker(file_name, file_suffix.as_str()) {
        Some(stem) => open_named(stem.as_str(), contents, password, encrypt_filenames, false),
        None => Err(LockitError::UnsupportedExtension),
    }
}

/// Seals the archive stream of a directory named `dir_name`: the result is one
/// file named after the (possibly encrypted) directory name plus `.dir.lockit`.
pub fn seal_directory_archive(
    dir_name: &str,
    archive: &[u8],
    password: &str,
    encrypt_filenames: bool,
) -> (r: Result<ProcessedFile, LockitError>)
    ensures
        sealed_as(dir_name@, archive@, password@, encrypt_filenames, archive_suffix(), r),
{
    let suffix = archive_suffix_string();
    seal_named(dir_name, archive, password, encrypt_filenames, suffix.as_str())
}

/// The stem under which `name` is stored: its encryption with the given salt
/// and nonce when file names are encrypted, else `name` itself.
pub open spec fn stored_stem(
    name: Seq<char>,
    p: Seq<char>,
    encrypt_filenames: bool,
    salt: Seq<u8>,
    nonce: Seq<u8>,
) -> Seq<char> {
    if encrypt_filenames {
        hex_encode(seal_envelope(encode_utf8(name), p, salt, nonce))
    } else {
        name
    }
}

/// Round trip of one file, for given salts and nonces: the file that
/// encryption writes for `name` holding `contents` carries the file marker and not the archive marker, its stem
/// turns back into `name`, and its bytes into `contents`. Without filename
/// encryption this needs a name that does not itself end in `.dir`, which
/// would make the result read as a directory archive.
proof fn lemma_stored_file_round_trip(
    name: Seq<char>,
    contents: Seq<u8>,
    p: Seq<char>,
    encrypt_filenames: bool,
    salt: Seq<u8>,
    nonce: Seq<u8>,
    name_salt: Seq<u8>,
    name_nonce: Seq<u8>,
)
    requires
        name.len() > 0,
        !encrypt_filenames ==> !ends_with(name, "."@ + DIRECTORY_EXTENSION@),
        encrypt_filenames ==> encode_utf8(name).len() <= MAX_PLAINTEXT_LEN,
        zstd_encode_of(contents).len() <= MAX_PLAINTEXT_LEN,
        salt.len() == SALT_LEN,
        nonce.len() == NONCE_LEN,
        name_salt.len() == SALT_LEN,
        name_nonce.len() == NONCE_LEN,
    ensures
        ({
            let stem = stored_stem(name, p, encrypt_filenames, name_salt, name_nonce);
            let out = stem + file_suffix();
            &&& has_marker(out, file_suffix())
            &&& !has_marker(out, archive_suffix())
            &&& strip_marker(out, file_suffix()) == stem
            &&& name_resolves(stem, p, encrypt_filenames)
            &&& (encrypt_filenames ==> name_holds(stem, p, name))
            &&& stream_holds(sealed_stream(contents, p, salt, nonce), p, contents)
        }),
{
    let stem = stored_stem(name, p, encrypt_filenames, name_salt, name_nonce);
    let out = stem + file_suffix();
    lemma_stream_round_trip(contents, p, salt, nonce);
    reveal_strlit(".");
    reveal_strlit("lockit");
    reveal_strlit("dir");
    assert(archive_suffix().len() == 11 && archive_suffix()[0] == '.');
    assert(file_suffix().len() == 7);
    if encrypt_filenames {
        lemma_name_round_trip(name, p, name_salt, name_nonce);
        let e = seal_envelope(encode_utf8(name), p, name_salt, name_nonce);
        if has_marker(out, archive_suffix()) {
            let k = stem.len() - 4;
            assert(out.subrange(out.len() - 11, out.len() as int)[0] == out[out.len() - 11]);
            assert(out[out.len() - 11] == stem[k]);
            if k % 2 == 0 {
                assert(stem[k] == hex_digit(e[k / 2] / 16));
            } else {
                assert(stem[k] == hex_digit(e[k / 2] % 16));
            }
        }
    } else {
        if has_marker(out, archive_suffix()) {
            assert(name.subrange(name.len() - 4, name.len() as int) =~= out.subrange(
                out.len() - 11,
                out.len() - 7,
            ));
            assert(out.subrange(out.len() - 11, out.len() - 7) =~= archive_suffix().subrange(0, 4));
            assert(archive_suffix().subrange(0, 4) =~= "."@ + DIRECTORY_EXTENSION@);
        }
    }
    assert(out.subrange(out.len() - file_suffix().len(), out.len() as int) =~= file_suffix());
    assert(strip_marker(out, file_suffix()) =~= stem);
}

/// Round trip of a directory archive, for given salts and nonces: the file
/// that sealing the archive stream of `dir_name` writes carries the archive marker, its stem turns back
/// into `dir_name`, and its bytes into `archive`.
proof fn lemma_stored_archive_round_trip(
    dir_name: Seq<char>,
    archive: Seq<u8>,
    p: Seq<char>,
    encrypt_filenames: bool,
    salt: Seq<u8>,
    nonce: Seq<u8>,
    name_salt: Seq<u8>,
    name_nonce: Seq<u8>,
)
    requires
        dir_name.len() > 0,
        encrypt_filenames ==> encode_utf8(dir_name).len() <= MAX_PLAINTEXT_LEN,
        zstd_encode_of(archive).len() <= MAX_PLAINTEXT_LEN,
        salt.len() == SALT_LEN,
        nonce.len() == NONCE_LEN,
        name_salt.len() == SALT_LEN,
        name_nonce.len() == NONCE_LEN,
    ensures
        ({
            let stem = stored_stem(dir_name, p, encrypt_filenames, name_salt, name_nonce);
            let out = stem + archive_suffix();
            &&& has_marker(out, archive_suffix())
            &&& strip_marker(out, archive_suffix()) == stem
            &&& name_resolves(stem, p, encrypt_filenames)
            &&& (encrypt_filenames ==> name_holds(stem, p, dir_name))
            &&& stream_holds(sealed_stream(archive, p, salt, nonce), p, archive)
        }),
{
    let stem = stored_stem(dir_name, p, encrypt_filenames, name_salt, name_nonce);
    let out = stem + archive_suffix();
    lemma_stream_round_trip(archive, p, salt, nonce);
    if encrypt_filenames {
        lemma_name_round_trip(dir_name, p, name_salt, name_nonce);
    }
    assert(out.subrange(out.len() - archive_suffix().len(), out.len() as int) =~= archive_suffix());
    assert(strip_marker(out, archive_suffix()) =~= stem);
}

/// Round trip of one file: the file that encrypting `name` holding `contents`
/// produces (see `process_file_with_flags`) carries the file marker and not
/// the archive marker, its stem turns back into `name` and its bytes into
/// `contents`; so decrypting it gives `name` holding `contents`. Without
/// filename encryption this needs a name that does not itself end in `.dir`,
/// which would make the result read as a directory archive.
pub proof fn lemma_file_round_trip(
    name: Seq<char>,
    contents: Seq<u8>,
    p: Seq<char>,
    encrypt_filenames: bool,
    f: ProcessedFile,
)
    requires
        sealed_as(name, contents, p, encrypt_filenames, file_suffix(), Ok(f)),
        name.len() > 0,
        !encrypt_filenames ==> !ends_with(name, "."@ + DIRECTORY_EXTENSION@),
    ensures
        has_marker(f.name_view(), file_suffix()),
        !has_marker(f.name_view(), archive_suffix()),
        name_resolves(strip_marker(f.name_view(), file_suffix()), p, encrypt_filenames),
        encrypt_filenames ==> name_holds(strip_marker(f.name_view(), file_suffix()), p, name),
        !encrypt_filenames ==> strip_marker(f.name_view(), file_suffix()) == name,
        stream_holds(f.bytes_view(), p, contents),
{
    let (salt, nonce, name_salt, name_nonce) = sealing_witnesses(name, contents, p, encrypt_filenames, file_suffix(), f);
    lemma_stored_file_round_trip(name, contents, p, encrypt_filenames, salt, nonce, name_salt, name_nonce);
}

/// Round trip of a directory archive: the file that sealing the archive
/// stream of `dir_name` produces (see `seal_directory_archive`) carries the
/// archive marker, its stem turns back into `dir_name` and its bytes into
/// `archive`; so decrypting it gives a directory `dir_name` to unpack from
/// `archive`.
pub proof fn lemma_archive_round_trip(
    dir_name: Seq<char>,
    archive: Seq<u8>,
    p: Seq<char>,
    encrypt_filenames: bool,
    f: ProcessedFile,
)
    requires
        sealed_as(dir_name, archive, p, encrypt_filenames, archive_suffix(), Ok(f)),
        dir_name.len() > 0,
    ensures
        has_marker(f.name_view(), archive_suffix()),
        name_resolves(strip_marker(f.name_view(), archive_suffix()), p, encrypt_filenames),
        encrypt_filenames ==> name_holds(strip_marker(f.name_view(), archive_suffix()), p, dir_name),
        !encrypt_filenames ==> strip_marker(f.name_view(), archive_suffix()) == dir_name,
        stream_holds(f.bytes_view(), p, archive),
{
    let (salt, nonce, name_salt, name_nonce) = sealing_witnesses(dir_name, archive, p, encrypt_filenames, archive_suffix(), f);
    lemma_stored_archive_round_trip(dir_name, archive, p, encrypt_filenames, salt, nonce, name_salt, name_nonce);
}

/// The salts and nonces that a sealed file was made with: the output is the
/// stored stem plus `suffix`, holding the sealed stream.
proof fn sealing_witnesses(
    name: Seq<char>,
    contents: Seq<u8>,
    p: Seq<char>,
    encrypt_filenames: bool,
    suffix: Seq<char>,
    f: ProcessedFile,
) -> (w: (Seq<u8>, Seq<u8>, Seq<u8>, Seq<u8>))
    requires
        sealed_as(name, contents, p, encrypt_filenames, suffix, Ok(f)),
    ensures
        w.0.len() == SALT_LEN && w.1.len() == NONCE_LEN,
        w.2.len() == SALT_LEN && w.3.len() == NONCE_LEN,
        f.bytes_view() == sealed_stream(contents, p, w.0, w.1),
        f.name_view() == stored_stem(name, p, encrypt_filenames, w.2, w.3) + suffix,
        zstd_encode_of(contents).len() <= MAX_PLAINTEXT_LEN,
        encrypt_filenames ==> encode_utf8(name).len() <= MAX_PLAINTEXT_LEN,
{
    let out = f.name_view();
    let stem = strip_marker(out, suffix);
    assert(out =~= stem + suffix);
    let (salt, nonce) = choose|salt: Seq<u8>, nonce: Seq<u8>|
        salt.len() == SALT_LEN && nonce.len() == NONCE_LEN && f.bytes_view() == sealed_stream(
            contents,
            p,
            salt,
            nonce,
        );
    if encrypt_filenames {
        let (name_salt, name_nonce) = choose|s: Seq<u8>, n: Seq<u8>|
            s.len() == SALT_LEN && n.len() == NONCE_LEN && stem == hex_encode(
                seal_envelope(encode_utf8(name), p, s, n),
            );
        (salt, nonce, name_salt, name_nonce)
    } else {
        (salt, nonce, salt, nonce)
    }
}

} // verus!
