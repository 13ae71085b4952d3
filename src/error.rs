//! The error kinds of the library.

use vstd::prelude::*;

verus! {

/// Why an operation of the library failed.
#[derive(Debug, Clone, Copy, PartialEq, Eq, Structural)]
pub enum LockitError {
    /// The cipher refused to seal the buffer (it is longer than AES-GCM allows).
    Encryption,
    /// The envelope did not authenticate: wrong passphrase, corruption or truncation.
    Authentication,
    /// The decrypted bytes are not a valid compressed stream.
    Compression,
    /// An encrypted file name is not hex, or its decrypted bytes are not UTF-8.
    MalformedName,
    /// A file offered for decryption does not carry the expected marker extension.
    UnsupportedExtension,
    /// The operating system's secure random source failed.
    RandomSource,
    /// The read-back after the last overwrite pass differs from what was written.
    Verification,
}

} // verus!
