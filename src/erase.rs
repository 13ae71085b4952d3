//! The secure-erase protocol: three overwrite passes, a read-back check, then unlink.

use vstd::prelude::*;
use crate::crypto::random_bytes;
use crate::error::LockitError;

verus! {

/// One step of erasing a file; the caller carries the steps out in order.
#[derive(Debug)]
pub enum EraseStep {
    /// Write these bytes over the file from its start, then flush them to durable storage.
    Overwrite(Vec<u8>),
    /// Read the file back from its start and compare it with these bytes
    /// (`check_read_back`); on a mismatch stop and leave the file in place.
    VerifyReadBack(Vec<u8>),
    /// Release the file and remove its path.
    Unlink,
}

impl EraseStep {
    /// The bytes that the step writes or expects.
    pub open spec fn bytes_view(self) -> Seq<u8> {
        match self {
            EraseStep::Overwrite(b) => b@,
            EraseStep::VerifyReadBack(b) => b@,
            EraseStep::Unlink => Seq::empty(),
        }
    }
}

/// `len` copies of `b`.
pub open spec fn filled(len: nat, b: u8) -> Seq<u8> {
    Seq::new(len, |_i: int| b)
}

/// The protocol for a file of `len` bytes: unlink at once when overwriting is
/// skipped; else overwrite with 0xFF, with 0x00 and with `random`, read the
/// random bytes back, and only then unlink.
pub open spec fn erase_protocol(steps: Seq<EraseStep>, len: nat, skip_overwrite: bool, random: Seq<u8>) -> bool {
    if skip_overwrite {
        steps.len() == 1 && steps[0] is Unlink
    } else {
        &&& steps.len() == 5
        &&& steps[0] is Overwrite && steps[0].bytes_view() == filled(len, 0xFF)
        &&& steps[1] is Overwrite && steps[1].bytes_view() == filled(len, 0x00)
        &&& steps[2] is Overwrite && steps[2].bytes_view() == random
        &&& steps[3] is VerifyReadBack && steps[3].bytes_view() == random
        &&& steps[4] is Unlink
    }
}

/// The steps that erase a file of `len` bytes, with `random` as the third pass.
pub fn secure_delete_steps(len: usize, skip_overwrite: bool, random: Vec<u8>) -> (r: Vec<EraseStep>)
    requires
        skip_overwrite || random@.len() == len,
    ensures
        erase_protocol(r@, len as nat, skip_overwrite, random@),
{
    let mut steps: Vec<EraseStep> = Vec::new();
    if !skip_overwrite {
        let ones = vec![0xFFu8; len];
        let zeros = vec![0x00u8; len];
        let expected = random.clone();
        assert(ones@ =~= filled(len as nat, 0xFF));
        assert(zeros@ =~= filled(len as nat, 0x00));
        steps.push(EraseStep::Overwrite(ones));
        steps.push(EraseStep::Overwrite(zeros));
        steps.push(EraseStep::Overwrite(random));
        steps.push(EraseStep::VerifyReadBack(expected));
    }
    steps.push(EraseStep::Unlink);
    steps
}

/// The steps that erase a file of `len` bytes, drawing the third pass from the
/// operating system's secure random source.
pub fn secure_delete_plan(len: usize, skip_overwrite: bool) -> (r: Result<Vec<EraseStep>, LockitError>)
    ensures
        r is Ok ==> exists|random: Seq<u8>|
            random.len() == len && erase_protocol(r->Ok_0@, len as nat, skip_overwrite, random),
        skip_overwrite ==> r is Ok,
        r is Err ==> r->Err_0 == LockitError::RandomSource,
{
    if skip_overwrite {
        let steps = secure_delete_steps(len, true, Vec::new());
        let ghost none = filled(len as nat, 0);
        assert(none.len() == len && erase_protocol(steps@, len as nat, true, none));
        return Ok(steps);
    }
    match random_bytes(len) {
        Ok(random) => {
            let ghost pass = random@;
            let steps = secure_delete_steps(len, false, random);
            assert(pass.len() == len && erase_protocol(steps@, len as nat, false, pass));
            Ok(steps)
        },
        Err(_) => Err(LockitError::RandomSource),
    }
}

/// Compares what was read back after the last pass with what was written.
pub fn check_read_back(written: &[u8], read: &[u8]) -> (r: Result<(), LockitError>)
    ensures
        r is Ok <==> written@ == read@,
        r is Err ==> r->Err_0 == LockitError::Verification,
{
    if written.len() != read.len() {
        return Err(LockitError::Verification);
    }
    let mut i: usize = 0;
    while i < written.len()
        invariant
            written@.len() == read@.len(),
            i <= written@.len(),
            forall|j: int| 0 <= j < i ==> written@[j] == read@[j],
        decreases written@.len() - i,
    {
        if written[i] != read[i] {
            return Err(LockitError::Verification);
        }
        i = i + 1;
    }
    assert(written@ =~= read@);
    Ok(())
}

} // verus!
