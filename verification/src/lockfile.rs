//! Cargo.lock format recovery.
//!
//! A lock file written by a newer cargo can carry a lock-file version an
//! older toolchain does not understand ("lock file version `4` was found,
//! but this version of Cargo does not understand this lock file"), which
//! fails before any dependency is even looked at. When that happens, the
//! lock file is deleted and regenerated by the target toolchain.

use crate::error::PinError;
use crate::text::has_substring;
use vstd::prelude::*;

verus! {

/// The lock file that is regenerated when the target toolchain cannot read it.
pub const LOCK_FILE: &'static str = "Cargo.lock";

/// What cargo's complaint about an unreadable lock-file format contains.
pub const VERSION_ERROR_MARKER: &'static str = "lock file version";

/// `e` is a failed command whose stderr says the lock-file format is not
/// understood.
pub open spec fn is_version_mismatch(e: PinError) -> bool {
    e matches PinError::Command(f) && exists|i: int|
        0 <= i < f.stderr@.len() && has_substring(#[trigger] f.stderr@[i]@, VERSION_ERROR_MARKER@)
}

/// Whether `e` says that the lock file is in a format the toolchain does not
/// understand. Any other failure is the expected pre-downgrade state, which
/// the final check reports.
pub fn is_lock_version_mismatch(e: &PinError) -> (r: bool)
    ensures
        r == is_version_mismatch(*e),
{
    match e {
        PinError::Command(f) => f.stderr_contains(VERSION_ERROR_MARKER),
        _ => false,
    }
}

/// A failure counts as an unreadable lock-file format exactly when it is a
/// failed command and one of the lines of its stderr holds the text
/// `lock file version` somewhere. Any other failure, such as a dependency
/// that needs a newer Cargo, leaves the lock file alone.
pub proof fn lemma_mismatch_needs_marker_line(e: PinError)
    ensures
        is_version_mismatch(e) <==> (e matches PinError::Command(f) && exists|i: int, k: int|
            0 <= i < f.stderr@.len() && 0 <= k && k + 17 <= f.stderr@[i]@.len()
                && #[trigger] f.stderr@[i]@.subrange(k, k + 17) == "lock file version"@),
{
    reveal_strlit("lock file version");
    if let PinError::Command(f) = e {
        if is_version_mismatch(e) {
            let i = choose|i: int| 0 <= i < f.stderr@.len() && has_substring(#[trigger] f.stderr@[i]@, VERSION_ERROR_MARKER@);
            let k = choose|k: int| crate::text::occurs_at(f.stderr@[i]@, VERSION_ERROR_MARKER@, k);
            assert(f.stderr@[i]@.subrange(k, k + 17) == "lock file version"@);
        }
        if exists|i: int, k: int|
            0 <= i < f.stderr@.len() && 0 <= k && k + 17 <= f.stderr@[i]@.len()
                && #[trigger] f.stderr@[i]@.subrange(k, k + 17) == "lock file version"@ {
            let (i, k) = choose|i: int, k: int|
                0 <= i < f.stderr@.len() && 0 <= k && k + 17 <= f.stderr@[i]@.len()
                    && #[trigger] f.stderr@[i]@.subrange(k, k + 17) == "lock file version"@;
            assert(crate::text::occurs_at(f.stderr@[i]@, VERSION_ERROR_MARKER@, k));
            assert(has_substring(f.stderr@[i]@, VERSION_ERROR_MARKER@));
        }
    }
}

} // verus!
