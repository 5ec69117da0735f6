//! Hardware-capability detection from the Linux ELF auxiliary vector.
//!
//! The auxiliary vector is a list of `(key, value)` machine-word pairs that
//! the kernel hands a process at start-up.  Two well-known keys carry the
//! CPU's hardware-capability bitfields: `AT_HWCAP` and, on targets that
//! define one, `AT_HWCAP2`.
//!
//! This crate holds the decision logic of a capability query: parsing a word
//! buffer into an [`AuxVec`], assembling such a buffer from the raw bytes of
//! the `/proc/self/auxv` pseudo-file, and combining the values a
//! dynamically-resolved `getauxval` hands back with the file-based fallback.
//! The two unverifiable edges — resolving and calling the `getauxval` symbol,
//! and opening and reading the pseudo-file — live in a thin unverified shell
//! around this crate, which passes their outcomes in as plain values.

use vstd::prelude::*;

pub mod pairs;
pub mod query;
pub mod reader;

verus! {

/// Key of the primary hardware-capability entry of the auxiliary vector.
pub const AT_HWCAP: u64 = 16;

/// Key of the secondary hardware-capability entry, defined only on targets
/// with two capability bitfields.
pub const AT_HWCAP2: u64 = 26;

/// The hardware-capability bitfields of the auxiliary vector.
///
/// A value of this type is only ever built fully populated: `hwcap` is
/// nonzero, and `hwcap2` is present (and nonzero) exactly on targets that
/// define the secondary key.  A zero bitfield is indistinguishable from the
/// not-found sentinel of the underlying mechanisms, so it is never accepted.
#[derive(Debug, Clone, Copy, PartialEq, Eq)]
pub struct AuxVec {
    pub hwcap: u64,
    pub hwcap2: Option<u64>,
}

impl AuxVec {
    /// Fully populated for the given target shape: the primary bitfield is
    /// nonzero, and the secondary one is carried if and only if the target
    /// defines the secondary key, in which case it is nonzero too.
    pub open spec fn wf(self, dual: bool) -> bool {
        &&& self.hwcap != 0
        &&& if dual {
                self.hwcap2 matches Some(h2) && h2 != 0
            } else {
                self.hwcap2 is None
            }
    }
}

/// Collapse an optional bitmask into the no-detail failure shape every
/// entry point returns: any cause of failure is erased to `Err(())`.
pub open spec fn to_result(o: Option<AuxVec>) -> Result<AuxVec, ()> {
    match o {
        Some(v) => Ok(v),
        None => Err(()),
    }
}

} // verus!
