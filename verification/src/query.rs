//! The capability query: combining the values a dynamically-resolved
//! `getauxval` handed back with the file-based fallback into one answer.
//!
//! The query's two data sources live outside this crate — an unverified
//! shell resolves and calls the symbol and reads the pseudo-file — and hand
//! their outcomes in as plain values: `None` where the lookup or the read
//! failed.  Every decision about those values is made, and verified, here.

use vstd::prelude::*;
use crate::{AuxVec, to_result};
use crate::pairs::lemma_parse_well_formed;
use crate::reader::{parse_bytes, auxv_from_bytes};

verus! {

/// What the resolver tier yields from the values `getauxval` handed back
/// (`None` where the symbol was absent): on a single-key target the primary
/// value, if nonzero; on a dual-key target both values, and only if both are
/// nonzero.  A zero return is the mechanism's not-found sentinel and is
/// never trusted.
pub open spec fn resolver_outcome(hwcap: Option<u64>, hwcap2: Option<u64>, dual: bool) -> Option<
    AuxVec,
> {
    if dual {
        match (hwcap, hwcap2) {
            (Some(h), Some(h2)) => if h != 0 && h2 != 0 {
                Some(AuxVec { hwcap: h, hwcap2: Some(h2) })
            } else {
                None
            },
            _ => None,
        }
    } else {
        match hwcap {
            Some(h) => if h != 0 {
                Some(AuxVec { hwcap: h, hwcap2: None })
            } else {
                None
            },
            None => None,
        }
    }
}

/// Decide the resolver tier of the query: accept the values `getauxval`
/// handed back only under the nonzero rule of `resolver_outcome`; any other
/// case is the no-detail failure that sends the caller to the file-based
/// fallback.
pub fn auxv_from_resolver(hwcap: Option<u64>, hwcap2: Option<u64>, dual: bool) -> (r: Result<
    AuxVec,
    (),
>)
    ensures
        r == to_result(resolver_outcome(hwcap, hwcap2, dual)),
{
    if dual {
        if let (Some(h), Some(h2)) = (hwcap, hwcap2) {
            if h != 0 && h2 != 0 {
                return Ok(AuxVec { hwcap: h, hwcap2: Some(h2) });
            }
        }
        Err(())
    } else {
        if let Some(h) = hwcap {
            if h != 0 {
                return Ok(AuxVec { hwcap: h, hwcap2: None });
            }
        }
        Err(())
    }
}

/// The view of the bytes a file read delivered: `None` where the file could
/// not be opened or read.
pub open spec fn bytes_view(file: Option<&[u8]>) -> Option<Seq<u8>> {
    match file {
        Some(b) => Some(b@),
        None => None,
    }
}

/// What the file tier yields: the parse of the bytes the read delivered —
/// in the machine's word width and byte order — or failure where there was
/// no read to parse.
pub open spec fn file_outcome(file: Option<Seq<u8>>, w: int, big: bool, dual: bool) -> Option<
    AuxVec,
> {
    match file {
        Some(bytes) => parse_bytes(bytes, w, big, dual),
        None => None,
    }
}

/// What the whole query yields from a snapshot of its environment: the
/// resolver tier's answer where that tier is trustworthy, else the file
/// tier's, and failure only when both tiers are exhausted.
pub open spec fn query_outcome(
    hwcap: Option<u64>,
    hwcap2: Option<u64>,
    file: Option<Seq<u8>>,
    w: int,
    big: bool,
    dual: bool,
) -> Option<AuxVec> {
    match resolver_outcome(hwcap, hwcap2, dual) {
        Some(v) => Some(v),
        None => file_outcome(file, w, big, dual),
    }
}

/// The capability query's decision, over a snapshot of its environment:
/// the values `getauxval` handed back (`None` where the symbol was absent),
/// and the bytes a read of the auxiliary-vector file delivered (`None`
/// where opening or reading failed).  Returns the first trustworthy tier's
/// bitmask, or the no-detail failure when neither tier yields one.
pub fn auxv(
    resolver_hwcap: Option<u64>,
    resolver_hwcap2: Option<u64>,
    file: Option<&[u8]>,
    word_bytes: usize,
    big: bool,
    dual: bool,
) -> (r: Result<AuxVec, ()>)
    requires
        word_bytes == 4 || word_bytes == 8,
    ensures
        r == to_result(
            query_outcome(
                resolver_hwcap,
                resolver_hwcap2,
                bytes_view(file),
                word_bytes as int,
                big,
                dual,
            ),
        ),
{
    match auxv_from_resolver(resolver_hwcap, resolver_hwcap2, dual) {
        Ok(v) => Ok(v),
        Err(()) => match file {
            Some(bytes) => auxv_from_bytes(bytes, word_bytes, big, dual),
            None => Err(()),
        },
    }
}

/// Law: every bitmask the query yields is fully populated for its target
/// shape — the primary bitfield nonzero, and the secondary one present and
/// nonzero exactly on dual-key targets.  There is no partially-valid
/// outcome.
pub proof fn lemma_query_well_formed(
    hwcap: Option<u64>,
    hwcap2: Option<u64>,
    file: Option<Seq<u8>>,
    w: int,
    big: bool,
    dual: bool,
)
    ensures
        query_outcome(hwcap, hwcap2, file, w, big, dual) matches Some(v) ==> v.wf(dual),
{
    if let Some(bytes) = file {
        lemma_parse_well_formed(crate::reader::words_of_bytes(bytes, w, big), dual);
    }
}

/// Law: the query is idempotent — it decides as a pure function of the
/// environment it sees, so two calls against the same static environment
/// return equal results.
pub proof fn lemma_query_idempotent(
    ra: Result<AuxVec, ()>,
    rb: Result<AuxVec, ()>,
    hwcap: Option<u64>,
    hwcap2: Option<u64>,
    file: Option<Seq<u8>>,
    w: int,
    big: bool,
    dual: bool,
)
    requires
        ra == to_result(query_outcome(hwcap, hwcap2, file, w, big, dual)),
        rb == to_result(query_outcome(hwcap, hwcap2, file, w, big, dual)),
    ensures
        ra == rb,
{
}

/// Law: a failed resolver lookup never stands in the fallback's way — with
/// no primary value from the resolver, the query's outcome is exactly the
/// file tier's outcome.
pub proof fn lemma_resolver_failure_falls_back(
    hwcap2: Option<u64>,
    file: Option<Seq<u8>>,
    w: int,
    big: bool,
    dual: bool,
)
    ensures
        query_outcome(None, hwcap2, file, w, big, dual) == file_outcome(file, w, big, dual),
{
}

} // verus!
