//! The pair parser: interpreting a buffer of machine words as the
//! `(key, value)` entries of an auxiliary vector and extracting the
//! hardware-capability bitfields.

use vstd::prelude::*;
use crate::{AuxVec, AT_HWCAP, AT_HWCAP2, to_result};

verus! {

/// How many complete `(key, value)` pairs the word buffer holds.
pub open spec fn pair_count(s: Seq<u64>) -> int {
    s.len() as int / 2
}

/// The key of the `i`-th pair.
pub open spec fn pair_key(s: Seq<u64>, i: int) -> u64 {
    s[2 * i]
}

/// The value of the `i`-th pair.
pub open spec fn pair_value(s: Seq<u64>, i: int) -> u64 {
    s[2 * i + 1]
}

/// The value of the first pair at or after position `i` whose key is
/// `AT_HWCAP` and whose value is nonzero; `None` when no such pair exists.
/// A zero value is the not-found sentinel of the mechanism, so it never
/// counts as a hit.
pub open spec fn first_hwcap_from(s: Seq<u64>, i: int) -> Option<u64>
    decreases pair_count(s) - i,
{
    if i < 0 || i >= pair_count(s) {
        None
    } else if pair_key(s, i) == AT_HWCAP && pair_value(s, i) != 0 {
        Some(pair_value(s, i))
    } else {
        first_hwcap_from(s, i + 1)
    }
}

/// The value of the last pair before position `n` whose key is `key`;
/// `None` when the key does not occur there at all.
pub open spec fn last_value_upto(s: Seq<u64>, key: u64, n: int) -> Option<u64>
    decreases n,
{
    if n <= 0 || n > pair_count(s) {
        None
    } else if pair_key(s, n - 1) == key {
        Some(pair_value(s, n - 1))
    } else {
        last_value_upto(s, key, n - 1)
    }
}

/// The last-seen value for `key` over the whole buffer.
pub open spec fn last_value(s: Seq<u64>, key: u64) -> Option<u64> {
    last_value_upto(s, key, pair_count(s))
}

/// What parsing yields on a single-key target: the first usable (nonzero)
/// `AT_HWCAP` value, with no secondary field.
pub open spec fn parse_single(s: Seq<u64>) -> Option<AuxVec> {
    match first_hwcap_from(s, 0) {
        Some(h) => Some(AuxVec { hwcap: h, hwcap2: None }),
        None => None,
    }
}

/// What parsing yields on a dual-key target: the whole buffer is scanned,
/// the last-seen value of each key is kept, and the result is accepted only
/// when both keys were seen and both values are nonzero — partial detection
/// is never accepted.
pub open spec fn parse_dual(s: Seq<u64>) -> Option<AuxVec> {
    match (last_value(s, AT_HWCAP), last_value(s, AT_HWCAP2)) {
        (Some(h), Some(h2)) => if h != 0 && h2 != 0 {
            Some(AuxVec { hwcap: h, hwcap2: Some(h2) })
        } else {
            None
        },
        _ => None,
    }
}

/// What parsing a word buffer yields for the given target shape.
pub open spec fn parse_pairs(s: Seq<u64>, dual: bool) -> Option<AuxVec> {
    if dual {
        parse_dual(s)
    } else {
        parse_single(s)
    }
}

/// Scan a buffer of machine words as `(key, value)` pairs and extract the
/// capability bitfields for the given target shape.  Pure: the outcome is a
/// function of the buffer alone, and failure carries no detail.
pub fn auxv_from_buf(buf: &[u64], dual: bool) -> (r: Result<AuxVec, ()>)
    ensures
        r == to_result(parse_pairs(buf@, dual)),
{
    let n = buf.len() / 2;
    if dual {
        let mut hwcap: Option<u64> = None;
        let mut hwcap2: Option<u64> = None;
        let mut i: usize = 0;
        while i < n
            invariant
                n == pair_count(buf@),
                2 * n <= buf@.len(),
                buf@.len() <= usize::MAX,
                i <= n,
                hwcap == last_value_upto(buf@, AT_HWCAP, i as int),
                hwcap2 == last_value_upto(buf@, AT_HWCAP2, i as int),
            decreases n - i,
        {
            let k = buf[2 * i];
            let v = buf[2 * i + 1];
            if k == AT_HWCAP {
                hwcap = Some(v);
            } else if k == AT_HWCAP2 {
                hwcap2 = Some(v);
            }
            i += 1;
        }
        if let (Some(h), Some(h2)) = (hwcap, hwcap2) {
            if h != 0 && h2 != 0 {
                return Ok(AuxVec { hwcap: h, hwcap2: Some(h2) });
            }
        }
        Err(())
    } else {
        let mut i: usize = 0;
        while i < n
            invariant
                !dual,
                n == pair_count(buf@),
                2 * n <= buf@.len(),
                buf@.len() <= usize::MAX,
                i <= n,
                first_hwcap_from(buf@, 0) == first_hwcap_from(buf@, i as int),
            decreases n - i,
        {
            let k = buf[2 * i];
            let v = buf[2 * i + 1];
            if k == AT_HWCAP && v != 0 {
                return Ok(AuxVec { hwcap: v, hwcap2: None });
            }
            i += 1;
        }
        Err(())
    }
}

/// Law: whatever the parser accepts is fully populated for its target
/// shape — the primary bitfield is nonzero, and the secondary one is
/// present and nonzero exactly on dual-key targets.
pub proof fn lemma_parse_well_formed(s: Seq<u64>, dual: bool)
    ensures
        parse_pairs(s, dual) matches Some(v) ==> v.wf(dual),
{
    if !dual {
        lemma_first_hwcap_nonzero(s, 0);
    }
}

/// Every hit `first_hwcap_from` reports has a nonzero value.
proof fn lemma_first_hwcap_nonzero(s: Seq<u64>, i: int)
    ensures
        first_hwcap_from(s, i) matches Some(v) ==> v != 0,
    decreases pair_count(s) - i,
{
    if 0 <= i < pair_count(s) {
        lemma_first_hwcap_nonzero(s, i + 1);
    }
}

/// Law: on a single-key target, a buffer whose first usable primary entry
/// stands at position `i` with the nonzero value `v` parses to exactly the
/// bitmask `v`, wherever in the buffer that entry stands.
pub proof fn lemma_single_key_found(s: Seq<u64>, i: int)
    requires
        0 <= i < pair_count(s),
        pair_key(s, i) == AT_HWCAP,
        pair_value(s, i) != 0,
        forall|j: int| 0 <= j < i ==> !(pair_key(s, j) == AT_HWCAP && pair_value(s, j) != 0),
    ensures
        parse_single(s) == Some(AuxVec { hwcap: pair_value(s, i), hwcap2: None }),
{
    lemma_first_hwcap_from_found(s, i, 0);
}

/// `first_hwcap_from` started anywhere at or before the first usable entry
/// finds exactly that entry.
proof fn lemma_first_hwcap_from_found(s: Seq<u64>, i: int, k: int)
    requires
        0 <= k <= i < pair_count(s),
        pair_key(s, i) == AT_HWCAP,
        pair_value(s, i) != 0,
        forall|j: int| k <= j < i ==> !(pair_key(s, j) == AT_HWCAP && pair_value(s, j) != 0),
    ensures
        first_hwcap_from(s, k) == Some(pair_value(s, i)),
    decreases i - k,
{
    if k < i {
        lemma_first_hwcap_from_found(s, i, k + 1);
    }
}

/// Law: a buffer in which the primary key never appears, or appears only
/// with value zero, fails to parse on either target shape.
pub proof fn lemma_no_usable_hwcap_fails(s: Seq<u64>, dual: bool)
    requires
        forall|j: int| 0 <= j < pair_count(s)
            ==> pair_key(s, j) != AT_HWCAP || pair_value(s, j) == 0,
    ensures
        parse_pairs(s, dual) is None,
{
    if dual {
        lemma_last_hwcap_zero(s, pair_count(s));
    } else {
        lemma_first_hwcap_none(s, 0);
    }
}

/// Without a usable primary entry, the single-key scan comes up empty.
proof fn lemma_first_hwcap_none(s: Seq<u64>, i: int)
    requires
        forall|j: int| 0 <= j < pair_count(s)
            ==> pair_key(s, j) != AT_HWCAP || pair_value(s, j) == 0,
    ensures
        first_hwcap_from(s, i) is None,
    decreases pair_count(s) - i,
{
    if 0 <= i < pair_count(s) {
        lemma_first_hwcap_none(s, i + 1);
    }
}

/// When the primary key only ever carries the value zero, its last-seen
/// value is either absent or zero.
proof fn lemma_last_hwcap_zero(s: Seq<u64>, n: int)
    requires
        forall|j: int| 0 <= j < pair_count(s)
            ==> pair_key(s, j) != AT_HWCAP || pair_value(s, j) == 0,
    ensures
        last_value_upto(s, AT_HWCAP, n) matches Some(v) ==> v == 0,
    decreases n,
{
    if 0 < n <= pair_count(s) {
        lemma_last_hwcap_zero(s, n - 1);
    }
}

/// Law: on a dual-key target, a buffer in which the secondary key never
/// appears fails to parse, however good its primary entry is — partial
/// detection is never accepted.
pub proof fn lemma_dual_partial_rejected(s: Seq<u64>)
    requires
        forall|j: int| 0 <= j < pair_count(s) ==> pair_key(s, j) != AT_HWCAP2,
    ensures
        parse_dual(s) is None,
{
    lemma_last_value_absent(s, AT_HWCAP2, pair_count(s));
}

/// A key that occurs nowhere in the buffer has no last-seen value.
proof fn lemma_last_value_absent(s: Seq<u64>, key: u64, n: int)
    requires
        forall|j: int| 0 <= j < pair_count(s) ==> pair_key(s, j) != key,
    ensures
        last_value_upto(s, key, n) is None,
    decreases n,
{
    if 0 < n <= pair_count(s) {
        lemma_last_value_absent(s, key, n - 1);
    }
}

} // verus!
