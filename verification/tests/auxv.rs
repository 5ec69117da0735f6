//! Tests of the pair parser, the byte-level reader, and the capability
//! query's decision logic, on both target shapes and both byte orders.

use auxvec::pairs::auxv_from_buf;
use auxvec::query::{auxv, auxv_from_resolver};
use auxvec::reader::auxv_from_bytes;
use auxvec::{AuxVec, AT_HWCAP, AT_HWCAP2};

/// Encode `(key, value)` pairs as words of `word_bytes` bytes in the given
/// byte order, the way the auxiliary-vector pseudo-file lays them out.
fn encode_pairs(pairs: &[(u64, u64)], word_bytes: usize, big: bool) -> Vec<u8> {
    let mut out: Vec<u8> = Vec::new();
    for &(k, v) in pairs {
        for word in [k, v] {
            if big {
                out.extend_from_slice(&word.to_be_bytes()[8 - word_bytes..]);
            } else {
                out.extend_from_slice(&word.to_le_bytes()[..word_bytes]);
            }
        }
    }
    out
}

#[test]
fn single_key_found_anywhere() {
    // The primary key with a nonzero value, buried mid-buffer, is returned
    // exactly, on a single-key target.
    let buf = [3u64, 99, 6, 0x1000, AT_HWCAP, 0x1234, 31, 7];
    let r = auxv_from_buf(&buf, false);
    assert_eq!(r, Ok(AuxVec { hwcap: 0x1234, hwcap2: None }));
}

#[test]
fn single_key_skips_zero_entries() {
    // A zero value is the not-found sentinel: the scan passes over it and
    // takes the first usable entry.
    let buf = [AT_HWCAP, 0, AT_HWCAP, 5];
    let r = auxv_from_buf(&buf, false);
    assert_eq!(r, Ok(AuxVec { hwcap: 5, hwcap2: None }));
}

#[test]
fn single_key_absent_fails() {
    let buf = [3u64, 99, 6, 0x1000, 31, 7, 0, 0];
    assert_eq!(auxv_from_buf(&buf, false), Err(()));
}

#[test]
fn single_key_only_zero_fails() {
    let buf = [AT_HWCAP, 0, AT_HWCAP, 0];
    assert_eq!(auxv_from_buf(&buf, false), Err(()));
}

#[test]
fn empty_buffer_fails_both_shapes() {
    let buf: [u64; 0] = [];
    assert_eq!(auxv_from_buf(&buf, false), Err(()));
    assert_eq!(auxv_from_buf(&buf, true), Err(()));
}

#[test]
fn dual_keys_found() {
    let buf = [3u64, 99, AT_HWCAP, 9, 6, 0x1000, AT_HWCAP2, 3];
    let r = auxv_from_buf(&buf, true);
    assert_eq!(r, Ok(AuxVec { hwcap: 9, hwcap2: Some(3) }));
}

#[test]
fn dual_keys_last_seen_wins() {
    // The dual-key scan does not short-circuit: the last-seen value of each
    // key is the one kept.
    let buf = [AT_HWCAP, 1, AT_HWCAP2, 2, AT_HWCAP, 9, AT_HWCAP2, 3];
    let r = auxv_from_buf(&buf, true);
    assert_eq!(r, Ok(AuxVec { hwcap: 9, hwcap2: Some(3) }));
}

#[test]
fn dual_missing_secondary_fails() {
    // Partial detection is never accepted: a perfectly good primary entry
    // without the secondary key fails.
    let buf = [AT_HWCAP, 0x1234, 6, 0x1000, 31, 7, 0, 0];
    assert_eq!(auxv_from_buf(&buf, true), Err(()));
}

#[test]
fn dual_zero_value_fails() {
    let buf = [AT_HWCAP, 9, AT_HWCAP2, 0];
    assert_eq!(auxv_from_buf(&buf, true), Err(()));
    let buf2 = [AT_HWCAP, 0, AT_HWCAP2, 3];
    assert_eq!(auxv_from_buf(&buf2, true), Err(()));
}

#[test]
fn reader_complete_dual_vector() {
    // A captured 32-bit little-endian dual-key vector must reproduce its
    // literal values exactly.
    let bytes = encode_pairs(
        &[(33, 0x7f00_0000), (16, 4174038), (26, 16), (6, 4096), (0, 0)],
        4,
        false,
    );
    let r = auxv_from_bytes(&bytes, 4, false, true);
    assert_eq!(r, Ok(AuxVec { hwcap: 4174038, hwcap2: Some(16) }));
}

#[test]
fn reader_complete_dual_vector_big_endian() {
    // The same vector laid out by a big-endian machine, with 8-byte words
    // as a 64-bit dual-key target has them, parses to the same values.
    let bytes = encode_pairs(
        &[(33, 0x7f00_0000), (16, 4174038), (26, 16), (6, 4096), (0, 0)],
        8,
        true,
    );
    let r = auxv_from_bytes(&bytes, 8, true, true);
    assert_eq!(r, Ok(AuxVec { hwcap: 4174038, hwcap2: Some(16) }));
}

#[test]
fn reader_byte_order_is_not_interchangeable() {
    // Big-endian bytes read as little-endian words byte-swap every key, so
    // the capability keys are never seen.
    let bytes = encode_pairs(&[(16, 4174038), (26, 16), (0, 0)], 4, true);
    assert_eq!(auxv_from_bytes(&bytes, 4, false, true), Err(()));
    let swapped = encode_pairs(&[(16, 7), (0, 0)], 8, false);
    assert_eq!(auxv_from_bytes(&swapped, 8, true, false), Err(()));
}

#[test]
fn reader_complete_single_vector_wide_words() {
    // An eight-byte-word vector with a value that needs all four low bytes.
    let bytes = encode_pairs(&[(6, 4096), (16, 3219913727), (0, 0)], 8, false);
    let r = auxv_from_bytes(&bytes, 8, false, false);
    assert_eq!(r, Ok(AuxVec { hwcap: 3219913727, hwcap2: None }));
}

#[test]
fn reader_missing_secondary_fails() {
    // A vector that carries the primary key but never the secondary one
    // must fail on a dual-key target, never yield a partial result.
    let bytes = encode_pairs(&[(16, 126614527), (6, 4096), (0, 0)], 4, false);
    assert_eq!(auxv_from_bytes(&bytes, 4, false, true), Err(()));
}

#[test]
fn reader_short_read_is_zero_filled() {
    // A short read leaves zero-filled slots behind; they are key = 0 pairs
    // and never match a capability key.
    let mut bytes = encode_pairs(&[(16, 7)], 8, false);
    // A trailing fragment of a further pair: the partial word is zero-padded.
    bytes.push(0x2a);
    let r = auxv_from_bytes(&bytes, 8, false, false);
    assert_eq!(r, Ok(AuxVec { hwcap: 7, hwcap2: None }));
}

#[test]
fn reader_empty_bytes_fail() {
    assert_eq!(auxv_from_bytes(&[], 8, false, false), Err(()));
    assert_eq!(auxv_from_bytes(&[], 4, true, true), Err(()));
}

#[test]
fn reader_truncates_past_buffer_bound() {
    // The buffer holds 64 words; entries past that bound are dropped, so a
    // primary key standing beyond it is never seen.
    let mut pairs: Vec<(u64, u64)> = Vec::new();
    for _ in 0..32 {
        pairs.push((6, 4096));
    }
    pairs.push((16, 0x1234));
    let bytes = encode_pairs(&pairs, 8, false);
    assert_eq!(auxv_from_bytes(&bytes, 8, false, false), Err(()));
}

#[test]
fn resolver_single_accepts_nonzero_only() {
    assert_eq!(
        auxv_from_resolver(Some(0x1234), None, false),
        Ok(AuxVec { hwcap: 0x1234, hwcap2: None })
    );
    assert_eq!(auxv_from_resolver(Some(0), None, false), Err(()));
    assert_eq!(auxv_from_resolver(None, None, false), Err(()));
}

#[test]
fn resolver_dual_needs_both_nonzero() {
    assert_eq!(
        auxv_from_resolver(Some(9), Some(3), true),
        Ok(AuxVec { hwcap: 9, hwcap2: Some(3) })
    );
    assert_eq!(auxv_from_resolver(Some(9), Some(0), true), Err(()));
    assert_eq!(auxv_from_resolver(Some(0), Some(3), true), Err(()));
    assert_eq!(auxv_from_resolver(Some(9), None, true), Err(()));
    assert_eq!(auxv_from_resolver(None, Some(3), true), Err(()));
}

#[test]
fn query_resolver_tier_wins() {
    // With a trustworthy resolver answer the file's content does not matter.
    let bytes = encode_pairs(&[(16, 111), (0, 0)], 8, false);
    let r = auxv(Some(0x1234), None, Some(&bytes), 8, false, false);
    assert_eq!(r, Ok(AuxVec { hwcap: 0x1234, hwcap2: None }));
}

#[test]
fn query_falls_back_to_file() {
    // A failing resolver lookup never prevents the file-based fallback.
    let bytes = encode_pairs(&[(16, 111), (0, 0)], 8, false);
    let r = auxv(None, None, Some(&bytes), 8, false, false);
    assert_eq!(r, Ok(AuxVec { hwcap: 111, hwcap2: None }));
}

#[test]
fn query_falls_back_on_big_endian_target() {
    // The fallback works in the file's native big-endian layout too.
    let bytes = encode_pairs(&[(16, 111), (26, 5), (0, 0)], 8, true);
    let r = auxv(None, None, Some(&bytes), 8, true, true);
    assert_eq!(r, Ok(AuxVec { hwcap: 111, hwcap2: Some(5) }));
}

#[test]
fn query_zero_resolver_value_falls_back() {
    // A resolver zero is not trusted; the file tier decides instead.
    let bytes = encode_pairs(&[(16, 111), (0, 0)], 8, false);
    let r = auxv(Some(0), None, Some(&bytes), 8, false, false);
    assert_eq!(r, Ok(AuxVec { hwcap: 111, hwcap2: None }));
}

#[test]
fn query_unreadable_file_fails_quietly() {
    // An unopenable or unreadable file arrives as no bytes at all: with the
    // resolver tier failing too, the query returns the no-detail failure.
    assert_eq!(auxv(None, None, None, 8, false, false), Err(()));
    assert_eq!(auxv(Some(0), None, None, 4, true, true), Err(()));
}

#[test]
fn query_is_idempotent() {
    // Two calls against the same static environment return equal results.
    let bytes = encode_pairs(&[(16, 4174038), (26, 16), (0, 0)], 4, false);
    let a = auxv(None, None, Some(&bytes), 4, false, true);
    let b = auxv(None, None, Some(&bytes), 4, false, true);
    assert_eq!(a, b);
    assert_eq!(a, Ok(AuxVec { hwcap: 4174038, hwcap2: Some(16) }));
    let c = auxv(Some(9), Some(3), None, 8, false, true);
    let d = auxv(Some(9), Some(3), None, 8, false, true);
    assert_eq!(c, d);
}
