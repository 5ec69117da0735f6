//! The vector-file reader's pure half: turning the raw bytes of the
//! auxiliary-vector pseudo-file into the fixed 64-word buffer the pair
//! parser consumes, and parsing them in one step.
//!
//! The bytes themselves come from an unverified shell that opens and reads
//! the file; everything from the bytes on is verified here.  The pseudo-file
//! lays its words out in the machine's own byte order and word width, so
//! both are parameters: the word width in bytes, and whether the order is
//! big-endian.  The buffer is 64 machine words — room for the at most 32
//! `(key, value)` pairs the auxiliary-vector format defines — zero-filled
//! where the read came up short, and silently truncating anything beyond
//! that fixed bound.

use vstd::prelude::*;
use crate::{AuxVec, to_result};
use crate::pairs::{parse_pairs, auxv_from_buf};

verus! {

/// The auxiliary vector holds at most 32 `(key, value)` pairs, so 64 words
/// hold the whole of it.
pub const AUXV_WORDS: usize = 64;

/// 256 raised to `n`: the number of values `n` bytes can carry.
pub open spec fn pow256(n: nat) -> nat
    decreases n,
{
    if n == 0 {
        1
    } else {
        256 * pow256((n - 1) as nat)
    }
}

/// The unsigned value of a little-endian byte string: the first byte is the
/// least significant.
pub open spec fn le_value(s: Seq<u8>) -> nat
    decreases s.len(),
{
    if s.len() == 0 {
        0
    } else {
        s[0] as nat + 256 * le_value(s.subrange(1, s.len() as int))
    }
}

/// The unsigned value of a big-endian byte string: the last byte is the
/// least significant.
pub open spec fn be_value(s: Seq<u8>) -> nat
    decreases s.len(),
{
    if s.len() == 0 {
        0
    } else {
        256 * be_value(s.subrange(0, s.len() - 1)) + s[s.len() - 1] as nat
    }
}

/// The unsigned value of a byte string in the given byte order.
pub open spec fn word_value(s: Seq<u8>, big: bool) -> nat {
    if big {
        be_value(s)
    } else {
        le_value(s)
    }
}

/// The byte at position `i` of a zero-padded reading of `s`: bytes the read
/// did not deliver count as zero.
pub open spec fn padded_byte(s: Seq<u8>, i: int) -> u8 {
    if 0 <= i < s.len() {
        s[i]
    } else {
        0
    }
}

/// The `j`-th word-sized chunk of the zero-padded bytes, for a word of `w`
/// bytes.
pub open spec fn word_chunk(s: Seq<u8>, w: int, j: int) -> Seq<u8> {
    Seq::new(w as nat, |k: int| padded_byte(s, j * w + k))
}

/// The 64-word buffer that reading the bytes `s` fills, for a word of `w`
/// bytes in the given byte order: each word is the value of its chunk, a
/// short read leaves zero-valued words behind, and bytes beyond the fixed
/// bound are dropped.
pub open spec fn words_of_bytes(s: Seq<u8>, w: int, big: bool) -> Seq<u64> {
    Seq::new(AUXV_WORDS as nat, |j: int| word_value(word_chunk(s, w, j), big) as u64)
}

/// What reading a byte string yields for the given word width, byte order
/// and target shape.
pub open spec fn parse_bytes(s: Seq<u8>, w: int, big: bool, dual: bool) -> Option<AuxVec> {
    parse_pairs(words_of_bytes(s, w, big), dual)
}

/// A little-endian byte string's value is below what its length can carry.
proof fn lemma_le_value_bound(s: Seq<u8>)
    ensures
        le_value(s) < pow256(s.len()),
    decreases s.len(),
{
    if s.len() > 0 {
        lemma_le_value_bound(s.subrange(1, s.len() as int));
    }
}

/// A big-endian byte string's value is below what its length can carry.
proof fn lemma_be_value_bound(s: Seq<u8>)
    ensures
        be_value(s) < pow256(s.len()),
    decreases s.len(),
{
    if s.len() > 0 {
        lemma_be_value_bound(s.subrange(0, s.len() - 1));
    }
}

/// A power of 256 is at least one.
proof fn lemma_pow256_pos(n: nat)
    ensures
        pow256(n) >= 1,
    decreases n,
{
    if n > 0 {
        lemma_pow256_pos((n - 1) as nat);
    }
}

/// Eight bytes carry at most the full `u64` range.
proof fn lemma_pow256_word_bound(n: nat)
    requires
        n <= 8,
    ensures
        pow256(n) <= 0x1_0000_0000_0000_0000,
    decreases 8 - n,
{
    if n == 8 {
        reveal_with_fuel(pow256, 9);
    } else {
        lemma_pow256_pos(n);
        lemma_pow256_word_bound(n + 1);
    }
}

/// Assemble the fixed 64-word buffer from the bytes a read delivered,
/// `word_bytes` bytes to the word in the given byte order, zero-filling
/// what the bytes do not cover and dropping what lies beyond the buffer.
pub fn words_from_bytes(bytes: &[u8], word_bytes: usize, big: bool) -> (r: Vec<u64>)
    requires
        word_bytes == 4 || word_bytes == 8,
    ensures
        r@ == words_of_bytes(bytes@, word_bytes as int, big),
{
    let w = word_bytes;
    let mut out: Vec<u64> = Vec::new();
    let mut j: usize = 0;
    while j < AUXV_WORDS
        invariant
            w == word_bytes,
            w == 4 || w == 8,
            j <= AUXV_WORDS,
            out@.len() == j,
            forall|t: int| 0 <= t < j ==> out@[t] == words_of_bytes(bytes@, w as int, big)[t],
        decreases AUXV_WORDS - j,
    {
        let ghost chunk = word_chunk(bytes@, w as int, j as int);
        let mut acc: u64 = 0;
        if big {
            // Most significant byte first: fold the chunk from the front.
            let mut k: usize = 0;
            while k < w
                invariant
                    w == 4 || w == 8,
                    j < AUXV_WORDS,
                    k <= w,
                    chunk == word_chunk(bytes@, w as int, j as int),
                    acc == be_value(chunk.subrange(0, k as int)),
                    acc < pow256(k as nat),
                decreases w - k,
            {
                proof {
                    assert(j * w + k <= 511) by (nonlinear_arith)
                        requires
                            j < 64,
                            w <= 8,
                            k < w,
                    ;
                }
                let idx = j * w + k;
                let b: u8 = if idx < bytes.len() {
                    bytes[idx]
                } else {
                    0
                };
                proof {
                    assert(chunk[k as int] == padded_byte(bytes@, j as int * w as int + k as int));
                    assert(b == chunk[k as int]);
                    let head = chunk.subrange(0, k as int);
                    assert(chunk.subrange(0, k as int + 1).subrange(0, k as int) =~= head);
                    assert(chunk.subrange(0, k as int + 1)[k as int] == chunk[k as int]);
                    assert(be_value(chunk.subrange(0, k as int + 1)) == 256 * be_value(head) + b);
                    lemma_pow256_word_bound((k + 1) as nat);
                }
                acc = 256 * acc + b as u64;
                k = k + 1;
            }
            proof {
                assert(chunk.subrange(0, w as int) =~= chunk);
            }
        } else {
            // Least significant byte first: fold the chunk from the back.
            let mut k: usize = w;
            while k > 0
                invariant
                    w == 4 || w == 8,
                    j < AUXV_WORDS,
                    k <= w,
                    chunk == word_chunk(bytes@, w as int, j as int),
                    acc == le_value(chunk.subrange(k as int, w as int)),
                    acc < pow256((w - k) as nat),
                decreases k,
            {
                k = k - 1;
                proof {
                    assert(j * w + k <= 511) by (nonlinear_arith)
                        requires
                            j < 64,
                            w <= 8,
                            k < w,
                    ;
                }
                let idx = j * w + k;
                let b: u8 = if idx < bytes.len() {
                    bytes[idx]
                } else {
                    0
                };
                proof {
                    assert(chunk[k as int] == padded_byte(bytes@, j as int * w as int + k as int));
                    assert(b == chunk[k as int]);
                    let tail = chunk.subrange(k as int + 1, w as int);
                    assert(chunk.subrange(k as int, w as int).subrange(1, (w - k) as int) =~= tail);
                    assert(chunk.subrange(k as int, w as int)[0] == chunk[k as int]);
                    assert(le_value(chunk.subrange(k as int, w as int)) == b + 256 * le_value(tail));
                    lemma_pow256_word_bound((w - k) as nat);
                }
                acc = b as u64 + 256 * acc;
            }
            proof {
                assert(chunk.subrange(0, w as int) =~= chunk);
            }
        }
        proof {
            if big {
                lemma_be_value_bound(chunk);
            } else {
                lemma_le_value_bound(chunk);
            }
            lemma_pow256_word_bound(w as nat);
            assert(words_of_bytes(bytes@, w as int, big)[j as int] == word_value(chunk, big) as u64);
        }
        out.push(acc);
        j = j + 1;
    }
    proof {
        assert(out@ =~= words_of_bytes(bytes@, word_bytes as int, big));
    }
    out
}

/// The vector-file reader's pure half: take the bytes a read of the
/// auxiliary-vector file delivered, assemble the fixed zero-padded word
/// buffer in the machine's word width and byte order, and parse it for the
/// given target shape.  A short read is accepted as-is: the zero-filled
/// slots are `key = 0` pairs, which never match either capability key.
pub fn auxv_from_bytes(bytes: &[u8], word_bytes: usize, big: bool, dual: bool) -> (r: Result<
    AuxVec,
    (),
>)
    requires
        word_bytes == 4 || word_bytes == 8,
    ensures
        r == to_result(parse_bytes(bytes@, word_bytes as int, big, dual)),
{
    let words = words_from_bytes(bytes, word_bytes, big);
    auxv_from_buf(words.as_slice(), dual)
}

} // verus!
