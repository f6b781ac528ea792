//! The boundary-validation core: a full UTF-8 validity scan, run once at
//! ingestion, and an O(1) character-boundary test used by every slicing and
//! splitting operation.
//!
//! Both are specified against the UTF-8 theory of `vstd::utf8`
//! ([`valid_utf8`], [`is_char_boundary`]), so the higher text types can cut
//! byte sequences at accepted offsets and keep well-formedness without ever
//! re-scanning.

use vstd::prelude::*;
use vstd::utf8::*;

verus! {

/// Error of the validating constructors: the input is not well-formed UTF-8.
///
/// `valid_up_to` is the length of the longest well-formed prefix; it is also
/// the offset of the first byte at which no well-formed character encoding
/// starts.
#[derive(Clone, Copy, Debug, PartialEq, Eq, Structural)]
pub struct Utf8Error {
    /// Offset of the first invalid byte.
    pub valid_up_to: usize,
}

/// Error of the validating, buffer-consuming constructors: the input was
/// not well-formed UTF-8.
///
/// A decode failure is recoverable, so the input buffer is handed back to
/// the caller untouched in `bytes`, beside the offset information in
/// `error`.
#[derive(Debug)]
pub struct FromUtf8Error<B> {
    /// The rejected input buffer, returned unchanged.
    pub bytes: B,
    /// Where validation failed.
    pub error: Utf8Error,
}

// The three lemmas below settle, at the bit level, how the overlong-encoding
// and surrogate conditions on a decoded codepoint show up as plain range
// tests on the encoded bytes.
proof fn lemma_width2_ranges(b0: u8, b1: u8)
    by (bit_vector)
    requires
        0xc0 <= b0 <= 0xdf,
        0x80 <= b1 <= 0xbf,
    ensures
        codepoint_width_2(b0, b1) <= 0x7ff,
        (codepoint_width_2(b0, b1) >= 0x80 <==> b0 >= 0xc2),
{
}

proof fn lemma_width3_ranges(b0: u8, b1: u8, b2: u8)
    by (bit_vector)
    requires
        0xe0 <= b0 <= 0xef,
        0x80 <= b1 <= 0xbf,
        0x80 <= b2 <= 0xbf,
    ensures
        codepoint_width_3(b0, b1, b2) <= 0xffff,
        (codepoint_width_3(b0, b1, b2) >= 0x800 <==> (b0 != 0xe0 || b1 >= 0xa0)),
        ((0xd800 <= codepoint_width_3(b0, b1, b2) <= 0xdfff) <==> (b0 == 0xed && b1 >= 0xa0)),
{
}

proof fn lemma_width4_ranges(b0: u8, b1: u8, b2: u8, b3: u8)
    by (bit_vector)
    requires
        0xf0 <= b0 <= 0xf7,
        0x80 <= b1 <= 0xbf,
        0x80 <= b2 <= 0xbf,
        0x80 <= b3 <= 0xbf,
    ensures
        (codepoint_width_4(b0, b1, b2, b3) >= 0x10000 <==> (b0 >= 0xf1 || b1 >= 0x90)),
        (codepoint_width_4(b0, b1, b2, b3) <= 0x10ffff <==> (b0 < 0xf4 || (b0 == 0xf4 && b1
            <= 0x8f))),
{
}

/// Scans the whole slice once and decides whether it is well-formed UTF-8.
///
/// On failure the reported offset is exact: the prefix before it is
/// well-formed, and no well-formed character encoding starts at it.
pub fn validate_utf8(v: &[u8]) -> (r: Result<(), Utf8Error>)
    ensures
        r is Ok <==> valid_utf8(v@),
        r matches Err(e) ==> e.valid_up_to < v@.len(),
        r matches Err(e) ==> partial_valid_utf8(v@, e.valid_up_to as int),
        r matches Err(e) ==> !valid_first_scalar(
            v@.subrange(e.valid_up_to as int, v@.len() as int),
        ),
{
    let n = v.len();
    let mut i: usize = 0;
    while i < n
        invariant
            i <= n,
            n == v@.len(),
            partial_valid_utf8(v@, i as int),
        decreases n - i,
    {
        let ghost rest = v@.subrange(i as int, n as int);
        let rem = n - i;
        let b0 = v[i];
        let w: usize;
        if b0 < 0x80 {
            w = 1;
        } else if b0 < 0xc2 {
            // continuation byte in lead position, or an overlong 2-byte lead
            proof {
                if 0xc0 <= b0 && rest.len() >= 2 && is_continuation_byte(rest[1]) {
                    lemma_width2_ranges(b0, rest[1]);
                }
                assert(!valid_first_scalar(rest));
                lemma_invalid_at(v@, i as int);
            }
            return Err(Utf8Error { valid_up_to: i });
        } else if b0 < 0xe0 {
            if !(rem >= 2 && is_continuation(v[i + 1])) {
                proof {
                    assert(!valid_first_scalar(rest));
                    lemma_invalid_at(v@, i as int);
                }
                return Err(Utf8Error { valid_up_to: i });
            }
            proof {
                lemma_width2_ranges(b0, rest[1]);
            }
            w = 2;
        } else if b0 < 0xf0 {
            if !(rem >= 3 && is_continuation(v[i + 1]) && is_continuation(v[i + 2])) {
                proof {
                    assert(!valid_first_scalar(rest));
                    lemma_invalid_at(v@, i as int);
                }
                return Err(Utf8Error { valid_up_to: i });
            }
            let b1 = v[i + 1];
            proof {
                lemma_width3_ranges(b0, rest[1], rest[2]);
            }
            if (b0 == 0xe0 && b1 < 0xa0) || (b0 == 0xed && b1 >= 0xa0) {
                // overlong encoding, or a surrogate codepoint
                proof {
                    assert(!valid_first_scalar(rest));
                    lemma_invalid_at(v@, i as int);
                }
                return Err(Utf8Error { valid_up_to: i });
            }
            w = 3;
        } else if b0 < 0xf8 {
            if !(rem >= 4 && is_continuation(v[i + 1]) && is_continuation(v[i + 2])
                && is_continuation(v[i + 3])) {
                proof {
                    assert(!valid_first_scalar(rest));
                    lemma_invalid_at(v@, i as int);
                }
                return Err(Utf8Error { valid_up_to: i });
            }
            let b1 = v[i + 1];
            proof {
                lemma_width4_ranges(b0, rest[1], rest[2], rest[3]);
            }
            if b0 > 0xf4 || (b0 == 0xf0 && b1 < 0x90) || (b0 == 0xf4 && b1 >= 0x90) {
                // a codepoint below 0x10000 (overlong) or above 0x10ffff
                proof {
                    assert(!valid_first_scalar(rest));
                    lemma_invalid_at(v@, i as int);
                }
                return Err(Utf8Error { valid_up_to: i });
            }
            w = 4;
        } else {
            // no encoding has a lead byte of 0xf8 or above
            proof {
                assert(!valid_first_scalar(rest));
                lemma_invalid_at(v@, i as int);
            }
            return Err(Utf8Error { valid_up_to: i });
        }
        proof {
            assert(valid_first_scalar(rest));
            assert(length_of_first_scalar(rest) == w as int);
            partial_valid_utf8_extend(v@, i as int);
        }
        i = i + w;
    }
    proof {
        assert(v@.subrange(0, n as int) =~= v@);
    }
    Ok(())
}

/// Exact-range test for a UTF-8 continuation byte.
fn is_continuation(b: u8) -> (r: bool)
    ensures
        r == is_continuation_byte(b),
{
    0x80 <= b && b <= 0xbf
}

// A byte sequence that is well-formed up to `i` but holds no well-formed
// character encoding at `i` is not well-formed as a whole.
proof fn lemma_invalid_at(s: Seq<u8>, i: int)
    requires
        partial_valid_utf8(s, i),
        i < s.len(),
        !valid_first_scalar(s.subrange(i, s.len() as int)),
    ensures
        !valid_utf8(s),
{
    assert(!valid_utf8(s.subrange(i, s.len() as int)));
    partial_valid_partial_invalid_utf8(s, i);
}

/// Decides, in O(1), whether `index` falls exactly between two complete
/// characters of a well-formed byte sequence, or at either end of it.
/// Offsets past the end and offsets inside a multi-byte encoding are not
/// boundaries.
pub fn is_boundary(v: &[u8], index: usize) -> (r: bool)
    requires
        valid_utf8(v@),
    ensures
        r == is_char_boundary(v@, index as int),
{
    proof {
        is_char_boundary_start_end_of_seq(v@);
    }
    if index > v.len() {
        false
    } else if index == 0 || index == v.len() {
        true
    } else {
        proof {
            is_char_boundary_iff_not_is_continuation_byte(v@, index as int);
        }
        !is_continuation(v[index])
    }
}

/// Splitting a well-formed sequence at a character boundary leaves two
/// well-formed halves; a boundary of the whole below the cut is a boundary
/// of the left half as well.
pub proof fn lemma_boundary_in_prefix(s: Seq<u8>, end: int, i: int)
    requires
        valid_utf8(s),
        is_char_boundary(s, end),
        is_char_boundary(s, i),
        0 <= i <= end <= s.len(),
    ensures
        valid_utf8(s.subrange(0, end)),
        is_char_boundary(s.subrange(0, end), i),
{
    valid_utf8_split(s, end);
    let prefix = s.subrange(0, end);
    if i == 0 || i == end {
        is_char_boundary_start_end_of_seq(prefix);
    } else {
        is_char_boundary_iff_not_is_continuation_byte(s, i);
        is_char_boundary_iff_not_is_continuation_byte(prefix, i);
    }
}

/// The bytes between two character boundaries of a well-formed sequence are
/// themselves well-formed.
pub proof fn lemma_valid_between_boundaries(s: Seq<u8>, i: int, j: int)
    requires
        valid_utf8(s),
        is_char_boundary(s, i),
        is_char_boundary(s, j),
        0 <= i <= j <= s.len(),
    ensures
        valid_utf8(s.subrange(i, j)),
{
    lemma_boundary_in_prefix(s, j, i);
    let prefix = s.subrange(0, j);
    valid_utf8_split(prefix, i);
    assert(prefix.subrange(i, prefix.len() as int) =~= s.subrange(i, j));
}

} // verus!
