//! Library-wide laws, stated over the byte-sequence views that every
//! contract in this crate speaks of, and proved once here.

use core::cmp::Ordering;
use vstd::prelude::*;
use vstd::std_specs::cmp::PartialEqSpec;
use vstd::utf8::*;

use crate::order::lex_cmp_bytes;
use crate::text::Text;
use crate::text_mut::TextMut;

verus! {

/// Byte-wise comparison refines character-wise comparison: two well-formed
/// UTF-8 byte sequences are equal exactly when their decoded character
/// sequences are, so the byte-level equality the text types implement is
/// equality of text content.
pub proof fn lemma_byte_equality_is_character_equality(a: Seq<u8>, b: Seq<u8>)
    requires
        valid_utf8(a),
        valid_utf8(b),
    ensures
        a == b <==> decode_utf8(a) == decode_utf8(b),
{
    if decode_utf8(a) == decode_utf8(b) {
        decode_utf8_encode_utf8(a);
        decode_utf8_encode_utf8(b);
    }
}

/// Consistency of ordering with equality: two byte sequences compare
/// `Equal` under the lexicographic order that `partial_cmp` implements
/// exactly when they are the same sequence.
pub proof fn lemma_equal_ordering(a: Seq<u8>, b: Seq<u8>)
    ensures
        lex_cmp_bytes(a, b) == Ordering::Equal <==> a == b,
    decreases a.len(),
{
    if a.len() == 0 && b.len() == 0 {
        assert(a =~= b);
    } else if a.len() != 0 && b.len() != 0 && a[0] == b[0] {
        lemma_equal_ordering(a.drop_first(), b.drop_first());
        if lex_cmp_bytes(a, b) == Ordering::Equal {
            assert forall|k: int| 0 <= k < a.len() implies a[k] == b[k] by {
                if k > 0 {
                    assert(a[k] == a.drop_first()[k - 1]);
                    assert(b[k] == b.drop_first()[k - 1]);
                }
            }
            assert(a =~= b);
        }
    }
}

/// Split/join inverse: splitting any text at a valid index and joining the
/// two halves again reproduces the original text exactly.
///
/// `Text::split_at` and `TextMut::split_at` ensure that the halves are the
/// two subranges around `i`, and `TextMut::join` ensures the concatenation
/// of its arguments, so this equality closes the loop between them.
pub proof fn lemma_split_join_inverse(t: Seq<u8>, i: int)
    requires
        0 <= i <= t.len(),
    ensures
        t.subrange(0, i) + t.subrange(i, t.len() as int) == t,
{
    assert(t.subrange(0, i) + t.subrange(i, t.len() as int) =~= t);
}

/// Cross-type equality: a shared text and a buffer built from the same
/// string hold the same bytes, and the equality both types implement (which
/// means byte equality, by `eq_spec`) relates them to each other and to
/// that string.
///
/// `Text::copy_from` and `TextMut::copy_from` both ensure that the view of
/// the result is `encode_utf8(s@)`, which is the premise here.
pub proof fn lemma_cross_type_equality(t: Text, m: TextMut, s: &str)
    requires
        t@ == encode_utf8(s@),
        m@ == encode_utf8(s@),
    ensures
        t@ == m@,
        t.eq_spec(&m),
        m.eq_spec(&t),
        t.eq_spec(&s),
        m.eq_spec(&s),
{
}

} // verus!
