//! The mutable text buffer.

use vstd::prelude::*;
use vstd::utf8::*;

use bytes::BytesMut;

use crate::order::cmp_bytes;
use crate::order::eq_bytes;
use crate::order::lex_cmp_bytes;
use crate::storage::bytes_mut_append;
use crate::storage::bytes_mut_cap;
use crate::storage::bytes_mut_as_slice;
use crate::storage::bytes_mut_capacity;
use crate::storage::bytes_mut_clear;
use crate::storage::bytes_mut_freeze;
use crate::storage::bytes_mut_new;
use crate::storage::bytes_mut_reserve;
use crate::storage::bytes_mut_split_off;
use crate::storage::bytes_mut_unsplit;
use crate::storage::bytes_mut_view;
use crate::storage::bytes_mut_with_capacity;
use crate::storage::utf8_to_str;
use crate::text::Text;
use crate::utf8::validate_utf8;
use crate::utf8::is_boundary;
use crate::utf8::FromUtf8Error;

verus! {

/// The UTF-8 encodings of a sequence of string slices, laid end to end.
pub open spec fn strs_bytes(items: Seq<&str>) -> Seq<u8>
    decreases items.len(),
{
    if items.len() == 0 {
        Seq::empty()
    } else {
        encode_utf8(items[0]@) + strs_bytes(items.drop_first())
    }
}

/// The UTF-8 encodings of a sequence of owned strings, laid end to end.
pub open spec fn strings_bytes(items: Seq<String>) -> Seq<u8>
    decreases items.len(),
{
    if items.len() == 0 {
        Seq::empty()
    } else {
        encode_utf8(items[0]@) + strings_bytes(items.drop_first())
    }
}

/// The byte contents of a sequence of text values, laid end to end.
pub open spec fn texts_bytes(items: Seq<Text>) -> Seq<u8>
    decreases items.len(),
{
    if items.len() == 0 {
        Seq::empty()
    } else {
        items[0]@ + texts_bytes(items.drop_first())
    }
}

// Each character encodes to at least one byte.
proof fn lemma_encode_utf8_len_lower(chars: Seq<char>)
    ensures
        encode_utf8(chars).len() >= chars.len(),
    decreases chars.len(),
{
    if chars.len() != 0 {
        lemma_encode_utf8_len_lower(chars.drop_first());
    }
}

/// Exclusively owned, growable, well-formed UTF-8 text.
///
/// A `TextMut` is the only handle onto its byte region, so in-place appending
/// is sound. Its view `self@` is the used byte region, and every live
/// `TextMut` satisfies `valid_utf8(self@)`: growth only ever appends complete
/// character encodings, and splits only cut at character boundaries.
#[derive(Debug, Hash, Eq)]
pub struct TextMut {
    bytes: BytesMut,
}

impl View for TextMut {
    type V = Seq<u8>;

    closed spec fn view(&self) -> Seq<u8> {
        bytes_mut_view(self.bytes)
    }
}

impl TextMut {
    #[verifier::type_invariant]
    spec fn wf(self) -> bool {
        valid_utf8(bytes_mut_view(self.bytes))
    }

    /// The number of bytes this buffer can hold without reallocating.
    pub closed spec fn spec_capacity(&self) -> nat {
        bytes_mut_cap(self.bytes)
    }

    /// Creates a new, empty text buffer.
    pub fn new() -> (r: TextMut)
        ensures
            r@ == Seq::<u8>::empty(),
    {
        TextMut { bytes: bytes_mut_new() }
    }

    /// Creates a new, empty text buffer able to grow to at least `capacity`
    /// bytes before reallocating.
    pub fn with_capacity(capacity: usize) -> (r: TextMut)
        requires
            capacity <= isize::MAX,
        ensures
            r@ == Seq::<u8>::empty(),
            r.spec_capacity() >= capacity,
    {
        TextMut { bytes: bytes_mut_with_capacity(capacity) }
    }

    /// Copies the given string into a new buffer.
    pub fn copy_from(s: &str) -> (r: TextMut)
        requires
            encode_utf8(s@).len() <= isize::MAX,
        ensures
            r@ == encode_utf8(s@),
    {
        let mut t = TextMut::new();
        t.reserve(s.len());
        t.push_str(s);
        t
    }

    /// Validates the given bytes and wraps them without copying.
    ///
    /// Succeeds exactly on well-formed UTF-8; on failure the error reports
    /// the exact offset of the first invalid byte and hands the input
    /// buffer back unchanged.
    pub fn from_utf8(b: BytesMut) -> (r: Result<TextMut, FromUtf8Error<BytesMut>>)
        ensures
            valid_utf8(bytes_mut_view(b)) ==> (r matches Ok(t) && t@ == bytes_mut_view(b)),
            !valid_utf8(bytes_mut_view(b)) ==> (r matches Err(e) && bytes_mut_view(e.bytes)
                == bytes_mut_view(b) && e.error.valid_up_to < bytes_mut_view(b).len()
                && partial_valid_utf8(bytes_mut_view(b), e.error.valid_up_to as int)
                && !valid_first_scalar(
                bytes_mut_view(b).subrange(
                    e.error.valid_up_to as int,
                    bytes_mut_view(b).len() as int,
                ),
            )),
    {
        let checked = {
            let s = bytes_mut_as_slice(&b);
            validate_utf8(s)
        };
        match checked {
            Ok(()) => Ok(TextMut { bytes: b }),
            Err(error) => Err(FromUtf8Error { bytes: b, error }),
        }
    }

    /// Wraps bytes that the caller asserts to be well-formed UTF-8, skipping
    /// the scan.
    ///
    /// This is the trusted-producer escape hatch: the `requires` clause is
    /// the caller obligation, and no run-time check backs it up. Prefer
    /// [`TextMut::from_utf8`] everywhere the bytes are not already known
    /// valid.
    pub fn from_utf8_unchecked(b: BytesMut) -> (r: TextMut)
        requires
            valid_utf8(bytes_mut_view(b)),
        ensures
            r@ == bytes_mut_view(b),
    {
        TextMut { bytes: b }
    }

    /// The number of bytes in this buffer.
    pub fn len(&self) -> (r: usize)
        ensures
            r == self@.len(),
    {
        bytes_mut_as_slice(&self.bytes).len()
    }

    /// The number of bytes this buffer can hold before reallocating; at
    /// least its current length.
    pub fn capacity(&self) -> (r: usize)
        ensures
            r == self.spec_capacity(),
            r >= self@.len(),
    {
        bytes_mut_capacity(&self.bytes)
    }

    /// Whether this buffer holds no bytes.
    pub fn is_empty(&self) -> (r: bool)
        ensures
            r == (self@.len() == 0),
    {
        bytes_mut_as_slice(&self.bytes).len() == 0
    }

    /// Freezes this buffer into an immutable, shareable text value over the
    /// same bytes, with no copy and no re-validation.
    pub fn freeze(self) -> (r: Text)
        ensures
            r@ == self@,
    {
        proof {
            use_type_invariant(&self);
        }
        let TextMut { bytes } = self;
        Text::from_utf8_unchecked(bytes_mut_freeze(bytes))
    }

    /// Reserves space for at least `additional` more bytes to be appended
    /// without reallocation.
    pub fn reserve(&mut self, additional: usize)
        requires
            old(self)@.len() + additional <= isize::MAX,
        ensures
            final(self)@ == old(self)@,
            final(self).spec_capacity() >= old(self)@.len() + additional,
    {
        proof {
            use_type_invariant(&*self);
        }
        let mut b = bytes_mut_new();
        core::mem::swap(&mut b, &mut self.bytes);
        let b = bytes_mut_reserve(b, additional);
        self.bytes = b;
    }

    /// Removes the contents; capacity is retained.
    pub fn clear(&mut self)
        ensures
            final(self)@ == Seq::<u8>::empty(),
            final(self).spec_capacity() == old(self).spec_capacity(),
    {
        let mut b = bytes_mut_new();
        core::mem::swap(&mut b, &mut self.bytes);
        let b = bytes_mut_clear(b);
        self.bytes = b;
    }

    /// Borrows the underlying byte buffer. The bytes are well-formed UTF-8.
    pub fn as_bytes(&self) -> (r: &BytesMut)
        ensures
            bytes_mut_view(*r) == self@,
            valid_utf8(self@),
    {
        proof {
            use_type_invariant(&*self);
        }
        &self.bytes
    }

    /// Borrows the byte contents. The bytes are well-formed UTF-8.
    pub(crate) fn as_byte_slice(&self) -> (r: &[u8])
        ensures
            r@ == self@,
            valid_utf8(self@),
    {
        proof {
            use_type_invariant(&*self);
        }
        bytes_mut_as_slice(&self.bytes)
    }

    /// Converts into the underlying byte buffer. The bytes are well-formed
    /// UTF-8.
    pub fn into_bytes_mut(self) -> (r: BytesMut)
        ensures
            bytes_mut_view(r) == self@,
            valid_utf8(bytes_mut_view(r)),
    {
        proof {
            use_type_invariant(&self);
        }
        let TextMut { bytes } = self;
        bytes
    }

    /// Borrows this buffer as a string slice over the same bytes.
    pub fn as_str(&self) -> (r: &str)
        ensures
            encode_utf8(r@) == self@,
            r@ == decode_utf8(self@),
    {
        proof {
            use_type_invariant(&*self);
        }
        let s = utf8_to_str(bytes_mut_as_slice(&self.bytes));
        proof {
            encode_utf8_decode_utf8(s@);
        }
        s
    }

    /// The decoded character content, as an owned string.
    pub fn to_string(&self) -> (r: String)
        ensures
            r@ == decode_utf8(self@),
    {
        self.as_str().to_owned()
    }

    /// Splits this buffer into two exclusively owned buffers: the bytes
    /// before `index` and the bytes from `index` on. If `index` is not a
    /// character boundary, the buffer is handed back unconsumed.
    pub fn split_at(self, index: usize) -> (r: Result<(TextMut, TextMut), TextMut>)
        ensures
            is_char_boundary(self@, index as int) ==> (r matches Ok(p) && p.0@ == self@.subrange(
                0,
                index as int,
            ) && p.1@ == self@.subrange(index as int, self@.len() as int)),
            !is_char_boundary(self@, index as int) ==> (r matches Err(t) && t@ == self@),
    {
        proof {
            use_type_invariant(&self);
        }
        let ok = {
            let s = bytes_mut_as_slice(&self.bytes);
            is_boundary(s, index)
        };
        if !ok {
            return Err(self);
        }
        proof {
            valid_utf8_split(bytes_mut_view(self.bytes), index as int);
        }
        let TextMut { bytes } = self;
        let (head, tail) = bytes_mut_split_off(bytes, index);
        Ok((TextMut { bytes: head }, TextMut { bytes: tail }))
    }

    /// Splits off and returns the bytes from `index` on; this buffer keeps
    /// the bytes before `index`. If `index` is not a character boundary,
    /// nothing happens and `None` is returned.
    pub fn split_off(&mut self, index: usize) -> (r: Option<TextMut>)
        ensures
            is_char_boundary(old(self)@, index as int) ==> (r matches Some(t) && final(self)@
                == old(self)@.subrange(0, index as int) && t@ == old(self)@.subrange(
                index as int,
                old(self)@.len() as int,
            )),
            !is_char_boundary(old(self)@, index as int) ==> (r is None && final(self)@ == old(
                self,
            )@),
    {
        proof {
            use_type_invariant(&*self);
        }
        let ok = {
            let s = bytes_mut_as_slice(&self.bytes);
            is_boundary(s, index)
        };
        if !ok {
            return None;
        }
        proof {
            valid_utf8_split(bytes_mut_view(self.bytes), index as int);
        }
        let mut b = bytes_mut_new();
        core::mem::swap(&mut b, &mut self.bytes);
        let (head, tail) = bytes_mut_split_off(b, index);
        self.bytes = head;
        Some(TextMut { bytes: tail })
    }

    /// Splits off and returns the bytes before `index`; this buffer keeps
    /// the bytes from `index` on. If `index` is not a character boundary,
    /// nothing happens and `None` is returned.
    pub fn split_to(&mut self, index: usize) -> (r: Option<TextMut>)
        ensures
            is_char_boundary(old(self)@, index as int) ==> (r matches Some(t) && t@ == old(
                self,
            )@.subrange(0, index as int) && final(self)@ == old(self)@.subrange(
                index as int,
                old(self)@.len() as int,
            )),
            !is_char_boundary(old(self)@, index as int) ==> (r is None && final(self)@ == old(
                self,
            )@),
    {
        proof {
            use_type_invariant(&*self);
        }
        let ok = {
            let s = bytes_mut_as_slice(&self.bytes);
            is_boundary(s, index)
        };
        if !ok {
            return None;
        }
        proof {
            valid_utf8_split(bytes_mut_view(self.bytes), index as int);
        }
        let mut b = bytes_mut_new();
        core::mem::swap(&mut b, &mut self.bytes);
        let (head, tail) = bytes_mut_split_off(b, index);
        self.bytes = tail;
        Some(TextMut { bytes: head })
    }

    /// Appends the bytes of an already-valid string: the concatenation of
    /// two well-formed UTF-8 sequences is well-formed.
    pub fn push_str(&mut self, s: &str)
        requires
            old(self)@.len() + encode_utf8(s@).len() <= isize::MAX,
        ensures
            final(self)@ == old(self)@ + encode_utf8(s@),
            old(self)@.len() + encode_utf8(s@).len() <= old(self).spec_capacity()
                ==> final(self).spec_capacity() == old(self).spec_capacity(),
    {
        proof {
            use_type_invariant(&*self);
            encode_utf8_valid_utf8(s@);
            valid_utf8_concat(bytes_mut_view(self.bytes), encode_utf8(s@));
        }
        let mut b = bytes_mut_new();
        core::mem::swap(&mut b, &mut self.bytes);
        let b = bytes_mut_append(b, s.as_bytes());
        self.bytes = b;
    }

    /// Appends the bytes of an already-valid text value.
    pub fn push_text(&mut self, t: &Text)
        requires
            old(self)@.len() + t@.len() <= isize::MAX,
        ensures
            final(self)@ == old(self)@ + t@,
            old(self)@.len() + t@.len() <= old(self).spec_capacity()
                ==> final(self).spec_capacity() == old(self).spec_capacity(),
    {
        proof {
            use_type_invariant(&*self);
        }
        let s = t.as_byte_slice();
        proof {
            valid_utf8_concat(bytes_mut_view(self.bytes), t@);
        }
        let mut b = bytes_mut_new();
        core::mem::swap(&mut b, &mut self.bytes);
        let b = bytes_mut_append(b, s);
        self.bytes = b;
    }

    /// Encodes one character and appends it; the encoder only ever emits
    /// complete, well-formed sequences.
    pub fn push(&mut self, c: char)
        requires
            old(self)@.len() + encode_scalar(c as u32).len() <= isize::MAX,
        ensures
            final(self)@ == old(self)@ + encode_scalar(c as u32),
            old(self)@.len() + encode_scalar(c as u32).len() <= old(self).spec_capacity()
                ==> final(self).spec_capacity() == old(self).spec_capacity(),
    {
        proof {
            use_type_invariant(&*self);
            char_is_scalar(c);
            lemma_mask_bounds(c as u32);
        }
        let u = c as u32;
        let mut tmp: Vec<u8> = Vec::new();
        if u < 0x80 {
            tmp.push((u & 0x7f) as u8);
        } else if u < 0x800 {
            tmp.push(0xc0 | (((u >> 6) & 0x1f) as u8));
            tmp.push(0x80 | ((u & 0x3f) as u8));
        } else if u < 0x10000 {
            tmp.push(0xe0 | (((u >> 12) & 0x0f) as u8));
            tmp.push(0x80 | (((u >> 6) & 0x3f) as u8));
            tmp.push(0x80 | ((u & 0x3f) as u8));
        } else {
            tmp.push(0xf0 | (((u >> 18) & 0x07) as u8));
            tmp.push(0x80 | (((u >> 12) & 0x3f) as u8));
            tmp.push(0x80 | (((u >> 6) & 0x3f) as u8));
            tmp.push(0x80 | ((u & 0x3f) as u8));
        }
        proof {
            assert(tmp@ =~= encode_scalar(u));
            reveal_with_fuel(encode_utf8, 2);
            assert(seq![c].drop_first() =~= Seq::<char>::empty());
            assert(encode_utf8(seq![c]) =~= encode_scalar(c as u32));
            encode_utf8_valid_utf8(seq![c]);
            valid_utf8_concat(bytes_mut_view(self.bytes), encode_scalar(u));
        }
        let mut b = bytes_mut_new();
        core::mem::swap(&mut b, &mut self.bytes);
        let b = bytes_mut_append(b, tmp.as_slice());
        self.bytes = b;
    }

    /// Joins two buffers. When `other` descends from a split of the same
    /// buffer and still sits immediately after this one, the storage is
    /// merged back in O(1); otherwise the bytes are copied onto the end.
    /// The observable result is the concatenation either way.
    pub fn join(self, other: TextMut) -> (r: TextMut)
        requires
            self@.len() + other@.len() <= isize::MAX,
        ensures
            r@ == self@ + other@,
    {
        proof {
            use_type_invariant(&self);
            use_type_invariant(&other);
            valid_utf8_concat(bytes_mut_view(self.bytes), bytes_mut_view(other.bytes));
        }
        let TextMut { bytes: a } = self;
        let TextMut { bytes: b } = other;
        TextMut { bytes: bytes_mut_unsplit(a, b) }
    }

    /// Appends every character of the sequence, reserving its length as a
    /// lower bound on the bytes needed first.
    pub fn extend_chars(&mut self, items: Vec<char>)
        requires
            old(self)@.len() + encode_utf8(items@).len() <= isize::MAX,
        ensures
            final(self)@ == old(self)@ + encode_utf8(items@),
    {
        proof {
            lemma_encode_utf8_len_lower(items@);
        }
        let n = items.len();
        self.reserve(n);
        proof {
            assert(items@.skip(0) =~= items@);
        }
        let mut i: usize = 0;
        while i < n
            invariant
                i <= n,
                n == items@.len(),
                self@ + encode_utf8(items@.skip(i as int)) == old(self)@ + encode_utf8(items@),
                old(self)@.len() + encode_utf8(items@).len() <= isize::MAX,
            decreases n - i,
        {
            let ghost rest = items@.skip(i as int);
            proof {
                assert(rest[0] == items@[i as int]);
                assert(rest.drop_first() =~= items@.skip(i as int + 1));
                char_is_scalar(items@[i as int]);
            }
            let c = items[i];
            proof {
                assert(encode_utf8(rest) == encode_scalar(c as u32) + encode_utf8(
                    items@.skip(i as int + 1),
                ));
                assert((self@ + encode_utf8(rest)).len() == self@.len() + encode_utf8(
                    rest,
                ).len());
                assert((old(self)@ + encode_utf8(items@)).len() == old(self)@.len() + encode_utf8(
                    items@,
                ).len());
            }
            self.push(c);
            proof {
                assert(self@ + encode_utf8(items@.skip(i as int + 1)) =~= old(self)@ + encode_utf8(
                    items@,
                ));
            }
            i = i + 1;
        }
        proof {
            assert(items@.skip(n as int) =~= Seq::<char>::empty());
            assert(self@ + encode_utf8(items@.skip(n as int)) =~= self@);
        }
    }

    /// Appends every string slice of the sequence, in order.
    pub fn extend_strs(&mut self, items: Vec<&str>)
        requires
            old(self)@.len() + strs_bytes(items@).len() <= isize::MAX,
        ensures
            final(self)@ == old(self)@ + strs_bytes(items@),
    {
        let n = items.len();
        proof {
            assert(items@.skip(0) =~= items@);
        }
        let mut i: usize = 0;
        while i < n
            invariant
                i <= n,
                n == items@.len(),
                self@ + strs_bytes(items@.skip(i as int)) == old(self)@ + strs_bytes(items@),
                old(self)@.len() + strs_bytes(items@).len() <= isize::MAX,
            decreases n - i,
        {
            let ghost rest = items@.skip(i as int);
            proof {
                assert(rest[0] == items@[i as int]);
                assert(rest.drop_first() =~= items@.skip(i as int + 1));
            }
            let s = items[i];
            proof {
                assert(strs_bytes(rest) == encode_utf8(s@) + strs_bytes(items@.skip(i as int + 1)));
                assert((self@ + strs_bytes(rest)).len() == self@.len() + strs_bytes(
                    rest,
                ).len());
                assert((old(self)@ + strs_bytes(items@)).len() == old(self)@.len() + strs_bytes(
                    items@,
                ).len());
            }
            self.push_str(s);
            proof {
                assert(self@ + strs_bytes(items@.skip(i as int + 1)) =~= old(self)@ + strs_bytes(
                    items@,
                ));
            }
            i = i + 1;
        }
        proof {
            assert(items@.skip(n as int) =~= Seq::<&str>::empty());
            assert(self@ + strs_bytes(items@.skip(n as int)) =~= self@);
        }
    }

    /// Appends every owned string of the sequence, in order.
    pub fn extend_strings(&mut self, items: Vec<String>)
        requires
            old(self)@.len() + strings_bytes(items@).len() <= isize::MAX,
        ensures
            final(self)@ == old(self)@ + strings_bytes(items@),
    {
        let n = items.len();
        proof {
            assert(items@.skip(0) =~= items@);
        }
        let mut i: usize = 0;
        while i < n
            invariant
                i <= n,
                n == items@.len(),
                self@ + strings_bytes(items@.skip(i as int)) == old(self)@ + strings_bytes(items@),
                old(self)@.len() + strings_bytes(items@).len() <= isize::MAX,
            decreases n - i,
        {
            let ghost rest = items@.skip(i as int);
            proof {
                assert(rest[0] == items@[i as int]);
                assert(rest.drop_first() =~= items@.skip(i as int + 1));
            }
            let s = &items[i];
            proof {
                assert(strings_bytes(rest) == encode_utf8(s@) + strings_bytes(
                    items@.skip(i as int + 1),
                ));
                assert((self@ + strings_bytes(rest)).len() == self@.len() + strings_bytes(
                    rest,
                ).len());
                assert((old(self)@ + strings_bytes(items@)).len() == old(self)@.len() + strings_bytes(
                    items@,
                ).len());
            }
            self.push_str(s.as_str());
            proof {
                assert(self@ + strings_bytes(items@.skip(i as int + 1)) =~= old(self)@
                    + strings_bytes(items@));
            }
            i = i + 1;
        }
        proof {
            assert(items@.skip(n as int) =~= Seq::<String>::empty());
            assert(self@ + strings_bytes(items@.skip(n as int)) =~= self@);
        }
    }

    /// Appends the bytes of every text value of the sequence, in order.
    pub fn extend_texts(&mut self, items: Vec<Text>)
        requires
            old(self)@.len() + texts_bytes(items@).len() <= isize::MAX,
        ensures
            final(self)@ == old(self)@ + texts_bytes(items@),
    {
        let n = items.len();
        proof {
            assert(items@.skip(0) =~= items@);
        }
        let mut i: usize = 0;
        while i < n
            invariant
                i <= n,
                n == items@.len(),
                self@ + texts_bytes(items@.skip(i as int)) == old(self)@ + texts_bytes(items@),
                old(self)@.len() + texts_bytes(items@).len() <= isize::MAX,
            decreases n - i,
        {
            let ghost rest = items@.skip(i as int);
            proof {
                assert(rest[0] == items@[i as int]);
                assert(rest.drop_first() =~= items@.skip(i as int + 1));
            }
            let t = &items[i];
            proof {
                assert(texts_bytes(rest) == t@ + texts_bytes(items@.skip(i as int + 1)));
                assert((self@ + texts_bytes(rest)).len() == self@.len() + texts_bytes(
                    rest,
                ).len());
                assert((old(self)@ + texts_bytes(items@)).len() == old(self)@.len() + texts_bytes(
                    items@,
                ).len());
            }
            self.push_text(t);
            proof {
                assert(self@ + texts_bytes(items@.skip(i as int + 1)) =~= old(self)@ + texts_bytes(
                    items@,
                ));
            }
            i = i + 1;
        }
        proof {
            assert(items@.skip(n as int) =~= Seq::<Text>::empty());
            assert(self@ + texts_bytes(items@.skip(n as int)) =~= self@);
        }
    }

    /// Byte-wise equality against a string slice; for well-formed UTF-8 this
    /// is character-wise equality.
    pub fn eq_str(&self, other: &str) -> (r: bool)
        ensures
            r == (self@ == encode_utf8(other@)),
    {
        eq_bytes(bytes_mut_as_slice(&self.bytes), other.as_bytes())
    }
}

// Bounds of the bit fields used when encoding one character, so that the
// narrowing casts in `push` are exact.
proof fn lemma_mask_bounds(u: u32)
    by (bit_vector)
    ensures
        u & 0x7f <= 0x7f,
        (u >> 6) & 0x1f <= 0x1f,
        u & 0x3f <= 0x3f,
        (u >> 12) & 0x0f <= 0x0f,
        (u >> 6) & 0x3f <= 0x3f,
        (u >> 18) & 0x07 <= 0x07,
        (u >> 12) & 0x3f <= 0x3f,
{
}

impl Default for TextMut {
    fn default() -> (r: Self)
        ensures
            r@ == Seq::<u8>::empty(),
    {
        TextMut::new()
    }
}

impl PartialEq for TextMut {
    fn eq(&self, other: &TextMut) -> (r: bool) {
        eq_bytes(bytes_mut_as_slice(&self.bytes), bytes_mut_as_slice(&other.bytes))
    }
}

impl vstd::std_specs::cmp::PartialEqSpecImpl for TextMut {
    open spec fn obeys_eq_spec() -> bool {
        true
    }

    open spec fn eq_spec(&self, other: &TextMut) -> bool {
        self@ == other@
    }
}

impl PartialEq<Text> for TextMut {
    fn eq(&self, other: &Text) -> (r: bool) {
        eq_bytes(bytes_mut_as_slice(&self.bytes), other.as_byte_slice())
    }
}

impl vstd::std_specs::cmp::PartialEqSpecImpl<Text> for TextMut {
    open spec fn obeys_eq_spec() -> bool {
        true
    }

    open spec fn eq_spec(&self, other: &Text) -> bool {
        self@ == other@
    }
}

impl PartialEq<&str> for TextMut {
    fn eq(&self, other: &&str) -> (r: bool) {
        eq_bytes(bytes_mut_as_slice(&self.bytes), other.as_bytes())
    }
}

impl vstd::std_specs::cmp::PartialEqSpecImpl<&str> for TextMut {
    open spec fn obeys_eq_spec() -> bool {
        true
    }

    open spec fn eq_spec(&self, other: &&str) -> bool {
        self@ == encode_utf8((*other)@)
    }
}

impl PartialOrd for TextMut {
    fn partial_cmp(&self, other: &TextMut) -> (r: Option<core::cmp::Ordering>) {
        Some(cmp_bytes(bytes_mut_as_slice(&self.bytes), bytes_mut_as_slice(&other.bytes)))
    }
}

impl vstd::std_specs::cmp::PartialOrdSpecImpl for TextMut {
    open spec fn obeys_partial_cmp_spec() -> bool {
        true
    }

    open spec fn partial_cmp_spec(&self, other: &TextMut) -> Option<core::cmp::Ordering> {
        Some(lex_cmp_bytes(self@, other@))
    }
}

impl PartialOrd<Text> for TextMut {
    fn partial_cmp(&self, other: &Text) -> (r: Option<core::cmp::Ordering>) {
        Some(cmp_bytes(bytes_mut_as_slice(&self.bytes), other.as_byte_slice()))
    }
}

impl vstd::std_specs::cmp::PartialOrdSpecImpl<Text> for TextMut {
    open spec fn obeys_partial_cmp_spec() -> bool {
        true
    }

    open spec fn partial_cmp_spec(&self, other: &Text) -> Option<core::cmp::Ordering> {
        Some(lex_cmp_bytes(self@, other@))
    }
}

impl PartialOrd<&str> for TextMut {
    fn partial_cmp(&self, other: &&str) -> (r: Option<core::cmp::Ordering>) {
        Some(cmp_bytes(bytes_mut_as_slice(&self.bytes), other.as_bytes()))
    }
}

impl vstd::std_specs::cmp::PartialOrdSpecImpl<&str> for TextMut {
    open spec fn obeys_partial_cmp_spec() -> bool {
        true
    }

    open spec fn partial_cmp_spec(&self, other: &&str) -> Option<core::cmp::Ordering> {
        Some(lex_cmp_bytes(self@, encode_utf8((*other)@)))
    }
}

} // verus!
