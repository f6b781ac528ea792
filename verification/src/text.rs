//! The immutable text value.

use core::ops::Range;
use vstd::prelude::*;
use vstd::utf8::*;

use bytes::Bytes;

use crate::order::eq_bytes;
use crate::order::lex_cmp_bytes;
use crate::order::cmp_bytes;
use crate::storage::bytes_as_slice;
use crate::storage::bytes_clone;
use crate::storage::bytes_copy_from_slice;
use crate::storage::bytes_from_static;
use crate::storage::bytes_new;
use crate::storage::bytes_slice;
use crate::storage::bytes_split_off;
use crate::storage::bytes_view;
use crate::storage::utf8_to_str;
use crate::text_mut::TextMut;
use crate::utf8::lemma_valid_between_boundaries;
use crate::utf8::validate_utf8;
use crate::utf8::is_boundary;
use crate::utf8::FromUtf8Error;

verus! {

/// Immutable, reference-counted, well-formed UTF-8 text.
///
/// A `Text` is a handle onto a byte range inside a shared allocation. Its
/// view `self@` is that byte sequence, and every live `Text` satisfies
/// `valid_utf8(self@)`: the constructors establish it and every operation
/// preserves it, cutting only at character boundaries.
#[derive(Debug, Hash, Eq)]
pub struct Text {
    bytes: Bytes,
}

impl View for Text {
    type V = Seq<u8>;

    closed spec fn view(&self) -> Seq<u8> {
        bytes_view(self.bytes)
    }
}

impl Text {
    #[verifier::type_invariant]
    spec fn wf(self) -> bool {
        valid_utf8(bytes_view(self.bytes))
    }

    /// Creates a new, empty text value.
    pub fn new() -> (r: Text)
        ensures
            r@ == Seq::<u8>::empty(),
    {
        Text { bytes: bytes_new() }
    }

    /// Validates the given bytes and wraps them without copying.
    ///
    /// This is the one place a full scan happens: it succeeds exactly on
    /// well-formed UTF-8. On failure the error reports the exact offset of
    /// the first invalid byte and hands the input bytes back unchanged.
    pub fn from_utf8(b: Bytes) -> (r: Result<Text, FromUtf8Error<Bytes>>)
        ensures
            valid_utf8(bytes_view(b)) ==> (r matches Ok(t) && t@ == bytes_view(b)),
            !valid_utf8(bytes_view(b)) ==> (r matches Err(e) && bytes_view(e.bytes) == bytes_view(b)
                && e.error.valid_up_to < bytes_view(b).len() && partial_valid_utf8(
                bytes_view(b),
                e.error.valid_up_to as int,
            ) && !valid_first_scalar(
                bytes_view(b).subrange(e.error.valid_up_to as int, bytes_view(b).len() as int),
            )),
    {
        let checked = {
            let s = bytes_as_slice(&b);
            validate_utf8(s)
        };
        match checked {
            Ok(()) => Ok(Text { bytes: b }),
            Err(error) => Err(FromUtf8Error { bytes: b, error }),
        }
    }

    /// Wraps bytes that the caller asserts to be well-formed UTF-8, skipping
    /// the scan.
    ///
    /// This is the trusted-producer escape hatch: the `requires` clause is
    /// the caller obligation, and no run-time check backs it up. Prefer
    /// [`Text::from_utf8`] everywhere the bytes are not already known valid.
    pub fn from_utf8_unchecked(b: Bytes) -> (r: Text)
        requires
            valid_utf8(bytes_view(b)),
        ensures
            r@ == bytes_view(b),
    {
        Text { bytes: b }
    }

    /// Copies the given string into a fresh allocation.
    pub fn copy_from(s: &str) -> (r: Text)
        ensures
            r@ == encode_utf8(s@),
    {
        proof {
            encode_utf8_valid_utf8(s@);
        }
        Text { bytes: bytes_copy_from_slice(s.as_bytes()) }
    }

    /// Wraps a statically known string without copying.
    pub fn from_static(s: &'static str) -> (r: Text)
        ensures
            r@ == encode_utf8(s@),
    {
        proof {
            encode_utf8_valid_utf8(s@);
        }
        Text { bytes: bytes_from_static(s.as_bytes()) }
    }

    /// The number of bytes in this text.
    pub fn len(&self) -> (r: usize)
        ensures
            r == self@.len(),
    {
        bytes_as_slice(&self.bytes).len()
    }

    /// Whether this text holds no bytes.
    pub fn is_empty(&self) -> (r: bool)
        ensures
            r == (self@.len() == 0),
    {
        bytes_as_slice(&self.bytes).len() == 0
    }

    /// Borrows the underlying byte handle. The bytes are well-formed UTF-8.
    pub fn as_bytes(&self) -> (r: &Bytes)
        ensures
            bytes_view(*r) == self@,
            valid_utf8(self@),
    {
        proof {
            use_type_invariant(&*self);
        }
        &self.bytes
    }

    /// Borrows the byte contents. The bytes are well-formed UTF-8.
    pub(crate) fn as_byte_slice(&self) -> (r: &[u8])
        ensures
            r@ == self@,
            valid_utf8(self@),
    {
        proof {
            use_type_invariant(&*self);
        }
        bytes_as_slice(&self.bytes)
    }

    /// Converts into the underlying byte handle. The bytes are well-formed
    /// UTF-8.
    pub fn into_bytes(self) -> (r: Bytes)
        ensures
            bytes_view(r) == self@,
            valid_utf8(bytes_view(r)),
    {
        proof {
            use_type_invariant(&self);
        }
        let Text { bytes } = self;
        bytes
    }

    /// Borrows this text as a string slice over the same bytes.
    pub fn as_str(&self) -> (r: &str)
        ensures
            encode_utf8(r@) == self@,
            r@ == decode_utf8(self@),
    {
        proof {
            use_type_invariant(&*self);
        }
        let s = utf8_to_str(bytes_as_slice(&self.bytes));
        proof {
            encode_utf8_decode_utf8(s@);
        }
        s
    }

    /// The decoded character content, as an owned string.
    pub fn to_string(&self) -> (r: String)
        ensures
            r@ == decode_utf8(self@),
    {
        self.as_str().to_owned()
    }

    /// Returns the sub-text over the given byte range, sharing this text's
    /// allocation, if both endpoints are character boundaries; `None`
    /// otherwise, in particular whenever an endpoint is out of range or
    /// inside a multi-byte character.
    pub fn get(&self, r: Range<usize>) -> (res: Option<Text>)
        ensures
            (r.start <= r.end && is_char_boundary(self@, r.start as int) && is_char_boundary(
                self@,
                r.end as int,
            )) ==> (res matches Some(t) && t@ == self@.subrange(r.start as int, r.end as int)),
            !(r.start <= r.end && is_char_boundary(self@, r.start as int) && is_char_boundary(
                self@,
                r.end as int,
            )) ==> res is None,
    {
        proof {
            use_type_invariant(&*self);
        }
        let start = r.start;
        let end = r.end;
        let ok = {
            let s = bytes_as_slice(&self.bytes);
            start <= end && is_boundary(s, start) && is_boundary(s, end)
        };
        if !ok {
            return None;
        }
        proof {
            lemma_valid_between_boundaries(self@, start as int, end as int);
        }
        Some(Text { bytes: bytes_slice(&self.bytes, start, end) })
    }

    /// Returns the sub-text before `end`, like [`Text::get`] with an
    /// open-started range.
    pub fn get_to(&self, end: usize) -> (res: Option<Text>)
        ensures
            is_char_boundary(self@, end as int) ==> (res matches Some(t) && t@ == self@.subrange(
                0,
                end as int,
            )),
            !is_char_boundary(self@, end as int) ==> res is None,
    {
        proof {
            use_type_invariant(&*self);
            is_char_boundary_start_end_of_seq(self@);
        }
        self.get(0..end)
    }

    /// Returns the sub-text from `start` on, like [`Text::get`] with an
    /// open-ended range.
    pub fn get_from(&self, start: usize) -> (res: Option<Text>)
        ensures
            is_char_boundary(self@, start as int) ==> (res matches Some(t) && t@ == self@.subrange(
                start as int,
                self@.len() as int,
            )),
            !is_char_boundary(self@, start as int) ==> res is None,
    {
        let n = self.len();
        proof {
            use_type_invariant(&*self);
            is_char_boundary_start_end_of_seq(self@);
        }
        self.get(start..n)
    }

    /// Splits this text into two disjoint texts sharing the same allocation:
    /// the bytes before `index` and the bytes from `index` on. If `index` is
    /// not a character boundary, the text is handed back unconsumed.
    pub fn split_at(self, index: usize) -> (r: Result<(Text, Text), Text>)
        ensures
            is_char_boundary(self@, index as int) ==> (r matches Ok(p) && p.0@ == self@.subrange(
                0,
                index as int,
            ) && p.1@ == self@.subrange(index as int, self@.len() as int)),
            !is_char_boundary(self@, index as int) ==> (r matches Err(t) && t@ == self@),
    {
        proof {
            use_type_invariant(&self);
        }
        let ok = {
            let s = bytes_as_slice(&self.bytes);
            is_boundary(s, index)
        };
        if !ok {
            return Err(self);
        }
        proof {
            valid_utf8_split(bytes_view(self.bytes), index as int);
        }
        let Text { bytes } = self;
        let (head, tail) = bytes_split_off(bytes, index);
        Ok((Text { bytes: head }, Text { bytes: tail }))
    }

    /// Splits off and returns the bytes from `index` on; this text keeps the
    /// bytes before `index`. If `index` is not a character boundary, nothing
    /// happens and `None` is returned.
    pub fn split_off(&mut self, index: usize) -> (r: Option<Text>)
        ensures
            is_char_boundary(old(self)@, index as int) ==> (r matches Some(t) && final(self)@
                == old(self)@.subrange(0, index as int) && t@ == old(self)@.subrange(
                index as int,
                old(self)@.len() as int,
            )),
            !is_char_boundary(old(self)@, index as int) ==> (r is None && final(self)@ == old(
                self,
            )@),
    {
        proof {
            use_type_invariant(&*self);
        }
        let ok = {
            let s = bytes_as_slice(&self.bytes);
            is_boundary(s, index)
        };
        if !ok {
            return None;
        }
        proof {
            valid_utf8_split(bytes_view(self.bytes), index as int);
        }
        let mut b = bytes_new();
        core::mem::swap(&mut b, &mut self.bytes);
        let (head, tail) = bytes_split_off(b, index);
        self.bytes = head;
        Some(Text { bytes: tail })
    }

    /// Splits off and returns the bytes before `index`; this text keeps the
    /// bytes from `index` on. If `index` is not a character boundary, nothing
    /// happens and `None` is returned.
    pub fn split_to(&mut self, index: usize) -> (r: Option<Text>)
        ensures
            is_char_boundary(old(self)@, index as int) ==> (r matches Some(t) && t@ == old(
                self,
            )@.subrange(0, index as int) && final(self)@ == old(self)@.subrange(
                index as int,
                old(self)@.len() as int,
            )),
            !is_char_boundary(old(self)@, index as int) ==> (r is None && final(self)@ == old(
                self,
            )@),
    {
        proof {
            use_type_invariant(&*self);
        }
        let ok = {
            let s = bytes_as_slice(&self.bytes);
            is_boundary(s, index)
        };
        if !ok {
            return None;
        }
        proof {
            valid_utf8_split(bytes_view(self.bytes), index as int);
        }
        let mut b = bytes_new();
        core::mem::swap(&mut b, &mut self.bytes);
        let (head, tail) = bytes_split_off(b, index);
        self.bytes = tail;
        Some(Text { bytes: head })
    }

    /// Byte-wise equality against a string slice; for well-formed UTF-8 this
    /// is character-wise equality.
    pub fn eq_str(&self, other: &str) -> (r: bool)
        ensures
            r == (self@ == encode_utf8(other@)),
    {
        eq_bytes(bytes_as_slice(&self.bytes), other.as_bytes())
    }
}

impl Clone for Text {
    /// The clone shares the backing allocation and holds the same bytes.
    fn clone(&self) -> (r: Self)
        ensures
            r@ == self@,
    {
        proof {
            use_type_invariant(&*self);
        }
        Text { bytes: bytes_clone(&self.bytes) }
    }
}

impl Default for Text {
    fn default() -> (r: Self)
        ensures
            r@ == Seq::<u8>::empty(),
    {
        Text::new()
    }
}

impl PartialEq for Text {
    fn eq(&self, other: &Text) -> (r: bool) {
        eq_bytes(bytes_as_slice(&self.bytes), bytes_as_slice(&other.bytes))
    }
}

impl vstd::std_specs::cmp::PartialEqSpecImpl for Text {
    open spec fn obeys_eq_spec() -> bool {
        true
    }

    open spec fn eq_spec(&self, other: &Text) -> bool {
        self@ == other@
    }
}

impl PartialEq<TextMut> for Text {
    fn eq(&self, other: &TextMut) -> (r: bool) {
        eq_bytes(bytes_as_slice(&self.bytes), other.as_byte_slice())
    }
}

impl vstd::std_specs::cmp::PartialEqSpecImpl<TextMut> for Text {
    open spec fn obeys_eq_spec() -> bool {
        true
    }

    open spec fn eq_spec(&self, other: &TextMut) -> bool {
        self@ == other@
    }
}

impl PartialEq<&str> for Text {
    fn eq(&self, other: &&str) -> (r: bool) {
        eq_bytes(bytes_as_slice(&self.bytes), other.as_bytes())
    }
}

impl vstd::std_specs::cmp::PartialEqSpecImpl<&str> for Text {
    open spec fn obeys_eq_spec() -> bool {
        true
    }

    open spec fn eq_spec(&self, other: &&str) -> bool {
        self@ == encode_utf8((*other)@)
    }
}

impl PartialOrd for Text {
    fn partial_cmp(&self, other: &Text) -> (r: Option<core::cmp::Ordering>) {
        Some(cmp_bytes(bytes_as_slice(&self.bytes), bytes_as_slice(&other.bytes)))
    }
}

impl vstd::std_specs::cmp::PartialOrdSpecImpl for Text {
    open spec fn obeys_partial_cmp_spec() -> bool {
        true
    }

    open spec fn partial_cmp_spec(&self, other: &Text) -> Option<core::cmp::Ordering> {
        Some(lex_cmp_bytes(self@, other@))
    }
}

impl PartialOrd<TextMut> for Text {
    fn partial_cmp(&self, other: &TextMut) -> (r: Option<core::cmp::Ordering>) {
        Some(cmp_bytes(bytes_as_slice(&self.bytes), other.as_byte_slice()))
    }
}

impl vstd::std_specs::cmp::PartialOrdSpecImpl<TextMut> for Text {
    open spec fn obeys_partial_cmp_spec() -> bool {
        true
    }

    open spec fn partial_cmp_spec(&self, other: &TextMut) -> Option<core::cmp::Ordering> {
        Some(lex_cmp_bytes(self@, other@))
    }
}

impl PartialOrd<&str> for Text {
    fn partial_cmp(&self, other: &&str) -> (r: Option<core::cmp::Ordering>) {
        Some(cmp_bytes(bytes_as_slice(&self.bytes), other.as_bytes()))
    }
}

impl vstd::std_specs::cmp::PartialOrdSpecImpl<&str> for Text {
    open spec fn obeys_partial_cmp_spec() -> bool {
        true
    }

    open spec fn partial_cmp_spec(&self, other: &&str) -> Option<core::cmp::Ordering> {
        Some(lex_cmp_bytes(self@, encode_utf8((*other)@)))
    }
}

} // verus!
