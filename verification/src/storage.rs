//! Trusted boundary around the `bytes` crate.
//!
//! The two buffer types of that crate carry the raw storage for [`crate::Text`]
//! and [`crate::TextMut`]. Verus sees them as opaque values whose contents are
//! named by the two uninterpreted view functions below; each wrapper states,
//! over those views, what the wrapped call does to the contents, as the crate's
//! source and documentation show it.

use vstd::prelude::*;

use bytes::Bytes;
use bytes::BytesMut;

verus! {

#[verifier::external_type_specification]
#[verifier::external_body]
pub struct ExBytes(Bytes);

#[verifier::external_type_specification]
#[verifier::external_body]
pub struct ExBytesMut(BytesMut);

/// The byte contents of a `Bytes` handle.
pub uninterp spec fn bytes_view(b: Bytes) -> Seq<u8>;

/// The byte contents of a `BytesMut` handle (its used region, not its spare
/// capacity).
pub uninterp spec fn bytes_mut_view(b: BytesMut) -> Seq<u8>;

/// The capacity of a `BytesMut` handle: the number of bytes it can hold
/// without reallocating.
pub uninterp spec fn bytes_mut_cap(b: BytesMut) -> nat;

/// Relies on `Bytes::new`: the returned handle is empty.
#[verifier::external_body]
pub(crate) fn bytes_new() -> (r: Bytes)
    ensures
        bytes_view(r) == Seq::<u8>::empty(),
{
    Bytes::new()
}

/// Relies on `Bytes::from_static`: the handle points at the given slice,
/// without copying.
#[verifier::external_body]
pub(crate) fn bytes_from_static(s: &'static [u8]) -> (r: Bytes)
    ensures
        bytes_view(r) == s@,
{
    Bytes::from_static(s)
}

/// Relies on `Bytes::copy_from_slice`: the slice's bytes are copied into a
/// fresh allocation.
#[verifier::external_body]
pub(crate) fn bytes_copy_from_slice(data: &[u8]) -> (r: Bytes)
    ensures
        bytes_view(r) == data@,
{
    Bytes::copy_from_slice(data)
}

/// Relies on `<Bytes as AsRef<[u8]>>::as_ref`: a borrow of the contents.
#[verifier::external_body]
pub(crate) fn bytes_as_slice(b: &Bytes) -> (r: &[u8])
    ensures
        r@ == bytes_view(*b),
{
    b.as_ref()
}

/// Relies on `<Bytes as Clone>::clone`: the clone shares the allocation and
/// holds the same bytes.
#[verifier::external_body]
pub(crate) fn bytes_clone(b: &Bytes) -> (r: Bytes)
    ensures
        bytes_view(r) == bytes_view(*b),
{
    b.clone()
}

/// Relies on `Bytes::slice`: the result shares storage and holds the bytes of
/// the given sub-range. The call panics unless `start <= end <= len`, so that
/// is required here.
#[verifier::external_body]
pub(crate) fn bytes_slice(b: &Bytes, start: usize, end: usize) -> (r: Bytes)
    requires
        start <= end <= bytes_view(*b).len(),
    ensures
        bytes_view(r) == bytes_view(*b).subrange(start as int, end as int),
{
    b.slice(start..end)
}

/// Relies on `Bytes::split_off`: afterwards the receiver holds `[0, at)` and
/// the returned handle holds `[at, len)`, sharing the same storage. The call
/// panics if `at > len`, so that is required here.
#[verifier::external_body]
pub(crate) fn bytes_split_off(b: Bytes, at: usize) -> (r: (Bytes, Bytes))
    requires
        at <= bytes_view(b).len(),
    ensures
        bytes_view(r.0) == bytes_view(b).subrange(0, at as int),
        bytes_view(r.1) == bytes_view(b).subrange(at as int, bytes_view(b).len() as int),
{
    let mut head = b;
    let tail = head.split_off(at);
    (head, tail)
}

/// Relies on `BytesMut::new`: the returned buffer is empty.
#[verifier::external_body]
pub(crate) fn bytes_mut_new() -> (r: BytesMut)
    ensures
        bytes_mut_view(r) == Seq::<u8>::empty(),
{
    BytesMut::new()
}

/// Relies on `BytesMut::with_capacity`: the returned buffer is empty and can
/// hold at least `capacity` bytes without reallocating. The allocation
/// panics if the capacity exceeds `isize::MAX`, so that is required here.
#[verifier::external_body]
pub(crate) fn bytes_mut_with_capacity(capacity: usize) -> (r: BytesMut)
    requires
        capacity <= isize::MAX,
    ensures
        bytes_mut_view(r) == Seq::<u8>::empty(),
        bytes_mut_cap(r) >= capacity,
{
    BytesMut::with_capacity(capacity)
}

/// Relies on `<BytesMut as AsRef<[u8]>>::as_ref`: a borrow of the used region.
#[verifier::external_body]
pub(crate) fn bytes_mut_as_slice(b: &BytesMut) -> (r: &[u8])
    ensures
        r@ == bytes_mut_view(*b),
{
    b.as_ref()
}

/// Relies on `BytesMut::capacity`: the number of bytes the buffer can hold
/// without reallocating, which is never below the length of its contents.
#[verifier::external_body]
pub(crate) fn bytes_mut_capacity(b: &BytesMut) -> (r: usize)
    ensures
        r == bytes_mut_cap(*b),
        r >= bytes_mut_view(*b).len(),
{
    b.capacity()
}

/// Relies on `BytesMut::reserve`: the contents are unchanged, and afterwards
/// at least `additional` more bytes fit without reallocating. The
/// underlying allocation panics past `isize::MAX` bytes, so the new length
/// is bounded here.
#[verifier::external_body]
pub(crate) fn bytes_mut_reserve(b: BytesMut, additional: usize) -> (r: BytesMut)
    requires
        bytes_mut_view(b).len() + additional <= isize::MAX,
    ensures
        bytes_mut_view(r) == bytes_mut_view(b),
        bytes_mut_cap(r) >= bytes_mut_view(b).len() + additional,
{
    let mut b = b;
    b.reserve(additional);
    b
}

/// Relies on `BytesMut::clear`: the contents are removed; capacity is kept.
#[verifier::external_body]
pub(crate) fn bytes_mut_clear(b: BytesMut) -> (r: BytesMut)
    ensures
        bytes_mut_view(r) == Seq::<u8>::empty(),
        bytes_mut_cap(r) == bytes_mut_cap(b),
{
    let mut b = b;
    b.clear();
    b
}

/// Relies on `BytesMut::extend_from_slice`: the given bytes are appended,
/// reallocating only when they do not fit in the spare capacity. The
/// underlying allocation panics past `isize::MAX` bytes, so the combined
/// length is bounded here.
#[verifier::external_body]
pub(crate) fn bytes_mut_append(b: BytesMut, s: &[u8]) -> (r: BytesMut)
    requires
        bytes_mut_view(b).len() + s@.len() <= isize::MAX,
    ensures
        bytes_mut_view(r) == bytes_mut_view(b) + s@,
        bytes_mut_view(b).len() + s@.len() <= bytes_mut_cap(b) ==> bytes_mut_cap(r)
            == bytes_mut_cap(b),
{
    let mut b = b;
    b.extend_from_slice(s);
    b
}

/// Relies on `BytesMut::split_off`: afterwards the receiver holds `[0, at)`
/// and the returned buffer holds `[at, len)`, dividing ownership of the
/// storage. The call panics if `at > capacity`, so `at <= len` is required
/// here.
#[verifier::external_body]
pub(crate) fn bytes_mut_split_off(b: BytesMut, at: usize) -> (r: (BytesMut, BytesMut))
    requires
        at <= bytes_mut_view(b).len(),
    ensures
        bytes_mut_view(r.0) == bytes_mut_view(b).subrange(0, at as int),
        bytes_mut_view(r.1) == bytes_mut_view(b).subrange(at as int, bytes_mut_view(b).len() as int),
{
    let mut head = b;
    let tail = head.split_off(at);
    (head, tail)
}

/// Relies on `BytesMut::unsplit`: the other buffer's bytes follow the
/// receiver's, merged in place when the two regions are contiguous and
/// copied otherwise. The copying path can reallocate, which panics past
/// `isize::MAX` bytes, so the combined length is bounded here.
#[verifier::external_body]
pub(crate) fn bytes_mut_unsplit(a: BytesMut, b: BytesMut) -> (r: BytesMut)
    requires
        bytes_mut_view(a).len() + bytes_mut_view(b).len() <= isize::MAX,
    ensures
        bytes_mut_view(r) == bytes_mut_view(a) + bytes_mut_view(b),
{
    let mut a = a;
    a.unsplit(b);
    a
}

/// Relies on `BytesMut::freeze`: ownership moves into an immutable handle
/// over the same bytes, without copying.
#[verifier::external_body]
pub(crate) fn bytes_mut_freeze(b: BytesMut) -> (r: Bytes)
    ensures
        bytes_view(r) == bytes_mut_view(b),
{
    b.freeze()
}

/// Relies on std's `str::from_utf8`: well-formed bytes decode to a borrowed
/// `str` whose encoding is those same bytes.
#[verifier::external_body]
pub(crate) fn utf8_to_str(v: &[u8]) -> (r: &str)
    requires
        vstd::utf8::valid_utf8(v@),
    ensures
        vstd::utf8::encode_utf8(r@) == v@,
{
    core::str::from_utf8(v).unwrap_or("")
}

} // verus!
