//! UTF-8 text values layered over reference-counted byte buffers.
//!
//! The crate offers two types that share one invariant: every live value
//! holds well-formed UTF-8.
//!
//! * [`Text`] is an immutable, cheaply shareable text value. Slicing and
//!   splitting share the backing allocation and never copy.
//! * [`TextMut`] is an exclusively owned, growable text accumulator. It can
//!   be split, re-joined, and frozen into a [`Text`] without copying.
//!
//! Bytes enter the crate through a validating constructor exactly once;
//! afterwards every cut is checked, at the byte-offset level, to fall on a
//! character boundary, so no operation can ever produce a torn code point.

mod laws;
mod order;
mod storage;
mod text;
mod text_mut;
mod utf8;

pub use laws::lemma_byte_equality_is_character_equality;
pub use laws::lemma_cross_type_equality;
pub use laws::lemma_equal_ordering;
pub use laws::lemma_split_join_inverse;
pub use text::Text;
pub use text_mut::TextMut;
pub use utf8::FromUtf8Error;
pub use utf8::Utf8Error;
pub use utf8::validate_utf8;
