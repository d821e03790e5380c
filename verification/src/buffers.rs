//! The byte buffers of the `bytes` crate, as the engine sees them.
//!
//! Packets travel through the engine in `BytesMut` and leave it in `Bytes`.
//! Both are opaque to the verifier, so this module gives each a mathematical
//! content (a `Seq<u8>`) and states, for every buffer operation the engine
//! uses, what it does to that content. Those statements, and the one about
//! `core::str::from_utf8`, are taken on trust: they restate what the `bytes`
//! crate and the standard library do. What follows them in this module is
//! proved from them.

use bytes::{Bytes, BytesMut};
use vstd::prelude::*;
use vstd::string::StringSliceAdditionalSpecFns;
use vstd::utf8::valid_utf8;

verus! {

/// `bytes::BytesMut`, a growable byte buffer; nothing inside it is seen.
#[verifier::external_type_specification]
#[verifier::external_body]
pub struct ExBytesMut(bytes::BytesMut);

/// `bytes::Bytes`, a byte buffer that no longer changes; nothing inside it
/// is seen.
#[verifier::external_type_specification]
#[verifier::external_body]
pub struct ExBytes(bytes::Bytes);

/// `core::str::Utf8Error`, what `core::str::from_utf8` fails with; it is
/// only told apart from success.
#[verifier::external_type_specification]
#[verifier::external_body]
pub struct ExUtf8Error(core::str::Utf8Error);

/// The bytes held by a `BytesMut`, first to last.
pub uninterp spec fn contents(b: BytesMut) -> Seq<u8>;

/// The bytes held by a `Bytes`, first to last.
pub uninterp spec fn frozen(b: Bytes) -> Seq<u8>;

/// `BytesMut::len` is the number of bytes held.
pub assume_specification[ BytesMut::len ](b: &BytesMut) -> (n: usize)
    ensures
        n == contents(*b).len(),
;

/// `BytesMut::extend_from_slice` appends `extend` to what is held. It grows
/// the allocation and panics when the new capacity overflows, which the
/// precondition excludes.
pub assume_specification[ BytesMut::extend_from_slice ](b: &mut BytesMut, extend: &[u8])
    requires
        contents(*old(b)).len() + extend@.len() <= isize::MAX,
    ensures
        contents(*final(b)) == contents(*old(b)) + extend@,
;

/// `BytesMut::freeze` turns the buffer into a `Bytes` with the same bytes.
pub assume_specification[ BytesMut::freeze ](b: BytesMut) -> (r: Bytes)
    ensures
        frozen(r) == contents(b),
;

/// `Bytes::copy_from_slice` makes a `Bytes` holding a copy of `data`.
pub assume_specification[ Bytes::copy_from_slice ](data: &[u8]) -> (r: Bytes)
    ensures
        frozen(r) == data@,
;

/// `BytesMut::from(&[u8])` makes a buffer holding a copy of `src`.
pub assume_specification<'a>[ <BytesMut as From<&'a [u8]>>::from ](src: &'a [u8]) -> (b: BytesMut)
    ensures
        contents(b) == src@,
;

/// `BytesMut::clone` makes a buffer holding the same bytes.
pub assume_specification[ <BytesMut as Clone>::clone ](b: &BytesMut) -> (r: BytesMut)
    ensures
        contents(r) == contents(*b),
;

/// `BytesMut::as_ref` borrows the bytes held as a slice.
pub assume_specification<'a>[ <BytesMut as AsRef<[u8]>>::as_ref ](b: &'a BytesMut) -> (s: &'a [u8])
    ensures
        s@ == contents(*b),
;

/// Overwrites one byte in place, through `BytesMut`'s `DerefMut` to a slice.
/// Indexing past the end panics, which the precondition excludes.
#[verifier::external_body]
pub(crate) fn set_byte(b: &mut BytesMut, index: usize, value: u8)
    requires
        index < contents(*old(b)).len(),
    ensures
        contents(*final(b)) == contents(*old(b)).update(index as int, value),
{
    b[index] = value;
}

/// `core::str::from_utf8` accepts exactly the well-formed UTF-8 byte strings,
/// and the text it returns encodes back to the bytes given.
pub assume_specification<'a>[ core::str::from_utf8 ](v: &'a [u8]) -> (r: Result<
    &'a str,
    core::str::Utf8Error,
>)
    ensures
        r is Ok <==> valid_utf8(v@),
        r matches Ok(s) ==> s.spec_bytes() == v@,
;

/// The bytes that `b` holds, as a slice.
pub fn slice_of(b: &BytesMut) -> (s: &[u8])
    ensures
        s@ == contents(*b),
{
    b.as_ref()
}

/// The text that `bytes` encode, when they are well-formed UTF-8.
pub fn text_of(bytes: &[u8]) -> (text: Option<String>)
    ensures
        text is Some <==> valid_utf8(bytes@),
        text matches Some(t) ==> t@ == vstd::utf8::decode_utf8(bytes@) && vstd::utf8::encode_utf8(
            t@,
        ) == bytes@,
{
    match core::str::from_utf8(bytes) {
        Ok(text) => {
            proof {
                vstd::utf8::encode_utf8_decode_utf8(text@);
            }
            Some(text.to_owned())
        },
        Err(_) => None,
    }
}

/// The bytes of `parts`, one part after the other.
pub open spec fn joined(parts: Seq<Seq<u8>>) -> Seq<u8>
    decreases parts.len(),
{
    if parts.len() == 0 {
        Seq::<u8>::empty()
    } else {
        joined(parts.drop_last()) + parts.last()
    }
}

/// What each buffer of a list holds.
pub open spec fn contents_of(buffers: Seq<BytesMut>) -> Seq<Seq<u8>> {
    buffers.map_values(|b: BytesMut| contents(b))
}

/// What each frozen buffer of a list holds.
pub open spec fn frozen_of(buffers: Seq<Bytes>) -> Seq<Seq<u8>> {
    buffers.map_values(|b: Bytes| frozen(b))
}

/// `s` cut into pieces of `size` bytes from the front; the last piece holds
/// what is left and may be shorter. No pieces for an empty `s`, nor for a
/// `size` below one.
pub open spec fn fixed_pieces(s: Seq<u8>, size: int) -> Seq<Seq<u8>>
    decreases s.len(),
{
    if s.len() == 0 || size <= 0 {
        Seq::<Seq<u8>>::empty()
    } else if size >= s.len() {
        seq![s]
    } else {
        seq![s.take(size)] + fixed_pieces(s.skip(size), size)
    }
}

/// Joining a list with one more part appends that part.
pub proof fn lemma_joined_push(parts: Seq<Seq<u8>>, part: Seq<u8>)
    ensures
        joined(parts.push(part)) == joined(parts) + part,
{
    assert(parts.push(part).drop_last() =~= parts);
}

/// Joining two lists joins their joins.
pub proof fn lemma_joined_concat(front: Seq<Seq<u8>>, back: Seq<Seq<u8>>)
    ensures
        joined(front + back) == joined(front) + joined(back),
    decreases back.len(),
{
    if back.len() == 0 {
        assert(front + back =~= front);
        assert(joined(front) + joined(back) =~= joined(front));
    } else {
        lemma_joined_concat(front, back.drop_last());
        assert((front + back).drop_last() =~= front + back.drop_last());
        assert(joined(front + back) =~= joined(front) + joined(back));
    }
}

/// Cutting into fixed pieces loses and reorders nothing.
pub proof fn lemma_fixed_pieces_join(s: Seq<u8>, size: int)
    requires
        size >= 1,
    ensures
        joined(fixed_pieces(s, size)) == s,
    decreases s.len(),
{
    if s.len() == 0 {
        assert(joined(fixed_pieces(s, size)) =~= s);
    } else if size >= s.len() {
        lemma_joined_push(Seq::<Seq<u8>>::empty(), s);
        assert(Seq::<Seq<u8>>::empty().push(s) =~= seq![s]);
        assert(joined(Seq::<Seq<u8>>::empty()) + s =~= s);
    } else {
        lemma_fixed_pieces_join(s.skip(size), size);
        lemma_joined_concat(seq![s.take(size)], fixed_pieces(s.skip(size), size));
        lemma_joined_push(Seq::<Seq<u8>>::empty(), s.take(size));
        assert(Seq::<Seq<u8>>::empty().push(s.take(size)) =~= seq![s.take(size)]);
        assert(joined(Seq::<Seq<u8>>::empty()) + s.take(size) =~= s.take(size));
        assert(s.take(size) + s.skip(size) =~= s);
    }
}

} // verus!
