//! Octets in buffers of the `bytes` crate.
//!
//! [`BytesMut`] is a growable buffer that is sealed into [`Bytes`], a
//! sequence of octets behind a reference count. Ranges of `Bytes` share
//! its allocation.
//!
//! Verus does not look into these types. This module gives a name to the
//! octets that a value of each holds, and states of every function of the
//! crate that is called here what it does to those octets. These
//! statements are taken from the crate's source and are not proved.

use bytes::{Bytes, BytesMut};
use crate::octets::{
    truncated, EmptyBuilder, FromBuilder, IntoBuilder, IntoOctets, Octets, OctetsBuilder, OctetsExt,
    OctetsRef, ShortBuf,
};
use vstd::prelude::*;

verus! {

//------------ The types and what they hold ----------------------------------

/// `bytes::Bytes`: a sequence of octets behind a reference count. Nothing
/// is known of what is inside a value but what the functions below state.
#[verifier::external_type_specification]
#[verifier::external_body]
pub struct ExBytes(bytes::Bytes);

/// `bytes::BytesMut`: a growable buffer of octets. Nothing is known of what
/// is inside a value but what the functions below state.
#[verifier::external_type_specification]
#[verifier::external_body]
pub struct ExBytesMut(bytes::BytesMut);

/// The octets that a `Bytes` value holds.
pub uninterp spec fn bytes_octets(bytes: Bytes) -> Seq<u8>;

/// The octets that a `BytesMut` value holds.
pub uninterp spec fn bytes_mut_octets(bytes: BytesMut) -> Seq<u8>;

/// The greatest length to which a `BytesMut` is grown here.
///
/// No allocation, and so no slice, is longer than this.
pub open spec fn bytes_mut_limit() -> nat {
    (usize::MAX / 2) as nat
}

/// The octets of a `BytesMut` that count: all of them, as none holds more
/// than [`bytes_mut_limit`] says.
pub open spec fn bytes_mut_counted(bytes: BytesMut) -> Seq<u8> {
    if bytes_mut_octets(bytes).len() <= bytes_mut_limit() {
        bytes_mut_octets(bytes)
    } else {
        bytes_mut_octets(bytes).take(bytes_mut_limit() as int)
    }
}

//------------ Bytes ---------------------------------------------------------

/// `<Bytes as AsRef<[u8]>>::as_ref`: lends out the octets that the value
/// holds.
#[verifier::external_body]
fn bytes_as_slice(bytes: &Bytes) -> (res: &[u8])
    ensures
        res@ == bytes_octets(*bytes),
{
    bytes.as_ref()
}

/// `Bytes::truncate`: keeps the first `len` octets and drops the rest, and
/// does nothing if there are no more than `len` octets.
#[verifier::external_body]
fn bytes_truncate(bytes: &mut Bytes, len: usize)
    ensures
        bytes_octets(*final(bytes)) == truncated(bytes_octets(*old(bytes)), len as nat),
{
    bytes.truncate(len)
}

/// `Bytes::slice`: a new handle on the octets from `start` up to but not
/// including `end`. The function panics if the range does not lie within
/// the octets.
#[verifier::external_body]
fn bytes_slice(bytes: &Bytes, start: usize, end: usize) -> (res: Bytes)
    requires
        start <= end <= bytes_octets(*bytes).len(),
    ensures
        bytes_octets(res) == bytes_octets(*bytes).subrange(start as int, end as int),
{
    bytes.slice(start..end)
}

impl Octets for Bytes {
    open spec fn octets(&self) -> Seq<u8> {
        bytes_octets(*self)
    }

    fn as_slice(&self) -> (res: &[u8]) {
        bytes_as_slice(self)
    }
}

impl OctetsExt for Bytes {
    fn truncate(&mut self, len: usize) {
        bytes_truncate(self, len)
    }
}

impl<'a> OctetsRef for &'a Bytes {
    type Range = Bytes;

    /// The range is a new handle on the allocation that `self` uses.
    /// Nothing is copied.
    fn range(self, start: usize, end: usize) -> (res: Self::Range) {
        assert(self.octets() == (*self).octets());
        bytes_slice(self, start, end)
    }
}

impl IntoBuilder for Bytes {
    type Builder = BytesMut;

    /// Copies the octets into a new buffer.
    fn into_builder(self) -> (res: Self::Builder)
        ensures
            res.limit() == Some(bytes_mut_limit()),
    {
        let res = bytes_mut_from_slice(bytes_as_slice(&self));
        let _ = bytes_mut_as_slice(&res);
        res
    }
}

impl FromBuilder for Bytes {
    type Builder = BytesMut;

    fn from_builder(builder: Self::Builder) -> (res: Self) {
        let _ = bytes_mut_as_slice(&builder);
        bytes_mut_freeze(builder)
    }
}

//------------ BytesMut ------------------------------------------------------

/// `BytesMut::new`: a buffer without octets.
#[verifier::external_body]
fn bytes_mut_new() -> (res: BytesMut)
    ensures
        bytes_mut_octets(res) == Seq::<u8>::empty(),
{
    BytesMut::new()
}

/// `BytesMut::with_capacity`: a buffer without octets. The function
/// allocates room for the capacity. More than half the address space cannot
/// be had, so a capacity beyond that is left out.
#[verifier::external_body]
fn bytes_mut_with_capacity(capacity: usize) -> (res: BytesMut)
    requires
        capacity <= bytes_mut_limit(),
    ensures
        bytes_mut_octets(res) == Seq::<u8>::empty(),
{
    BytesMut::with_capacity(capacity)
}

/// `<BytesMut as From<&[u8]>>::from`: a buffer that holds a copy of the
/// slice.
#[verifier::external_body]
fn bytes_mut_from_slice(slice: &[u8]) -> (res: BytesMut)
    ensures
        bytes_mut_octets(res) == slice@,
{
    BytesMut::from(slice)
}

/// `<BytesMut as AsRef<[u8]>>::as_ref`: lends out the octets that the
/// buffer holds. As every slice, it is no longer than half the address
/// space.
#[verifier::external_body]
fn bytes_mut_as_slice(bytes: &BytesMut) -> (res: &[u8])
    ensures
        res@ == bytes_mut_octets(*bytes),
        res@.len() <= bytes_mut_limit(),
{
    bytes.as_ref()
}

/// `<BytesMut as AsMut<[u8]>>::as_mut`: lends out the octets that the
/// buffer holds for overwriting. The buffer then holds what the slice is
/// left with. As every slice, it keeps its length, which is no more than
/// half the address space.
#[verifier::external_body]
fn bytes_mut_as_slice_mut(bytes: &mut BytesMut) -> (res: &mut [u8])
    ensures
        res@ == bytes_mut_octets(*old(bytes)),
        final(res)@ == bytes_mut_octets(*final(bytes)),
        final(res)@.len() == res@.len(),
        res@.len() <= bytes_mut_limit(),
{
    bytes.as_mut()
}

/// `BytesMut::extend_from_slice`: appends the slice. The function asks for
/// more room as needed. More than half the address space cannot be had, so
/// growth beyond that is left out.
#[verifier::external_body]
fn bytes_mut_extend(bytes: &mut BytesMut, slice: &[u8])
    requires
        bytes_mut_octets(*old(bytes)).len() + slice@.len() <= bytes_mut_limit(),
    ensures
        bytes_mut_octets(*final(bytes)) == bytes_mut_octets(*old(bytes)) + slice@,
{
    bytes.extend_from_slice(slice)
}

/// `BytesMut::truncate`: keeps the first `len` octets and drops the rest,
/// and does nothing if there are no more than `len` octets.
#[verifier::external_body]
fn bytes_mut_truncate(bytes: &mut BytesMut, len: usize)
    ensures
        bytes_mut_octets(*final(bytes)) == truncated(bytes_mut_octets(*old(bytes)), len as nat),
{
    bytes.truncate(len)
}

/// `BytesMut::freeze`: the octets of the buffer as a `Bytes` value.
#[verifier::external_body]
fn bytes_mut_freeze(bytes: BytesMut) -> (res: Bytes)
    ensures
        bytes_octets(res) == bytes_mut_octets(bytes),
{
    bytes.freeze()
}

impl Octets for BytesMut {
    open spec fn octets(&self) -> Seq<u8> {
        bytes_mut_counted(*self)
    }

    fn as_slice(&self) -> (res: &[u8]) {
        bytes_mut_as_slice(self)
    }
}

impl OctetsBuilder for BytesMut {
    /// A buffer is grown to at most half the address space.
    open spec fn limit(&self) -> Option<nat> {
        Some(bytes_mut_limit())
    }

    proof fn lemma_within_limit(&self) {
    }

    fn append_slice(&mut self, slice: &[u8]) -> (res: Result<(), ShortBuf>) {
        let len = bytes_mut_as_slice(self).len();
        if slice.len() > usize::MAX / 2 - len {
            Err(ShortBuf)
        } else {
            bytes_mut_extend(self, slice);
            Ok(())
        }
    }

    fn truncate(&mut self, len: usize) {
        let _ = bytes_mut_as_slice(self);
        bytes_mut_truncate(self, len);
    }

    fn as_slice_mut(&mut self) -> (res: &mut [u8]) {
        bytes_mut_as_slice_mut(self)
    }
}

impl EmptyBuilder for BytesMut {
    open spec fn empty_limit() -> Option<nat> {
        Some(bytes_mut_limit())
    }

    fn empty() -> (res: Self) {
        bytes_mut_new()
    }

    fn with_capacity(capacity: usize) -> (res: Self) {
        if capacity <= usize::MAX / 2 {
            bytes_mut_with_capacity(capacity)
        } else {
            bytes_mut_new()
        }
    }
}

impl IntoOctets for BytesMut {
    type Octets = Bytes;

    fn into_octets(self) -> (res: Self::Octets) {
        let _ = bytes_mut_as_slice(&self);
        bytes_mut_freeze(self)
    }
}

} // verus!
