//! Octets in a small vector.
//!
//! [`OctetsVec`] keeps up to 24 octets in place and moves to the heap when
//! it grows beyond that. It is a small vector of the `smallvec` crate.
//!
//! Verus does not look into that type. This module gives a name to the
//! octets that a value holds, and states of every function of the crate
//! that is called here what it does to those octets. These statements are
//! taken from the crate's source and are not proved.

use crate::octets::{
    fits, truncated, EmptyBuilder, FromBuilder, IntoBuilder, IntoOctets, Octets, OctetsBuilder,
    OctetsExt, OctetsRef, ShortBuf,
};
use smallvec::SmallVec;
use vstd::prelude::*;

verus! {

//------------ The type and what it holds ------------------------------------

/// A vector of octets that keeps up to 24 of them in place.
///
/// This is `smallvec::SmallVec<[u8; 24]>`. Nothing is known of what is
/// inside a value but what the functions below state.
#[verifier::external_body]
#[derive(Debug)]
pub struct OctetsVec {
    inner: SmallVec<[u8; 24]>,
}

/// The octets that an `OctetsVec` holds.
pub uninterp spec fn octets_vec_octets(vec: OctetsVec) -> Seq<u8>;

/// The greatest length to which an `OctetsVec` is grown here.
///
/// No allocation, and so no slice, is longer than this.
pub open spec fn octets_vec_limit() -> nat {
    (usize::MAX / 2) as nat
}

/// The octets of an `OctetsVec` that count: all of them, as none holds
/// more than [`octets_vec_limit`] says.
pub open spec fn octets_vec_counted(vec: OctetsVec) -> Seq<u8> {
    if octets_vec_octets(vec).len() <= octets_vec_limit() {
        octets_vec_octets(vec)
    } else {
        octets_vec_octets(vec).take(octets_vec_limit() as int)
    }
}

//------------ The functions -------------------------------------------------

/// `SmallVec::new`: a vector without octets.
#[verifier::external_body]
fn octets_vec_new() -> (res: OctetsVec)
    ensures
        octets_vec_octets(res) == Seq::<u8>::empty(),
{
    OctetsVec { inner: SmallVec::new() }
}

/// `SmallVec::with_capacity`: a vector without octets. The function
/// allocates where the capacity is more than what fits in place. More than
/// half the address space cannot be had, so a capacity beyond that is left
/// out.
#[verifier::external_body]
fn octets_vec_with_capacity(capacity: usize) -> (res: OctetsVec)
    requires
        capacity <= octets_vec_limit(),
    ensures
        octets_vec_octets(res) == Seq::<u8>::empty(),
{
    OctetsVec { inner: SmallVec::with_capacity(capacity) }
}

/// `SmallVec::as_slice`: lends out the octets that the vector holds. As
/// every slice, it is no longer than half the address space.
#[verifier::external_body]
fn octets_vec_as_slice(vec: &OctetsVec) -> (res: &[u8])
    ensures
        res@ == octets_vec_octets(*vec),
        res@.len() <= octets_vec_limit(),
{
    vec.inner.as_slice()
}

/// `SmallVec::as_mut_slice`: lends out the octets that the vector holds
/// for overwriting. The vector then holds what the slice is left with. As
/// every slice, it keeps its length, which is no more than half the
/// address space.
#[verifier::external_body]
fn octets_vec_as_slice_mut(vec: &mut OctetsVec) -> (res: &mut [u8])
    ensures
        res@ == octets_vec_octets(*old(vec)),
        final(res)@ == octets_vec_octets(*final(vec)),
        final(res)@.len() == res@.len(),
        res@.len() <= octets_vec_limit(),
{
    vec.inner.as_mut_slice()
}

/// `SmallVec::extend_from_slice`: appends the slice. The function asks for
/// more room as needed. More than half the address space cannot be had, so
/// growth beyond that is left out.
#[verifier::external_body]
fn octets_vec_extend(vec: &mut OctetsVec, slice: &[u8])
    requires
        octets_vec_octets(*old(vec)).len() + slice@.len() <= octets_vec_limit(),
    ensures
        octets_vec_octets(*final(vec)) == octets_vec_octets(*old(vec)) + slice@,
{
    vec.inner.extend_from_slice(slice)
}

/// `SmallVec::truncate`: keeps the first `len` octets and drops the rest,
/// and does nothing if there are no more than `len` octets.
#[verifier::external_body]
fn octets_vec_truncate(vec: &mut OctetsVec, len: usize)
    ensures
        octets_vec_octets(*final(vec)) == truncated(octets_vec_octets(*old(vec)), len as nat),
{
    vec.inner.truncate(len)
}

/// `<SmallVec as Clone>::clone`: a vector that holds the same octets.
#[verifier::external_body]
fn octets_vec_clone(vec: &OctetsVec) -> (res: OctetsVec)
    ensures
        octets_vec_octets(res) == octets_vec_octets(*vec),
{
    OctetsVec { inner: vec.inner.clone() }
}

//------------ The traits ----------------------------------------------------

impl Clone for OctetsVec {
    fn clone(&self) -> (res: Self)
        ensures
            res.octets() == self.octets(),
    {
        octets_vec_clone(self)
    }
}

impl Octets for OctetsVec {
    open spec fn octets(&self) -> Seq<u8> {
        octets_vec_counted(*self)
    }

    fn as_slice(&self) -> (res: &[u8]) {
        octets_vec_as_slice(self)
    }
}

impl OctetsExt for OctetsVec {
    fn truncate(&mut self, len: usize) {
        let _ = octets_vec_as_slice(self);
        octets_vec_truncate(self, len)
    }
}

impl<'a> OctetsRef for &'a OctetsVec {
    type Range = &'a [u8];

    /// The range is a slice of the vector. Nothing is copied.
    fn range(self, start: usize, end: usize) -> (res: Self::Range) {
        assert(self.octets() == (*self).octets());
        let slice: &'a [u8] = octets_vec_as_slice(self);
        &slice[start..end]
    }
}

impl OctetsBuilder for OctetsVec {
    /// A vector is grown to at most half the address space.
    open spec fn limit(&self) -> Option<nat> {
        Some(octets_vec_limit())
    }

    proof fn lemma_within_limit(&self) {
    }

    fn append_slice(&mut self, slice: &[u8]) -> (res: Result<(), ShortBuf>) {
        let len = octets_vec_as_slice(self).len();
        if slice.len() > usize::MAX / 2 - len {
            Err(ShortBuf)
        } else {
            octets_vec_extend(self, slice);
            Ok(())
        }
    }

    fn truncate(&mut self, len: usize) {
        let _ = octets_vec_as_slice(self);
        octets_vec_truncate(self, len);
    }

    fn as_slice_mut(&mut self) -> (res: &mut [u8]) {
        octets_vec_as_slice_mut(self)
    }
}

impl EmptyBuilder for OctetsVec {
    open spec fn empty_limit() -> Option<nat> {
        Some(octets_vec_limit())
    }

    fn empty() -> (res: Self) {
        octets_vec_new()
    }

    fn with_capacity(capacity: usize) -> (res: Self) {
        if capacity <= usize::MAX / 2 {
            octets_vec_with_capacity(capacity)
        } else {
            octets_vec_new()
        }
    }
}

impl IntoOctets for OctetsVec {
    type Octets = Self;

    fn into_octets(self) -> (res: Self::Octets) {
        self
    }
}

impl IntoBuilder for OctetsVec {
    type Builder = Self;

    /// The vector itself is the buffer. Nothing is copied.
    fn into_builder(self) -> (res: Self::Builder)
        ensures
            res.limit() == Some(octets_vec_limit()),
    {
        self
    }
}

impl FromBuilder for OctetsVec {
    type Builder = Self;

    fn from_builder(builder: Self) -> (res: Self) {
        builder
    }
}

} // verus!
