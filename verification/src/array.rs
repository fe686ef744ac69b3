//! Buffers of a fixed capacity that live where they are declared.
//!
//! An [`OctetsArray`] owns an array of `N` octets and knows how many of them
//! are in use. It never allocates. Appending more than it has room for
//! fails and leaves it as it was.
//!
//! Equality and ordering look at the octets in use only, never at what lies
//! behind them.

use core::cmp::Ordering;
use crate::octets::{
    EmptyBuilder, FromBuilder, IntoBuilder, IntoOctets, Octets, OctetsBuilder, ShortBuf,
};
use crate::order::{cmp_slices, lemma_lex_equal, lex_order};
use vstd::prelude::*;

verus! {

/// A buffer that holds up to `N` octets in place.
#[derive(Debug)]
pub struct OctetsArray<const N: usize> {
    octets: [u8; N],
    len: usize,
}

/// A buffer that holds up to 32 octets in place.
pub type Octets32 = OctetsArray<32>;

/// A buffer that holds up to 64 octets in place.
pub type Octets64 = OctetsArray<64>;

/// A buffer that holds up to 128 octets in place.
pub type Octets128 = OctetsArray<128>;

/// A buffer that holds up to 256 octets in place.
pub type Octets256 = OctetsArray<256>;

/// A buffer that holds up to 512 octets in place.
pub type Octets512 = OctetsArray<512>;

/// A buffer that holds up to 1024 octets in place.
pub type Octets1024 = OctetsArray<1024>;

/// A buffer that holds up to 2048 octets in place.
pub type Octets2048 = OctetsArray<2048>;

/// A buffer that holds up to 4096 octets in place.
pub type Octets4096 = OctetsArray<4096>;

impl<const N: usize> OctetsArray<N> {
    #[verifier::type_invariant]
    spec fn in_bounds(&self) -> bool {
        self.len <= N
    }

    /// The octets in use.
    pub closed spec fn view(&self) -> Seq<u8> {
        if self.len <= N {
            self.octets@.take(self.len as int)
        } else {
            self.octets@
        }
    }

    /// No more than `N` octets are in use.
    pub proof fn lemma_view(&self)
        ensures
            self@.len() <= N,
    {
    }

    /// Creates a buffer with no octets in use.
    pub fn new() -> (res: Self)
        ensures
            res@ == Seq::<u8>::empty(),
    {
        OctetsArray { octets: [0u8;N], len: 0 }
    }

    /// The buffer that holds `src` in front of zero octets, for use in
    /// contracts.
    pub closed spec fn filled_with(src: Seq<u8>) -> Self {
        choose|array: Self| array.holds_in_front(src)
    }

    /// Whether the buffer holds `src` in front of zero octets.
    spec fn holds_in_front(&self, src: Seq<u8>) -> bool {
        &&& self.len == src.len()
        &&& self.octets@ == src + Seq::new((N - src.len()) as nat, |i: int| 0u8)
    }

    /// The buffer that holds `src` in front of zero octets has `src` in
    /// use.
    pub proof fn lemma_filled_with(src: Seq<u8>)
        requires
            src.len() <= N,
        ensures
            Self::filled_with(src)@ == src,
    {
        let zeros = vstd::array::spec_array_fill_for_copy_type::<u8, N>(0u8);
        let rest = Seq::new((N - src.len()) as nat, |i: int| 0u8);
        let witness = OctetsArray::<N> {
            octets: Self::array_of(zeros, src, src.len()),
            len: src.len() as usize,
        };
        Self::lemma_array_of(zeros, src, src.len());
        assert(witness.octets@ =~= src + rest);
        assert(witness.holds_in_front(src));
        let array = Self::filled_with(src);
    }

    /// An array with the first `count` octets of `src` written over those
    /// of `base`.
    spec fn array_of(base: [u8; N], src: Seq<u8>, count: nat) -> [u8; N]
        decreases count,
    {
        if count == 0 {
            base
        } else {
            vstd::array::spec_array_update(
                Self::array_of(base, src, (count - 1) as nat),
                count - 1,
                src[count - 1],
            )
        }
    }

    proof fn lemma_array_of(base: [u8; N], src: Seq<u8>, count: nat)
        requires
            count <= src.len() <= N,
            forall|i: int| 0 <= i < N ==> base@[i] == 0u8,
        ensures
            Self::array_of(base, src, count)@ == src.take(count as int) + Seq::new(
                (N - count) as nat,
                |i: int| 0u8,
            ),
        decreases count,
    {
        if count != 0 {
            Self::lemma_array_of(base, src, (count - 1) as nat);
        }
    }

    /// Creates a buffer that holds a copy of `src`.
    ///
    /// Fails if `src` has more than `N` octets.
    pub fn from_slice(src: &[u8]) -> (res: Result<Self, ShortBuf>)
        ensures
            res is Ok <==> src@.len() <= N,
            res matches Ok(array) ==> array@ == src@ && array == Self::filled_with(src@),
    {
        if src.len() > N {
            return Err(ShortBuf);
        }
        let mut res = OctetsArray { octets: [0u8;N], len: 0 };
        let mut i: usize = 0;
        while i < src.len()
            invariant
                i <= src@.len() <= N,
                res.len == 0,
                res.octets@ == src@.take(i as int) + Seq::new((N - i) as nat, |i: int| 0u8),
            decreases src@.len() - i,
        {
            res.octets[i] = src[i];
            i += 1;
        }
        res.len = src.len();
        proof {
            assert(src@.take(i as int) =~= src@);
            assert(res.holds_in_front(src@));
            let spec = Self::filled_with(src@);
            assert(spec.octets =~= res.octets);
        }
        Ok(res)
    }

    /// Returns the octets in use.
    pub fn as_slice(&self) -> (res: &[u8])
        ensures
            res@ == self@,
    {
        proof {
            use_type_invariant(self);
        }
        let all: &[u8] = &self.octets;
        &all[0..self.len]
    }

    /// Lends out the octets in use for overwriting in place.
    pub fn as_slice_mut(&mut self) -> (res: &mut [u8])
        ensures
            res@ == old(self)@,
            final(res)@ == final(self)@,
    {
        proof {
            use_type_invariant(&*self);
        }
        let len = self.len;
        let all: &mut [u8] = &mut self.octets;
        let (head, _) = all.split_at_mut(len);
        head
    }

    /// Returns the number of octets in use.
    pub fn len(&self) -> (res: usize)
        ensures
            res == self@.len(),
            res <= N,
    {
        proof {
            use_type_invariant(self);
        }
        self.len
    }

    /// Returns the ordering of two buffers: the lexicographic ordering of
    /// the octets in use.
    pub fn cmp(&self, other: &Self) -> (res: Ordering)
        ensures
            res == lex_order(self@, other@),
    {
        cmp_slices(self.as_slice(), other.as_slice())
    }
}

//--- Clone and Default

impl<const N: usize> Clone for OctetsArray<N> {
    fn clone(&self) -> (res: Self)
        ensures
            res@ == self@,
    {
        proof {
            use_type_invariant(self);
        }
        OctetsArray { octets: self.octets, len: self.len }
    }
}

impl<const N: usize> Default for OctetsArray<N> {
    fn default() -> (res: Self)
        ensures
            res@ == Seq::<u8>::empty(),
    {
        Self::new()
    }
}

//--- Deref, AsRef and AsMut

impl<const N: usize> core::ops::Deref for OctetsArray<N> {
    type Target = [u8];

    fn deref(&self) -> (res: &[u8])
        ensures
            res@ == self@,
    {
        self.as_slice()
    }
}

impl<const N: usize> core::ops::DerefMut for OctetsArray<N> {
    fn deref_mut(&mut self) -> (res: &mut [u8])
        ensures
            res@ == old(self)@,
            final(res)@ == final(self)@,
    {
        self.as_slice_mut()
    }
}

impl<const N: usize> AsRef<[u8]> for OctetsArray<N> {
    fn as_ref(&self) -> (res: &[u8])
        ensures
            res@ == self@,
    {
        self.as_slice()
    }
}

impl<const N: usize> AsMut<[u8]> for OctetsArray<N> {
    fn as_mut(&mut self) -> (res: &mut [u8])
        ensures
            res@ == old(self)@,
            final(res)@ == final(self)@,
    {
        self.as_slice_mut()
    }
}

//--- TryFrom

impl<'a, const N: usize> TryFrom<&'a [u8]> for OctetsArray<N> {
    type Error = ShortBuf;

    fn try_from(src: &'a [u8]) -> (res: Result<Self, ShortBuf>) {
        match Self::from_slice(src) {
            Ok(array) => Ok(array),
            Err(_) => Err(ShortBuf),
        }
    }
}

impl<'a, const N: usize> vstd::std_specs::convert::TryFromSpecImpl<&'a [u8]> for OctetsArray<N> {
    open spec fn obeys_try_from_spec() -> bool {
        true
    }

    /// The conversion fails if the slice has more than `N` octets. Else it
    /// gives the buffer that holds the slice in front of zero octets.
    open spec fn try_from_spec(src: &'a [u8]) -> Result<Self, ShortBuf> {
        if src@.len() > N {
            Err(ShortBuf)
        } else {
            Ok(Self::filled_with(src@))
        }
    }
}

//--- Octets and the builder traits

impl<const N: usize> Octets for OctetsArray<N> {
    open spec fn octets(&self) -> Seq<u8> {
        self@
    }

    fn as_slice(&self) -> (res: &[u8]) {
        OctetsArray::as_slice(self)
    }
}

impl<const N: usize> OctetsBuilder for OctetsArray<N> {
    open spec fn limit(&self) -> Option<nat> {
        Some(N as nat)
    }

    proof fn lemma_within_limit(&self) {
    }

    fn append_slice(&mut self, slice: &[u8]) -> (res: Result<(), ShortBuf>) {
        proof {
            use_type_invariant(&*self);
        }
        if slice.len() > N - self.len {
            Err(ShortBuf)
        } else {
            let start = self.len;
            let end = self.len + slice.len();
            let mut i: usize = 0;
            while i < slice.len()
                invariant
                    i <= slice@.len(),
                    start + slice@.len() <= N,
                    self.len == start,
                    start == old(self).len,
                    self.octets@.take(start as int) == old(self).octets@.take(start as int),
                    self.octets@.subrange(start as int, start + i) == slice@.take(i as int),
                decreases slice@.len() - i,
            {
                self.octets[start + i] = slice[i];
                i += 1;
            }
            self.len = end;
            assert(slice@.take(i as int) =~= slice@);
            assert(self@ =~= old(self)@ + slice@);
            Ok(())
        }
    }

    fn truncate(&mut self, len: usize) {
        proof {
            use_type_invariant(&*self);
        }
        if len < self.len {
            self.len = len;
        }
    }

    fn as_slice_mut(&mut self) -> (res: &mut [u8]) {
        OctetsArray::as_slice_mut(self)
    }
}

impl<const N: usize> EmptyBuilder for OctetsArray<N> {
    open spec fn empty_limit() -> Option<nat> {
        Some(N as nat)
    }

    fn empty() -> (res: Self) {
        Self::new()
    }

    fn with_capacity(_capacity: usize) -> (res: Self) {
        Self::empty()
    }
}

impl<const N: usize> IntoBuilder for OctetsArray<N> {
    type Builder = Self;

    /// The array itself is the buffer. Nothing is copied.
    fn into_builder(self) -> (res: Self::Builder)
        ensures
            res.limit() == Some(N as nat),
    {
        self
    }
}

impl<const N: usize> FromBuilder for OctetsArray<N> {
    type Builder = Self;

    fn from_builder(builder: Self::Builder) -> (res: Self) {
        builder
    }
}

impl<const N: usize> IntoOctets for OctetsArray<N> {
    type Octets = Self;

    fn into_octets(self) -> (res: Self::Octets) {
        self
    }
}

//--- PartialEq and Eq

impl<const N: usize, T: Octets> PartialEq<T> for OctetsArray<N> {
    fn eq(&self, other: &T) -> (res: bool) {
        proof {
            lemma_lex_equal(self@, other.octets());
        }
        match cmp_slices(self.as_slice(), other.as_slice()) {
            Ordering::Equal => true,
            _ => false,
        }
    }
}

impl<const N: usize> Eq for OctetsArray<N> {

}

impl<const N: usize, T: Octets> vstd::std_specs::cmp::PartialEqSpecImpl<T> for OctetsArray<N> {
    open spec fn obeys_eq_spec() -> bool {
        true
    }

    /// A buffer is equal to a sequence of octets that holds the octets it
    /// has in use.
    open spec fn eq_spec(&self, other: &T) -> bool {
        self@ == other.octets()
    }
}

//--- PartialOrd

impl<const N: usize, T: Octets> PartialOrd<T> for OctetsArray<N> {
    fn partial_cmp(&self, other: &T) -> (res: Option<Ordering>) {
        Some(cmp_slices(self.as_slice(), other.as_slice()))
    }
}

impl<const N: usize, T: Octets> vstd::std_specs::cmp::PartialOrdSpecImpl<T> for OctetsArray<N> {
    open spec fn obeys_partial_cmp_spec() -> bool {
        true
    }

    open spec fn partial_cmp_spec(&self, other: &T) -> Option<Ordering> {
        Some(lex_order(self@, other.octets()))
    }
}

} // verus!
