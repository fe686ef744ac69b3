//! Traits for generic octet sequences and for composing wire data into them.
//!
//! A type holds octets in one or more of three roles. As a *source* it is
//! only read and cut into ranges ([`Octets`], [`OctetsExt`], [`OctetsRef`]).
//! As a *builder* it grows at its end and can be cut back to an earlier
//! length ([`OctetsBuilder`], [`EmptyBuilder`]). A builder is sealed into a
//! finished value and a finished value reopened through [`IntoOctets`],
//! [`IntoBuilder`] and [`FromBuilder`].
//!
//! Every contract speaks of the sequence of octets a value holds,
//! [`Octets::octets`], and, for builders, of the greatest length they can
//! reach, [`OctetsBuilder::limit`].

use crate::name::{lemma_wire_take, name_wire, slices_are, valid_name, ToDname};
use vstd::prelude::*;

verus! {

//------------ ShortBuf ------------------------------------------------------

/// An attempt was made to go beyond the end of a buffer.
#[derive(Clone, Copy, Debug, PartialEq, Eq, Structural)]
pub struct ShortBuf;

impl ShortBuf {
    /// The message that describes the error.
    pub fn message(&self) -> (res: &'static str)
        ensures
            res@ == "unexpected end of buffer"@,
    {
        "unexpected end of buffer"
    }
}

//------------ Octets --------------------------------------------------------

/// A value that holds a sequence of octets and lends it out as a slice.
pub trait Octets {
    /// The octets the value holds.
    spec fn octets(&self) -> Seq<u8>;

    /// Returns the octets as a slice.
    fn as_slice(&self) -> (res: &[u8])
        ensures
            res@ == self.octets(),
    ;
}

impl<'a, T: Octets> Octets for &'a T {
    open spec fn octets(&self) -> Seq<u8> {
        (**self).octets()
    }

    fn as_slice(&self) -> (res: &[u8]) {
        (**self).as_slice()
    }
}

impl<'a> Octets for &'a [u8] {
    open spec fn octets(&self) -> Seq<u8> {
        self@
    }

    fn as_slice(&self) -> (res: &[u8]) {
        *self
    }
}

impl Octets for Vec<u8> {
    open spec fn octets(&self) -> Seq<u8> {
        self@
    }

    fn as_slice(&self) -> (res: &[u8]) {
        Vec::as_slice(self)
    }
}

//------------ Specification helpers -----------------------------------------

/// The sequence `s` cut back to at most `len` octets.
pub open spec fn truncated(s: Seq<u8>, len: nat) -> Seq<u8> {
    if len < s.len() {
        s.take(len as int)
    } else {
        s
    }
}

/// Whether a buffer of `len` octets that is bounded by `limit` can take `n`
/// more octets.
pub open spec fn fits(limit: Option<nat>, len: nat, n: nat) -> bool {
    match limit {
        Some(limit) => len + n <= limit,
        None => true,
    }
}

/// An all-or-nothing append of `data` to `pre`, in a buffer bounded by
/// `limit`.
///
/// The append succeeds exactly if there is room for all of `data`. It leaves
/// `pre` followed by `data` on success, and `pre` alone on failure.
pub open spec fn append_outcome(
    limit: Option<nat>,
    pre: Seq<u8>,
    data: Seq<u8>,
    post: Seq<u8>,
    res: Result<(), ShortBuf>,
) -> bool {
    &&& res is Ok <==> fits(limit, pre.len(), data.len())
    &&& res is Ok ==> post == pre + data
    &&& res is Err ==> post == pre
}

/// A sequence of appends to `pre` that amounts to `data` and stops at the
/// first one that fails.
///
/// It differs from [`append_outcome`] in what is left behind on failure:
/// `pre` still stands first, and part of `data` may follow it.
pub open spec fn partial_outcome(
    limit: Option<nat>,
    pre: Seq<u8>,
    data: Seq<u8>,
    post: Seq<u8>,
    res: Result<(), ShortBuf>,
) -> bool {
    &&& res is Ok <==> fits(limit, pre.len(), data.len())
    &&& res is Ok ==> post == pre + data
    &&& res is Err ==> pre.is_prefix_of(post)
}

/// What [`OctetsBuilder::append_all`] leaves behind.
///
/// The buffer started as `start`; the operation left it as `after` and
/// returned `inner`. On success nothing more happens. On failure the buffer
/// is cut back to the length it started with.
pub open spec fn rollback_outcome(
    start: Seq<u8>,
    after: Seq<u8>,
    inner: Result<(), ShortBuf>,
    end: Seq<u8>,
    res: Result<(), ShortBuf>,
) -> bool {
    &&& res is Ok <==> inner is Ok
    &&& inner is Ok ==> end == after
    &&& inner is Err ==> end == truncated(after, start.len())
}

/// The two octets of a 16 bit number in network byte order.
pub open spec fn be_u16(x: u16) -> Seq<u8> {
    seq![(x / 256) as u8, (x % 256) as u8]
}

/// The four octets of a 32 bit number in network byte order.
pub open spec fn be_u32(x: u32) -> Seq<u8> {
    seq![
        (x / 0x100_0000) as u8,
        ((x / 0x1_0000) % 256) as u8,
        ((x / 0x100) % 256) as u8,
        (x % 256) as u8,
    ]
}

/// What [`OctetsBuilder::len_prefixed`] leaves behind once the two octets
/// for the length were written.
///
/// The buffer started as `start`; the operation ran on `start` followed by
/// two octets, left the buffer as `after` and returned `inner`. The block
/// stands if the operation succeeded and wrote at most 65,535 octets: then
/// the two octets hold that number in network byte order. Else the buffer is
/// cut back to the length it started with.
pub open spec fn prefix_outcome(
    start: Seq<u8>,
    after: Seq<u8>,
    inner: Result<(), ShortBuf>,
    end: Seq<u8>,
    res: Result<(), ShortBuf>,
) -> bool {
    let pos = start.len() as int;
    let written = after.len() - pos - 2;
    &&& res is Ok <==> inner is Ok && written <= 0xFFFF
    &&& res is Ok ==> end == after.take(pos) + be_u16(written as u16) + after.skip(pos + 2)
    &&& res is Err ==> end == truncated(after, pos as nat)
}

/// Where an operation has only appended, its failure leaves nothing
/// behind.
///
/// If [`OctetsBuilder::append_all`] runs an operation that leaves what the
/// buffer held in front of what it has added, then after a failure the
/// buffer holds exactly what it held before, and after a success it holds
/// what the operation left.
pub proof fn lemma_rollback(
    start: Seq<u8>,
    after: Seq<u8>,
    inner: Result<(), ShortBuf>,
    end: Seq<u8>,
    res: Result<(), ShortBuf>,
)
    requires
        rollback_outcome(start, after, inner, end, res),
        start.is_prefix_of(after),
    ensures
        res is Err ==> end == start,
        res is Ok ==> end == after,
        end.len() == if res is Ok {
            after.len()
        } else {
            start.len()
        },
{
}

/// A block with a length in front holds at most 65,535 octets.
///
/// If [`OctetsBuilder::len_prefixed`] runs an operation that succeeds and
/// has only appended, then the call fails and leaves nothing behind if the
/// operation has added more than 65,535 octets. Else it succeeds, the two
/// octets in front hold the number of octets added, and what was added
/// follows them. For 65,535 octets, both of the two octets are `0xFF`.
pub proof fn lemma_prefix_bound(
    start: Seq<u8>,
    added: Seq<u8>,
    end: Seq<u8>,
    res: Result<(), ShortBuf>,
)
    requires
        prefix_outcome(start, start + seq![0u8, 0u8] + added, Ok(()), end, res),
    ensures
        res is Ok <==> added.len() <= 0xFFFF,
        res is Err ==> end == start,
        res is Ok ==> end == start + be_u16(added.len() as u16) + added,
        added.len() == 0xFFFF ==> end == start + seq![0xFFu8, 0xFFu8] + added,
{
}

/// An all-or-nothing append of `data` that turns `pre` into `post`.
///
/// See [`append_outcome`].
pub open spec fn appended<T: OctetsBuilder>(
    pre: T,
    post: T,
    data: Seq<u8>,
    res: Result<(), ShortBuf>,
) -> bool {
    &&& post.limit() == pre.limit()
    &&& append_outcome(pre.limit(), pre.octets(), data, post.octets(), res)
}

/// A sequence of appends that amounts to `data` and turns `pre` into `post`.
///
/// See [`partial_outcome`].
pub open spec fn appended_in_parts<T: OctetsBuilder>(
    pre: T,
    post: T,
    data: Seq<u8>,
    res: Result<(), ShortBuf>,
) -> bool {
    &&& post.limit() == pre.limit()
    &&& partial_outcome(pre.limit(), pre.octets(), data, post.octets(), res)
}

//------------ OctetsExt -----------------------------------------------------

/// A sequence of octets that can be shortened in place.
pub trait OctetsExt: Octets {
    /// Keeps the first `len` octets and drops the rest.
    ///
    /// Nothing happens if there are no more than `len` octets.
    fn truncate(&mut self, len: usize)
        ensures
            final(self).octets() == truncated(old(self).octets(), len as nat),
    ;
}

impl<'a> OctetsExt for &'a [u8] {
    fn truncate(&mut self, len: usize) {
        if len < self.len() {
            *self = &self[0..len]
        }
    }
}

impl OctetsExt for Vec<u8> {
    fn truncate(&mut self, len: usize) {
        Vec::truncate(self, len)
    }
}

//------------ OctetsRef -----------------------------------------------------

/// A cheaply copied reference to a sequence of octets that hands out ranges.
///
/// For a reference to a slice, a vector or a small vector the range is a
/// borrowed slice and nothing is copied. For a reference to shared bytes it
/// is a new handle on the same allocation.
pub trait OctetsRef: Octets + Copy + Sized {
    type Range: Octets;

    /// Returns the octets from `start` up to but not including `end`.
    fn range(self, start: usize, end: usize) -> (res: Self::Range)
        requires
            start <= end <= self.octets().len(),
        ensures
            res.octets() == self.octets().subrange(start as int, end as int),
    ;

    /// Returns the octets from `start` to the end.
    fn range_from(self, start: usize) -> (res: Self::Range)
        requires
            start <= self.octets().len(),
        ensures
            res.octets() == self.octets().skip(start as int),
    {
        let len = self.as_slice().len();
        self.range(start, len)
    }

    /// Returns the octets before `end`.
    fn range_to(self, end: usize) -> (res: Self::Range)
        requires
            end <= self.octets().len(),
        ensures
            res.octets() == self.octets().take(end as int),
    {
        self.range(0, end)
    }

    /// Returns all octets.
    fn range_all(self) -> (res: Self::Range)
        ensures
            res.octets() == self.octets(),
    {
        let len = self.as_slice().len();
        let res = self.range(0, len);
        res
    }
}

impl<'a, T: OctetsRef> OctetsRef for &'a T {
    type Range = T::Range;

    /// The range is that of the reference behind `self`.
    fn range(self, start: usize, end: usize) -> (res: Self::Range) {
        (*self).range(start, end)
    }
}

impl<'a> OctetsRef for &'a [u8] {
    type Range = &'a [u8];

    /// The range is a part of the slice. Nothing is copied.
    fn range(self, start: usize, end: usize) -> (res: Self::Range) {
        &self[start..end]
    }
}

impl<'a> OctetsRef for &'a Vec<u8> {
    type Range = &'a [u8];

    /// The range is a slice of the vector. Nothing is copied.
    fn range(self, start: usize, end: usize) -> (res: Self::Range) {
        let slice: &'a [u8] = Vec::as_slice(self);
        assert(self.octets() == (*self).octets() && (*self).octets() == slice@);
        &slice[start..end]
    }
}

//------------ OctetsBuilder -------------------------------------------------

/// A buffer that grows at its end and can be cut back.
///
/// A buffer may be bounded: then it has a limit, and an append that would
/// take it beyond the limit fails. Whatever fails leaves the buffer as it
/// was.
pub trait OctetsBuilder: Octets + Sized {
    /// The greatest number of octets the buffer can hold, if it is bounded.
    spec fn limit(&self) -> Option<nat>;

    /// The buffer never holds more octets than its limit allows.
    proof fn lemma_within_limit(&self)
        ensures
            fits(self.limit(), self.octets().len(), 0),
    ;

    /// Appends all of `slice` or nothing.
    ///
    /// Fails if there is no room for all of `slice`, and then leaves the
    /// buffer as it was.
    fn append_slice(&mut self, slice: &[u8]) -> (res: Result<(), ShortBuf>)
        ensures
            final(self).limit() == old(self).limit(),
            append_outcome(
                old(self).limit(),
                old(self).octets(),
                slice@,
                final(self).octets(),
                res,
            ),
    ;

    /// Keeps the first `len` octets and drops the rest.
    ///
    /// Nothing happens if there are no more than `len` octets.
    fn truncate(&mut self, len: usize)
        ensures
            final(self).limit() == old(self).limit(),
            final(self).octets() == truncated(old(self).octets(), len as nat),
    ;

    /// Lends out the octets for overwriting in place.
    fn as_slice_mut(&mut self) -> (res: &mut [u8])
        ensures
            res@ == old(self).octets(),
            final(res)@ == final(self).octets(),
            final(self).limit() == old(self).limit(),
    ;

    /// Returns the number of octets in the buffer.
    fn len(&self) -> (res: usize)
        ensures
            res == self.octets().len(),
    {
        self.as_slice().len()
    }

    /// Returns whether the buffer holds no octets.
    fn is_empty(&self) -> (res: bool)
        ensures
            res <==> self.octets().len() == 0,
    {
        self.as_slice().len() == 0
    }

    /// Runs `op` on the buffer and undoes it if it fails.
    ///
    /// The length of the buffer is recorded first. If `op` fails, the buffer
    /// is cut back to that length. So where `op` only ever appends, a failed
    /// call leaves the buffer exactly as it was.
    fn append_all<F>(&mut self, op: F) -> (res: Result<(), ShortBuf>) where
        F: FnOnce(&mut Self) -> Result<(), ShortBuf>,

        requires
            forall|t: &mut Self| *t == *old(self) ==> call_requires(op, (t,)),
        ensures
            exists|t: &mut Self, inner: Result<(), ShortBuf>|
                {
                    &&& *t == *old(self)
                    &&& #[trigger] call_ensures(op, (t,), inner)
                    &&& final(self).limit() == final(t).limit()
                    &&& rollback_outcome(
                        old(self).octets(),
                        final(t).octets(),
                        inner,
                        final(self).octets(),
                        res,
                    )
                },
            res is Err ==> final(self).octets().len() <= old(self).octets().len(),
            res is Err && (forall|t: &mut Self, inner: Result<(), ShortBuf>|
                *t == *old(self) && #[trigger] call_ensures(op, (t,), inner)
                    ==> t.octets().is_prefix_of(final(t).octets()))
                ==> final(self).octets() == old(self).octets(),
    {
        let pos = self.len();
        let res = op(self);
        if res.is_err() {
            self.truncate(pos);
        }
        res
    }

    /// Appends a domain name.
    ///
    /// A name that has its wire form at hand as one slice is appended in one
    /// go. Any other name is appended label by label; if the buffer runs
    /// full on the way, the labels already written are taken out again.
    fn append_compressed_dname<N: ToDname>(&mut self, name: &N) -> (res: Result<(), ShortBuf>)
        ensures
            final(self).limit() == old(self).limit(),
            append_outcome(
                old(self).limit(),
                old(self).octets(),
                name_wire(name.labels()),
                final(self).octets(),
                res,
            ),
    {
        if let Some(slice) = name.as_flat_slice() {
            self.append_slice(slice)
        } else {
            let labels = name.iter_labels();
            proof {
                name.lemma_name();
            }
            let ghost all = name.labels();
            let op = |target: &mut Self| -> (inner: Result<(), ShortBuf>)
                requires
                    slices_are(labels@, all),
                    valid_name(all),
                ensures
                    final(target).limit() == old(target).limit(),
                    partial_outcome(
                        old(target).limit(),
                        old(target).octets(),
                        name_wire(all),
                        final(target).octets(),
                        inner,
                    ),
                {
                    let mut i: usize = 0;
                    proof {
                        target.lemma_within_limit();
                    }
                    while i < labels.len()
                        invariant
                            i <= labels.len(),
                            slices_are(labels@, all),
                            valid_name(all),
                            target.limit() == old(target).limit(),
                            target.octets() == old(target).octets() + name_wire(
                                all.take(i as int),
                            ),
                            fits(
                                old(target).limit(),
                                old(target).octets().len(),
                                name_wire(all.take(i as int)).len(),
                            ),
                        decreases labels.len() - i,
                    {
                        let label = labels[i];
                        proof {
                            lemma_wire_take(all, i as int);
                        }
                        if target.append_slice(&[label.len() as u8]).is_err() {
                            return Err(ShortBuf);
                        }
                        if target.append_slice(label).is_err() {
                            return Err(ShortBuf);
                        }
                        i += 1;
                    }
                    assert(all.take(i as int) =~= all);
                    Ok(())
                };
            self.append_all(op)
        }
    }

    /// Appends a block that starts with its own length.
    ///
    /// Two octets are set aside, then `op` runs, and at last the two octets
    /// receive, in network byte order, the number of octets that `op` has
    /// written. The call fails if there is no room for the two octets, if
    /// `op` fails, or if `op` has written more than 65,535 octets; the
    /// buffer is then cut back to the length it had before the call.
    ///
    /// The operation must not leave the buffer shorter than it found it
    /// when it succeeds.
    fn len_prefixed<F>(&mut self, op: F) -> (res: Result<(), ShortBuf>) where
        F: FnOnce(&mut Self) -> Result<(), ShortBuf>,

        requires
            forall|t: &mut Self|
                t.limit() == old(self).limit() && t.octets() == old(self).octets() + seq![0u8, 0u8]
                    ==> call_requires(op, (t,)),
            forall|t: &mut Self, inner: Result<(), ShortBuf>|
                t.limit() == old(self).limit() && t.octets() == old(self).octets() + seq![0u8, 0u8]
                    && #[trigger] call_ensures(op, (t,), inner) && inner is Ok
                    ==> t.octets().len() <= final(t).octets().len(),
        ensures
            !fits(old(self).limit(), old(self).octets().len(), 2) ==> {
                &&& res is Err
                &&& final(self).limit() == old(self).limit()
                &&& final(self).octets() == old(self).octets()
            },
            fits(old(self).limit(), old(self).octets().len(), 2) ==> exists|
                t: &mut Self,
                inner: Result<(), ShortBuf>,
            |
                {
                    &&& t.limit() == old(self).limit()
                    &&& t.octets() == old(self).octets() + seq![0u8, 0u8]
                    &&& #[trigger] call_ensures(op, (t,), inner)
                    &&& final(self).limit() == final(t).limit()
                    &&& prefix_outcome(
                        old(self).octets(),
                        final(t).octets(),
                        inner,
                        final(self).octets(),
                        res,
                    )
                },
            res is Err ==> final(self).octets().len() <= old(self).octets().len(),
    {
        let pos = self.len();
        if self.append_slice(&[0u8, 0u8]).is_err() {
            return Err(ShortBuf);
        }
        let inner = op(self);
        if inner.is_err() {
            self.truncate(pos);
            return Err(ShortBuf);
        }
        let ghost after = self.octets();
        let len = self.len() - pos - 2;
        if len > 0xFFFF {
            self.truncate(pos);
            Err(ShortBuf)
        } else {
            let buf = self.as_slice_mut();
            buf[pos] = (len / 256) as u8;
            buf[pos + 1] = (len % 256) as u8;
            assert(self.octets() =~= after.take(pos as int) + be_u16(len as u16) + after.skip(
                pos + 2,
            ));
            Ok(())
        }
    }
}

impl OctetsBuilder for Vec<u8> {
    open spec fn limit(&self) -> Option<nat> {
        None
    }

    proof fn lemma_within_limit(&self) {
    }

    fn append_slice(&mut self, slice: &[u8]) -> (res: Result<(), ShortBuf>) {
        self.extend_from_slice(slice);
        assert(self@ =~= old(self)@ + slice@);
        Ok(())
    }

    fn truncate(&mut self, len: usize) {
        Vec::truncate(self, len)
    }

    fn as_slice_mut(&mut self) -> (res: &mut [u8]) {
        self.as_mut_slice()
    }
}

//------------ EmptyBuilder --------------------------------------------------

/// A buffer that can be created empty.
pub trait EmptyBuilder: OctetsBuilder {
    /// The limit of a newly created buffer.
    spec fn empty_limit() -> Option<nat>;

    /// Creates a new empty buffer.
    fn empty() -> (res: Self)
        ensures
            res.octets() == Seq::<u8>::empty(),
            res.limit() == Self::empty_limit(),
    ;

    /// Creates a new empty buffer that can hold `capacity` octets before it
    /// needs to allocate, where it allocates at all.
    fn with_capacity(capacity: usize) -> (res: Self)
        ensures
            res.octets() == Seq::<u8>::empty(),
            res.limit() == Self::empty_limit(),
    ;
}

impl EmptyBuilder for Vec<u8> {
    open spec fn empty_limit() -> Option<nat> {
        None
    }

    fn empty() -> (res: Self) {
        Vec::new()
    }

    fn with_capacity(capacity: usize) -> (res: Self) {
        Vec::with_capacity(capacity)
    }
}

//------------ IntoOctets ----------------------------------------------------

/// A buffer that can be sealed into a finished sequence of octets.
pub trait IntoOctets: Octets + Sized {
    type Octets: Octets;

    /// Seals the buffer. The result holds the octets the buffer held.
    fn into_octets(self) -> (res: Self::Octets)
        ensures
            res.octets() == self.octets(),
    ;
}

impl IntoOctets for Vec<u8> {
    type Octets = Self;

    fn into_octets(self) -> (res: Self::Octets) {
        self
    }
}

//------------ IntoBuilder ---------------------------------------------------

/// A sequence of octets that can be reopened as a buffer.
///
/// Whether this takes a copy depends on the type. So does the limit of the
/// buffer, which each implementation states.
pub trait IntoBuilder: Octets + Sized {
    type Builder: OctetsBuilder;

    /// Turns the value into a buffer that holds the same octets.
    fn into_builder(self) -> (res: Self::Builder)
        ensures
            res.octets() == self.octets(),
    ;
}

impl IntoBuilder for Vec<u8> {
    type Builder = Self;

    /// The vector itself is the buffer. Nothing is copied.
    fn into_builder(self) -> (res: Self::Builder)
        ensures
            res.limit() is None,
    {
        self
    }
}

impl<'a> IntoBuilder for &'a [u8] {
    type Builder = Vec<u8>;

    /// Copies the octets into a new vector.
    fn into_builder(self) -> (res: Self::Builder)
        ensures
            res.limit() is None,
    {
        vstd::slice::slice_to_vec(self)
    }
}

//------------ FromBuilder ---------------------------------------------------

/// A sequence of octets that can be made from a buffer.
pub trait FromBuilder: Octets + Sized {
    type Builder: OctetsBuilder + IntoOctets<Octets = Self>;

    /// Seals `builder`. The result holds the octets the buffer held.
    fn from_builder(builder: Self::Builder) -> (res: Self)
        ensures
            res.octets() == builder.octets(),
    ;
}

impl FromBuilder for Vec<u8> {
    type Builder = Self;

    fn from_builder(builder: Self) -> (res: Self) {
        builder
    }
}

//------------ Compose -------------------------------------------------------

/// A type that knows how to compose itself.
///
/// The term "composing" refers to the process of creating a DNS wire-format
/// representation of a value's data. There are two such forms: the normal
/// wire form, and the canonical form that DNSSEC signs, in which domain
/// names stand in lower case.
pub trait Compose {
    /// The wire form of the value.
    spec fn wire(&self) -> Seq<u8>;

    /// The canonical form of the value.
    spec fn canonical_wire(&self) -> Seq<u8>;

    /// Appends the wire form of the value to `target`, or nothing if there
    /// is no room for all of it.
    fn compose<T: OctetsBuilder>(&self, target: &mut T) -> (res: Result<(), ShortBuf>)
        ensures
            appended(*old(target), *final(target), self.wire(), res),
    ;

    /// Appends the canonical form of the value to `target`, or nothing if
    /// there is no room for all of it.
    fn compose_canonical<T: OctetsBuilder>(&self, target: &mut T) -> (res: Result<(), ShortBuf>)
        ensures
            appended(*old(target), *final(target), self.canonical_wire(), res),
    ;
}

/// The octet that stands for a signed 8 bit number in two's complement.
pub open spec fn octet_of_i8(x: i8) -> u8 {
    if x >= 0 {
        x as u8
    } else {
        (x + 0x100) as u8
    }
}

/// The unsigned number with the bits of a signed 16 bit number.
pub open spec fn bits_of_i16(x: i16) -> u16 {
    if x >= 0 {
        x as u16
    } else {
        (x + 0x1_0000) as u16
    }
}

/// The unsigned number with the bits of a signed 32 bit number.
pub open spec fn bits_of_i32(x: i32) -> u32 {
    if x >= 0 {
        x as u32
    } else {
        (x + 0x1_0000_0000) as u32
    }
}

/// A 16 bit number is the number that its two octets stand for.
pub proof fn lemma_be_u16_value(x: u16)
    ensures
        be_u16(x).len() == 2,
        x == be_u16(x)[0] * 0x100 + be_u16(x)[1],
{
}

/// A 32 bit number is the number that its four octets stand for.
pub proof fn lemma_be_u32_value(x: u32)
    ensures
        be_u32(x).len() == 4,
        x == be_u32(x)[0] * 0x100_0000 + be_u32(x)[1] * 0x1_0000 + be_u32(x)[2] * 0x100 + be_u32(
            x,
        )[3],
{
    let a: u32 = x / 0x100_0000;
    let b: u32 = (x / 0x1_0000) % 256;
    let c: u32 = (x / 0x100) % 256;
    let d: u32 = x % 256;
    assert(x == a * 0x100_0000 + b * 0x1_0000 + c * 0x100 + d && a < 256) by (bit_vector)
        requires
            a == x / 0x100_0000,
            b == (x / 0x1_0000) % 256,
            c == (x / 0x100) % 256,
            d == x % 256,
    ;
}

/// The number that four octets stand for in network byte order.
pub open spec fn u32_of_be(a: u8, b: u8, c: u8, d: u8) -> u32 {
    (a * 0x100_0000 + b * 0x1_0000 + c * 0x100 + d) as u32
}

/// Four octets are the octets of the number they stand for.
pub proof fn lemma_be_u32(a: u8, b: u8, c: u8, d: u8)
    ensures
        u32_of_be(a, b, c, d) == a * 0x100_0000 + b * 0x1_0000 + c * 0x100 + d,
        be_u32(u32_of_be(a, b, c, d)) == seq![a, b, c, d],
{
    let x = u32_of_be(a, b, c, d);
    let sum: u32 = (a * 0x100_0000 + b * 0x1_0000 + c * 0x100 + d) as u32;
    assert(sum / 0x100_0000 == a && (sum / 0x1_0000) % 256 == b && (sum / 0x100) % 256 == c
        && sum % 256 == d) by (bit_vector)
        requires
            sum == a * 0x100_0000 + b * 0x1_0000 + c * 0x100 + d,
    ;
}

/// Returns the two octets of `x` in network byte order.
pub fn u16_to_be(x: u16) -> (res: [u8; 2])
    ensures
        res@ == be_u16(x),
{
    let res = [(x / 256) as u8, (x % 256) as u8];
    res
}

/// Returns the four octets of `x` in network byte order.
pub fn u32_to_be(x: u32) -> (res: [u8; 4])
    ensures
        res@ == be_u32(x),
{
    let res = [
        (x / 0x100_0000) as u8,
        ((x / 0x1_0000) % 256) as u8,
        ((x / 0x100) % 256) as u8,
        (x % 256) as u8,
    ];
    res
}

impl<'a, C: Compose> Compose for &'a C {
    open spec fn wire(&self) -> Seq<u8> {
        (**self).wire()
    }

    open spec fn canonical_wire(&self) -> Seq<u8> {
        (**self).canonical_wire()
    }

    fn compose<T: OctetsBuilder>(&self, target: &mut T) -> (res: Result<(), ShortBuf>) {
        (**self).compose(target)
    }

    fn compose_canonical<T: OctetsBuilder>(&self, target: &mut T) -> (res: Result<(), ShortBuf>) {
        (**self).compose_canonical(target)
    }
}

impl Compose for i8 {
    open spec fn wire(&self) -> Seq<u8> {
        seq![octet_of_i8(*self)]
    }

    open spec fn canonical_wire(&self) -> Seq<u8> {
        self.wire()
    }

    fn compose<T: OctetsBuilder>(&self, target: &mut T) -> (res: Result<(), ShortBuf>) {
        let octet = if *self >= 0 {
            *self as u8
        } else {
            (*self as i16 + 0x100) as u8
        };
        let octets = [octet];
        assert(octets@ =~= seq![octet]);
        target.append_slice(&octets)
    }

    fn compose_canonical<T: OctetsBuilder>(&self, target: &mut T) -> (res: Result<(), ShortBuf>) {
        self.compose(target)
    }
}

impl Compose for u8 {
    open spec fn wire(&self) -> Seq<u8> {
        seq![*self]
    }

    open spec fn canonical_wire(&self) -> Seq<u8> {
        self.wire()
    }

    fn compose<T: OctetsBuilder>(&self, target: &mut T) -> (res: Result<(), ShortBuf>) {
        let octets = [*self];
        assert(octets@ =~= seq![*self]);
        target.append_slice(&octets)
    }

    fn compose_canonical<T: OctetsBuilder>(&self, target: &mut T) -> (res: Result<(), ShortBuf>) {
        self.compose(target)
    }
}

impl Compose for i16 {
    open spec fn wire(&self) -> Seq<u8> {
        be_u16(bits_of_i16(*self))
    }

    open spec fn canonical_wire(&self) -> Seq<u8> {
        self.wire()
    }

    fn compose<T: OctetsBuilder>(&self, target: &mut T) -> (res: Result<(), ShortBuf>) {
        let bits = if *self >= 0 {
            *self as u16
        } else {
            (*self as i32 + 0x1_0000) as u16
        };
        let octets = u16_to_be(bits);
        target.append_slice(&octets)
    }

    fn compose_canonical<T: OctetsBuilder>(&self, target: &mut T) -> (res: Result<(), ShortBuf>) {
        self.compose(target)
    }
}

impl Compose for u16 {
    open spec fn wire(&self) -> Seq<u8> {
        be_u16(*self)
    }

    open spec fn canonical_wire(&self) -> Seq<u8> {
        self.wire()
    }

    fn compose<T: OctetsBuilder>(&self, target: &mut T) -> (res: Result<(), ShortBuf>) {
        let octets = u16_to_be(*self);
        target.append_slice(&octets)
    }

    fn compose_canonical<T: OctetsBuilder>(&self, target: &mut T) -> (res: Result<(), ShortBuf>) {
        self.compose(target)
    }
}

impl Compose for i32 {
    open spec fn wire(&self) -> Seq<u8> {
        be_u32(bits_of_i32(*self))
    }

    open spec fn canonical_wire(&self) -> Seq<u8> {
        self.wire()
    }

    fn compose<T: OctetsBuilder>(&self, target: &mut T) -> (res: Result<(), ShortBuf>) {
        let bits = if *self >= 0 {
            *self as u32
        } else {
            (*self as i64 + 0x1_0000_0000) as u32
        };
        let octets = u32_to_be(bits);
        target.append_slice(&octets)
    }

    fn compose_canonical<T: OctetsBuilder>(&self, target: &mut T) -> (res: Result<(), ShortBuf>) {
        self.compose(target)
    }
}

impl Compose for u32 {
    open spec fn wire(&self) -> Seq<u8> {
        be_u32(*self)
    }

    open spec fn canonical_wire(&self) -> Seq<u8> {
        self.wire()
    }

    fn compose<T: OctetsBuilder>(&self, target: &mut T) -> (res: Result<(), ShortBuf>) {
        let octets = u32_to_be(*self);
        target.append_slice(&octets)
    }

    fn compose_canonical<T: OctetsBuilder>(&self, target: &mut T) -> (res: Result<(), ShortBuf>) {
        self.compose(target)
    }
}

} // verus!
