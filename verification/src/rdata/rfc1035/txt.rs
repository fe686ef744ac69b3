//! TXT record data.
//!
//! The data of a TXT record is a sequence of character strings, each a
//! length octet followed by up to 255 octets of content. What the record
//! says is its *text*: the content of all its character strings put
//! together. Two TXT values that cut the same text into character strings
//! in different ways are equal.

use bytes::BytesMut;
use core::cmp::Ordering;
use crate::charstr::PushError;
use crate::iana::{Rtype, RtypeRecordData};
use crate::octets::{
    appended, fits, Compose, EmptyBuilder, FromBuilder, IntoOctets, Octets, OctetsBuilder, ShortBuf,
};
use crate::order::{cmp_slices, lemma_lex_equal, lex_order, CanonicalOrd};
use crate::parse::{failed_at, parsed_to, ParseAll, ParseError, Parsed, Parser};
use crate::text::{chars, escaped, into_string, push_escaped};
use vstd::prelude::*;

verus! {

//------------ Specifications ------------------------------------------------

/// Whether `octets` is a sequence of character strings.
pub open spec fn is_char_strs(octets: Seq<u8>) -> bool
    decreases octets.len(),
{
    octets.len() == 0 || (1 + octets[0] <= octets.len() && is_char_strs(
        octets.skip(1 + octets[0]),
    ))
}

/// The content of each of the character strings that `octets` is made of.
pub open spec fn segments(octets: Seq<u8>) -> Seq<Seq<u8>>
    decreases octets.len(),
{
    if octets.len() == 0 || 1 + octets[0] > octets.len() {
        Seq::empty()
    } else {
        seq![octets.subrange(1, 1 + octets[0])] + segments(octets.skip(1 + octets[0]))
    }
}

/// The text of a sequence of character strings: their content put together.
pub open spec fn text_of(octets: Seq<u8>) -> Seq<u8>
    decreases octets.len(),
{
    if octets.len() == 0 || 1 + octets[0] > octets.len() {
        Seq::empty()
    } else {
        octets.subrange(1, 1 + octets[0]) + text_of(octets.skip(1 + octets[0]))
    }
}

/// A text cut into pieces of 255 octets, but for the last, which has what
/// is left: between 1 and 255 octets.
pub open spec fn chunks(text: Seq<u8>) -> Seq<Seq<u8>>
    decreases text.len(),
{
    if text.len() == 0 {
        Seq::empty()
    } else if text.len() <= 255 {
        seq![text]
    } else {
        seq![text.take(255)] + chunks(text.skip(255))
    }
}

/// The character strings that hold the chunks of a text.
pub open spec fn chunked(text: Seq<u8>) -> Seq<u8>
    decreases text.len(),
{
    if text.len() == 0 {
        Seq::empty()
    } else if text.len() <= 255 {
        seq![text.len() as u8] + text
    } else {
        seq![255u8] + text.take(255) + chunked(text.skip(255))
    }
}

/// The number of octets that the character strings for a text of `len`
/// octets take.
pub open spec fn chunked_len(len: nat) -> nat {
    len + (len + 254) / 255
}

//------------ Lemmas --------------------------------------------------------

/// The length of the character strings for a text.
pub proof fn lemma_chunked_len(text: Seq<u8>)
    ensures
        chunked(text).len() == chunked_len(text.len()),
    decreases text.len(),
{
    if text.len() > 255 {
        lemma_chunked_len(text.skip(255));
    }
}

/// The character strings for a text are a sequence of character strings
/// that hold its chunks and have it as their text.
pub proof fn lemma_chunked(text: Seq<u8>)
    ensures
        is_char_strs(chunked(text)),
        segments(chunked(text)) == chunks(text),
        text_of(chunked(text)) == text,
    decreases text.len(),
{
    let octets = chunked(text);
    if text.len() == 0 {
    } else if text.len() <= 255 {
        assert(octets.subrange(1, 1 + octets[0]) =~= text);
        assert(is_char_strs(octets.skip(1 + octets[0])));
        assert(segments(octets.skip(1 + octets[0])) =~= Seq::<Seq<u8>>::empty());
        assert(text_of(octets.skip(1 + octets[0])) =~= Seq::<u8>::empty());
    } else {
        lemma_chunked(text.skip(255));
        assert(octets.subrange(1, 256) =~= text.take(255));
        assert(octets.skip(256) =~= chunked(text.skip(255)));
    }
}

/// The chunks of a text are as many as it takes, each but the last has 255
/// octets, the last has between 1 and 255, and together they are the text.
pub proof fn lemma_chunks(text: Seq<u8>)
    ensures
        chunks(text).len() == (text.len() + 254) / 255,
        forall|i: int|
            0 <= i < chunks(text).len() - 1 ==> (#[trigger] chunks(text)[i]).len() == 255,
        text.len() > 0 ==> chunks(text).last().len() == text.len() - 255 * (chunks(text).len()
            - 1),
        text.len() > 0 ==> 1 <= chunks(text).last().len() <= 255,
        chunks(text).flatten() == text,
    decreases text.len(),
{
    let all = chunks(text);
    if text.len() == 0 {
    } else if text.len() <= 255 {
        all.lemma_flatten_one_element();
    } else {
        let rest = chunks(text.skip(255));
        lemma_chunks(text.skip(255));
        assert(all.drop_first() =~= rest);
    }
}

/// The character strings for a text whose first part is a number of whole
/// chunks are those for that part followed by those for the rest.
pub proof fn lemma_chunked_concat(first: Seq<u8>, rest: Seq<u8>, count: int)
    requires
        0 <= count,
        first.len() == 255 * count,
    ensures
        chunked(first + rest) == chunked(first) + chunked(rest),
        chunked(first).len() == 256 * count,
    decreases count,
{
    if count == 0 {
        assert(chunked(first) + chunked(rest) =~= chunked(rest));
    } else if count > 1 || rest.len() > 0 {
        let all = first + rest;
        assert(all.skip(255) =~= first.skip(255) + rest);
        lemma_chunked_concat(first.skip(255), rest, count - 1);
    }
}

/// A sequence of character strings goes on as one behind its first
/// character string.
pub proof fn lemma_char_strs_step(octets: Seq<u8>)
    requires
        is_char_strs(octets),
        octets.len() > 0,
    ensures
        1 + octets[0] <= octets.len(),
        is_char_strs(octets.skip(1 + octets[0])),
        segments(octets) == seq![octets.subrange(1, 1 + octets[0])] + segments(
            octets.skip(1 + octets[0]),
        ),
        text_of(octets) == octets.subrange(1, 1 + octets[0]) + text_of(
            octets.skip(1 + octets[0]),
        ),
{
}

//------------ Txt -----------------------------------------------------------

/// Txt record data.
///
/// Txt records hold descriptive text.
///
/// The Txt record type is defined in RFC 1035, section 3.3.14.
#[derive(Debug)]
pub struct Txt<Octs: Octets> {
    octets: Octs,
}

impl<Octs: Octets> Txt<Octs> {
    #[verifier::type_invariant]
    spec fn well_formed(&self) -> bool {
        is_char_strs(self.octets.octets())
    }

    /// The character strings of the value as they stand on the wire.
    pub closed spec fn view(&self) -> Seq<u8> {
        if is_char_strs(self.octets.octets()) {
            self.octets.octets()
        } else {
            Seq::empty()
        }
    }

    /// The value is a sequence of character strings.
    pub proof fn lemma_view(&self)
        ensures
            is_char_strs(self@),
    {
    }

    /// Returns an iterator over the text items.
    ///
    /// The Txt format contains one or more length-delimited byte strings.
    /// This method returns an iterator over each of them.
    pub fn iter(&self) -> (res: TxtIter<'_>)
        ensures
            res@ == segments(self@),
            res.text_left() == text_of(self@),
    {
        proof {
            use_type_invariant(self);
        }
        TxtIter { rest: self.octets.as_slice() }
    }

    /// Returns the text if the value holds it in one character string.
    pub fn as_flat_slice(&self) -> (res: Option<&[u8]>)
        ensures
            res is Some <==> segments(self@).len() == 1,
            res matches Some(slice) ==> slice@ == text_of(self@),
    {
        proof {
            use_type_invariant(self);
        }
        let octets = self.octets.as_slice();
        if octets.len() == 0 {
            return None;
        }
        proof {
            lemma_char_strs_step(octets@);
        }
        if octets[0] as usize == octets.len() - 1 {
            Some(&octets[1..octets.len()])
        } else {
            None
        }
    }

    /// Returns the number of octets of the value on the wire.
    pub fn len(&self) -> (res: usize)
        ensures
            res == self@.len(),
    {
        proof {
            use_type_invariant(self);
        }
        self.octets.as_slice().len()
    }

    /// Returns `false`, whatever the value holds.
    pub fn is_empty(&self) -> (res: bool)
        ensures
            !res,
    {
        false
    }

    /// Returns the text content.
    ///
    /// The content of all character strings is copied together into one
    /// newly made sequence of octets. This fails if that sequence cannot
    /// hold all of the text.
    ///
    /// Access to the individual character strings is possible via
    /// iteration.
    pub fn text<T: FromBuilder>(&self) -> (res: Result<T, ShortBuf>) where
        <T as FromBuilder>::Builder: EmptyBuilder,

        ensures
            res is Ok <==> fits(
                <T as FromBuilder>::Builder::empty_limit(),
                0,
                text_of(self@).len(),
            ),
            res matches Ok(text) ==> text.octets() == text_of(self@),
    {
        let mut res = T::Builder::with_capacity(self.len());
        let mut iter = self.iter();
        let ghost all = text_of(self@);
        loop
            invariant
                all == text_of(self@),
                res.limit() == <T as FromBuilder>::Builder::empty_limit(),
                res.octets() + iter.text_left() == all,
                fits(res.limit(), 0, res.octets().len()),
            decreases iter@.len(),
        {
            match iter.next() {
                None => {
                    return Ok(res.into_octets());
                },
                Some(item) => {
                    if res.append_slice(item).is_err() {
                        return Err(ShortBuf);
                    }
                },
            }
        }
    }

    /// Returns the text as a vector.
    pub fn to_vec(&self) -> (res: Vec<u8>)
        ensures
            res@ == text_of(self@),
    {
        let mut res: Vec<u8> = Vec::new();
        let mut iter = self.iter();
        let ghost all = text_of(self@);
        loop
            invariant
                all == text_of(self@),
                res@ + iter.text_left() == all,
            decreases iter@.len(),
        {
            match iter.next() {
                None => {
                    return res;
                },
                Some(item) => {
                    res.extend_from_slice(item);
                },
            }
        }
    }

    /// The ordering of two values: the lexicographic ordering of their
    /// texts.
    pub open spec fn natural_order<Other: Octets>(&self, other: &Txt<Other>) -> Ordering {
        lex_order(text_of(self@), text_of(other@))
    }

    /// Returns the ordering of two values.
    pub fn cmp(&self, other: &Self) -> (res: Ordering)
        ensures
            res == self.natural_order(other),
    {
        let left = self.to_vec();
        let right = other.to_vec();
        cmp_slices(left.as_slice(), right.as_slice())
    }
}

impl<Octs: FromBuilder> Txt<Octs> {
    /// Creates a new Txt record from a single character string.
    ///
    /// The text is cut into as many character strings as it takes. This
    /// fails if the character strings would take more than 65,535 octets,
    /// or more than the octets type can hold.
    pub fn from_slice(text: &[u8]) -> (res: Result<Self, PushError>) where
        <Octs as FromBuilder>::Builder: EmptyBuilder,

        ensures
            res is Ok <==> chunked_len(text@.len()) <= 0xFFFF && fits(
                <Octs as FromBuilder>::Builder::empty_limit(),
                0,
                chunked_len(text@.len()),
            ),
            res matches Ok(txt) ==> txt@ == chunked(text@),
    {
        let mut builder = TxtBuilder::<Octs::Builder>::new();
        if builder.append_slice(text).is_err() {
            return Err(PushError);
        }
        Ok(builder.finish())
    }
}

//--- Clone

impl Clone for Txt<Vec<u8>> {
    fn clone(&self) -> (res: Self)
        ensures
            res@ == self@,
    {
        proof {
            use_type_invariant(self);
        }
        let octets = self.octets.clone();
        Txt { octets }
    }
}

//--- PartialEq and Eq

impl<Octs: Octets, Other: Octets> PartialEq<Txt<Other>> for Txt<Octs> {
    fn eq(&self, other: &Txt<Other>) -> (res: bool) {
        let left = self.to_vec();
        let right = other.to_vec();
        proof {
            lemma_lex_equal(left@, right@);
        }
        match cmp_slices(left.as_slice(), right.as_slice()) {
            Ordering::Equal => true,
            _ => false,
        }
    }
}

impl<Octs: Octets> Eq for Txt<Octs> {

}

impl<Octs: Octets, Other: Octets> vstd::std_specs::cmp::PartialEqSpecImpl<Txt<Other>> for Txt<Octs> {
    open spec fn obeys_eq_spec() -> bool {
        true
    }

    /// Two values are equal if they have the same text.
    open spec fn eq_spec(&self, other: &Txt<Other>) -> bool {
        text_of(self@) == text_of(other@)
    }
}

//--- PartialOrd and CanonicalOrd

impl<Octs: Octets, Other: Octets> PartialOrd<Txt<Other>> for Txt<Octs> {
    fn partial_cmp(&self, other: &Txt<Other>) -> (res: Option<Ordering>) {
        let left = self.to_vec();
        let right = other.to_vec();
        Some(cmp_slices(left.as_slice(), right.as_slice()))
    }
}

impl<Octs: Octets, Other: Octets> vstd::std_specs::cmp::PartialOrdSpecImpl<Txt<Other>> for Txt<Octs> {
    open spec fn obeys_partial_cmp_spec() -> bool {
        true
    }

    open spec fn partial_cmp_spec(&self, other: &Txt<Other>) -> Option<Ordering> {
        Some(self.natural_order(other))
    }
}

impl<Octs: Octets, Other: Octets> CanonicalOrd<Txt<Other>> for Txt<Octs> {
    /// The canonical ordering of two values is their natural ordering.
    open spec fn canonical_order(&self, other: &Txt<Other>) -> Ordering {
        self.natural_order(other)
    }

    fn canonical_cmp(&self, other: &Txt<Other>) -> (res: Ordering) {
        let left = self.to_vec();
        let right = other.to_vec();
        cmp_slices(left.as_slice(), right.as_slice())
    }
}

//--- Compose

impl<Octs: Octets> Compose for Txt<Octs> {
    /// The character strings as they stand.
    open spec fn wire(&self) -> Seq<u8> {
        self@
    }

    open spec fn canonical_wire(&self) -> Seq<u8> {
        self.wire()
    }

    fn compose<T: OctetsBuilder>(&self, target: &mut T) -> (res: Result<(), ShortBuf>) {
        proof {
            use_type_invariant(self);
        }
        target.append_slice(self.octets.as_slice())
    }

    fn compose_canonical<T: OctetsBuilder>(&self, target: &mut T) -> (res: Result<(), ShortBuf>) {
        self.compose(target)
    }
}

//--- ParseAll

/// Checks that `octets` is a sequence of character strings.
pub fn check_char_strs(octets: &[u8]) -> (res: bool)
    ensures
        res == is_char_strs(octets@),
{
    let mut pos: usize = 0;
    assert(octets@.skip(0) =~= octets@);
    while pos < octets.len()
        invariant
            pos <= octets@.len(),
            is_char_strs(octets@) == is_char_strs(octets@.skip(pos as int)),
        decreases octets@.len() - pos,
    {
        let len = octets[pos] as usize;
        if len + 1 > octets.len() - pos {
            return false;
        }
        assert(octets@.skip(pos as int).skip(1 + len) =~= octets@.skip(pos + 1 + len));
        pos = pos + 1 + len;
    }
    true
}

impl ParseAll for Txt<Vec<u8>> {
    /// The field has to lie within the octets and to be a sequence of
    /// character strings. Else the parser fails with `ShortBuf`: where it
    /// stands in the first case, behind the field in the second.
    open spec fn parse_all_spec(octets: Seq<u8>, pos: int, len: int) -> Parsed {
        if pos + len > octets.len() {
            failed_at(pos, ParseError::ShortBuf)
        } else if !is_char_strs(octets.subrange(pos, pos + len)) {
            failed_at(pos + len, ParseError::ShortBuf)
        } else {
            parsed_to(pos + len)
        }
    }

    proof fn lemma_parse_all_spec(octets: Seq<u8>, pos: int, len: int) {
    }

    proof fn lemma_round_trip_all(&self, before: Seq<u8>, after: Seq<u8>) {
        let octets = before + self.wire() + after;
        let pos = before.len() as int;
        assert(octets.subrange(pos, pos + self.wire().len()) =~= self.wire());
    }

    fn parse_all(parser: &mut Parser, len: usize) -> (res: Result<Self, ParseError>) {
        let field = match parser.parse_octets(len) {
            Ok(field) => field,
            Err(_) => {
                return Err(ParseError::ShortBuf);
            },
        };
        if !check_char_strs(field) {
            return Err(ParseError::ShortBuf);
        }
        Ok(Txt { octets: vstd::slice::slice_to_vec(field) })
    }
}

//------------ TxtIter -------------------------------------------------------

/// An iterator over the character strings of a Txt record.
#[derive(Clone, Copy, Debug)]
pub struct TxtIter<'a> {
    rest: &'a [u8],
}

impl<'a> TxtIter<'a> {
    #[verifier::type_invariant]
    spec fn well_formed(&self) -> bool {
        is_char_strs(self.rest@)
    }

    /// The content of the character strings that are still to come.
    pub closed spec fn view(&self) -> Seq<Seq<u8>> {
        segments(self.rest@)
    }

    /// The text of the character strings that are still to come.
    pub closed spec fn text_left(&self) -> Seq<u8> {
        text_of(self.rest@)
    }

    /// Returns the content of the next character string, if there is one.
    pub fn next(&mut self) -> (res: Option<&'a [u8]>)
        ensures
            old(self)@.len() == 0 ==> res is None && final(self)@ == old(self)@,
            old(self)@.len() > 0 ==> {
                &&& res matches Some(item)
                &&& item@ == old(self)@[0]
                &&& final(self)@ == old(self)@.skip(1)
                &&& old(self).text_left() == item@ + final(self).text_left()
            },
            res is None ==> old(self).text_left().len() == 0,
    {
        proof {
            use_type_invariant(&*self);
        }
        let rest: &'a [u8] = self.rest;
        if rest.len() == 0 {
            None
        } else {
            let len = rest[0] as usize;
            let item = &rest[1..1 + len];
            let tail = &rest[1 + len..rest.len()];
            self.rest = tail;
            Some(item)
        }
    }
}

//------------ TxtBuilder ----------------------------------------------------

/// Builds Txt record data from text that arrives in pieces.
///
/// The text is cut into character strings as it arrives. Each character
/// string is filled up to 255 octets before the next one is begun.
pub struct TxtBuilder<Builder> {
    builder: Builder,
    /// The index of the start of the current char string.
    ///
    /// If this is `None`, there currently is no char string being worked on.
    start: Option<usize>,
    /// The text so far.
    text: Ghost<Seq<u8>>,
    /// The number of character strings that lie before the current one.
    sealed: Ghost<int>,
}

/// Whether `octets` holds `text` with the current character string
/// beginning at `start` behind `count` full ones.
///
/// The full character strings stand as they will stand in the end. The
/// current one has its content in place; its length octet is written when
/// it is sealed.
spec fn built(octets: Seq<u8>, start: Option<usize>, text: Seq<u8>, count: int) -> bool {
    match start {
        None => text.len() == 0 && octets.len() == 0 && count == 0,
        Some(start) => {
            &&& 0 <= count
            &&& start == 256 * count
            &&& 255 * count < text.len() <= 255 * count + 255
            &&& octets.len() == start + 1 + (text.len() - 255 * count)
            &&& octets.take(start as int) == chunked(text.take(255 * count))
            &&& octets.skip(start + 1) == text.skip(255 * count)
        },
    }
}

/// Whether `after` is at least as long as `before` and holds what `before`
/// holds, but for the octet at `at`.
spec fn same_but(before: Seq<u8>, after: Seq<u8>, at: int) -> bool {
    &&& before.len() <= after.len()
    &&& forall|i: int| 0 <= i < before.len() && i != at ==> #[trigger] after[i] == before[i]
}

/// The place of the length octet of the current character string, or -1
/// if there is none.
spec fn open_at(start: Option<usize>) -> int {
    match start {
        Some(start) => start as int,
        None => -1,
    }
}

impl<Builder: OctetsBuilder> TxtBuilder<Builder> {
    /// The text that was appended so far.
    pub closed spec fn text(&self) -> Seq<u8> {
        self.text@
    }

    /// The limit of the buffer that the data is built in.
    pub closed spec fn limit(&self) -> Option<nat> {
        self.builder.limit()
    }

    /// Whether the builder is in order.
    ///
    /// Every builder that this module hands out is.
    pub closed spec fn wf(&self) -> bool {
        &&& chunked_len(self.text@.len()) <= 0xFFFF
        &&& built(self.builder.octets(), self.start, self.text@, self.sealed@)
    }

    /// The character strings for the text of a builder take at most 65,535
    /// octets and no more than the buffer can hold.
    pub proof fn lemma_wf(&self)
        requires
            self.wf(),
        ensures
            chunked_len(self.text().len()) <= 0xFFFF,
            fits(self.limit(), 0, chunked_len(self.text().len())),
    {
        self.builder.lemma_within_limit();
    }

    /// Puts the builder back to where it was when an append has failed.
    fn roll_back(
        &mut self,
        len: usize,
        start: Option<usize>,
        Ghost(octets): Ghost<Seq<u8>>,
        Ghost(text): Ghost<Seq<u8>>,
        Ghost(count): Ghost<int>,
    )
        requires
            octets.len() == len,
            built(octets, start, text, count),
            chunked_len(text.len()) <= 0xFFFF,
            same_but(octets, old(self).builder.octets(), open_at(start)),
        ensures
            final(self).wf(),
            final(self).text() == text,
            final(self).limit() == old(self).limit(),
    {
        self.builder.truncate(len);
        self.start = start;
        self.text = Ghost(text);
        self.sealed = Ghost(count);
        proof {
            let after = self.builder.octets();
            match start {
                Some(start) => {
                    assert(after.take(start as int) =~= octets.take(start as int));
                    assert(after.skip(start + 1) =~= octets.skip(start + 1));
                },
                None => {},
            }
        }
    }

    /// Seals the current character string if it is full, or if there is
    /// none, and begins a new one.
    ///
    /// Returns the number of octets the current character string holds.
    fn make_room(&mut self, Ghost(before): Ghost<Seq<u8>>, Ghost(at): Ghost<int>) -> (res: Result<
        usize,
        ShortBuf,
    >)
        requires
            built(
                old(self).builder.octets(),
                old(self).start,
                old(self).text@,
                old(self).sealed@,
            ),
            same_but(before, old(self).builder.octets(), at),
            old(self).start matches Some(start) ==> at == start || before.len() <= start,
        ensures
            final(self).builder.limit() == old(self).builder.limit(),
            final(self).text@ == old(self).text@,
            same_but(before, final(self).builder.octets(), at),
            final(self).start matches Some(start) ==> at == start || before.len() <= start,
            match res {
                Ok(used) => {
                    &&& used < 255
                    &&& final(self).start is Some
                    &&& used == final(self).text@.len() - 255 * final(self).sealed@
                    &&& used == final(self).builder.octets().len() - final(self).start->Some_0 - 1
                    &&& held(
                        final(self).builder.octets(),
                        final(self).start->Some_0,
                        final(self).text@,
                        final(self).sealed@,
                    )
                    &&& final(self).builder.octets().len() <= chunked_len(
                        final(self).text@.len() + 1,
                    ) - 1
                },
                Err(_) => !fits(
                    old(self).builder.limit(),
                    0,
                    chunked_len(old(self).text@.len() + 1),
                ),
            },
    {
        let ghost text = self.text@;
        let ghost count = self.sealed@;
        let ghost mut next = count;
        match self.start {
            Some(start) => {
                let used = self.builder.len() - start - 1;
                if used < 255 {
                    return Ok(used);
                }
                let buf = self.builder.as_slice_mut();
                buf[start] = 255;
                proof {
                    next = count + 1;
                    lemma_chunked_concat(text.take(255 * count), text.skip(255 * count), count);
                    assert(text.take(255 * count) + text.skip(255 * count) =~= text);
                    assert(self.builder.octets() =~= chunked(text));
                }
            },
            None => {
                assert(self.builder.octets() =~= chunked(text));
            },
        }
        let pos = self.builder.len();
        let ghost full = self.builder.octets();
        let length = [0u8];
        if self.builder.append_slice(&length).is_err() {
            return Err(ShortBuf);
        }
        self.start = Some(pos);
        self.sealed = Ghost(next);
        proof {
            assert(self.builder.octets().take(pos as int) =~= full);
            assert(text.take(255 * next) =~= text);
            assert(self.builder.octets().skip(pos + 1) =~= text.skip(255 * next));
        }
        Ok(0)
    }

    /// Puts `piece` into the current character string.
    fn fill(&mut self, piece: &[u8], Ghost(before): Ghost<Seq<u8>>, Ghost(at): Ghost<int>) -> (res:
        Result<(), ShortBuf>)
        requires
            old(self).start is Some,
            held(
                old(self).builder.octets(),
                old(self).start->Some_0,
                old(self).text@,
                old(self).sealed@,
            ),
            1 <= piece@.len(),
            old(self).text@.len() + piece@.len() <= 255 * old(self).sealed@ + 255,
            same_but(before, old(self).builder.octets(), at),
            at == old(self).start->Some_0 || before.len() <= old(self).start->Some_0,
        ensures
            final(self).builder.limit() == old(self).builder.limit(),
            final(self).start == old(self).start,
            same_but(before, final(self).builder.octets(), at),
            match res {
                Ok(_) => {
                    &&& final(self).text@ == old(self).text@ + piece@
                    &&& built(
                        final(self).builder.octets(),
                        final(self).start,
                        final(self).text@,
                        final(self).sealed@,
                    )
                },
                Err(_) => !fits(
                    old(self).builder.limit(),
                    0,
                    chunked_len(old(self).text@.len() + piece@.len()),
                ),
            },
    {
        let ghost text = self.text@;
        let ghost count = self.sealed@;
        let ghost start = self.start->Some_0;
        let ghost octets = self.builder.octets();
        if self.builder.append_slice(piece).is_err() {
            return Err(ShortBuf);
        }
        proof {
            let grown = text + piece@;
            let after = self.builder.octets();
            assert(grown.take(255 * count) =~= text.take(255 * count));
            assert(after.take(start as int) =~= octets.take(start as int));
            assert(after.skip(start + 1) =~= octets.skip(start + 1) + piece@);
            assert(grown.skip(255 * count) =~= text.skip(255 * count) + piece@);
            self.text@ = grown;
        }
        Ok(())
    }

    /// Appends `slice` to the text.
    ///
    /// The current character string is filled up first. What is left of
    /// `slice` then goes into new character strings.
    ///
    /// Fails, and leaves the text as it is, if the character strings for
    /// the longer text would take more than 65,535 octets or more than the
    /// buffer can hold.
    pub fn append_slice(&mut self, slice: &[u8]) -> (res: Result<(), PushError>)
        requires
            old(self).wf(),
        ensures
            final(self).wf(),
            final(self).limit() == old(self).limit(),
            res is Ok <==> chunked_len(old(self).text().len() + slice@.len()) <= 0xFFFF && fits(
                old(self).limit(),
                0,
                chunked_len(old(self).text().len() + slice@.len()),
            ),
            res is Ok ==> final(self).text() == old(self).text() + slice@,
            res is Err ==> final(self).text() == old(self).text(),
    {
        let len0 = self.builder.len();
        let start0 = self.start;
        let ghost text0 = self.text@;
        let ghost count0 = self.sealed@;
        let ghost octets0 = self.builder.octets();
        let ghost limit = self.builder.limit();
        let ghost at = open_at(start0);
        let text_len: usize = match self.start {
            None => 0,
            Some(start) => len0 - start / 256 - 1,
        };
        if slice.len() > 0xFFFF {
            return Err(PushError);
        }
        let total = text_len + slice.len();
        if total + (total + 254) / 255 > 0xFFFF {
            return Err(PushError);
        }
        let mut done: usize = 0;
        while done < slice.len()
            invariant
                done <= slice@.len(),
                text0 == old(self).text@,
                limit == old(self).builder.limit(),
                octets0.len() == len0,
                at == open_at(start0),
                built(octets0, start0, text0, count0),
                chunked_len(text0.len()) <= 0xFFFF,
                chunked_len(text0.len() + slice@.len()) <= 0xFFFF,
                self.builder.limit() == limit,
                self.text@ == text0 + slice@.take(done as int),
                built(self.builder.octets(), self.start, self.text@, self.sealed@),
                same_but(octets0, self.builder.octets(), at),
                self.start matches Some(start) ==> at == start || octets0.len() <= start,
            decreases slice@.len() - done,
        {
            let ghost text = self.text@;
            let used = match self.make_room(Ghost(octets0), Ghost(at)) {
                Ok(used) => used,
                Err(_) => {
                    self.roll_back(
                        len0,
                        start0,
                        Ghost(octets0),
                        Ghost(text0),
                        Ghost(count0),
                    );
                    return Err(PushError);
                },
            };
            let left = slice.len() - done;
            let take = if left < 255 - used {
                left
            } else {
                255 - used
            };
            let piece = &slice[done..done + take];
            if self.fill(piece, Ghost(octets0), Ghost(at)).is_err() {
                self.roll_back(len0, start0, Ghost(octets0), Ghost(text0), Ghost(count0));
                return Err(PushError);
            }
            proof {
                assert(text + piece@ =~= text0 + slice@.take(done + take));
            }
            done = done + take;
        }
        proof {
            self.builder.lemma_within_limit();
        }
        Ok(())
    }

    /// Seals the current character string and returns the finished Txt
    /// record data.
    ///
    /// The data holds the text in character strings of 255 octets each but
    /// for the last, which holds what is left.
    pub fn finish(self) -> (res: Txt<Builder::Octets>) where Builder: IntoOctets
        requires
            self.wf(),
        ensures
            res@ == chunked(self.text()),
            segments(res@) == chunks(self.text()),
            text_of(res@) == self.text(),
    {
        let mut this = self;
        let ghost text = this.text@;
        let ghost count = this.sealed@;
        if let Some(start) = this.start {
            let len = this.builder.len() - (start + 1);
            let buf = this.builder.as_slice_mut();
            buf[start] = len as u8;
            proof {
                lemma_chunked_concat(text.take(255 * count), text.skip(255 * count), count);
                assert(text.take(255 * count) + text.skip(255 * count) =~= text);
                assert(this.builder.octets() =~= chunked(text));
            }
        }
        proof {
            lemma_chunked(text);
        }
        Txt { octets: this.builder.into_octets() }
    }
}

impl<Builder: OctetsBuilder + EmptyBuilder> TxtBuilder<Builder> {
    /// Creates a builder with no text.
    pub fn new() -> (res: Self)
        ensures
            res.wf(),
            res.text() == Seq::<u8>::empty(),
            res.limit() == Builder::empty_limit(),
    {
        TxtBuilder {
            builder: Builder::empty(),
            start: None,
            text: Ghost(Seq::empty()),
            sealed: Ghost(0),
        }
    }
}

impl TxtBuilder<BytesMut> {
    /// Creates a builder with no text that builds in a `BytesMut`.
    pub fn new_bytes() -> (res: Self)
        ensures
            res.wf(),
            res.text() == Seq::<u8>::empty(),
            res.limit() == BytesMut::empty_limit(),
    {
        Self::new()
    }
}

/// Whether `octets` holds `text` with a current character string that
/// begins at `start` behind `count` full ones and may still be without
/// content.
spec fn held(octets: Seq<u8>, start: usize, text: Seq<u8>, count: int) -> bool {
    &&& 0 <= count
    &&& start == 256 * count
    &&& 255 * count <= text.len() < 255 * count + 255
    &&& octets.len() == start + 1 + (text.len() - 255 * count)
    &&& octets.take(start as int) == chunked(text.take(255 * count))
    &&& octets.skip(start + 1) == text.skip(255 * count)
}

//--- Presentation format

impl<Octs: Octets> Txt<Octs> {
    /// The value as it is shown: its text.
    pub open spec fn shown(&self) -> Seq<u8> {
        escaped(text_of(self@))
    }

    /// Returns the value in presentation format.
    pub fn to_string(&self) -> (res: String)
        ensures
            res@ == chars(self.shown()),
    {
        let text = self.to_vec();
        let mut out: Vec<u8> = Vec::new();
        push_escaped(&mut out, text.as_slice());
        into_string(out)
    }
}

//--- RtypeRecordData

impl<Octs: Octets> RtypeRecordData for Txt<Octs> {
    open spec fn rtype_spec() -> Rtype {
        Rtype::Txt
    }

    fn rtype() -> (res: Rtype) {
        Rtype::Txt
    }
}

} // verus!
