//! Character strings.
//!
//! A character string is a sequence of up to 255 octets. On the wire it is
//! one octet with its length followed by its content.

use core::cmp::Ordering;
use crate::name::{cmp_lowercase, eq_lowercase, label_order, lower_seq};
use crate::octets::{appended_in_parts, Compose, Octets, OctetsBuilder, ShortBuf};
use crate::order::{apart, lemma_lex_chain, chain, cmp_slices, lex_order, order_len, CanonicalOrd};
use crate::parse::{failed_at, parsed_to, Parse, ParseAll, ParseError, Parsed, Parser};
use crate::text::{chars, escaped, into_string, push_escaped};
use vstd::prelude::*;

verus! {

//------------ CharStrError and PushError ------------------------------------

/// A sequence of octets is too long to be a character string.
#[derive(Clone, Copy, Debug, PartialEq, Eq, Structural)]
pub struct CharStrError;

/// Octets could not be added because there is no room for them.
///
/// Either the data would grow beyond what its wire format allows, or the
/// buffer it is built in is full.
#[derive(Clone, Copy, Debug, PartialEq, Eq, Structural)]
pub struct PushError;

//------------ Specifications ------------------------------------------------

/// The wire form of a character string with the given content.
pub open spec fn char_str_wire(content: Seq<u8>) -> Seq<u8> {
    seq![content.len() as u8] + content
}

/// What taking a character string at `pos` of `octets` comes to.
///
/// The parser fails with `ShortBuf` where it stands if there is no octet
/// for the length. It fails with `ShortBuf` behind that octet if fewer
/// octets follow than the length says.
pub open spec fn char_str_at(octets: Seq<u8>, pos: int) -> Parsed {
    if pos < 0 || pos >= octets.len() {
        failed_at(pos, ParseError::ShortBuf)
    } else if pos + 1 + octets[pos] > octets.len() {
        failed_at(pos + 1, ParseError::ShortBuf)
    } else {
        parsed_to(pos + 1 + octets[pos])
    }
}

/// What taking a character string from a field of `len` octets at `pos` of
/// `octets` comes to.
///
/// The parser fails with `ShortBuf` where it stands if there is no octet
/// for the length. Behind that octet, it fails with `ShortField` if the
/// field is too short for the length and the content, with `TrailingData`
/// if it is too long, and with `ShortBuf` if the octets end before the
/// field does.
pub open spec fn char_str_in_field(octets: Seq<u8>, pos: int, len: int) -> Parsed {
    if pos < 0 || pos >= octets.len() {
        failed_at(pos, ParseError::ShortBuf)
    } else if len < octets[pos] + 1 {
        failed_at(pos + 1, ParseError::ShortField)
    } else if len > octets[pos] + 1 {
        failed_at(pos + 1, ParseError::TrailingData)
    } else if pos + len > octets.len() {
        failed_at(pos + 1, ParseError::ShortBuf)
    } else {
        parsed_to(pos + len)
    }
}

//------------ CharStr -------------------------------------------------------

/// A character string: up to 255 octets.
#[derive(Debug)]
pub struct CharStr<Octs: Octets> {
    octets: Octs,
}

impl Clone for CharStr<Vec<u8>> {
    fn clone(&self) -> (res: Self)
        ensures
            res@ == self@,
    {
        proof {
            use_type_invariant(self);
        }
        let octets = self.octets.clone();
        CharStr { octets }
    }
}

impl<Octs: Octets> CharStr<Octs> {
    #[verifier::type_invariant]
    spec fn short_enough(&self) -> bool {
        self.octets.octets().len() <= 255
    }

    /// The content of the character string.
    pub closed spec fn view(&self) -> Seq<u8> {
        if self.octets.octets().len() <= 255 {
            self.octets.octets()
        } else {
            Seq::empty()
        }
    }

    /// A character string has at most 255 octets.
    pub proof fn lemma_view(&self)
        ensures
            self@.len() <= 255,
    {
    }

    /// Creates a character string from its content.
    ///
    /// Fails if there are more than 255 octets.
    pub fn from_octets(octets: Octs) -> (res: Result<Self, CharStrError>)
        ensures
            res is Ok <==> octets.octets().len() <= 255,
            res matches Ok(value) ==> value@ == octets.octets(),
    {
        if octets.as_slice().len() > 255 {
            Err(CharStrError)
        } else {
            Ok(CharStr { octets })
        }
    }

    /// Returns the content of the character string.
    pub fn as_slice(&self) -> (res: &[u8])
        ensures
            res@ == self@,
    {
        proof {
            use_type_invariant(self);
        }
        self.octets.as_slice()
    }

    /// Returns the octets that hold the content.
    pub fn into_octets(self) -> (res: Octs)
        ensures
            res.octets() == self@,
    {
        proof {
            use_type_invariant(&self);
        }
        self.octets
    }

    /// Returns the number of octets of the content.
    pub fn len(&self) -> (res: usize)
        ensures
            res == self@.len(),
            res <= 255,
    {
        self.as_slice().len()
    }

    /// Returns whether the character string has no content.
    pub fn is_empty(&self) -> (res: bool)
        ensures
            res <==> self@.len() == 0,
    {
        self.as_slice().len() == 0
    }

    /// The natural ordering of two character strings: that of their content
    /// in lower case.
    pub open spec fn natural_order<Other: Octets>(&self, other: &CharStr<Other>) -> Ordering {
        label_order(self@, other@)
    }

    /// Returns the natural ordering of two character strings.
    pub fn cmp(&self, other: &Self) -> (res: Ordering)
        ensures
            res == self.natural_order(other),
    {
        cmp_lowercase(self.as_slice(), other.as_slice())
    }
}

//--- PartialEq and Eq

impl<Octs: Octets, Other: Octets> PartialEq<CharStr<Other>> for CharStr<Octs> {
    fn eq(&self, other: &CharStr<Other>) -> (res: bool) {
        eq_lowercase(self.as_slice(), other.as_slice())
    }
}

impl<Octs: Octets> Eq for CharStr<Octs> {

}

impl<Octs: Octets, Other: Octets> vstd::std_specs::cmp::PartialEqSpecImpl<CharStr<Other>> for CharStr<Octs> {
    open spec fn obeys_eq_spec() -> bool {
        true
    }

    /// Two character strings are equal if they have the same content once
    /// case is set aside.
    open spec fn eq_spec(&self, other: &CharStr<Other>) -> bool {
        lower_seq(self@) == lower_seq(other@)
    }
}

//--- PartialOrd and CanonicalOrd

impl<Octs: Octets, Other: Octets> PartialOrd<CharStr<Other>> for CharStr<Octs> {
    fn partial_cmp(&self, other: &CharStr<Other>) -> (res: Option<Ordering>) {
        Some(cmp_lowercase(self.as_slice(), other.as_slice()))
    }
}

impl<Octs: Octets, Other: Octets> vstd::std_specs::cmp::PartialOrdSpecImpl<CharStr<Other>> for CharStr<Octs> {
    open spec fn obeys_partial_cmp_spec() -> bool {
        true
    }

    open spec fn partial_cmp_spec(&self, other: &CharStr<Other>) -> Option<Ordering> {
        Some(self.natural_order(other))
    }
}

impl<Octs: Octets, Other: Octets> CanonicalOrd<CharStr<Other>> for CharStr<Octs> {
    /// The canonical ordering of two character strings: by length, then by
    /// content.
    open spec fn canonical_order(&self, other: &CharStr<Other>) -> Ordering {
        chain(order_len(self@.len(), other@.len()), lex_order(self@, other@))
    }

    fn canonical_cmp(&self, other: &CharStr<Other>) -> (res: Ordering) {
        let left = self.as_slice();
        let right = other.as_slice();
        if left.len() < right.len() {
            Ordering::Less
        } else if left.len() > right.len() {
            Ordering::Greater
        } else {
            cmp_slices(left, right)
        }
    }
}

//--- Compose

impl<Octs: Octets> Compose for CharStr<Octs> {
    open spec fn wire(&self) -> Seq<u8> {
        char_str_wire(self@)
    }

    open spec fn canonical_wire(&self) -> Seq<u8> {
        self.wire()
    }

    fn compose<T: OctetsBuilder>(&self, target: &mut T) -> (res: Result<(), ShortBuf>) {
        let content = self.as_slice();
        let op = |buf: &mut T| -> (inner: Result<(), ShortBuf>)
            requires
                content@.len() <= 255,
            ensures
                appended_in_parts(*old(buf), *final(buf), char_str_wire(content@), inner),
            {
                let length = [content.len() as u8];
                let step = buf.append_slice(&length);
                if step.is_err() {
                    return step;
                }
                let step = buf.append_slice(content);
                assert(step is Ok ==> buf.octets() =~= old(buf).octets() + char_str_wire(
                    content@,
                ));
                step
            };
        target.append_all(op)
    }

    fn compose_canonical<T: OctetsBuilder>(&self, target: &mut T) -> (res: Result<(), ShortBuf>) {
        self.compose(target)
    }
}

//--- Parse and ParseAll

impl Parse for CharStr<Vec<u8>> {
    open spec fn parse_spec(octets: Seq<u8>, pos: int) -> Parsed {
        char_str_at(octets, pos)
    }

    proof fn lemma_parse_spec(octets: Seq<u8>, pos: int) {
    }

    proof fn lemma_round_trip(&self, before: Seq<u8>, after: Seq<u8>) {
    }

    fn parse(parser: &mut Parser) -> (res: Result<Self, ParseError>) {
        proof {
            parser.lemma_in_bounds();
        }
        let ghost octets = parser.octets();
        let ghost start = parser.at();
        let len = match parser.parse_u8() {
            Ok(len) => len as usize,
            Err(_) => {
                return Err(ParseError::ShortBuf);
            },
        };
        match parser.parse_octets(len) {
            Ok(slice) => {
                let res = CharStr { octets: vstd::slice::slice_to_vec(slice) };
                assert(res.wire() =~= octets.subrange(start, start + 1 + len));
                Ok(res)
            },
            Err(_) => Err(ParseError::ShortBuf),
        }
    }

    fn skip(parser: &mut Parser) -> (res: Result<(), ParseError>) {
        proof {
            parser.lemma_in_bounds();
        }
        let len = match parser.parse_u8() {
            Ok(len) => len as usize,
            Err(_) => {
                return Err(ParseError::ShortBuf);
            },
        };
        match parser.advance(len) {
            Ok(_) => Ok(()),
            Err(_) => Err(ParseError::ShortBuf),
        }
    }
}

impl ParseAll for CharStr<Vec<u8>> {
    open spec fn parse_all_spec(octets: Seq<u8>, pos: int, len: int) -> Parsed {
        char_str_in_field(octets, pos, len)
    }

    proof fn lemma_parse_all_spec(octets: Seq<u8>, pos: int, len: int) {
    }

    proof fn lemma_round_trip_all(&self, before: Seq<u8>, after: Seq<u8>) {
    }

    fn parse_all(parser: &mut Parser, len: usize) -> (res: Result<Self, ParseError>) {
        proof {
            parser.lemma_in_bounds();
        }
        let ghost octets = parser.octets();
        let ghost start = parser.at();
        let char_len = match parser.parse_u8() {
            Ok(len) => len as usize,
            Err(_) => {
                return Err(ParseError::ShortBuf);
            },
        };
        if len < char_len + 1 {
            return Err(ParseError::ShortField);
        }
        if len > char_len + 1 {
            return Err(ParseError::TrailingData);
        }
        match parser.parse_octets(char_len) {
            Ok(slice) => {
                let res = CharStr { octets: vstd::slice::slice_to_vec(slice) };
                assert(res.wire() =~= octets.subrange(start, start + len));
                Ok(res)
            },
            Err(_) => Err(ParseError::ShortBuf),
        }
    }
}

//--- Presentation format

impl<Octs: Octets> CharStr<Octs> {
    /// Returns the character string in presentation format.
    pub fn to_string(&self) -> (res: String)
        ensures
            res@ == chars(escaped(self@)),
    {
        let mut out: Vec<u8> = Vec::new();
        push_escaped(&mut out, self.as_slice());
        into_string(out)
    }
}

impl CharStrError {
    /// The message that describes the error.
    pub fn message(&self) -> (res: &'static str)
        ensures
            res@ == "illegal character string"@,
    {
        "illegal character string"
    }
}

impl PushError {
    /// The message that describes the error.
    pub fn message(&self) -> (res: &'static str)
        ensures
            res@ == "adding octets would exceed the size limit"@,
    {
        "adding octets would exceed the size limit"
    }
}

//--- Laws

/// No wire form of a character string goes on where another ends.
pub proof fn lemma_char_strs_apart(a: Seq<u8>, b: Seq<u8>)
    requires
        a.len() <= 255,
        b.len() <= 255,
    ensures
        apart(char_str_wire(a), char_str_wire(b)),
{
    let wa = char_str_wire(a);
    let wb = char_str_wire(b);
    if wa.is_prefix_of(wb) {
        assert(wa[0] == wb.subrange(0, wa.len() as int)[0]);
    }
    if wb.is_prefix_of(wa) {
        assert(wb[0] == wa.subrange(0, wb.len() as int)[0]);
        assert(wa =~= wb);
    }
}

/// The canonical ordering of character strings is the lexicographic
/// ordering of their wire forms.
pub proof fn lemma_char_str_order(a: Seq<u8>, b: Seq<u8>)
    requires
        a.len() <= 255,
        b.len() <= 255,
    ensures
        chain(order_len(a.len(), b.len()), lex_order(a, b)) == lex_order(
            char_str_wire(a),
            char_str_wire(b),
        ),
{
    let wa = char_str_wire(a);
    let wb = char_str_wire(b);
    lemma_lex_chain(seq![wa[0]], seq![wb[0]], a, b);
    let x = seq![wa[0]];
    let y = seq![wb[0]];
    assert(lex_order(x.skip(1), y.skip(1)) is Equal);
}

impl<Octs: Octets> CharStr<Octs> {
    /// The canonical ordering of two character strings is the
    /// lexicographic ordering of their canonical forms.
    pub proof fn lemma_canonical_order<Other: Octets>(&self, other: &CharStr<Other>)
        ensures
            self.canonical_order(other) == lex_order(self.canonical_wire(), other.canonical_wire()),
    {
        lemma_char_str_order(self@, other@);
    }
}

} // verus!
