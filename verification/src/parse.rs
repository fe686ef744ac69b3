//! Parsing of wire data.
//!
//! A [`Parser`] walks over a slice of octets. Types that know how to take
//! themselves from a parser have [`Parse`]; types that can be taken from a
//! field of a given length have [`ParseAll`].
//!
//! What parsing does is stated through [`Parsed`]: where the parser stands
//! afterwards, and the error if there was one. A value that was parsed is
//! described by its wire form: composing it gives back the octets it was
//! taken from.

use crate::name::{name_wire, ToDname};
use crate::octets::{be_u16, be_u32, lemma_be_u32, Compose, ShortBuf};
use vstd::prelude::*;

verus! {

//------------ ParseError ----------------------------------------------------

/// The reasons for which parsing fails.
#[derive(Clone, Copy, Debug, PartialEq, Eq, Structural)]
pub enum ParseError {
    /// The octets end before the value does.
    ShortBuf,
    /// The field is too short for the value.
    ShortField,
    /// The field goes on behind the value.
    TrailingData,
    /// A label of a domain name is neither the root label nor a label of at
    /// most 63 octets.
    BadLabel,
    /// A domain name is longer than 255 octets.
    LongName,
}

//------------ Parsed --------------------------------------------------------

/// What a parsing step comes to.
pub struct Parsed {
    /// The position at which the parser stands after the step.
    pub end: int,
    /// The error with which the step failed, if it failed.
    pub err: Option<ParseError>,
}

/// A step that succeeded and left the parser at `end`.
pub open spec fn parsed_to(end: int) -> Parsed {
    Parsed { end, err: None }
}

/// A step that failed with `err` and left the parser at `end`.
pub open spec fn failed_at(end: int, err: ParseError) -> Parsed {
    Parsed { end, err: Some(err) }
}

/// Taking `width` octets after an earlier step.
///
/// Nothing happens if the earlier step failed. Else the parser moves on by
/// `width` octets if there are that many, and fails with `ShortBuf` where it
/// stands if there are not.
pub open spec fn then_take(before: Parsed, octets: Seq<u8>, width: int) -> Parsed {
    if before.err is Some {
        before
    } else if before.end + width > octets.len() {
        failed_at(before.end, ParseError::ShortBuf)
    } else {
        parsed_to(before.end + width)
    }
}

/// Parsing a value of type `T` after an earlier step.
///
/// Nothing happens if the earlier step failed.
pub open spec fn then_parse<T: Parse>(before: Parsed, octets: Seq<u8>) -> Parsed {
    if before.err is Some {
        before
    } else {
        T::parse_spec(octets, before.end)
    }
}

/// Whether `res` and the parser `post` are what the step `step` leaves of
/// the parser `pre`, where `value` is the wire form of the value returned,
/// if one is.
pub open spec fn parse_outcome(
    pre: Parser,
    post: Parser,
    step: Parsed,
    failed: Option<ParseError>,
    value: Option<Seq<u8>>,
) -> bool {
    &&& post.octets() == pre.octets()
    &&& post.at() == step.end
    &&& failed == step.err
    &&& step.err is None ==> value == Some(pre.octets().subrange(pre.at(), step.end))
}

/// The error of a result, if it is one.
pub open spec fn error_of<T>(res: Result<T, ParseError>) -> Option<ParseError> {
    match res {
        Ok(_) => None,
        Err(err) => Some(err),
    }
}

/// The wire form of the value of a result, if it has one.
pub open spec fn wire_of<T: Compose>(res: Result<T, ParseError>) -> Option<Seq<u8>> {
    match res {
        Ok(value) => Some(value.wire()),
        Err(_) => None,
    }
}

//------------ Parser --------------------------------------------------------

/// A position in a slice of octets.
#[derive(Clone, Copy, Debug)]
pub struct Parser<'a> {
    octets: &'a [u8],
    pos: usize,
}

impl<'a> Parser<'a> {
    /// The octets the parser walks over.
    pub closed spec fn octets(&self) -> Seq<u8> {
        self.octets@
    }

    /// The position of the parser: the number of octets that lie behind it.
    pub closed spec fn at(&self) -> int {
        if self.pos <= self.octets@.len() {
            self.pos as int
        } else {
            self.octets@.len() as int
        }
    }

    #[verifier::type_invariant]
    spec fn in_bounds(&self) -> bool {
        self.pos <= self.octets@.len()
    }

    /// The position is never beyond the end of the octets.
    pub proof fn lemma_in_bounds(&self)
        ensures
            0 <= self.at() <= self.octets().len(),
    {
    }

    /// Creates a parser at the start of `octets`.
    pub fn from_slice(octets: &'a [u8]) -> (res: Self)
        ensures
            res.octets() == octets@,
            res.at() == 0,
    {
        Parser { octets, pos: 0 }
    }

    /// Returns the octets the parser walks over.
    pub fn as_slice(&self) -> (res: &'a [u8])
        ensures
            res@ == self.octets(),
    {
        self.octets
    }

    /// Returns the position of the parser.
    pub fn pos(&self) -> (res: usize)
        ensures
            res == self.at(),
            res <= self.octets().len(),
    {
        proof {
            use_type_invariant(self);
        }
        self.pos
    }

    /// Returns the number of octets that lie ahead.
    pub fn remaining(&self) -> (res: usize)
        ensures
            res == self.octets().len() - self.at(),
    {
        proof {
            use_type_invariant(self);
        }
        self.octets.len() - self.pos
    }

    /// Moves the parser to `pos`.
    ///
    /// Fails, and leaves the parser where it is, if `pos` is beyond the end
    /// of the octets.
    pub fn seek(&mut self, pos: usize) -> (res: Result<(), ShortBuf>)
        ensures
            final(self).octets() == old(self).octets(),
            res is Ok <==> pos <= old(self).octets().len(),
            res is Ok ==> final(self).at() == pos,
            res is Err ==> final(self).at() == old(self).at(),
    {
        if pos > self.octets.len() {
            Err(ShortBuf)
        } else {
            self.pos = pos;
            Ok(())
        }
    }

    /// Moves the parser forward by `len` octets.
    ///
    /// Fails, and leaves the parser where it is, if fewer octets lie ahead.
    pub fn advance(&mut self, len: usize) -> (res: Result<(), ShortBuf>)
        ensures
            final(self).octets() == old(self).octets(),
            res is Ok <==> old(self).at() + len <= old(self).octets().len(),
            res is Ok ==> final(self).at() == old(self).at() + len,
            res is Err ==> final(self).at() == old(self).at(),
    {
        proof {
            use_type_invariant(&*self);
        }
        if len > self.octets.len() - self.pos {
            Err(ShortBuf)
        } else {
            self.pos = self.pos + len;
            Ok(())
        }
    }

    /// Takes the next `len` octets.
    ///
    /// Fails, and leaves the parser where it is, if fewer octets lie ahead.
    pub fn parse_octets(&mut self, len: usize) -> (res: Result<&'a [u8], ShortBuf>)
        ensures
            final(self).octets() == old(self).octets(),
            res is Ok <==> old(self).at() + len <= old(self).octets().len(),
            res is Err ==> final(self).at() == old(self).at(),
            res matches Ok(slice) ==> {
                &&& final(self).at() == old(self).at() + len
                &&& slice@ == old(self).octets().subrange(old(self).at(), old(self).at() + len)
                &&& slice@.len() == len
            },
    {
        proof {
            use_type_invariant(&*self);
        }
        if len > self.octets.len() - self.pos {
            Err(ShortBuf)
        } else {
            let octets: &'a [u8] = self.octets;
            let start = self.pos;
            self.pos = start + len;
            Ok(&octets[start..start + len])
        }
    }

    /// Takes the next octet.
    ///
    /// Fails, and leaves the parser where it is, if no octet lies ahead.
    pub fn parse_u8(&mut self) -> (res: Result<u8, ShortBuf>)
        ensures
            final(self).octets() == old(self).octets(),
            res is Ok <==> old(self).at() + 1 <= old(self).octets().len(),
            res is Err ==> final(self).at() == old(self).at(),
            res matches Ok(value) ==> {
                &&& final(self).at() == old(self).at() + 1
                &&& value == old(self).octets()[old(self).at()]
            },
    {
        proof {
            use_type_invariant(&*self);
        }
        if self.pos >= self.octets.len() {
            Err(ShortBuf)
        } else {
            let value = self.octets[self.pos];
            self.pos = self.pos + 1;
            Ok(value)
        }
    }

    /// Takes the next two octets as a number in network byte order.
    ///
    /// Fails, and leaves the parser where it is, if fewer octets lie ahead.
    pub fn parse_u16(&mut self) -> (res: Result<u16, ShortBuf>)
        ensures
            final(self).octets() == old(self).octets(),
            res is Ok <==> old(self).at() + 2 <= old(self).octets().len(),
            res is Err ==> final(self).at() == old(self).at(),
            res matches Ok(value) ==> {
                &&& final(self).at() == old(self).at() + 2
                &&& be_u16(value) == old(self).octets().subrange(
                    old(self).at(),
                    old(self).at() + 2,
                )
            },
    {
        proof {
            use_type_invariant(&*self);
        }
        if self.octets.len() - self.pos < 2 {
            Err(ShortBuf)
        } else {
            let high = self.octets[self.pos] as u16;
            let low = self.octets[self.pos + 1] as u16;
            let value = high * 256 + low;
            self.pos = self.pos + 2;
            Ok(value)
        }
    }

    /// Takes the next four octets as a number in network byte order.
    ///
    /// Fails, and leaves the parser where it is, if fewer octets lie ahead.
    pub fn parse_u32(&mut self) -> (res: Result<u32, ShortBuf>)
        ensures
            final(self).octets() == old(self).octets(),
            res is Ok <==> old(self).at() + 4 <= old(self).octets().len(),
            res is Err ==> final(self).at() == old(self).at(),
            res matches Ok(value) ==> {
                &&& final(self).at() == old(self).at() + 4
                &&& be_u32(value) == old(self).octets().subrange(
                    old(self).at(),
                    old(self).at() + 4,
                )
            },
    {
        proof {
            use_type_invariant(&*self);
        }
        if self.octets.len() - self.pos < 4 {
            Err(ShortBuf)
        } else {
            let a = self.octets[self.pos];
            let b = self.octets[self.pos + 1];
            let c = self.octets[self.pos + 2];
            let d = self.octets[self.pos + 3];
            proof {
                lemma_be_u32(a, b, c, d);
            }
            let value = a as u32 * 0x100_0000 + b as u32 * 0x1_0000 + c as u32 * 0x100 + d as u32;
            self.pos = self.pos + 4;
            Ok(value)
        }
    }
}

//------------ Parse ---------------------------------------------------------

/// A type that can take a value of itself from the start of what lies
/// ahead of a parser.
pub trait Parse: Compose + Sized {
    /// What parsing a value at `pos` of `octets` comes to.
    spec fn parse_spec(octets: Seq<u8>, pos: int) -> Parsed;

    /// Parsing starts within the octets and ends within them, not before
    /// it started.
    proof fn lemma_parse_spec(octets: Seq<u8>, pos: int)
        requires
            0 <= pos <= octets.len(),
        ensures
            pos <= Self::parse_spec(octets, pos).end <= octets.len(),
    ;

    /// What a value has composed is parsed back: wherever the wire form of
    /// a value stands, parsing there succeeds and ends behind it.
    proof fn lemma_round_trip(&self, before: Seq<u8>, after: Seq<u8>)
        ensures
            Self::parse_spec(before + self.wire() + after, before.len() as int) == parsed_to(
                (before.len() + self.wire().len()) as int,
            ),
    ;

    /// Takes a value from the parser.
    ///
    /// On success the parser stands behind the value, and the wire form of
    /// the value is the octets the parser went over.
    fn parse(parser: &mut Parser) -> (res: Result<Self, ParseError>)
        ensures
            parse_outcome(
                *old(parser),
                *final(parser),
                Self::parse_spec(old(parser).octets(), old(parser).at()),
                error_of(res),
                wire_of(res),
            ),
    ;

    /// Goes over a value without taking it.
    fn skip(parser: &mut Parser) -> (res: Result<(), ParseError>)
        ensures
            final(parser).octets() == old(parser).octets(),
            final(parser).at() == Self::parse_spec(old(parser).octets(), old(parser).at()).end,
            error_of(res) == Self::parse_spec(old(parser).octets(), old(parser).at()).err,
    ;
}

//------------ ParseAll ------------------------------------------------------

/// A type that can take a value of itself from a field of a given length.
pub trait ParseAll: Compose + Sized {
    /// What parsing a value from the `len` octets at `pos` of `octets`
    /// comes to.
    spec fn parse_all_spec(octets: Seq<u8>, pos: int, len: int) -> Parsed;

    /// Parsing that succeeds ends at the end of the field.
    proof fn lemma_parse_all_spec(octets: Seq<u8>, pos: int, len: int)
        requires
            0 <= pos <= octets.len(),
            0 <= len,
        ensures
            pos <= Self::parse_all_spec(octets, pos, len).end <= octets.len(),
            Self::parse_all_spec(octets, pos, len).err is None ==> Self::parse_all_spec(
                octets,
                pos,
                len,
            ).end == pos + len,
    ;

    /// What a value has composed is parsed back: wherever the wire form of
    /// a value stands, parsing the field that it fills succeeds.
    proof fn lemma_round_trip_all(&self, before: Seq<u8>, after: Seq<u8>)
        ensures
            Self::parse_all_spec(
                before + self.wire() + after,
                before.len() as int,
                self.wire().len() as int,
            ) == parsed_to((before.len() + self.wire().len()) as int),
    ;

    /// Takes a value from the next `len` octets of the parser.
    ///
    /// On success the parser stands behind the field, and the wire form of
    /// the value is the field.
    fn parse_all(parser: &mut Parser, len: usize) -> (res: Result<Self, ParseError>)
        ensures
            parse_outcome(
                *old(parser),
                *final(parser),
                Self::parse_all_spec(old(parser).octets(), old(parser).at(), len as int),
                error_of(res),
                wire_of(res),
            ),
    ;
}

//------------ ParseDname ----------------------------------------------------

/// A domain name type that can take a name from a parser.
pub trait ParseDname: ToDname + Parse + ParseAll {
    /// The wire form of a name is the wire form of its labels.
    proof fn lemma_wire(&self)
        ensures
            self.wire() == name_wire(self.labels()),
    ;

    /// A field without octets holds no name.
    proof fn lemma_never_empty(octets: Seq<u8>, pos: int)
        requires
            0 <= pos <= octets.len(),
        ensures
            Self::parse_all_spec(octets, pos, 0).err is Some,
    ;
}

impl ParseError {
    /// The message that describes the error.
    pub fn message(&self) -> (res: &'static str)
        ensures
            res@ == match *self {
                ParseError::ShortBuf => "unexpected end of buffer"@,
                ParseError::ShortField => "short field"@,
                ParseError::TrailingData => "trailing data"@,
                ParseError::BadLabel => "illegal label"@,
                ParseError::LongName => "long domain name"@,
            },
    {
        match *self {
            ParseError::ShortBuf => "unexpected end of buffer",
            ParseError::ShortField => "short field",
            ParseError::TrailingData => "trailing data",
            ParseError::BadLabel => "illegal label",
            ParseError::LongName => "long domain name",
        }
    }
}

} // verus!
