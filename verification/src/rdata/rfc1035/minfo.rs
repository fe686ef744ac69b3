//! MINFO record data.

use core::cmp::Ordering;
use crate::iana::{Rtype, RtypeRecordData};
use crate::name::{
    lemma_names_apart, canonical_name_order, canonical_name_wire, lowercase_composed_cmp, name_cmp,
    name_eq, name_order, name_wire, names_equal, ToDname,
};
use crate::octets::{appended_in_parts, Compose, OctetsBuilder, ShortBuf};
use crate::order::{lemma_lex_chain, lex_order, chain, CanonicalOrd};
use crate::parse::{parsed_to, then_parse, Parse, ParseAll, ParseDname, ParseError, Parsed, Parser};
use crate::text::{chars, into_string, name_text, push_name, push_octet};
use vstd::prelude::*;

verus! {

/// Minfo record data.
///
/// The Minfo record specifies a mailbox which is responsible for the mailing
/// list or mailbox and a mailbox that receives error messages related to the
/// list or box.
///
/// The Minfo record is experimental.
///
/// The Minfo record type is defined in RFC 1035, section 3.3.7.
#[derive(Clone, Debug, Hash)]
pub struct Minfo<N> {
    rmailbx: N,
    emailbx: N,
}

impl<N> Minfo<N> {
    /// The responsible mail box, for use in contracts.
    pub closed spec fn spec_rmailbx(&self) -> &N {
        &self.rmailbx
    }

    /// The error mail box, for use in contracts.
    pub closed spec fn spec_emailbx(&self) -> &N {
        &self.emailbx
    }

    /// Creates a new Minfo record data from the components.
    pub fn new(rmailbx: N, emailbx: N) -> (res: Self)
        ensures
            *res.rmailbx() == rmailbx,
            *res.emailbx() == emailbx,
    {
        Minfo { rmailbx, emailbx }
    }

    /// The responsible mail box.
    ///
    /// The domain name specifies the mailbox which is responsible for the
    /// mailing list or mailbox. If this domain name is the root, the owner
    /// of the Minfo record is responsible for itself.
    #[verifier::when_used_as_spec(spec_rmailbx)]
    pub fn rmailbx(&self) -> (res: &N)
        ensures
            res == self.spec_rmailbx(),
    {
        &self.rmailbx
    }

    /// The error mail box.
    ///
    /// The domain name specifies a mailbox which is to receive error
    /// messages related to the mailing list or mailbox specified by the
    /// owner of the record. If this is the root domain name, errors should
    /// be returned to the sender of the message.
    #[verifier::when_used_as_spec(spec_emailbx)]
    pub fn emailbx(&self) -> (res: &N)
        ensures
            res == self.spec_emailbx(),
    {
        &self.emailbx
    }
}

impl<N: ToDname> Minfo<N> {
    /// The natural ordering of two values: by the natural ordering of the
    /// responsible mail boxes, then by that of the error mail boxes.
    pub open spec fn natural_order<NN: ToDname>(&self, other: &Minfo<NN>) -> Ordering {
        chain(
            name_order(self.rmailbx().labels(), other.rmailbx().labels()),
            name_order(self.emailbx().labels(), other.emailbx().labels()),
        )
    }

    /// Returns the natural ordering of two values.
    pub fn cmp(&self, other: &Self) -> (res: Ordering)
        ensures
            res == self.natural_order(other),
    {
        let order = name_cmp(&self.rmailbx, &other.rmailbx);
        match order {
            Ordering::Equal => {},
            _ => {
                return order;
            },
        }
        name_cmp(&self.emailbx, &other.emailbx)
    }
}

//--- PartialEq and Eq

impl<N: ToDname, NN: ToDname> PartialEq<Minfo<NN>> for Minfo<N> {
    fn eq(&self, other: &Minfo<NN>) -> (res: bool) {
        name_eq(&self.rmailbx, &other.rmailbx) && name_eq(&self.emailbx, &other.emailbx)
    }
}

impl<N: ToDname> Eq for Minfo<N> {

}

impl<N: ToDname, NN: ToDname> vstd::std_specs::cmp::PartialEqSpecImpl<Minfo<NN>> for Minfo<N> {
    open spec fn obeys_eq_spec() -> bool {
        true
    }

    /// Two values are equal if their mail boxes are equal names.
    open spec fn eq_spec(&self, other: &Minfo<NN>) -> bool {
        &&& names_equal(self.rmailbx().labels(), other.rmailbx().labels())
        &&& names_equal(self.emailbx().labels(), other.emailbx().labels())
    }
}

//--- PartialOrd and CanonicalOrd

impl<N: ToDname, NN: ToDname> PartialOrd<Minfo<NN>> for Minfo<N> {
    fn partial_cmp(&self, other: &Minfo<NN>) -> (res: Option<Ordering>) {
        let order = name_cmp(&self.rmailbx, &other.rmailbx);
        match order {
            Ordering::Equal => {},
            _ => {
                return Some(order);
            },
        }
        Some(name_cmp(&self.emailbx, &other.emailbx))
    }
}

impl<N: ToDname, NN: ToDname> vstd::std_specs::cmp::PartialOrdSpecImpl<Minfo<NN>> for Minfo<N> {
    open spec fn obeys_partial_cmp_spec() -> bool {
        true
    }

    open spec fn partial_cmp_spec(&self, other: &Minfo<NN>) -> Option<Ordering> {
        Some(self.natural_order(other))
    }
}

impl<N: ToDname, NN: ToDname> CanonicalOrd<Minfo<NN>> for Minfo<N> {
    /// The canonical ordering of two values: by the canonical ordering of
    /// the responsible mail boxes, then by that of the error mail boxes.
    open spec fn canonical_order(&self, other: &Minfo<NN>) -> Ordering {
        chain(
            canonical_name_order(self.rmailbx().labels(), other.rmailbx().labels()),
            canonical_name_order(self.emailbx().labels(), other.emailbx().labels()),
        )
    }

    fn canonical_cmp(&self, other: &Minfo<NN>) -> (res: Ordering) {
        let order = lowercase_composed_cmp(&self.rmailbx, &other.rmailbx);
        match order {
            Ordering::Equal => {},
            _ => {
                return order;
            },
        }
        lowercase_composed_cmp(&self.emailbx, &other.emailbx)
    }
}

//--- Compose

impl<N: ToDname> Compose for Minfo<N> {
    /// The responsible mail box, then the error mail box.
    open spec fn wire(&self) -> Seq<u8> {
        name_wire(self.rmailbx().labels()) + name_wire(self.emailbx().labels())
    }

    /// The responsible mail box, then the error mail box, both in lower
    /// case.
    open spec fn canonical_wire(&self) -> Seq<u8> {
        canonical_name_wire(self.rmailbx().labels()) + canonical_name_wire(
            self.emailbx().labels(),
        )
    }

    fn compose<T: OctetsBuilder>(&self, target: &mut T) -> (res: Result<(), ShortBuf>) {
        let op = |target: &mut T| -> (inner: Result<(), ShortBuf>)
            ensures
                appended_in_parts(*old(target), *final(target), self.wire(), inner),
            {
                let first = target.append_compressed_dname(&self.rmailbx);
                if first.is_err() {
                    return first;
                }
                let second = target.append_compressed_dname(&self.emailbx);
                assert(second is Ok ==> target.octets() =~= old(target).octets() + self.wire());
                second
            };
        target.append_all(op)
    }

    fn compose_canonical<T: OctetsBuilder>(&self, target: &mut T) -> (res: Result<(), ShortBuf>) {
        let op = |target: &mut T| -> (inner: Result<(), ShortBuf>)
            ensures
                appended_in_parts(*old(target), *final(target), self.canonical_wire(), inner),
            {
                let first = crate::name::compose_canonical(&self.rmailbx, target);
                if first.is_err() {
                    return first;
                }
                let second = crate::name::compose_canonical(&self.emailbx, target);
                assert(second is Ok ==> target.octets() =~= old(target).octets()
                    + self.canonical_wire());
                second
            };
        target.append_all(op)
    }
}

//--- Parse and ParseAll

impl<N: ParseDname> Parse for Minfo<N> {
    /// The two names one after the other.
    open spec fn parse_spec(octets: Seq<u8>, pos: int) -> Parsed {
        then_parse::<N>(then_parse::<N>(parsed_to(pos), octets), octets)
    }

    proof fn lemma_parse_spec(octets: Seq<u8>, pos: int) {
        N::lemma_parse_spec(octets, pos);
        N::lemma_parse_spec(octets, N::parse_spec(octets, pos).end);
    }

    proof fn lemma_round_trip(&self, before: Seq<u8>, after: Seq<u8>) {
        let first = self.rmailbx().wire();
        let second = self.emailbx().wire();
        self.rmailbx().lemma_wire();
        self.emailbx().lemma_wire();
        self.rmailbx().lemma_round_trip(before, second + after);
        self.emailbx().lemma_round_trip(before + first, after);
        assert(before + self.wire() + after =~= before + first + (second + after));
        assert(before + self.wire() + after =~= (before + first) + second + after);
    }

    fn parse(parser: &mut Parser) -> (res: Result<Self, ParseError>) {
        proof {
            parser.lemma_in_bounds();
        }
        let ghost octets = parser.octets();
        let ghost start = parser.at();
        let rmailbx = match N::parse(parser) {
            Ok(name) => name,
            Err(err) => {
                return Err(err);
            },
        };
        let ghost first = parser.at();
        let emailbx = match N::parse(parser) {
            Ok(name) => name,
            Err(err) => {
                return Err(err);
            },
        };
        proof {
            N::lemma_parse_spec(octets, start);
            N::lemma_parse_spec(octets, first);
            rmailbx.lemma_wire();
            emailbx.lemma_wire();
            assert(octets.subrange(start, first) + octets.subrange(first, parser.at())
                =~= octets.subrange(start, parser.at()));
        }
        Ok(Minfo::new(rmailbx, emailbx))
    }

    fn skip(parser: &mut Parser) -> (res: Result<(), ParseError>) {
        match N::skip(parser) {
            Ok(_) => {},
            Err(err) => {
                return Err(err);
            },
        }
        N::skip(parser)
    }
}

impl<N: ParseDname> ParseAll for Minfo<N> {
    /// The responsible mail box is taken without regard to the length of
    /// the field. If that fails, so does this.
    ///
    /// If the name leaves something of the field, the error mail box is
    /// taken from what it leaves. If the name fills the field or goes
    /// beyond it, the parser goes back to where it started, and the error
    /// mail box is taken there from a field without octets. Since such a
    /// field holds no name, this fails.
    open spec fn parse_all_spec(octets: Seq<u8>, pos: int, len: int) -> Parsed {
        let first = N::parse_spec(octets, pos);
        if first.err is Some {
            first
        } else if len <= first.end - pos {
            N::parse_all_spec(octets, pos, 0)
        } else {
            N::parse_all_spec(octets, first.end, len - (first.end - pos))
        }
    }

    proof fn lemma_parse_all_spec(octets: Seq<u8>, pos: int, len: int) {
        N::lemma_parse_spec(octets, pos);
        let first = N::parse_spec(octets, pos);
        if first.err is None {
            if len <= first.end - pos {
                N::lemma_parse_all_spec(octets, pos, 0);
                N::lemma_never_empty(octets, pos);
            } else {
                N::lemma_parse_all_spec(octets, first.end, len - (first.end - pos));
            }
        }
    }

    proof fn lemma_round_trip_all(&self, before: Seq<u8>, after: Seq<u8>) {
        let first = self.rmailbx().wire();
        let second = self.emailbx().wire();
        self.rmailbx().lemma_wire();
        self.emailbx().lemma_wire();
        self.emailbx().lemma_name();
        self.rmailbx().lemma_round_trip(before, second + after);
        self.emailbx().lemma_round_trip_all(before + first, after);
        assert(before + self.wire() + after =~= before + first + (second + after));
        assert(before + self.wire() + after =~= (before + first) + second + after);
    }

    fn parse_all(parser: &mut Parser, len: usize) -> (res: Result<Self, ParseError>) {
        proof {
            parser.lemma_in_bounds();
            N::lemma_parse_spec(parser.octets(), parser.at());
        }
        let ghost octets = parser.octets();
        let pos = parser.pos();
        let rmailbx = match N::parse(parser) {
            Ok(name) => name,
            Err(err) => {
                return Err(err);
            },
        };
        let ghost first = parser.at();
        let rlen = parser.pos() - pos;
        let len = if len <= rlen {
            // Because a domain name can never be empty, we seek back to the
            // beginning and reset the length to zero.
            if parser.seek(pos).is_err() {
                return Err(ParseError::ShortBuf);
            }
            proof {
                N::lemma_never_empty(octets, pos as int);
            }
            0
        } else {
            len - rlen
        };
        let emailbx = match N::parse_all(parser, len) {
            Ok(name) => name,
            Err(err) => {
                return Err(err);
            },
        };
        proof {
            N::lemma_parse_all_spec(octets, first, len as int);
            rmailbx.lemma_wire();
            emailbx.lemma_wire();
            assert(octets.subrange(pos as int, first) + octets.subrange(first, first + len)
                =~= octets.subrange(pos as int, first + len));
        }
        Ok(Minfo::new(rmailbx, emailbx))
    }
}

//--- Presentation format

impl<N: ToDname> Minfo<N> {
    /// The value as it is shown: each of the two names followed by a dot,
    /// with a space between them.
    pub open spec fn shown(&self) -> Seq<u8> {
        name_text(self.rmailbx().labels()) + seq![0x2Eu8, 0x20u8] + name_text(
            self.emailbx().labels(),
        ) + seq![0x2Eu8]
    }

    /// Returns the value in presentation format.
    pub fn to_string(&self) -> (res: String)
        ensures
            res@ == chars(self.shown()),
    {
        let mut out: Vec<u8> = Vec::new();
        push_name(&mut out, &self.rmailbx);
        push_octet(&mut out, 0x2E);
        push_octet(&mut out, 0x20);
        push_name(&mut out, &self.emailbx);
        push_octet(&mut out, 0x2E);
        into_string(out)
    }
}

//--- RtypeRecordData

impl<N> RtypeRecordData for Minfo<N> {
    open spec fn rtype_spec() -> Rtype {
        Rtype::Minfo
    }

    fn rtype() -> (res: Rtype) {
        Rtype::Minfo
    }
}

//--- Laws

impl<N: ToDname> Minfo<N> {
    /// The canonical ordering of two values is the lexicographic ordering
    /// of their canonical forms.
    pub proof fn lemma_canonical_order<NN: ToDname>(&self, other: &Minfo<NN>)
        ensures
            self.canonical_order(other) == lex_order(self.canonical_wire(), other.canonical_wire()),
    {
        self.rmailbx().lemma_name();
        other.rmailbx().lemma_name();
        lemma_names_apart(self.rmailbx().labels(), other.rmailbx().labels());
        lemma_lex_chain(
            canonical_name_wire(self.rmailbx().labels()),
            canonical_name_wire(other.rmailbx().labels()),
            canonical_name_wire(self.emailbx().labels()),
            canonical_name_wire(other.emailbx().labels()),
        );
    }
}

} // verus!
