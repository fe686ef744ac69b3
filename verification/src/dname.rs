//! An uncompressed, absolute domain name.
//!
//! [`Dname`] owns the wire form of a domain name: a sequence of labels, each
//! a length octet followed by that many octets of content, that ends with
//! the root label, a single zero octet.

use core::cmp::Ordering;
use crate::name::{
    name_cmp, name_eq, name_order, names_equal, canonical_name_order, canonical_name_wire,
    label_wire, lemma_wire_concat, lemma_wire_take, lowercase_composed_cmp, name_wire, slices_are,
    valid_name, ToDname,
};
use crate::octets::{Compose, Octets, OctetsBuilder, ShortBuf};
use crate::order::CanonicalOrd;
use crate::parse::{
    error_of, failed_at, parsed_to, Parse, ParseAll, ParseDname, ParseError, Parsed, Parser,
};
use crate::text::{chars, into_string, name_text, push_name};
use vstd::prelude::*;

verus! {

//------------ Specifications ------------------------------------------------

/// Where the domain name ends that begins at `start` of `octets`, as seen
/// from the label at `pos`, or why there is no such name.
///
/// A label that starts beyond the end of the octets gives `ShortBuf`. A
/// zero octet is the root label and ends the name. Any other length octet
/// above 63 gives `BadLabel`. A label after which the root label would no
/// longer fit into 255 octets gives `LongName`. A label that goes on beyond
/// the end of the octets gives `ShortBuf`.
pub open spec fn name_end(octets: Seq<u8>, start: int, pos: int) -> Result<int, ParseError>
    decreases octets.len() - pos,
{
    if pos < 0 || pos >= octets.len() {
        Err(ParseError::ShortBuf)
    } else if octets[pos] == 0 {
        Ok(pos + 1)
    } else if octets[pos] > 63 {
        Err(ParseError::BadLabel)
    } else if pos + octets[pos] + 2 - start > 255 {
        Err(ParseError::LongName)
    } else if pos + octets[pos] + 1 > octets.len() {
        Err(ParseError::ShortBuf)
    } else {
        name_end(octets, start, pos + octets[pos] + 1)
    }
}

/// The labels of the domain name that begins at `pos` of `octets`.
pub open spec fn labels_at(octets: Seq<u8>, pos: int) -> Seq<Seq<u8>>
    decreases octets.len() - pos,
{
    if pos < 0 || pos >= octets.len() {
        Seq::empty()
    } else if octets[pos] == 0 {
        seq![Seq::empty()]
    } else if pos + octets[pos] + 1 > octets.len() {
        Seq::empty()
    } else {
        seq![octets.subrange(pos + 1, pos + octets[pos] + 1)] + labels_at(
            octets,
            pos + octets[pos] + 1,
        )
    }
}

/// Whether `octets` is the wire form of one domain name and nothing more.
pub open spec fn is_name(octets: Seq<u8>) -> bool {
    name_end(octets, 0, 0) == Ok::<int, ParseError>(octets.len() as int)
}

/// What taking a name from the start of `octets` comes to: the error for
/// which there is no name, or `TrailingData` if octets follow the name.
pub open spec fn name_check(octets: Seq<u8>) -> Option<ParseError> {
    match name_end(octets, 0, 0) {
        Err(err) => Some(err),
        Ok(end) => if end == octets.len() {
            None
        } else {
            Some(ParseError::TrailingData)
        },
    }
}

/// What taking a name from a field of `len` octets at `pos` comes to.
///
/// The field has to lie within the octets, else the parser fails with
/// `ShortBuf`. A name that does not end within the field gives
/// `ShortField`, and one that ends before the field does gives
/// `TrailingData`. The parser moves only where a name fills the field.
pub open spec fn name_in_field(octets: Seq<u8>, pos: int, len: int) -> Parsed {
    if pos + len > octets.len() {
        failed_at(pos, ParseError::ShortBuf)
    } else {
        match name_check(octets.subrange(pos, pos + len)) {
            None => parsed_to(pos + len),
            Some(ParseError::ShortBuf) => failed_at(pos, ParseError::ShortField),
            Some(err) => failed_at(pos, err),
        }
    }
}

//------------ Lemmas --------------------------------------------------------

/// The labels of a name that ends are a valid name, and their wire form is
/// the octets from the start of the name to its end.
pub proof fn lemma_labels_at(octets: Seq<u8>, start: int, pos: int)
    requires
        0 <= start <= pos,
        pos - start <= 254,
        name_end(octets, start, pos) is Ok,
    ensures
        pos < name_end(octets, start, pos)->Ok_0 <= octets.len(),
        name_end(octets, start, pos)->Ok_0 - start <= 255,
        name_wire(labels_at(octets, pos)) == octets.subrange(
            pos,
            name_end(octets, start, pos)->Ok_0,
        ),
        labels_at(octets, pos).len() >= 1,
        forall|i: int|
            0 <= i < labels_at(octets, pos).len() ==> (#[trigger] labels_at(octets, pos)[i]).len()
                <= 63,
        forall|i: int|
            0 <= i < labels_at(octets, pos).len() ==> ((#[trigger] labels_at(
                octets,
                pos,
            )[i]).len() == 0 <==> i == labels_at(octets, pos).len() - 1),
    decreases octets.len() - pos,
{
    let all = labels_at(octets, pos);
    if octets[pos] == 0 {
        assert(name_wire(all) =~= label_wire(all[0]) + name_wire(all.skip(1)));
    } else {
        let next = pos + octets[pos] + 1;
        lemma_labels_at(octets, start, next);
        let rest = labels_at(octets, next);
        assert(all.skip(1) =~= rest);
    }
}

/// The labels of the wire form of a name are a valid name with that wire
/// form.
pub proof fn lemma_is_name(octets: Seq<u8>)
    requires
        is_name(octets),
    ensures
        valid_name(labels_at(octets, 0)),
        name_wire(labels_at(octets, 0)) == octets,
        1 <= octets.len() <= 255,
{
    lemma_labels_at(octets, 0, 0);
}

/// The wire form of a valid name is read back as that name: from behind
/// its first `count` labels, the name ends where the wire form ends, and
/// the labels found are the remaining labels.
pub proof fn lemma_wire_read_back(labels: Seq<Seq<u8>>, count: int)
    requires
        valid_name(labels),
        0 <= count < labels.len(),
    ensures
        name_end(name_wire(labels), 0, name_wire(labels.take(count)).len() as int) == Ok::<
            int,
            ParseError,
        >(name_wire(labels).len() as int),
        labels_at(name_wire(labels), name_wire(labels.take(count)).len() as int) == labels.skip(
            count,
        ),
    decreases labels.len() - count,
{
    let wire = name_wire(labels);
    let pos = name_wire(labels.take(count)).len() as int;
    let label = labels[count];
    lemma_wire_take(labels, count);
    if count == labels.len() - 1 {
        assert(labels.skip(count) =~= seq![Seq::<u8>::empty()]) by {
            assert(label =~= Seq::<u8>::empty());
        }
    } else {
        lemma_wire_read_back(labels, count + 1);
        let next = name_wire(labels.take(count + 1)).len() as int;
        assert(wire.subrange(pos + 1, next) =~= label);
    }
}

/// Composing a valid name and parsing what was composed gives back the
/// name.
pub proof fn lemma_read_back(labels: Seq<Seq<u8>>)
    requires
        valid_name(labels),
    ensures
        is_name(name_wire(labels)),
        labels_at(name_wire(labels), 0) == labels,
{
    lemma_wire_read_back(labels, 0);
}

/// Octets that lie behind the end of a name do not matter to it.
pub proof fn lemma_name_within(octets: Seq<u8>, start: int, pos: int, end: int)
    requires
        0 <= start <= pos <= end <= octets.len(),
    ensures
        match name_end(octets.subrange(start, end), 0, pos - start) {
            Ok(stop) => name_end(octets, start, pos) == Ok::<int, ParseError>(stop + start),
            Err(ParseError::ShortBuf) => true,
            Err(err) => name_end(octets, start, pos) == Err::<int, ParseError>(err),
        },
        name_end(octets, start, pos) is Ok && name_end(octets, start, pos)->Ok_0 <= end
            ==> name_end(octets.subrange(start, end), 0, pos - start) == Ok::<int, ParseError>(
            name_end(octets, start, pos)->Ok_0 - start,
        ),
    decreases end - pos,
{
    if pos < end {
        if octets[pos] != 0 && octets[pos] <= 63 && pos + octets[pos] + 2 - start <= 255 {
            let next = pos + octets[pos] + 1;
            if next <= end {
                lemma_name_within(octets, start, next, end);
            } else if next <= octets.len() {
                lemma_name_beyond(octets, start, next);
            }
        }
    } else {
        lemma_name_beyond(octets, start, pos);
    }
}

/// A name ends behind the label it is seen from.
pub proof fn lemma_name_beyond(octets: Seq<u8>, start: int, pos: int)
    requires
        0 <= pos,
    ensures
        name_end(octets, start, pos) matches Ok(stop) ==> pos < stop <= octets.len(),
    decreases octets.len() - pos,
{
    if pos < octets.len() && octets[pos] != 0 && octets[pos] <= 63 && pos + octets[pos] + 2
        - start <= 255 && pos + octets[pos] + 1 <= octets.len() {
        lemma_name_beyond(octets, start, pos + octets[pos] + 1);
    }
}

//------------ Scanning ------------------------------------------------------

/// Finds the end of the name that starts at `start`.
fn scan_name(octets: &[u8], start: usize) -> (res: Result<usize, ParseError>)
    requires
        start <= octets@.len(),
    ensures
        match res {
            Ok(end) => name_end(octets@, start as int, start as int) == Ok::<int, ParseError>(
                end as int,
            ),
            Err(err) => name_end(octets@, start as int, start as int) == Err::<int, ParseError>(
                err,
            ),
        },
{
    let mut pos: usize = start;
    loop
        invariant
            start <= pos <= octets@.len(),
            pos - start <= 254,
            name_end(octets@, start as int, start as int) == name_end(
                octets@,
                start as int,
                pos as int,
            ),
        decreases octets@.len() - pos,
    {
        if pos >= octets.len() {
            return Err(ParseError::ShortBuf);
        }
        let len = octets[pos] as usize;
        if len == 0 {
            return Ok(pos + 1);
        }
        if len > 63 {
            return Err(ParseError::BadLabel);
        }
        if pos - start + len + 2 > 255 {
            return Err(ParseError::LongName);
        }
        if len + 1 > octets.len() - pos {
            return Err(ParseError::ShortBuf);
        }
        pos = pos + len + 1;
    }
}

//------------ Dname ---------------------------------------------------------

/// An uncompressed, absolute domain name.
#[derive(Debug)]
pub struct Dname {
    octets: Vec<u8>,
}

impl Clone for Dname {
    fn clone(&self) -> (res: Self)
        ensures
            res@ == self@,
    {
        proof {
            use_type_invariant(self);
        }
        let octets = self.octets.clone();
        Dname { octets }
    }
}

impl Dname {
    #[verifier::type_invariant]
    spec fn well_formed(&self) -> bool {
        is_name(self.octets@)
    }

    /// The wire form of the name.
    pub closed spec fn view(&self) -> Seq<u8> {
        if is_name(self.octets@) {
            self.octets@
        } else {
            seq![0u8]
        }
    }

    /// The wire form of a name is that of its labels.
    pub proof fn lemma_view(&self)
        ensures
            is_name(self@),
            self@ == name_wire(self.labels()),
            valid_name(self.labels()),
    {
        let root = seq![0u8];
        lemma_is_name(self@);
    }

    /// Creates the root name.
    pub fn root() -> (res: Self)
        ensures
            res@ == seq![0u8],
    {
        let mut octets = Vec::new();
        octets.push(0u8);
        Dname { octets }
    }

    /// Creates a name from its wire form.
    ///
    /// Fails if `slice` does not start with a name, and with `TrailingData`
    /// if octets follow the name.
    pub fn from_slice(slice: &[u8]) -> (res: Result<Self, ParseError>)
        ensures
            error_of(res) == name_check(slice@),
            res matches Ok(name) ==> name@ == slice@,
    {
        match scan_name(slice, 0) {
            Err(err) => Err(err),
            Ok(end) => {
                if end != slice.len() {
                    Err(ParseError::TrailingData)
                } else {
                    Ok(Dname { octets: vstd::slice::slice_to_vec(slice) })
                }
            },
        }
    }

    /// Returns the wire form of the name.
    pub fn as_slice(&self) -> (res: &[u8])
        ensures
            res@ == self@,
    {
        proof {
            use_type_invariant(self);
        }
        self.octets.as_slice()
    }

    /// Returns the length of the wire form of the name.
    pub fn len(&self) -> (res: usize)
        ensures
            res == self@.len(),
            1 <= res <= 255,
    {
        proof {
            use_type_invariant(self);
            lemma_is_name(self.octets@);
        }
        self.octets.len()
    }

    /// Returns whether the name is the root name.
    pub fn is_root(&self) -> (res: bool)
        ensures
            res <==> self@ == seq![0u8],
    {
        proof {
            use_type_invariant(self);
            lemma_is_name(self.octets@);
        }
        if self.octets.len() == 1 {
            true
        } else {
            false
        }
    }
}

impl ToDname for Dname {
    open spec fn labels(&self) -> Seq<Seq<u8>> {
        labels_at(self@, 0)
    }

    proof fn lemma_name(&self) {
        self.lemma_view();
    }

    fn iter_labels(&self) -> (res: Vec<&[u8]>) {
        proof {
            use_type_invariant(self);
        }
        let octets = self.octets.as_slice();
        let ghost all = labels_at(octets@, 0);
        let mut res: Vec<&[u8]> = Vec::new();
        let mut pos: usize = 0;
        loop
            invariant_except_break
                pos <= 254,
                pos < octets@.len(),
                name_end(octets@, 0, pos as int) == Ok::<int, ParseError>(octets@.len() as int),
                res@.len() <= all.len(),
                slices_are(res@, all.take(res@.len() as int)),
                all.skip(res@.len() as int) == labels_at(octets@, pos as int),
            invariant
                octets@ == self@,
                is_name(octets@),
                all == labels_at(octets@, 0),
            ensures
                slices_are(res@, all),
                octets@ == self@,
                all == labels_at(octets@, 0),
            decreases octets@.len() - pos,
        {
            let ghost count = res@.len() as int;
            let len = octets[pos] as usize;
            proof {
                assert(all.skip(count).len() >= 1);
                assert(all.skip(count)[0] == all[count]);
            }
            let label = &octets[pos + 1..pos + 1 + len];
            res.push(label);
            proof {
                assert(forall|i: int|
                    0 <= i < res@.len() ==> (#[trigger] res@[i])@ == all.take(count + 1)[i]);
            }
            if len == 0 {
                break;
            }
            proof {
                assert(all.skip(count).skip(1) =~= all.skip(count + 1));
            }
            pos = pos + 1 + len;
        }
        res
    }

    fn as_flat_slice(&self) -> (res: Option<&[u8]>)
        ensures
            res is Some,
    {
        proof {
            self.lemma_view();
        }
        Some(self.as_slice())
    }
}

//--- Compose

impl Compose for Dname {
    open spec fn wire(&self) -> Seq<u8> {
        name_wire(self.labels())
    }

    open spec fn canonical_wire(&self) -> Seq<u8> {
        canonical_name_wire(self.labels())
    }

    fn compose<T: OctetsBuilder>(&self, target: &mut T) -> (res: Result<(), ShortBuf>) {
        proof {
            self.lemma_view();
        }
        target.append_slice(self.as_slice())
    }

    fn compose_canonical<T: OctetsBuilder>(&self, target: &mut T) -> (res: Result<(), ShortBuf>) {
        crate::name::compose_canonical(self, target)
    }
}

//--- Parse and ParseAll

impl Parse for Dname {
    /// A name is taken if one starts at `pos` and ends within the octets.
    /// Else the parser stays where it is.
    open spec fn parse_spec(octets: Seq<u8>, pos: int) -> Parsed {
        match name_end(octets, pos, pos) {
            Ok(end) => parsed_to(end),
            Err(err) => failed_at(pos, err),
        }
    }

    proof fn lemma_parse_spec(octets: Seq<u8>, pos: int) {
        lemma_name_beyond(octets, pos, pos);
    }

    proof fn lemma_round_trip(&self, before: Seq<u8>, after: Seq<u8>) {
        self.lemma_view();
        let octets = before + self.wire() + after;
        let pos = before.len() as int;
        let end = pos + self.wire().len();
        assert(octets.subrange(pos, end) =~= self.wire());
        lemma_name_within(octets, pos, pos, end);
    }

    fn parse(parser: &mut Parser) -> (res: Result<Self, ParseError>) {
        let start = parser.pos();
        match scan_name(parser.as_slice(), start) {
            Err(err) => Err(err),
            Ok(end) => {
                proof {
                    lemma_name_beyond(parser.octets(), start as int, start as int);
                    lemma_name_within(parser.octets(), start as int, start as int, end as int);
                }
                match parser.parse_octets(end - start) {
                    Ok(slice) => {
                        let name = Dname { octets: vstd::slice::slice_to_vec(slice) };
                        proof {
                            name.lemma_view();
                        }
                        Ok(name)
                    },
                    Err(_) => Err(ParseError::ShortBuf),
                }
            },
        }
    }

    fn skip(parser: &mut Parser) -> (res: Result<(), ParseError>) {
        let start = parser.pos();
        match scan_name(parser.as_slice(), start) {
            Err(err) => Err(err),
            Ok(end) => {
                proof {
                    lemma_name_beyond(parser.octets(), start as int, start as int);
                }
                match parser.seek(end) {
                    Ok(_) => Ok(()),
                    Err(_) => Err(ParseError::ShortBuf),
                }
            },
        }
    }
}

impl ParseAll for Dname {
    open spec fn parse_all_spec(octets: Seq<u8>, pos: int, len: int) -> Parsed {
        name_in_field(octets, pos, len)
    }

    proof fn lemma_parse_all_spec(octets: Seq<u8>, pos: int, len: int) {
    }

    proof fn lemma_round_trip_all(&self, before: Seq<u8>, after: Seq<u8>) {
        self.lemma_view();
        let octets = before + self.wire() + after;
        let pos = before.len() as int;
        assert(octets.subrange(pos, pos + self.wire().len()) =~= self.wire());
    }

    fn parse_all(parser: &mut Parser, len: usize) -> (res: Result<Self, ParseError>) {
        let start = parser.pos();
        if parser.remaining() < len {
            return Err(ParseError::ShortBuf);
        }
        let octets = parser.as_slice();
        assert(start + len <= octets.len());
        let field = &octets[start..start + len];
        match Dname::from_slice(field) {
            Ok(name) => {
                proof {
                    name.lemma_view();
                }
                match parser.advance(len) {
                    Ok(_) => Ok(name),
                    Err(_) => Err(ParseError::ShortBuf),
                }
            },
            Err(ParseError::ShortBuf) => Err(ParseError::ShortField),
            Err(err) => Err(err),
        }
    }
}

impl ParseDname for Dname {
    proof fn lemma_wire(&self) {
    }

    proof fn lemma_never_empty(octets: Seq<u8>, pos: int) {
    }
}

//--- PartialEq, Eq and PartialOrd

impl PartialEq for Dname {
    fn eq(&self, other: &Self) -> (res: bool) {
        name_eq(self, other)
    }
}

impl Eq for Dname {

}

impl vstd::std_specs::cmp::PartialEqSpecImpl for Dname {
    open spec fn obeys_eq_spec() -> bool {
        true
    }

    /// Two names are equal if they have the same labels once case is set
    /// aside.
    open spec fn eq_spec(&self, other: &Self) -> bool {
        names_equal(self.labels(), other.labels())
    }
}

impl PartialOrd for Dname {
    fn partial_cmp(&self, other: &Self) -> (res: Option<Ordering>) {
        Some(name_cmp(self, other))
    }
}

impl vstd::std_specs::cmp::PartialOrdSpecImpl for Dname {
    open spec fn obeys_partial_cmp_spec() -> bool {
        true
    }

    /// Names are ordered by their natural ordering.
    open spec fn partial_cmp_spec(&self, other: &Self) -> Option<Ordering> {
        Some(name_order(self.labels(), other.labels()))
    }
}

impl Dname {
    /// Returns the natural ordering of two names.
    pub fn cmp(&self, other: &Self) -> (res: Ordering)
        ensures
            res == name_order(self.labels(), other.labels()),
    {
        name_cmp(self, other)
    }
}

//--- CanonicalOrd

impl CanonicalOrd for Dname {
    open spec fn canonical_order(&self, other: &Self) -> Ordering {
        canonical_name_order(self.labels(), other.labels())
    }

    fn canonical_cmp(&self, other: &Self) -> (res: Ordering) {
        lowercase_composed_cmp(self, other)
    }
}

//------------ SplitDname ----------------------------------------------------

/// An absolute domain name that keeps its labels apart.
///
/// Such a name has no wire form at hand. It is written label by label.
#[derive(Debug)]
pub struct SplitDname {
    labels: Vec<Vec<u8>>,
}

/// The labels that the vectors hold, one each and in order.
pub open spec fn labels_of(vecs: Seq<Vec<u8>>) -> Seq<Seq<u8>> {
    Seq::new(vecs.len(), |i: int| vecs[i]@)
}

impl SplitDname {
    #[verifier::type_invariant]
    spec fn well_formed(&self) -> bool {
        valid_name(labels_of(self.labels@))
    }

    /// The labels of the name from the first to the root label.
    pub closed spec fn view(&self) -> Seq<Seq<u8>> {
        if valid_name(labels_of(self.labels@)) {
            labels_of(self.labels@)
        } else {
            seq![Seq::empty()]
        }
    }

    /// The labels of the name form a domain name.
    pub proof fn lemma_view(&self)
        ensures
            valid_name(self@),
    {
        let root: Seq<Seq<u8>> = seq![Seq::empty()];
        assert(name_wire(root) =~= label_wire(root[0]) + name_wire(root.skip(1)));
    }

    /// Creates a name from its labels. The root label is added to them.
    ///
    /// Fails with `BadLabel` if a label is empty or longer than 63 octets,
    /// and else with `LongName` if the wire form of the name would be
    /// longer than 255 octets.
    pub fn from_labels(labels: Vec<Vec<u8>>) -> (res: Result<Self, ParseError>)
        ensures
            match res {
                Ok(name) => name@ == labels_of(labels@).push(Seq::empty()) && valid_name(name@),
                Err(ParseError::BadLabel) => exists|i: int|
                    0 <= i < labels@.len() && !(1 <= (#[trigger] labels@[i])@.len() <= 63),
                Err(ParseError::LongName) => {
                    &&& forall|i: int|
                        0 <= i < labels@.len() ==> 1 <= (#[trigger] labels@[i])@.len() <= 63
                    &&& name_wire(labels_of(labels@).push(Seq::empty())).len() > 255
                },
                Err(_) => false,
            },
            res is Ok <==> valid_name(labels_of(labels@).push(Seq::empty())),
    {
        let ghost given = labels_of(labels@);
        let ghost root: Seq<Seq<u8>> = seq![Seq::empty()];
        proof {
            assert(name_wire(root) =~= label_wire(root[0]) + name_wire(root.skip(1)));
            assert(given.push(Seq::empty()) =~= given + root);
            lemma_wire_concat(given, root);
        }
        let mut total: usize = 0;
        let mut too_long = false;
        let mut i: usize = 0;
        while i < labels.len()
            invariant
                i <= labels@.len(),
                given == labels_of(labels@),
                !too_long ==> total == name_wire(given.take(i as int)).len(),
                too_long ==> name_wire(given).len() > 254,
                total <= 254,
                forall|k: int| 0 <= k < i ==> 1 <= (#[trigger] labels@[k])@.len() <= 63,
            decreases labels@.len() - i,
        {
            let len = labels[i].len();
            if len == 0 || len > 63 {
                assert(given.push(Seq::empty())[i as int] == labels@[i as int]@);
                return Err(ParseError::BadLabel);
            }
            proof {
                lemma_wire_take(given, i as int);
            }
            if !too_long {
                if total + len + 1 > 254 {
                    too_long = true;
                } else {
                    total = total + len + 1;
                }
            }
            i += 1;
        }
        assert(given.take(i as int) =~= given);
        if too_long {
            return Err(ParseError::LongName);
        }
        let mut labels = labels;
        labels.push(Vec::new());
        proof {
            let all = labels_of(labels@);
            assert(all =~= given.push(Seq::empty()));
            assert forall|k: int| 0 <= k < all.len() implies (#[trigger] all[k]).len() <= 63 && (
            all[k].len() == 0 <==> k == all.len() - 1) by {
            }
        }
        Ok(SplitDname { labels })
    }
}

impl ToDname for SplitDname {
    open spec fn labels(&self) -> Seq<Seq<u8>> {
        self@
    }

    proof fn lemma_name(&self) {
        self.lemma_view();
    }

    fn iter_labels(&self) -> (res: Vec<&[u8]>) {
        proof {
            use_type_invariant(self);
        }
        let mut res: Vec<&[u8]> = Vec::new();
        let mut i: usize = 0;
        while i < self.labels.len()
            invariant
                i <= self.labels@.len(),
                res@.len() == i,
                self@ == labels_of(self.labels@),
                forall|k: int| 0 <= k < i ==> (#[trigger] res@[k])@ == self@[k],
            decreases self.labels@.len() - i,
        {
            res.push(self.labels[i].as_slice());
            i += 1;
        }
        res
    }

    fn as_flat_slice(&self) -> (res: Option<&[u8]>)
        ensures
            res is None,
    {
        None
    }
}

impl Compose for SplitDname {
    open spec fn wire(&self) -> Seq<u8> {
        name_wire(self.labels())
    }

    open spec fn canonical_wire(&self) -> Seq<u8> {
        canonical_name_wire(self.labels())
    }

    fn compose<T: OctetsBuilder>(&self, target: &mut T) -> (res: Result<(), ShortBuf>) {
        target.append_compressed_dname(self)
    }

    fn compose_canonical<T: OctetsBuilder>(&self, target: &mut T) -> (res: Result<(), ShortBuf>) {
        crate::name::compose_canonical(self, target)
    }
}

impl CanonicalOrd for SplitDname {
    open spec fn canonical_order(&self, other: &Self) -> Ordering {
        canonical_name_order(self.labels(), other.labels())
    }

    fn canonical_cmp(&self, other: &Self) -> (res: Ordering) {
        lowercase_composed_cmp(self, other)
    }
}

//--- Presentation format

impl Dname {
    /// Returns the name in presentation format: its labels with dots
    /// between them, and nothing for the root name.
    pub fn to_string(&self) -> (res: String)
        ensures
            res@ == chars(name_text(self.labels())),
    {
        let mut out: Vec<u8> = Vec::new();
        push_name(&mut out, self);
        into_string(out)
    }
}

impl SplitDname {
    /// Returns the name in presentation format: its labels with dots
    /// between them, and nothing for the root name.
    pub fn to_string(&self) -> (res: String)
        ensures
            res@ == chars(name_text(self.labels())),
    {
        let mut out: Vec<u8> = Vec::new();
        push_name(&mut out, self);
        into_string(out)
    }
}

} // verus!
