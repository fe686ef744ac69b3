//! Domain names as the record data types see them.
//!
//! A domain name is a sequence of labels that ends with the empty root
//! label. The record data types never look inside a name type. They only go
//! through [`ToDname`], which hands out the labels and, from them, decides
//! equality and the two orderings of names.
//!
//! Names are equal if their labels are equal when ASCII letters are read
//! without regard to case. The natural ordering, [`name_order`], goes from
//! the root label forward. The canonical ordering,
//! [`canonical_name_order`], is the lexicographic ordering of the wire forms
//! in lower case.

use core::cmp::Ordering;
use crate::octets::{appended, OctetsBuilder, ShortBuf};
use crate::order::{
    apart, chain, lemma_lex_common_prefix, lemma_lex_decided, lemma_lex_equal, lemma_lex_skip,
    lex_order, order_len,
};
use vstd::prelude::*;

verus! {

//------------ Specifications ------------------------------------------------

/// The octet with an ASCII upper case letter replaced by its lower case.
pub open spec fn lower(octet: u8) -> u8 {
    if 0x41 <= octet <= 0x5a {
        (octet + 0x20) as u8
    } else {
        octet
    }
}

/// The octets with every ASCII upper case letter replaced by its lower case.
pub open spec fn lower_seq(octets: Seq<u8>) -> Seq<u8> {
    Seq::new(octets.len(), |i: int| lower(octets[i]))
}

/// The labels, each in lower case.
pub open spec fn lowered(labels: Seq<Seq<u8>>) -> Seq<Seq<u8>> {
    Seq::new(labels.len(), |i: int| lower_seq(labels[i]))
}

/// The wire form of a label: its length in one octet, then its content.
pub open spec fn label_wire(label: Seq<u8>) -> Seq<u8> {
    seq![label.len() as u8] + label
}

/// The wire form of a name: the wire forms of its labels one after another.
pub open spec fn name_wire(labels: Seq<Seq<u8>>) -> Seq<u8>
    decreases labels.len(),
{
    if labels.len() == 0 {
        Seq::empty()
    } else {
        label_wire(labels[0]) + name_wire(labels.skip(1))
    }
}

/// The canonical wire form of a name: the wire form of its labels in lower
/// case.
pub open spec fn canonical_name_wire(labels: Seq<Seq<u8>>) -> Seq<u8> {
    name_wire(lowered(labels))
}

/// Whether a sequence of labels is an absolute domain name.
///
/// No label is longer than 63 octets, the last label is the empty root
/// label and the only empty one, and the wire form is at most 255 octets
/// long.
pub open spec fn valid_name(labels: Seq<Seq<u8>>) -> bool {
    &&& labels.len() >= 1
    &&& forall|i: int| 0 <= i < labels.len() ==> (#[trigger] labels[i]).len() <= 63
    &&& forall|i: int|
        0 <= i < labels.len() ==> ((#[trigger] labels[i]).len() == 0 <==> i == labels.len() - 1)
    &&& name_wire(labels).len() <= 255
}

/// Whether the slices hold the labels, one each and in order.
pub open spec fn slices_are(slices: Seq<&[u8]>, labels: Seq<Seq<u8>>) -> bool {
    &&& slices.len() == labels.len()
    &&& forall|i: int| 0 <= i < slices.len() ==> (#[trigger] slices[i])@ == labels[i]
}

/// The number of labels.
pub open spec fn count(labels: Seq<Seq<u8>>) -> int {
    labels.len() as int
}

/// Whether two names are equal: they have the same labels once case is set
/// aside.
pub open spec fn names_equal(a: Seq<Seq<u8>>, b: Seq<Seq<u8>>) -> bool {
    lowered(a) == lowered(b)
}

/// The ordering of two labels: that of their content in lower case.
pub open spec fn label_order(a: Seq<u8>, b: Seq<u8>) -> Ordering {
    lex_order(lower_seq(a), lower_seq(b))
}

/// The natural ordering of two names.
///
/// The labels are compared from the last one forward. The first pair of
/// labels that differs decides. If one name runs out of labels before such
/// a pair is found, it is the lesser.
pub open spec fn name_order(a: Seq<Seq<u8>>, b: Seq<Seq<u8>>) -> Ordering
    decreases a.len(),
{
    if a.len() == 0 {
        if b.len() == 0 {
            Ordering::Equal
        } else {
            Ordering::Less
        }
    } else if b.len() == 0 {
        Ordering::Greater
    } else {
        chain(label_order(a.last(), b.last()), name_order(a.drop_last(), b.drop_last()))
    }
}

/// The canonical ordering of two names: the lexicographic ordering of their
/// canonical wire forms.
pub open spec fn canonical_name_order(a: Seq<Seq<u8>>, b: Seq<Seq<u8>>) -> Ordering {
    lex_order(canonical_name_wire(a), canonical_name_wire(b))
}

//------------ ToDname -------------------------------------------------------

/// A type that is an absolute domain name.
pub trait ToDname {
    /// The labels of the name from the first to the root label.
    spec fn labels(&self) -> Seq<Seq<u8>>;

    /// The labels form a domain name.
    proof fn lemma_name(&self)
        ensures
            valid_name(self.labels()),
    ;

    /// Returns the labels of the name in order.
    fn iter_labels(&self) -> (res: Vec<&[u8]>)
        ensures
            slices_are(res@, self.labels()),
    ;

    /// Returns the wire form of the name if the value holds it as one slice.
    fn as_flat_slice(&self) -> (res: Option<&[u8]>)
        ensures
            res matches Some(slice) ==> slice@ == name_wire(self.labels()),
    ;
}

//------------ Comparing names -----------------------------------------------

/// Returns whether the two names are equal.
pub fn name_eq<A: ToDname, B: ToDname>(this: &A, other: &B) -> (res: bool)
    ensures
        res == names_equal(this.labels(), other.labels()),
{
    let left = this.iter_labels();
    let right = other.iter_labels();
    let ghost a = this.labels();
    let ghost b = other.labels();
    if left.len() != right.len() {
        assert(lowered(a).len() != lowered(b).len());
        return false;
    }
    let mut i: usize = 0;
    while i < left.len()
        invariant
            i <= left.len(),
            left.len() == right.len(),
            a == this.labels(),
            b == other.labels(),
            slices_are(left@, a),
            slices_are(right@, b),
            forall|k: int| 0 <= k < i ==> lower_seq(#[trigger] a[k]) == lower_seq(b[k]),
        decreases left.len() - i,
    {
        if !eq_lowercase(left[i], right[i]) {
            assert(lowered(a)[i as int] != lowered(b)[i as int]);
            return false;
        }
        i += 1;
    }
    assert(lowered(a) =~= lowered(b));
    true
}

/// Returns the natural ordering of the two names.
pub fn name_cmp<A: ToDname, B: ToDname>(this: &A, other: &B) -> (res: Ordering)
    ensures
        res == name_order(this.labels(), other.labels()),
{
    let left = this.iter_labels();
    let right = other.iter_labels();
    let ghost a = this.labels();
    let ghost b = other.labels();
    let mut i: usize = left.len();
    let mut j: usize = right.len();
    let ghost mut n: int = count(a);
    let ghost mut m: int = count(b);
    assert(a.take(n) =~= a);
    assert(b.take(m) =~= b);
    while i > 0 && j > 0
        invariant
            n == i,
            m == j,
            i <= left.len(),
            j <= right.len(),
            a == this.labels(),
            b == other.labels(),
            slices_are(left@, a),
            slices_are(right@, b),
            name_order(a, b) == name_order(a.take(n), b.take(m)),
        decreases i,
    {
        i -= 1;
        j -= 1;
        proof {
            assert(a.take(n).drop_last() =~= a.take(n - 1));
            assert(b.take(m).drop_last() =~= b.take(m - 1));
            n = n - 1;
            m = m - 1;
        }
        match cmp_lowercase(left[i], right[j]) {
            Ordering::Equal => {},
            Ordering::Less => {
                return Ordering::Less;
            },
            Ordering::Greater => {
                return Ordering::Greater;
            },
        }
    }
    if i > 0 {
        Ordering::Greater
    } else if j > 0 {
        Ordering::Less
    } else {
        Ordering::Equal
    }
}

/// Returns the canonical ordering of the two names.
pub fn lowercase_composed_cmp<A: ToDname, B: ToDname>(this: &A, other: &B) -> (res: Ordering)
    ensures
        res == canonical_name_order(this.labels(), other.labels()),
{
    let left = this.iter_labels();
    let right = other.iter_labels();
    let ghost a = this.labels();
    let ghost b = other.labels();
    proof {
        this.lemma_name();
        other.lemma_name();
    }
    let mut i: usize = 0;
    let ghost mut n: int = 0;
    while i < left.len() && i < right.len()
        invariant
            n == i,
            i <= left.len(),
            i <= right.len(),
            a == this.labels(),
            b == other.labels(),
            slices_are(left@, a),
            slices_are(right@, b),
            valid_name(a),
            valid_name(b),
            lowered(a).take(n) == lowered(b).take(n),
        decreases left.len() - i,
    {
        proof {
            lemma_canonical_step(a, b, n);
        }
        if left[i].len() < right[i].len() {
            return Ordering::Less;
        }
        if left[i].len() > right[i].len() {
            return Ordering::Greater;
        }
        match cmp_lowercase(left[i], right[i]) {
            Ordering::Equal => {},
            Ordering::Less => {
                return Ordering::Less;
            },
            Ordering::Greater => {
                return Ordering::Greater;
            },
        }
        proof {
            lemma_lex_equal(lower_seq(a[n]), lower_seq(b[n]));
            n = n + 1;
        }
        i += 1;
    }
    proof {
        lemma_canonical_end(a, b, n);
    }
    if i < right.len() {
        Ordering::Less
    } else if i < left.len() {
        Ordering::Greater
    } else {
        Ordering::Equal
    }
}

//------------ Composing names -----------------------------------------------

/// Returns the canonical wire form of a name.
pub fn to_canonical_wire<N: ToDname>(name: &N) -> (res: Vec<u8>)
    ensures
        res@ == canonical_name_wire(name.labels()),
{
    let labels = name.iter_labels();
    let ghost all = name.labels();
    let ghost low = lowered(all);
    proof {
        name.lemma_name();
    }
    let mut res: Vec<u8> = Vec::new();
    let mut i: usize = 0;
    while i < labels.len()
        invariant
            i <= labels.len(),
            all == name.labels(),
            low == lowered(all),
            low.len() == all.len(),
            slices_are(labels@, all),
            valid_name(all),
            res@ == name_wire(low.take(i as int)),
        decreases labels.len() - i,
    {
        let label = labels[i];
        let ghost start = res@;
        proof {
            lemma_wire_take(low, i as int);
        }
        res.push(label.len() as u8);
        let mut j: usize = 0;
        while j < label.len()
            invariant
                j <= label.len(),
                label@.len() <= 63,
                res@ == start + seq![label@.len() as u8] + lower_seq(label@).take(j as int),
            decreases label.len() - j,
        {
            res.push(to_lower(label[j]));
            j += 1;
        }
        i += 1;
    }
    assert(low.take(i as int) =~= low);
    res
}

/// Appends the canonical wire form of a name to `target`, or nothing if
/// there is no room for all of it.
pub fn compose_canonical<N: ToDname, T: OctetsBuilder>(name: &N, target: &mut T) -> (res: Result<
    (),
    ShortBuf,
>)
    ensures
        appended(*old(target), *final(target), canonical_name_wire(name.labels()), res),
{
    let wire = to_canonical_wire(name);
    target.append_slice(wire.as_slice())
}

//------------ Comparing labels ----------------------------------------------

/// Returns the octet with an ASCII upper case letter replaced by its lower
/// case.
pub fn to_lower(octet: u8) -> (res: u8)
    ensures
        res == lower(octet),
{
    if octet >= 0x41 && octet <= 0x5a {
        octet + 0x20
    } else {
        octet
    }
}

/// Compares the content of two labels in lower case.
pub fn cmp_lowercase(a: &[u8], b: &[u8]) -> (res: Ordering)
    ensures
        res == label_order(a@, b@),
{
    let ghost la = lower_seq(a@);
    let ghost lb = lower_seq(b@);
    let mut i: usize = 0;
    let ghost mut n: int = 0;
    while i < a.len() && i < b.len()
        invariant
            n == i,
            i <= a.len(),
            i <= b.len(),
            la == lower_seq(a@),
            lb == lower_seq(b@),
            la.take(n) == lb.take(n),
        decreases a.len() - i,
    {
        proof {
            lemma_lex_skip(la, lb, n);
        }
        let x = to_lower(a[i]);
        let y = to_lower(b[i]);
        if x < y {
            return Ordering::Less;
        }
        if x > y {
            return Ordering::Greater;
        }
        proof {
            n = n + 1;
        }
        i += 1;
    }
    proof {
        lemma_lex_skip(la, lb, n);
    }
    if i < b.len() {
        Ordering::Less
    } else if i < a.len() {
        Ordering::Greater
    } else {
        Ordering::Equal
    }
}

/// Returns whether two labels have the same content in lower case.
pub fn eq_lowercase(a: &[u8], b: &[u8]) -> (res: bool)
    ensures
        res == (lower_seq(a@) == lower_seq(b@)),
{
    proof {
        lemma_lex_equal(lower_seq(a@), lower_seq(b@));
    }
    match cmp_lowercase(a, b) {
        Ordering::Equal => true,
        _ => false,
    }
}

//------------ Lemmas --------------------------------------------------------

/// The wire form of a label starts with its length and goes on with its
/// content.
pub proof fn lemma_label_wire(label: Seq<u8>)
    requires
        label.len() <= 255,
    ensures
        label_wire(label).len() == label.len() + 1,
        label_wire(label)[0] == label.len(),
        label_wire(label).skip(1) == label,
        label_wire(label) == seq![label_wire(label)[0]] + label,
{
}

/// The wire form of labels put together is their wire forms put together.
pub proof fn lemma_wire_concat(a: Seq<Seq<u8>>, b: Seq<Seq<u8>>)
    ensures
        name_wire(a + b) == name_wire(a) + name_wire(b),
    decreases a.len(),
{
    if a.len() != 0 {
        assert((a + b).skip(1) =~= a.skip(1) + b);
        lemma_wire_concat(a.skip(1), b);
    }
}

/// The wire form of the first `n + 1` labels is that of the first `n`
/// followed by the wire form of the next label.
pub proof fn lemma_wire_take(labels: Seq<Seq<u8>>, n: int)
    requires
        0 <= n < labels.len(),
    ensures
        name_wire(labels.take(n + 1)) == name_wire(labels.take(n)) + label_wire(labels[n]),
        name_wire(labels) == name_wire(labels.take(n)) + name_wire(labels.skip(n)),
        name_wire(labels.skip(n)) == label_wire(labels[n]) + name_wire(labels.skip(n + 1)),
        name_wire(labels.take(n + 1)).len() <= name_wire(labels).len(),
{
    assert(labels.take(n + 1) =~= labels.take(n) + seq![labels[n]]);
    lemma_wire_concat(labels.take(n), seq![labels[n]]);
    let one = seq![labels[n]];
    assert(name_wire(one) =~= label_wire(one[0]) + name_wire(one.skip(1)));
    assert(labels.skip(n).skip(1) =~= labels.skip(n + 1));
    assert(labels =~= labels.take(n + 1) + labels.skip(n + 1));
    lemma_wire_concat(labels.take(n + 1), labels.skip(n + 1));
}

/// Lower case leaves the length of the wire form as it is.
pub proof fn lemma_canonical_wire_len(labels: Seq<Seq<u8>>)
    ensures
        canonical_name_wire(labels).len() == name_wire(labels).len(),
    decreases labels.len(),
{
    if labels.len() > 0 {
        assert(lowered(labels).skip(1) =~= lowered(labels.skip(1)));
        lemma_canonical_wire_len(labels.skip(1));
    }
}

/// The names that the canonical ordering finds equal are the equal names.
pub proof fn lemma_canonical_equal(a: Seq<Seq<u8>>, b: Seq<Seq<u8>>)
    requires
        valid_name(a),
        valid_name(b),
    ensures
        canonical_name_order(a, b) is Equal <==> names_equal(a, b),
{
    lemma_lex_equal(canonical_name_wire(a), canonical_name_wire(b));
    if canonical_name_wire(a) == canonical_name_wire(b) {
        lemma_wire_injective(lowered(a), lowered(b));
    }
}

/// The names that the natural ordering finds equal are the equal names.
pub proof fn lemma_name_order_equal(a: Seq<Seq<u8>>, b: Seq<Seq<u8>>)
    ensures
        name_order(a, b) is Equal <==> names_equal(a, b),
    decreases a.len(),
{
    if a.len() == 0 || b.len() == 0 {
        if a.len() == 0 && b.len() == 0 {
            assert(lowered(a) =~= lowered(b));
        }
    } else {
        lemma_name_order_equal(a.drop_last(), b.drop_last());
        lemma_lex_equal(lower_seq(a.last()), lower_seq(b.last()));
        assert(lowered(a.drop_last()) =~= lowered(a).drop_last());
        assert(lowered(b.drop_last()) =~= lowered(b).drop_last());
        if lowered(a).drop_last() == lowered(b).drop_last() && lowered(a).last() == lowered(
            b,
        ).last() {
            assert(lowered(a) =~= lowered(a).drop_last().push(lowered(a).last()));
            assert(lowered(b) =~= lowered(b).drop_last().push(lowered(b).last()));
        }
    }
}

/// The length octets of two labels are ordered as the lengths are.
pub proof fn lemma_length_octets(a: Seq<u8>, b: Seq<u8>)
    requires
        a.len() <= 255,
        b.len() <= 255,
    ensures
        label_wire(a).len() > 0,
        label_wire(b).len() > 0,
        label_wire(a)[0] < label_wire(b)[0] <==> a.len() < b.len(),
        label_wire(a)[0] == label_wire(b)[0] <==> a.len() == b.len(),
{
}

/// One step of the canonical comparison.
///
/// Where two names agree, in lower case, on their first `n` labels, the
/// next pair of labels decides if it differs: by the lengths if those
/// differ, else by the content in lower case.
pub proof fn lemma_canonical_step(a: Seq<Seq<u8>>, b: Seq<Seq<u8>>, n: int)
    requires
        valid_name(a),
        valid_name(b),
        0 <= n < a.len(),
        n < b.len(),
        lowered(a).take(n) == lowered(b).take(n),
    ensures
        a[n].len() < b[n].len() ==> canonical_name_order(a, b) is Less,
        a[n].len() > b[n].len() ==> canonical_name_order(a, b) is Greater,
        a[n].len() == b[n].len() && !(label_order(a[n], b[n]) is Equal)
            ==> canonical_name_order(a, b) == label_order(a[n], b[n]),
{
    let la = lowered(a);
    let lb = lowered(b);
    lemma_wire_take(la, n);
    lemma_wire_take(lb, n);
    let p = name_wire(la.take(n));
    let wa = label_wire(la[n]);
    let wb = label_wire(lb[n]);
    let ra = name_wire(la.skip(n + 1));
    let rb = name_wire(lb.skip(n + 1));
    lemma_lex_common_prefix(p, wa + ra, wb + rb);
    lemma_label_wire(la[n]);
    lemma_label_wire(lb[n]);
    if a[n].len() == b[n].len() && !(label_order(a[n], b[n]) is Equal) {
        lemma_lex_equal(la[n], lb[n]);
        lemma_lex_decided(wa, wb, ra, rb);
    }
}

/// The end of the canonical comparison.
///
/// Where one of two names has no more than `n` labels and the names agree,
/// in lower case, on their first `n` labels, the name with fewer labels is
/// the lesser.
pub proof fn lemma_canonical_end(a: Seq<Seq<u8>>, b: Seq<Seq<u8>>, n: int)
    requires
        valid_name(a),
        valid_name(b),
        0 <= n <= a.len(),
        n <= b.len(),
        n == a.len() || n == b.len(),
        lowered(a).take(n) == lowered(b).take(n),
    ensures
        canonical_name_order(a, b) == order_len(a.len(), b.len()),
{
    let la = lowered(a);
    let lb = lowered(b);
    let p = name_wire(la.take(n));
    if n < b.len() {
        lemma_wire_take(lb, n);
        assert(la.take(n) =~= la);
        lemma_lex_common_prefix(p, Seq::<u8>::empty(), name_wire(lb.skip(n)));
    } else if n < a.len() {
        lemma_wire_take(la, n);
        assert(lb.take(n) =~= lb);
        lemma_lex_common_prefix(p, name_wire(la.skip(n)), Seq::<u8>::empty());
    } else {
        assert(la.take(n) =~= la);
        assert(lb.take(n) =~= lb);
        lemma_lex_equal(name_wire(la), name_wire(lb));
    }
}

/// Whether a sequence of labels ends with the root label and has no other
/// empty label, and none of more than 63 octets.
pub open spec fn terminated(labels: Seq<Seq<u8>>) -> bool {
    &&& labels.len() >= 1
    &&& forall|i: int| 0 <= i < labels.len() ==> (#[trigger] labels[i]).len() <= 63
    &&& forall|i: int|
        0 <= i < labels.len() ==> ((#[trigger] labels[i]).len() == 0 <==> i == labels.len() - 1)
}

/// No wire form of a name goes on where another ends: a name whose wire
/// form stands at the front of that of another is that other name.
pub proof fn lemma_wire_prefix(a: Seq<Seq<u8>>, b: Seq<Seq<u8>>)
    requires
        terminated(a),
        terminated(b),
        name_wire(a).is_prefix_of(name_wire(b)),
    ensures
        a == b,
    decreases a.len(),
{
    let wa = name_wire(a);
    let wb = name_wire(b);
    let ra = name_wire(a.skip(1));
    let rb = name_wire(b.skip(1));
    assert(wa[0] == wb.subrange(0, wa.len() as int)[0]);
    let n = a[0].len() as int;
    assert forall|i: int| 0 <= i < n implies a[0][i] == b[0][i] by {
        assert(wa[i + 1] == label_wire(a[0])[i + 1]);
    }
    assert(a[0] =~= b[0]);
    if n != 0 {
        assert(ra =~= rb.subrange(0, ra.len() as int)) by {
            assert forall|i: int| 0 <= i < ra.len() implies ra[i] == rb[i] by {
                assert(wa[i + n + 1] == wb.subrange(0, wa.len() as int)[i + n + 1]);
            }
        }
        lemma_wire_prefix(a.skip(1), b.skip(1));
        assert(b =~= seq![b[0]] + b.skip(1));
    }
}

/// The wire forms of two names are apart, and so are their canonical wire
/// forms.
pub proof fn lemma_names_apart(a: Seq<Seq<u8>>, b: Seq<Seq<u8>>)
    requires
        valid_name(a),
        valid_name(b),
    ensures
        apart(name_wire(a), name_wire(b)),
        apart(canonical_name_wire(a), canonical_name_wire(b)),
{
    if name_wire(a).is_prefix_of(name_wire(b)) {
        lemma_wire_prefix(a, b);
    }
    if name_wire(b).is_prefix_of(name_wire(a)) {
        lemma_wire_prefix(b, a);
    }
    if canonical_name_wire(a).is_prefix_of(canonical_name_wire(b)) {
        lemma_wire_prefix(lowered(a), lowered(b));
    }
    if canonical_name_wire(b).is_prefix_of(canonical_name_wire(a)) {
        lemma_wire_prefix(lowered(b), lowered(a));
    }
}

/// Labels of at most 255 octets each are known from their wire form.
pub proof fn lemma_wire_injective(a: Seq<Seq<u8>>, b: Seq<Seq<u8>>)
    requires
        forall|i: int| 0 <= i < a.len() ==> (#[trigger] a[i]).len() <= 255,
        forall|i: int| 0 <= i < b.len() ==> (#[trigger] b[i]).len() <= 255,
        name_wire(a) == name_wire(b),
    ensures
        a == b,
    decreases a.len(),
{
    if a.len() > 0 && b.len() > 0 {
        lemma_label_wire(b[0]);
        let wa = label_wire(a[0]);
        let wb = label_wire(b[0]);
        let ra = name_wire(a.skip(1));
        let rb = name_wire(b.skip(1));
        assert((wb + rb)[0] == wb[0]);
        assert(wb =~= (wb + rb).take(wb.len() as int));
        assert(ra =~= (wa + ra).skip(wa.len() as int));
        assert(rb =~= (wb + rb).skip(wb.len() as int));
        assert(a[0] == b[0]);
        lemma_wire_injective(a.skip(1), b.skip(1));
        assert(b =~= seq![b[0]] + b.skip(1));
    }
}

} // verus!
