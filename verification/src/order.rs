//! Orderings of octet sequences and the canonical ordering of record data.
//!
//! All orderings of this crate are built from three pieces: the ordering of
//! two numbers, the lexicographic ordering of two octet sequences,
//! [`lex_order`], and [`chain`], which lets a later comparison decide only
//! where the earlier ones found no difference.

use core::cmp::Ordering;
use vstd::prelude::*;

verus! {

//------------ Specifications ------------------------------------------------

/// The first ordering unless it is `Equal`, else the second.
pub open spec fn chain(first: Ordering, second: Ordering) -> Ordering {
    if first is Equal {
        second
    } else {
        first
    }
}

/// The ordering of two octets.
pub open spec fn order_u8(a: u8, b: u8) -> Ordering {
    if a < b {
        Ordering::Less
    } else if a == b {
        Ordering::Equal
    } else {
        Ordering::Greater
    }
}

/// The ordering of two 16 bit numbers.
pub open spec fn order_u16(a: u16, b: u16) -> Ordering {
    if a < b {
        Ordering::Less
    } else if a == b {
        Ordering::Equal
    } else {
        Ordering::Greater
    }
}

/// The ordering of two 32 bit numbers.
pub open spec fn order_u32(a: u32, b: u32) -> Ordering {
    if a < b {
        Ordering::Less
    } else if a == b {
        Ordering::Equal
    } else {
        Ordering::Greater
    }
}

/// The ordering of two lengths.
pub open spec fn order_len(a: nat, b: nat) -> Ordering {
    if a < b {
        Ordering::Less
    } else if a == b {
        Ordering::Equal
    } else {
        Ordering::Greater
    }
}

/// The ordering with the sides exchanged.
pub open spec fn reversed(order: Ordering) -> Ordering {
    match order {
        Ordering::Less => Ordering::Greater,
        Ordering::Equal => Ordering::Equal,
        Ordering::Greater => Ordering::Less,
    }
}

/// The lexicographic ordering of two octet sequences.
///
/// The sequences are compared octet by octet. The first pair of octets that
/// differs decides. If one sequence ends before such a pair is found, the
/// shorter one is the lesser.
pub open spec fn lex_order(a: Seq<u8>, b: Seq<u8>) -> Ordering
    decreases a.len(),
{
    if a.len() == 0 {
        if b.len() == 0 {
            Ordering::Equal
        } else {
            Ordering::Less
        }
    } else if b.len() == 0 {
        Ordering::Greater
    } else {
        chain(order_u8(a[0], b[0]), lex_order(a.skip(1), b.skip(1)))
    }
}

//------------ Lemmas --------------------------------------------------------

/// Two sequences that agree on their first `n` octets are ordered as what
/// follows those octets.
pub proof fn lemma_lex_skip(a: Seq<u8>, b: Seq<u8>, n: int)
    requires
        0 <= n <= a.len(),
        n <= b.len(),
        a.take(n) == b.take(n),
    ensures
        lex_order(a, b) == lex_order(a.skip(n), b.skip(n)),
    decreases n,
{
    if n == 0 {
        assert(a.skip(0) =~= a);
        assert(b.skip(0) =~= b);
    } else {
        assert(b[0] == b.take(n)[0]);
        assert(a.skip(1).take(n - 1) =~= a.take(n).skip(1));
        assert(b.skip(1).take(n - 1) =~= b.take(n).skip(1));
        lemma_lex_skip(a.skip(1), b.skip(1), n - 1);
        assert(a.skip(1).skip(n - 1) =~= a.skip(n));
        assert(b.skip(1).skip(n - 1) =~= b.skip(n));
    }
}

/// A common front part does not change the ordering.
pub proof fn lemma_lex_common_prefix(p: Seq<u8>, a: Seq<u8>, b: Seq<u8>)
    ensures
        lex_order(p + a, p + b) == lex_order(a, b),
    decreases p.len(),
{
    if p.len() != 0 {
        assert((p + a).skip(1) =~= p.skip(1) + a);
        assert((p + b).skip(1) =~= p.skip(1) + b);
        lemma_lex_common_prefix(p.skip(1), a, b);
    }
}

/// Two sequences are ordered `Equal` exactly if they are the same.
pub proof fn lemma_lex_equal(a: Seq<u8>, b: Seq<u8>)
    ensures
        lex_order(a, b) is Equal <==> a == b,
    decreases a.len(),
{
    if a.len() == 0 || b.len() == 0 {
        if a.len() == 0 && b.len() == 0 {
            assert(a =~= b);
        }
    } else {
        lemma_lex_equal(a.skip(1), b.skip(1));
        if a[0] == b[0] && a.skip(1) == b.skip(1) {
            assert(a =~= seq![a[0]] + a.skip(1));
            assert(b =~= seq![b[0]] + b.skip(1));
        }
    }
}

/// Exchanging the sides reverses the ordering.
pub proof fn lemma_lex_reversed(a: Seq<u8>, b: Seq<u8>)
    ensures
        lex_order(b, a) == reversed(lex_order(a, b)),
    decreases a.len(),
{
    if a.len() != 0 && b.len() != 0 {
        lemma_lex_reversed(a.skip(1), b.skip(1));
    }
}

/// Where two sequences of one length differ, what follows them does not
/// change the ordering.
pub proof fn lemma_lex_decided(a: Seq<u8>, b: Seq<u8>, x: Seq<u8>, y: Seq<u8>)
    requires
        a.len() == b.len(),
        a != b,
    ensures
        lex_order(a + x, b + y) == lex_order(a, b),
    decreases a.len(),
{
    if a.len() == 0 {
        assert(a =~= b);
    } else {
        assert((a + x).skip(1) =~= a.skip(1) + x);
        assert((b + y).skip(1) =~= b.skip(1) + y);
        if a[0] == b[0] {
            if a.skip(1) == b.skip(1) {
                assert(a =~= seq![a[0]] + a.skip(1));
                assert(b =~= seq![b[0]] + b.skip(1));
            }
            lemma_lex_decided(a.skip(1), b.skip(1), x, y);
        }
    }
}

/// Whether neither of two sequences goes on where the other ends: they
/// are the same, or each differs from the other before the other ends.
pub open spec fn apart(a: Seq<u8>, b: Seq<u8>) -> bool {
    a == b || (!a.is_prefix_of(b) && !b.is_prefix_of(a))
}

/// Sequences of one length are apart.
pub proof fn lemma_apart_same_len(a: Seq<u8>, b: Seq<u8>)
    requires
        a.len() == b.len(),
    ensures
        apart(a, b),
{
    if b.is_prefix_of(a) {
        assert(a =~= b);
    }
}

/// A sequence that agrees with another in its first octet and goes on as
/// the other does as far as it goes is in front of the other.
pub proof fn lemma_prefix_step(a: Seq<u8>, b: Seq<u8>)
    requires
        a.len() > 0,
        b.len() > 0,
        a[0] == b[0],
        a.skip(1).is_prefix_of(b.skip(1)),
    ensures
        a.is_prefix_of(b),
{
    assert forall|i: int| 0 <= i < a.len() implies a[i] == b[i] by {
        if i > 0 {
            assert(a.skip(1)[i - 1] == b.skip(1).subrange(0, a.len() - 1)[i - 1]);
        }
    }
}

/// Where two front parts are apart, the ordering of the wholes is that of
/// the front parts, and where those are the same, that of what follows.
pub proof fn lemma_lex_chain(a: Seq<u8>, b: Seq<u8>, x: Seq<u8>, y: Seq<u8>)
    requires
        apart(a, b),
    ensures
        lex_order(a + x, b + y) == chain(lex_order(a, b), lex_order(x, y)),
    decreases a.len(),
{
    lemma_lex_equal(a, b);
    if a == b {
        lemma_lex_common_prefix(a, x, y);
    } else if a.len() > 0 && b.len() > 0 {
        assert((a + x).skip(1) =~= a.skip(1) + x);
        assert((b + y).skip(1) =~= b.skip(1) + y);
        if a[0] == b[0] {
            if a.skip(1).is_prefix_of(b.skip(1)) {
                lemma_prefix_step(a, b);
            }
            if b.skip(1).is_prefix_of(a.skip(1)) {
                lemma_prefix_step(b, a);
            }
            lemma_lex_chain(a.skip(1), b.skip(1), x, y);
        }
    }
}

/// The ordering of two sequences of two octets each.
pub proof fn lemma_lex_two(a: Seq<u8>, b: Seq<u8>)
    requires
        a.len() == 2,
        b.len() == 2,
    ensures
        lex_order(a, b) == chain(order_u8(a[0], b[0]), order_u8(a[1], b[1])),
{
    assert(lex_order(a.skip(1).skip(1), b.skip(1).skip(1)) is Equal);
    assert(lex_order(a.skip(1), b.skip(1)) == order_u8(a[1], b[1]));
}

/// The ordering of two sequences of four octets each.
pub proof fn lemma_lex_four(a: Seq<u8>, b: Seq<u8>)
    requires
        a.len() == 4,
        b.len() == 4,
    ensures
        lex_order(a, b) == chain(
            order_u8(a[0], b[0]),
            chain(order_u8(a[1], b[1]), chain(order_u8(a[2], b[2]), order_u8(a[3], b[3]))),
        ),
{
    lemma_lex_two(a.skip(1).skip(1), b.skip(1).skip(1));
    assert(lex_order(a.skip(1), b.skip(1)) == chain(
        order_u8(a[1], b[1]),
        lex_order(a.skip(1).skip(1), b.skip(1).skip(1)),
    ));
}

/// Numbers of 16 bits are ordered as their octets in network byte order
/// are.
pub proof fn lemma_lex_u16(a: u16, b: u16)
    ensures
        lex_order(crate::octets::be_u16(a), crate::octets::be_u16(b)) == order_u16(a, b),
{
    lemma_lex_two(crate::octets::be_u16(a), crate::octets::be_u16(b));
}

/// Numbers of 32 bits are ordered as their octets in network byte order
/// are.
pub proof fn lemma_lex_u32(a: u32, b: u32)
    ensures
        lex_order(crate::octets::be_u32(a), crate::octets::be_u32(b)) == order_u32(a, b),
{
    crate::octets::lemma_be_u32_value(b);
    lemma_lex_four(crate::octets::be_u32(a), crate::octets::be_u32(b));
}

//------------ Comparisons ---------------------------------------------------

/// Compares two octets.
pub fn cmp_u8(a: u8, b: u8) -> (res: Ordering)
    ensures
        res == order_u8(a, b),
{
    if a < b {
        Ordering::Less
    } else if a == b {
        Ordering::Equal
    } else {
        Ordering::Greater
    }
}

/// Compares two 16 bit numbers.
pub fn cmp_u16(a: u16, b: u16) -> (res: Ordering)
    ensures
        res == order_u16(a, b),
{
    if a < b {
        Ordering::Less
    } else if a == b {
        Ordering::Equal
    } else {
        Ordering::Greater
    }
}

/// Compares two 32 bit numbers.
pub fn cmp_u32(a: u32, b: u32) -> (res: Ordering)
    ensures
        res == order_u32(a, b),
{
    if a < b {
        Ordering::Less
    } else if a == b {
        Ordering::Equal
    } else {
        Ordering::Greater
    }
}

/// Compares two octet slices lexicographically.
pub fn cmp_slices(a: &[u8], b: &[u8]) -> (res: Ordering)
    ensures
        res == lex_order(a@, b@),
{
    let mut i: usize = 0;
    let ghost mut n: int = 0;
    while i < a.len() && i < b.len()
        invariant
            n == i,
            i <= a.len(),
            i <= b.len(),
            a@.take(n) == b@.take(n),
        decreases a.len() - i,
    {
        proof {
            lemma_lex_skip(a@, b@, n);
        }
        if a[i] < b[i] {
            return Ordering::Less;
        }
        if a[i] > b[i] {
            return Ordering::Greater;
        }
        proof {
            n = n + 1;
        }
        i += 1;
    }
    proof {
        lemma_lex_skip(a@, b@, n);
    }
    if i < b.len() {
        Ordering::Less
    } else if i < a.len() {
        Ordering::Greater
    } else {
        Ordering::Equal
    }
}

//------------ CanonicalOrd --------------------------------------------------

/// A type with the canonical ordering that DNSSEC sorts record data by.
///
/// The canonical ordering compares domain names by the lower case of their
/// wire form. Everything else is compared as it is stored.
pub trait CanonicalOrd<Rhs = Self> {
    /// The canonical ordering of `self` and `other`.
    spec fn canonical_order(&self, other: &Rhs) -> Ordering;

    /// Returns the canonical ordering of `self` and `other`.
    fn canonical_cmp(&self, other: &Rhs) -> (res: Ordering)
        ensures
            res == self.canonical_order(other),
    ;
}

} // verus!
