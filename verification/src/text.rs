//! The presentation format of record data.
//!
//! Record data is shown as ASCII text. Numbers stand in decimal. An octet
//! of text stands for itself if it is a printable ASCII character, and as a
//! backslash followed by its value in three decimal digits if it is not. A
//! domain name stands as its labels with dots between them; within a label
//! a dot or a backslash is preceded by a backslash.
//!
//! The text is built as octets and turned into a string at the end.

use crate::name::{slices_are, ToDname};
use vstd::prelude::*;

verus! {

//------------ Specifications ------------------------------------------------

/// The ASCII digit for a number below ten.
pub open spec fn digit(n: int) -> u8 {
    (0x30 + n) as u8
}

/// The decimal digits of a number.
pub open spec fn decimal(n: nat) -> Seq<u8>
    decreases n,
{
    if n < 10 {
        seq![digit(n as int)]
    } else {
        decimal(n / 10) + seq![digit((n % 10) as int)]
    }
}

/// The value of an octet in three decimal digits.
pub open spec fn decimal3(octet: u8) -> Seq<u8> {
    seq![digit(octet as int / 100), digit((octet as int / 10) % 10), digit(octet as int % 10)]
}

/// The lower case hexadecimal digit for a number below sixteen.
pub open spec fn hex_digit(n: int) -> u8 {
    if n < 10 {
        (0x30 + n) as u8
    } else {
        (0x61 + n - 10) as u8
    }
}

/// The value of an octet in two hexadecimal digits.
pub open spec fn hex2(octet: u8) -> Seq<u8> {
    seq![hex_digit(octet as int / 16), hex_digit(octet as int % 16)]
}

/// Whether an octet is a printable ASCII character.
pub open spec fn printable(octet: u8) -> bool {
    0x20 <= octet <= 0x7E
}

/// An octet of text as it is shown: as itself if it is printable, else as
/// a backslash and its value in three decimal digits.
pub open spec fn symbol(octet: u8) -> Seq<u8> {
    if printable(octet) {
        seq![octet]
    } else {
        seq![0x5Cu8] + decimal3(octet)
    }
}

/// Octets of text as they are shown: the symbol of each, one after
/// another.
pub open spec fn escaped(octets: Seq<u8>) -> Seq<u8>
    decreases octets.len(),
{
    if octets.len() == 0 {
        Seq::empty()
    } else {
        escaped(octets.drop_last()) + symbol(octets.last())
    }
}

/// An octet of a label as it is shown: a dot or a backslash after a
/// backslash, and any other octet as its symbol.
pub open spec fn label_symbol(octet: u8) -> Seq<u8> {
    if octet == 0x2E || octet == 0x5C {
        seq![0x5Cu8, octet]
    } else {
        symbol(octet)
    }
}

/// A label as it is shown.
pub open spec fn label_text(label: Seq<u8>) -> Seq<u8>
    decreases label.len(),
{
    if label.len() == 0 {
        Seq::empty()
    } else {
        label_text(label.drop_last()) + label_symbol(label.last())
    }
}

/// The first `count` labels of a name as they are shown, with a dot
/// between one and the next.
pub open spec fn labels_text(labels: Seq<Seq<u8>>, count: int) -> Seq<u8>
    decreases count,
{
    if count <= 0 {
        Seq::empty()
    } else if count == 1 {
        label_text(labels[0])
    } else {
        labels_text(labels, count - 1) + seq![0x2Eu8] + label_text(labels[count - 1])
    }
}

/// A name as it is shown: its labels but for the root label, with a dot
/// between one and the next. The root name is shown as nothing.
pub open spec fn name_text(labels: Seq<Seq<u8>>) -> Seq<u8> {
    labels_text(labels, labels.len() - 1)
}

/// An address as it is shown: its four octets in decimal with dots between
/// them.
pub open spec fn ipv4_text(octets: Seq<u8>) -> Seq<u8> {
    decimal(octets[0] as nat) + seq![0x2Eu8] + decimal(octets[1] as nat) + seq![0x2Eu8] + decimal(
        octets[2] as nat,
    ) + seq![0x2Eu8] + decimal(octets[3] as nat)
}

/// The characters that ASCII octets stand for.
pub open spec fn chars(octets: Seq<u8>) -> Seq<char> {
    Seq::new(octets.len(), |i: int| octets[i] as char)
}

/// Whether all octets are ASCII.
pub open spec fn all_ascii(octets: Seq<u8>) -> bool {
    forall|i: int| 0 <= i < octets.len() ==> #[trigger] octets[i] < 0x80
}

//------------ Building text -------------------------------------------------

/// Appends the decimal digits of a number.
pub fn push_decimal(out: &mut Vec<u8>, n: u64)
    ensures
        final(out)@ == old(out)@ + decimal(n as nat),
        all_ascii(old(out)@) ==> all_ascii(final(out)@),
    decreases n,
{
    if n >= 10 {
        push_decimal(out, n / 10);
    }
    out.push(0x30 + (n % 10) as u8);
}

/// Appends the value of an octet in three decimal digits.
pub fn push_decimal3(out: &mut Vec<u8>, octet: u8)
    ensures
        final(out)@ == old(out)@ + decimal3(octet),
        all_ascii(old(out)@) ==> all_ascii(final(out)@),
{
    out.push(0x30 + octet / 100);
    out.push(0x30 + (octet / 10) % 10);
    out.push(0x30 + octet % 10);
}

/// Appends the value of an octet in two hexadecimal digits.
pub fn push_hex2(out: &mut Vec<u8>, octet: u8)
    ensures
        final(out)@ == old(out)@ + hex2(octet),
        all_ascii(old(out)@) ==> all_ascii(final(out)@),
{
    let high = octet / 16;
    let low = octet % 16;
    out.push(
        if high < 10 {
            0x30 + high
        } else {
            0x61 + high - 10
        },
    );
    out.push(
        if low < 10 {
            0x30 + low
        } else {
            0x61 + low - 10
        },
    );
}

/// Appends an octet of text as it is shown.
pub fn push_symbol(out: &mut Vec<u8>, octet: u8)
    ensures
        final(out)@ == old(out)@ + symbol(octet),
        all_ascii(old(out)@) ==> all_ascii(final(out)@),
{
    if octet >= 0x20 && octet <= 0x7E {
        out.push(octet);
    } else {
        out.push(0x5C);
        push_decimal3(out, octet);
    }
}

/// Appends octets of text as they are shown.
pub fn push_escaped(out: &mut Vec<u8>, octets: &[u8])
    ensures
        final(out)@ == old(out)@ + escaped(octets@),
        all_ascii(old(out)@) ==> all_ascii(final(out)@),
{
    let mut i: usize = 0;
    while i < octets.len()
        invariant
            i <= octets@.len(),
            out@ == old(out)@ + escaped(octets@.take(i as int)),
            all_ascii(old(out)@) ==> all_ascii(out@),
        decreases octets@.len() - i,
    {
        push_symbol(out, octets[i]);
        proof {
            let next = octets@.take(i + 1);
            assert(next.drop_last() =~= octets@.take(i as int));
        }
        i += 1;
    }
    assert(octets@.take(i as int) =~= octets@);
}

/// Appends a label as it is shown.
pub fn push_label(out: &mut Vec<u8>, label: &[u8])
    ensures
        final(out)@ == old(out)@ + label_text(label@),
        all_ascii(old(out)@) ==> all_ascii(final(out)@),
{
    let mut i: usize = 0;
    while i < label.len()
        invariant
            i <= label@.len(),
            out@ == old(out)@ + label_text(label@.take(i as int)),
            all_ascii(old(out)@) ==> all_ascii(out@),
        decreases label@.len() - i,
    {
        let octet = label[i];
        if octet == 0x2E || octet == 0x5C {
            out.push(0x5C);
            out.push(octet);
        } else {
            push_symbol(out, octet);
        }
        proof {
            let next = label@.take(i + 1);
            assert(next.drop_last() =~= label@.take(i as int));
        }
        i += 1;
    }
    assert(label@.take(i as int) =~= label@);
}

/// Appends a name as it is shown.
pub fn push_name<N: ToDname>(out: &mut Vec<u8>, name: &N)
    ensures
        final(out)@ == old(out)@ + name_text(name.labels()),
        all_ascii(old(out)@) ==> all_ascii(final(out)@),
{
    let labels = name.iter_labels();
    let ghost all = name.labels();
    proof {
        name.lemma_name();
    }
    let count = labels.len() - 1;
    let mut i: usize = 0;
    while i < count
        invariant
            i <= count,
            count + 1 == labels@.len(),
            slices_are(labels@, all),
            out@ == old(out)@ + labels_text(all, i as int),
            all_ascii(old(out)@) ==> all_ascii(out@),
        decreases count - i,
    {
        if i > 0 {
            out.push(0x2E);
        }
        push_label(out, labels[i]);
        i += 1;
    }
}

/// Appends an address as it is shown.
pub fn push_ipv4(out: &mut Vec<u8>, octets: [u8; 4])
    ensures
        final(out)@ == old(out)@ + ipv4_text(octets@),
        all_ascii(old(out)@) ==> all_ascii(final(out)@),
{
    push_decimal(out, octets[0] as u64);
    out.push(0x2E);
    push_decimal(out, octets[1] as u64);
    out.push(0x2E);
    push_decimal(out, octets[2] as u64);
    out.push(0x2E);
    push_decimal(out, octets[3] as u64);
}

//------------ Strings -------------------------------------------------------

/// `String::from_utf8_lossy`: the string that UTF-8 octets stand for. Where
/// all octets are ASCII, each stands for the character with its value.
#[verifier::external_body]
fn ascii_string(octets: &[u8]) -> (res: String)
    requires
        all_ascii(octets@),
    ensures
        res@ == chars(octets@),
{
    String::from_utf8_lossy(octets).into_owned()
}

/// Appends one ASCII octet.
pub fn push_octet(out: &mut Vec<u8>, octet: u8)
    requires
        octet < 0x80,
    ensures
        final(out)@ == old(out)@ + seq![octet],
        all_ascii(old(out)@) ==> all_ascii(final(out)@),
{
    out.push(octet);
}

/// Turns text that was built from ASCII octets into a string.
pub fn into_string(out: Vec<u8>) -> (res: String)
    requires
        all_ascii(out@),
    ensures
        res@ == chars(out@),
{
    ascii_string(out.as_slice())
}

} // verus!
