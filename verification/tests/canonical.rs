use domain_core::charstr::CharStr;
use domain_core::dname::Dname;
use domain_core::net::Ipv4Addr;
use domain_core::octets::Compose;
use domain_core::order::CanonicalOrd;
use domain_core::rdata::rfc1035::{Cname, Hinfo, Minfo, Mx, Null, Soa, Wks, A};
use domain_core::serial::Serial;

fn canonical<C: Compose>(value: &C) -> Vec<u8> {
    let mut buf: Vec<u8> = Vec::new();
    assert_eq!(value.compose_canonical(&mut buf), Ok(()));
    buf
}

fn check<T: Compose + CanonicalOrd>(values: &[T]) {
    for left in values {
        for right in values {
            assert_eq!(left.canonical_cmp(right), canonical(left).cmp(&canonical(right)));
        }
    }
}

fn names() -> Vec<Dname> {
    [
        &b"\x00"[..],
        b"\x01a\x00",
        b"\x01A\x01b\x00",
        b"\x02ab\x00",
        b"\x01b\x01a\x00",
        b"\x07Example\x03com\x00",
        b"\x07example\x03COM\x00",
        b"\x07example\x03org\x00",
    ]
    .iter()
    .map(|wire| Dname::from_slice(wire).unwrap())
    .collect()
}

#[test]
fn canonical_ordering_of_names_and_single_name_data() {
    check(&names());
    let cnames: Vec<Cname<Dname>> = names().into_iter().map(Cname::new).collect();
    check(&cnames);
}

#[test]
fn canonical_ordering_of_mx() {
    let mut values = Vec::new();
    for preference in [0u16, 1, 255, 256, 257, 0xFF00, 0xFFFF] {
        for name in names() {
            values.push(Mx::new(preference, name));
        }
    }
    check(&values);
}

#[test]
fn canonical_ordering_of_minfo() {
    let mut values = Vec::new();
    for first in names() {
        for second in names() {
            values.push(Minfo::new(first.clone(), second));
        }
    }
    check(&values);
}

#[test]
fn canonical_ordering_of_soa() {
    let numbers = [0u32, 1, 255, 256, 0x0001_0000, 0x00FF_FFFF, 0x0100_0000, 0xFFFF_FFFF];
    let mut values = Vec::new();
    for (i, mname) in names().into_iter().enumerate() {
        for (j, first) in numbers.iter().enumerate() {
            let at = |k: usize| numbers[(i + j + k) % numbers.len()];
            values.push(Soa::new(
                mname.clone(),
                names()[(i + j) % 8].clone(),
                Serial::from_int(*first),
                at(1),
                at(3),
                at(5),
                at(7),
            ));
        }
    }
    check(&values);
    let base = |numbers: [u32; 5]| {
        Soa::new(
            Dname::root(),
            Dname::root(),
            Serial::from_int(numbers[0]),
            numbers[1],
            numbers[2],
            numbers[3],
            numbers[4],
        )
    };
    let mut values = Vec::new();
    for field in 0..5 {
        for number in numbers {
            let mut given = [7u32; 5];
            given[field] = number;
            values.push(base(given));
        }
    }
    check(&values);
}

#[test]
fn canonical_ordering_of_data_without_names() {
    let strings: Vec<CharStr<Vec<u8>>> = [&b""[..], b"a", b"A", b"ab", b"b", b"aB", b"abc"]
        .iter()
        .map(|octets| CharStr::from_octets(octets.to_vec()).unwrap())
        .collect();
    check(&strings);
    let mut values = Vec::new();
    for cpu in &strings {
        for os in &strings {
            values.push(Hinfo::new(cpu.clone(), os.clone()));
        }
    }
    check(&values);
    let addresses = [[0u8, 0, 0, 0], [0, 0, 1, 0], [1, 0, 0, 0], [255, 255, 255, 255]];
    let values: Vec<A> =
        addresses.iter().map(|a| A::from_octets(a[0], a[1], a[2], a[3])).collect();
    check(&values);
    let values: Vec<Null<Vec<u8>>> =
        [&b""[..], b"\x00", b"a", b"ab", b"b"].iter().map(|d| Null::new(d.to_vec())).collect();
    check(&values);
    let mut values = Vec::new();
    for address in addresses {
        for protocol in [0u8, 6, 17, 255] {
            for bitmap in [&b""[..], b"\x00", b"\x01", b"\x01\x00", b"\xFF"] {
                let address = Ipv4Addr::new(address[0], address[1], address[2], address[3]);
                values.push(Wks::new(address, protocol, bitmap.to_vec()));
            }
        }
    }
    check(&values);
}
