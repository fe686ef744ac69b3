use domain_core::array::{Octets32, OctetsArray};
use domain_core::dname::Dname;
use domain_core::iana::{Rtype, RtypeRecordData};
use domain_core::net::Ipv4Addr;
use domain_core::order::CanonicalOrd;
use domain_core::rdata::rfc1035::parsed;
use domain_core::rdata::rfc1035::{
    Cname, Hinfo, Mb, Md, Mf, Mg, Minfo, Mr, Mx, Ns, Null, Ptr, Soa, Txt, Wks, A,
};
use std::cmp::Ordering;
use std::collections::hash_map::DefaultHasher;
use std::convert::TryFrom;
use std::hash::{Hash, Hasher};

fn hash_of<T: Hash>(value: &T) -> u64 {
    let mut hasher = DefaultHasher::new();
    value.hash(&mut hasher);
    hasher.finish()
}

#[test]
fn record_type_numbers() {
    let all = [
        (Rtype::A, 1u16, "A"),
        (Rtype::Ns, 2, "NS"),
        (Rtype::Md, 3, "MD"),
        (Rtype::Mf, 4, "MF"),
        (Rtype::Cname, 5, "CNAME"),
        (Rtype::Soa, 6, "SOA"),
        (Rtype::Mb, 7, "MB"),
        (Rtype::Mg, 8, "MG"),
        (Rtype::Mr, 9, "MR"),
        (Rtype::Null, 10, "NULL"),
        (Rtype::Wks, 11, "WKS"),
        (Rtype::Ptr, 12, "PTR"),
        (Rtype::Hinfo, 13, "HINFO"),
        (Rtype::Minfo, 14, "MINFO"),
        (Rtype::Mx, 15, "MX"),
        (Rtype::Txt, 16, "TXT"),
    ];
    for (rtype, code, name) in all {
        assert_eq!(rtype.to_int(), code);
        assert_eq!(Rtype::from_int(code), Some(rtype));
        assert_eq!(rtype.mnemonic(), name);
    }
    assert_eq!(Rtype::from_int(0), None);
    assert_eq!(Rtype::from_int(17), None);
    assert_eq!(Rtype::from_int(65535), None);
}

#[test]
fn record_types_of_record_data() {
    assert_eq!(A::rtype(), Rtype::A);
    assert_eq!(Cname::<Dname>::rtype(), Rtype::Cname);
    assert_eq!(Hinfo::<Vec<u8>>::rtype(), Rtype::Hinfo);
    assert_eq!(Mb::<Dname>::rtype(), Rtype::Mb);
    assert_eq!(Md::<Dname>::rtype(), Rtype::Md);
    assert_eq!(Mf::<Dname>::rtype(), Rtype::Mf);
    assert_eq!(Mg::<Dname>::rtype(), Rtype::Mg);
    assert_eq!(Minfo::<Dname>::rtype(), Rtype::Minfo);
    assert_eq!(Mr::<Dname>::rtype(), Rtype::Mr);
    assert_eq!(Mx::<Dname>::rtype(), Rtype::Mx);
    assert_eq!(Ns::<Dname>::rtype(), Rtype::Ns);
    assert_eq!(Null::<Vec<u8>>::rtype(), Rtype::Null);
    assert_eq!(Ptr::<Dname>::rtype(), Rtype::Ptr);
    assert_eq!(Soa::<Dname>::rtype(), Rtype::Soa);
    assert_eq!(Txt::<Vec<u8>>::rtype(), Rtype::Txt);
    assert_eq!(Wks::<Vec<u8>>::rtype(), Rtype::Wks);
    assert_eq!(parsed::Mx::rtype(), Rtype::Mx);
    assert_eq!(parsed::Txt::rtype(), Rtype::Txt);
}

#[test]
fn names_as_values() {
    let upper = Dname::from_slice(b"\x07Example\x03COM\x00").unwrap();
    let lower = Dname::from_slice(b"\x07example\x03com\x00").unwrap();
    let other = Dname::from_slice(b"\x07example\x03org\x00").unwrap();
    assert!(upper == lower);
    assert!(upper != other);
    assert_eq!(upper.cmp(&lower), Ordering::Equal);
    assert_eq!(upper.cmp(&other), Ordering::Less);
    assert_eq!(other.partial_cmp(&upper), Some(Ordering::Greater));
    assert!(lower < other);
    assert_eq!(upper.canonical_cmp(&lower), Ordering::Equal);
}

#[test]
fn record_data_lends_out_what_it_holds() {
    let mut a = A::from_octets(192, 0, 2, 1);
    assert_eq!(a.octets(), [192, 0, 2, 1]);
    let addr: &Ipv4Addr = a.as_ref();
    assert_eq!(addr.octets(), [192, 0, 2, 1]);
    *a.as_mut() = Ipv4Addr::new(10, 0, 0, 1);
    assert_eq!(a.addr().octets(), [10, 0, 0, 1]);
    *a = Ipv4Addr::new(10, 0, 0, 2);
    assert_eq!(a.addr().octets(), [10, 0, 0, 2]);
    let cname = Cname::new(Dname::from_slice(b"\x03www\x00").unwrap());
    assert_eq!(cname.len(), 5);
    assert_eq!(cname.as_slice(), b"\x03www\x00");
    let ns = Ns::new(Dname::root());
    assert!(ns.is_root());
    let null = Null::new(vec![1u8, 2, 3]);
    assert_eq!(null.first(), Some(&1));
    assert_eq!(null.iter().count(), 3);
}

#[test]
fn arrays_as_slices() {
    let mut array = Octets32::from_slice(b"abc").unwrap();
    assert_eq!(&array[..], b"abc");
    assert_eq!(array.iter().count(), 3);
    assert_eq!(AsRef::<[u8]>::as_ref(&array), b"abc");
    array[0] = b'x';
    AsMut::<[u8]>::as_mut(&mut array)[1] = b'y';
    assert_eq!(array.as_slice(), b"xyc");
    let same = OctetsArray::<32>::try_from(&b"xyc"[..]).unwrap();
    assert!(same == array);
}

#[test]
fn hashes_agree_with_equality() {
    let left = Null::new(vec![1u8, 2, 3]);
    let right = Null::new(vec![1u8, 2, 3]);
    assert!(left == right);
    assert_eq!(hash_of(&left), hash_of(&right));
    let left = Wks::new(Ipv4Addr::new(10, 0, 0, 1), 6, vec![1u8, 2]);
    let right = Wks::new(Ipv4Addr::new(10, 0, 0, 1), 6, vec![1u8, 2]);
    assert!(left == right);
    assert_eq!(hash_of(&left), hash_of(&right));
    assert_eq!(hash_of(&A::from_octets(1, 2, 3, 4)), hash_of(&A::from_octets(1, 2, 3, 4)));
    assert_eq!(hash_of(&Rtype::Mx), hash_of(&Rtype::Mx));
}
