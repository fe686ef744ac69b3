use domain_core::array::{
    Octets1024, Octets128, Octets2048, Octets256, Octets32, Octets4096, Octets512, Octets64,
    OctetsArray,
};
use domain_core::octets::{
    Compose, EmptyBuilder, FromBuilder, IntoBuilder, IntoOctets, Octets, OctetsBuilder, ShortBuf,
};
use std::cmp::Ordering;
use std::convert::TryFrom;

fn at_capacity<const N: usize>() {
    let exact = vec![0xA5u8; N];
    let array = OctetsArray::<N>::from_slice(&exact).unwrap();
    assert_eq!(array.len(), N);
    assert_eq!(array.as_slice(), &exact[..]);
    let over = vec![0xA5u8; N + 1];
    assert_eq!(OctetsArray::<N>::from_slice(&over).err(), Some(ShortBuf));
    let array = OctetsArray::<N>::try_from(&exact[..]).unwrap();
    assert_eq!(array.len(), N);
    assert_eq!(OctetsArray::<N>::try_from(&over[..]).err(), Some(ShortBuf));
}

#[test]
fn fixed_array_capacity() {
    at_capacity::<32>();
    at_capacity::<64>();
    at_capacity::<128>();
    at_capacity::<256>();
    at_capacity::<512>();
    at_capacity::<1024>();
    at_capacity::<2048>();
    at_capacity::<4096>();
}

#[test]
fn the_named_sizes() {
    assert_eq!(Octets32::from_slice(&[1u8; 32]).unwrap().len(), 32);
    assert!(Octets32::from_slice(&[1u8; 33]).is_err());
    assert_eq!(Octets64::from_slice(&[1u8; 64]).unwrap().len(), 64);
    assert!(Octets64::from_slice(&[1u8; 65]).is_err());
    assert_eq!(Octets128::from_slice(&[1u8; 128]).unwrap().len(), 128);
    assert!(Octets128::from_slice(&[1u8; 129]).is_err());
    assert_eq!(Octets256::from_slice(&[1u8; 256]).unwrap().len(), 256);
    assert!(Octets256::from_slice(&[1u8; 257]).is_err());
    assert_eq!(Octets512::from_slice(&[1u8; 512]).unwrap().len(), 512);
    assert!(Octets512::from_slice(&[1u8; 513]).is_err());
    assert_eq!(Octets1024::from_slice(&[1u8; 1024]).unwrap().len(), 1024);
    assert!(Octets1024::from_slice(&[1u8; 1025]).is_err());
    assert_eq!(Octets2048::from_slice(&[1u8; 2048]).unwrap().len(), 2048);
    assert!(Octets2048::from_slice(&[1u8; 2049]).is_err());
    assert_eq!(Octets4096::from_slice(&[1u8; 4096]).unwrap().len(), 4096);
    assert!(Octets4096::from_slice(&[1u8; 4097]).is_err());
}

#[test]
fn new_array_is_empty() {
    let array = Octets32::new();
    assert_eq!(array.len(), 0);
    assert_eq!(array.as_slice(), b"");
    assert_eq!(Octets32::default().len(), 0);
    assert_eq!(<Octets32 as EmptyBuilder>::empty().len(), 0);
    assert_eq!(<Octets32 as EmptyBuilder>::with_capacity(1000).len(), 0);
}

#[test]
fn from_slice_copies_the_octets() {
    let array = Octets32::from_slice(b"hello").unwrap();
    assert_eq!(array.len(), 5);
    assert_eq!(array.as_slice(), b"hello");
    assert_eq!(Octets32::from_slice(b"").unwrap().len(), 0);
}

#[test]
fn append_fails_beyond_capacity_and_changes_nothing() {
    let mut array = Octets32::new();
    assert_eq!(array.append_slice(&[1u8; 30]), Ok(()));
    assert_eq!(array.append_slice(&[2u8; 3]), Err(ShortBuf));
    assert_eq!(array.len(), 30);
    assert_eq!(array.as_slice(), &[1u8; 30][..]);
    assert_eq!(array.append_slice(&[2u8; 2]), Ok(()));
    assert_eq!(array.len(), 32);
    assert_eq!(&array.as_slice()[30..], &[2u8, 2]);
    assert_eq!(array.append_slice(&[3u8]), Err(ShortBuf));
    assert_eq!(array.append_slice(&[]), Ok(()));
    assert_eq!(array.len(), 32);
}

#[test]
fn truncate_never_grows() {
    let mut array = Octets32::from_slice(b"0123456789").unwrap();
    OctetsBuilder::truncate(&mut array, 20);
    assert_eq!(array.as_slice(), b"0123456789");
    OctetsBuilder::truncate(&mut array, 4);
    assert_eq!(array.as_slice(), b"0123");
    OctetsBuilder::truncate(&mut array, 4);
    assert_eq!(array.as_slice(), b"0123");
    OctetsBuilder::truncate(&mut array, 0);
    assert_eq!(array.len(), 0);
}

#[test]
fn overwrite_in_place() {
    let mut array = Octets32::from_slice(b"abc").unwrap();
    {
        let slice = array.as_slice_mut();
        assert_eq!(slice.len(), 3);
        slice[0] = b'x';
    }
    assert_eq!(array.as_slice(), b"xbc");
    OctetsBuilder::as_slice_mut(&mut array)[2] = b'z';
    assert_eq!(Octets::as_slice(&array), b"xbz");
}

#[test]
fn equality_and_ordering_ignore_what_lies_behind() {
    let mut left = Octets32::from_slice(b"abcXYZ").unwrap();
    OctetsBuilder::truncate(&mut left, 3);
    let right = Octets32::from_slice(b"abc").unwrap();
    assert!(left == right);
    assert_eq!(left.cmp(&right), Ordering::Equal);
    assert_eq!(left.partial_cmp(&right), Some(Ordering::Equal));
    assert!(left == b"abc".to_vec());
    let other = Octets32::from_slice(b"abd").unwrap();
    assert!(left != other);
    assert_eq!(left.cmp(&other), Ordering::Less);
    assert_eq!(other.cmp(&left), Ordering::Greater);
    assert!(left < other);
    let longer = Octets32::from_slice(b"abcd").unwrap();
    assert_eq!(left.cmp(&longer), Ordering::Less);
    assert!(left.partial_cmp(&b"ab".to_vec()) == Some(Ordering::Greater));
}

#[test]
fn array_clone_and_conversions() {
    let array = Octets32::from_slice(b"abc").unwrap();
    let copy = array.clone();
    assert!(copy == array);
    let builder = array.into_builder();
    assert_eq!(builder.as_slice(), b"abc");
    let octets = builder.into_octets();
    assert_eq!(octets.as_slice(), b"abc");
    let again = <Octets32 as FromBuilder>::from_builder(octets);
    assert_eq!(again.as_slice(), b"abc");
}

#[test]
fn compose_into_an_array() {
    let mut array = Octets32::new();
    assert_eq!(0x0102_0304u32.compose(&mut array), Ok(()));
    assert_eq!(array.as_slice(), &[1, 2, 3, 4]);
    let mut full = Octets32::from_slice(&[0u8; 30]).unwrap();
    assert_eq!(0x0102_0304u32.compose(&mut full), Err(ShortBuf));
    assert_eq!(full.len(), 30);
    assert_eq!(0x0102u16.compose(&mut full), Ok(()));
    assert_eq!(full.len(), 32);
}

#[test]
fn rollback_in_an_array() {
    let mut array = Octets32::from_slice(&[7u8; 28]).unwrap();
    let res = array.append_all(|target| {
        target.append_slice(&[1, 2, 3])?;
        target.append_slice(&[4, 5, 6])
    });
    assert_eq!(res, Err(ShortBuf));
    assert_eq!(array.as_slice(), &[7u8; 28][..]);
    let res = array.len_prefixed(|target| target.append_slice(&[1, 2, 3]));
    assert_eq!(res, Err(ShortBuf));
    assert_eq!(array.as_slice(), &[7u8; 28][..]);
    let res = array.len_prefixed(|target| target.append_slice(&[1, 2]));
    assert_eq!(res, Ok(()));
    assert_eq!(&array.as_slice()[28..], &[0, 2, 1, 2]);
    let mut full = Octets32::from_slice(&[7u8; 31]).unwrap();
    assert_eq!(full.len_prefixed(|_| Ok(())), Err(ShortBuf));
    assert_eq!(full.len(), 31);
}
