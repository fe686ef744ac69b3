//! The record data types as parsing gives them: with owned domain names and
//! owned octets.

use crate::dname::Dname;
use vstd::prelude::*;

verus! {

pub type A = super::A;

pub type Cname = super::Cname<Dname>;

pub type Hinfo = super::Hinfo<Vec<u8>>;

pub type Mb = super::Mb<Dname>;

pub type Md = super::Md<Dname>;

pub type Mf = super::Mf<Dname>;

pub type Mg = super::Mg<Dname>;

pub type Minfo = super::Minfo<Dname>;

pub type Mr = super::Mr<Dname>;

pub type Mx = super::Mx<Dname>;

pub type Ns = super::Ns<Dname>;

pub type Null = super::Null<Vec<u8>>;

pub type Ptr = super::Ptr<Dname>;

pub type Soa = super::Soa<Dname>;

pub type Txt = super::Txt<Vec<u8>>;

pub type Wks = super::Wks<Vec<u8>>;

} // verus!
