//! The wire format of DNS record data, with proofs.
//!
//! This crate composes typed values into octet buffers and takes them back
//! out, for the record types of RFC 1035. Every function carries a contract
//! that says what it returns or changes, and the contracts are proved. What
//! is taken on trust is what the functions of other crates do: those of
//! `bytes` in [`shared`], those of `smallvec` in [`small`], and one of the
//! standard library in [`text`].
//!
//! # What is here
//!
//! * [`octets`] has the traits that a buffer has to offer: to be read and
//!   cut into ranges, to grow at its end and be cut back, and to be sealed
//!   and reopened. It has the two ways of composing in one piece: an
//!   operation that is undone if it fails, and a block that starts with
//!   its own length. It has [`octets::Compose`], the trait of all values
//!   that have a wire form.
//! * [`array`], [`shared`] and [`small`] have buffers: arrays of a fixed
//!   capacity that never allocate, the buffers of the `bytes` crate, and a
//!   small vector. Vectors and slices of the standard library are buffers
//!   too.
//! * [`name`] says what a domain name is and how names compare, and
//!   [`dname`] has two name types.
//! * [`order`] has the orderings that all comparisons are built from, and
//!   the canonical ordering of record data.
//! * [`parse`] has the parser and the traits of values that can be taken
//!   from it.
//! * [`charstr`], [`net`], [`serial`] and [`iana`] have what record data is
//!   made of: character strings, addresses, serial numbers and record type
//!   numbers.
//! * [`rdata`] has the record data types.
//! * [`text`] builds the presentation format.
//!
//! # How contracts speak
//!
//! A buffer is described by the octets it holds and by the limit to which
//! it can grow. A value that composes is described by its wire form and its
//! canonical form, two sequences of octets. Composing a value appends its
//! wire form, whole or not at all: see [`octets::appended`]. Parsing is
//! described by where the parser stands afterwards and by the error, if
//! there is one: see [`parse::Parsed`]. A value that was parsed has the
//! octets it was taken from as its wire form.

pub mod array;
pub mod charstr;
pub mod dname;
pub mod iana;
pub mod name;
pub mod net;
pub mod octets;
pub mod order;
pub mod parse;
pub mod rdata;
pub mod serial;
pub mod shared;
pub mod small;
pub mod text;
