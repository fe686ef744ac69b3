//! Record data from [RFC 1035].
//!
//! This RFC defines the initial set of record types.
//!
//! [RFC 1035]: https://tools.ietf.org/html/rfc1035

pub mod a;
pub mod cname;
pub mod hinfo;
pub mod mb;
pub mod md;
pub mod mf;
pub mod mg;
pub mod minfo;
pub mod mr;
pub mod mx;
pub mod ns;
pub mod null;
pub mod parsed;
pub mod ptr;
pub mod soa;
pub mod txt;
pub mod wks;

pub use self::a::A;
pub use self::cname::Cname;
pub use self::hinfo::Hinfo;
pub use self::mb::Mb;
pub use self::md::Md;
pub use self::mf::Mf;
pub use self::mg::Mg;
pub use self::minfo::Minfo;
pub use self::mr::Mr;
pub use self::mx::Mx;
pub use self::ns::Ns;
pub use self::null::Null;
pub use self::ptr::Ptr;
pub use self::soa::Soa;
pub use self::txt::{Txt, TxtBuilder, TxtIter};
pub use self::wks::{Wks, WksBuilder, WksIter};
