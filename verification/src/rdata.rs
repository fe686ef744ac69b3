//! Record data.

pub mod rfc1035;
