//! Numbers that IANA assigns.

use vstd::prelude::*;

verus! {

/// The type of a resource record, as far as RFC 1035 defines record types.
#[derive(Clone, Copy, Debug, PartialEq, Eq, Hash, Structural)]
pub enum Rtype {
    /// A host address.
    A,
    /// An authoritative name server.
    Ns,
    /// A mail destination.
    Md,
    /// A mail forwarder.
    Mf,
    /// The canonical name for an alias.
    Cname,
    /// The start of a zone of authority.
    Soa,
    /// A mailbox domain name.
    Mb,
    /// A mail group member.
    Mg,
    /// A mail rename domain name.
    Mr,
    /// A null resource record.
    Null,
    /// A well known service description.
    Wks,
    /// A domain name pointer.
    Ptr,
    /// Host information.
    Hinfo,
    /// Mailbox or mail list information.
    Minfo,
    /// Mail exchange.
    Mx,
    /// Text strings.
    Txt,
}

impl Rtype {
    /// The number that stands for the record type on the wire.
    pub open spec fn code(self) -> u16 {
        match self {
            Rtype::A => 1,
            Rtype::Ns => 2,
            Rtype::Md => 3,
            Rtype::Mf => 4,
            Rtype::Cname => 5,
            Rtype::Soa => 6,
            Rtype::Mb => 7,
            Rtype::Mg => 8,
            Rtype::Mr => 9,
            Rtype::Null => 10,
            Rtype::Wks => 11,
            Rtype::Ptr => 12,
            Rtype::Hinfo => 13,
            Rtype::Minfo => 14,
            Rtype::Mx => 15,
            Rtype::Txt => 16,
        }
    }

    /// Returns the number that stands for the record type on the wire.
    pub fn to_int(self) -> (res: u16)
        ensures
            res == self.code(),
    {
        match self {
            Rtype::A => 1,
            Rtype::Ns => 2,
            Rtype::Md => 3,
            Rtype::Mf => 4,
            Rtype::Cname => 5,
            Rtype::Soa => 6,
            Rtype::Mb => 7,
            Rtype::Mg => 8,
            Rtype::Mr => 9,
            Rtype::Null => 10,
            Rtype::Wks => 11,
            Rtype::Ptr => 12,
            Rtype::Hinfo => 13,
            Rtype::Minfo => 14,
            Rtype::Mx => 15,
            Rtype::Txt => 16,
        }
    }

    /// Returns the record type that a number stands for, if it is one of
    /// the types of RFC 1035.
    pub fn from_int(code: u16) -> (res: Option<Rtype>)
        ensures
            res is Some <==> 1 <= code <= 16,
            res matches Some(rtype) ==> rtype.code() == code,
    {
        match code {
            1 => Some(Rtype::A),
            2 => Some(Rtype::Ns),
            3 => Some(Rtype::Md),
            4 => Some(Rtype::Mf),
            5 => Some(Rtype::Cname),
            6 => Some(Rtype::Soa),
            7 => Some(Rtype::Mb),
            8 => Some(Rtype::Mg),
            9 => Some(Rtype::Mr),
            10 => Some(Rtype::Null),
            11 => Some(Rtype::Wks),
            12 => Some(Rtype::Ptr),
            13 => Some(Rtype::Hinfo),
            14 => Some(Rtype::Minfo),
            15 => Some(Rtype::Mx),
            16 => Some(Rtype::Txt),
            _ => None,
        }
    }

    /// Returns the name of the record type.
    pub fn mnemonic(self) -> (res: &'static str)
        ensures
            res@ == match self {
                Rtype::A => "A"@,
                Rtype::Ns => "NS"@,
                Rtype::Md => "MD"@,
                Rtype::Mf => "MF"@,
                Rtype::Cname => "CNAME"@,
                Rtype::Soa => "SOA"@,
                Rtype::Mb => "MB"@,
                Rtype::Mg => "MG"@,
                Rtype::Mr => "MR"@,
                Rtype::Null => "NULL"@,
                Rtype::Wks => "WKS"@,
                Rtype::Ptr => "PTR"@,
                Rtype::Hinfo => "HINFO"@,
                Rtype::Minfo => "MINFO"@,
                Rtype::Mx => "MX"@,
                Rtype::Txt => "TXT"@,
            },
    {
        match self {
            Rtype::A => "A",
            Rtype::Ns => "NS",
            Rtype::Md => "MD",
            Rtype::Mf => "MF",
            Rtype::Cname => "CNAME",
            Rtype::Soa => "SOA",
            Rtype::Mb => "MB",
            Rtype::Mg => "MG",
            Rtype::Mr => "MR",
            Rtype::Null => "NULL",
            Rtype::Wks => "WKS",
            Rtype::Ptr => "PTR",
            Rtype::Hinfo => "HINFO",
            Rtype::Minfo => "MINFO",
            Rtype::Mx => "MX",
            Rtype::Txt => "TXT",
        }
    }
}

/// Record data of one fixed record type.
pub trait RtypeRecordData {
    /// The record type of the data.
    spec fn rtype_spec() -> Rtype;

    /// Returns the record type of the data.
    fn rtype() -> (res: Rtype)
        ensures
            res == Self::rtype_spec(),
    ;
}

} // verus!
