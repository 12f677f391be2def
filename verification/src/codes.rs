//! Numeric wire codes of the enumerated header and record fields.

use vstd::prelude::*;
use crate::wire::{be16, u16_to_be_bytes};

verus! {

/// A variant that has no wire code assigned.
#[derive(Debug, Clone, Copy, PartialEq, Eq, Structural)]
pub struct UnmappedVariant;

/// Kind of query carried by a message (4 bits of the header).
#[derive(Debug, Clone, Copy, PartialEq, Eq, Structural)]
pub enum OpCode {
    /// Standard query.
    Query,
    /// Inverse query (obsolete).
    IQuery,
    /// Server status request.
    Status,
    /// Value 3 is not assigned to any operation.
    Unassigned,
    /// Zone change notification.
    Notify,
    /// Dynamic update.
    Update,
    /// DNS stateful operations.
    DSO,
}

impl OpCode {
    /// The assigned code, or `None` for the variant without one.
    pub open spec fn code(self) -> Option<u8> {
        match self {
            OpCode::Query => Some(0u8),
            OpCode::IQuery => Some(1u8),
            OpCode::Status => Some(2u8),
            OpCode::Unassigned => None,
            OpCode::Notify => Some(4u8),
            OpCode::Update => Some(5u8),
            OpCode::DSO => Some(6u8),
        }
    }

    /// The 4-bit value written into the header.
    pub fn to_bytes(&self) -> (r: Result<u8, UnmappedVariant>)
        ensures
            r == match self.code() {
                Some(v) => Ok::<u8, UnmappedVariant>(v),
                None => Err::<u8, UnmappedVariant>(UnmappedVariant),
            },
            r matches Ok(v) ==> v < 16,
    {
        match self {
            OpCode::Query => Ok(0),
            OpCode::IQuery => Ok(1),
            OpCode::Status => Ok(2),
            OpCode::Unassigned => Err(UnmappedVariant),
            OpCode::Notify => Ok(4),
            OpCode::Update => Ok(5),
            OpCode::DSO => Ok(6),
        }
    }
}

impl Default for OpCode {
    fn default() -> (r: Self)
        ensures
            r == OpCode::Query,
    {
        OpCode::Query
    }
}

/// Status of a response (4 bits of the header).
#[derive(Debug, Clone, Copy, PartialEq, Eq, Structural)]
pub enum RCode {
    /// No error condition.
    NoError,
    /// The query could not be interpreted.
    FormErr,
    /// The server failed to process the query.
    ServFail,
    /// The queried name does not exist.
    NXDomain,
    /// The requested kind of query is not implemented.
    NotImp,
    /// The server refuses to answer.
    Refused,
}

impl RCode {
    /// The assigned code.
    pub open spec fn code(self) -> u8 {
        match self {
            RCode::NoError => 0u8,
            RCode::FormErr => 1u8,
            RCode::ServFail => 2u8,
            RCode::NXDomain => 3u8,
            RCode::NotImp => 4u8,
            RCode::Refused => 5u8,
        }
    }

    /// The 4-bit value written into the header.
    pub fn to_bytes(&self) -> (r: u8)
        ensures
            r == self.code(),
            r < 16,
    {
        match self {
            RCode::NoError => 0,
            RCode::FormErr => 1,
            RCode::ServFail => 2,
            RCode::NXDomain => 3,
            RCode::NotImp => 4,
            RCode::Refused => 5,
        }
    }
}

impl Default for RCode {
    fn default() -> (r: Self)
        ensures
            r == RCode::NoError,
    {
        RCode::NoError
    }
}

/// Type of a resource record (16 bits on the wire).
#[derive(Debug, Clone, Copy, PartialEq, Eq, Structural)]
pub enum RRType {
    /// A host address.
    A,
    /// An authoritative name server.
    NS,
    /// A mail destination (obsolete).
    MD,
    /// A mail forwarder (obsolete).
    MF,
    /// The canonical name for an alias.
    CName,
    /// Start of a zone of authority.
    SOA,
    /// A mailbox domain name.
    MB,
    /// A mail group member.
    MG,
    /// A mail rename domain name.
    MR,
    /// A null record.
    NULL,
    /// A well known service description.
    WKS,
    /// A domain name pointer.
    PTR,
    /// Host information.
    HInfo,
    /// Mailbox or mail list information; no code is mapped to it.
    MInfo,
    /// Mail exchange.
    MX,
    /// Text strings.
    TXT,
}

impl RRType {
    /// The assigned code, or `None` for the variant without one.
    pub open spec fn code(self) -> Option<u16> {
        match self {
            RRType::A => Some(1u16),
            RRType::NS => Some(2u16),
            RRType::MD => Some(3u16),
            RRType::MF => Some(4u16),
            RRType::CName => Some(5u16),
            RRType::SOA => Some(6u16),
            RRType::MB => Some(7u16),
            RRType::MG => Some(8u16),
            RRType::MR => Some(9u16),
            RRType::NULL => Some(10u16),
            RRType::WKS => Some(11u16),
            RRType::PTR => Some(12u16),
            RRType::HInfo => Some(13u16),
            RRType::MInfo => None,
            RRType::MX => Some(15u16),
            RRType::TXT => Some(16u16),
        }
    }

    /// The code as two octets in network order.
    pub fn to_bytes(&self) -> (r: Result<[u8; 2], UnmappedVariant>)
        ensures
            self.code() is Some <==> r is Ok,
            r matches Ok(b) ==> b@ == be16(self.code().unwrap()),
            r matches Err(e) ==> e == UnmappedVariant,
    {
        let b: u16 = match self {
            RRType::A => 1,
            RRType::NS => 2,
            RRType::MD => 3,
            RRType::MF => 4,
            RRType::CName => 5,
            RRType::SOA => 6,
            RRType::MB => 7,
            RRType::MG => 8,
            RRType::MR => 9,
            RRType::NULL => 10,
            RRType::WKS => 11,
            RRType::PTR => 12,
            RRType::HInfo => 13,
            RRType::MInfo => {
                return Err(UnmappedVariant);
            },
            RRType::MX => 15,
            RRType::TXT => 16,
        };
        Ok(u16_to_be_bytes(b))
    }
}

impl Default for RRType {
    fn default() -> (r: Self)
        ensures
            r == RRType::A,
    {
        RRType::A
    }
}

/// Class of a resource record (16 bits on the wire).
#[derive(Debug, Clone, Copy, PartialEq, Eq, Structural)]
pub enum Class {
    /// The Internet.
    IN,
    /// CSNET (obsolete).
    CS,
    /// CHAOS.
    CH,
    /// Hesiod.
    HS,
}

impl Class {
    /// The assigned code.
    pub open spec fn code(self) -> u16 {
        match self {
            Class::IN => 1u16,
            Class::CS => 2u16,
            Class::CH => 3u16,
            Class::HS => 4u16,
        }
    }

    /// The code as two octets in network order.
    pub fn to_bytes(&self) -> (r: [u8; 2])
        ensures
            r@ == be16(self.code()),
    {
        let b: u16 = match self {
            Class::IN => 1,
            Class::CS => 2,
            Class::CH => 3,
            Class::HS => 4,
        };
        u16_to_be_bytes(b)
    }
}

impl Default for Class {
    fn default() -> (r: Self)
        ensures
            r == Class::IN,
    {
        Class::IN
    }
}

} // verus!
