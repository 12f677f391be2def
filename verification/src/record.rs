//! Description of a resource record.

use vstd::prelude::*;
use crate::codes::{Class, RRType};
use crate::name::CName;

verus! {

/// The owner name, type and class of a resource record.
#[derive(Debug, PartialEq, Eq)]
pub struct ResourceRecord {
    /// Name the record belongs to.
    pub cname: CName,
    /// Type of the record data.
    pub rrtype: RRType,
    /// Class of the record.
    pub class: Class,
}

impl ResourceRecord {
    /// A record description made of its three parts.
    pub fn new(cname: CName, rrtype: RRType, class: Class) -> (r: Self)
        ensures
            r.cname == cname,
            r.rrtype == rrtype,
            r.class == class,
    {
        ResourceRecord { cname, rrtype, class }
    }
}

impl Default for ResourceRecord {
    /// An address record of the Internet class at the root name.
    fn default() -> (r: Self)
        ensures
            r.cname.labels().len() == 0,
            r.rrtype == RRType::A,
            r.class == Class::IN,
    {
        ResourceRecord { cname: CName::default(), rrtype: RRType::default(), class: Class::default() }
    }
}

} // verus!
