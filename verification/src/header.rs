//! The fixed twelve-octet message header.

use vstd::prelude::*;
use crate::codes::{OpCode, RCode, UnmappedVariant};
use crate::wire::{be16, u16_to_be_bytes};

verus! {

/// The value of a one-bit flag.
pub open spec fn bit(b: bool) -> int {
    if b {
        1
    } else {
        0
    }
}

/// Logical fields of a message header.
#[derive(Debug, Clone, Copy, PartialEq, Eq, Structural)]
pub struct DNSHeader {
    /// Identifier copied from query to reply.
    pub packet_id: u16,
    /// Set in a reply, clear in a query.
    pub qr: bool,
    /// Kind of query.
    pub opcode: OpCode,
    /// Authoritative answer.
    pub aa: bool,
    /// Truncation.
    pub tc: bool,
    /// Recursion desired.
    pub rd: bool,
    /// Recursion available.
    pub ra: bool,
    /// Reserved field of three bits.
    pub z: u8,
    /// Response code.
    pub rcode: RCode,
    /// Number of entries in the question section.
    pub qdcount: u16,
    /// Number of records in the answer section.
    pub ancount: u16,
    /// Number of records in the authority section.
    pub nscount: u16,
    /// Number of records in the additional section.
    pub arcount: u16,
}

impl DNSHeader {
    /// The reserved field fits in its three bits.
    pub open spec fn wf(&self) -> bool {
        self.z <= 7
    }

    /// Third octet for an operation code `op`: QR in bit 7, the operation
    /// code in bits 6 to 3, then AA, TC and RD in bits 2, 1 and 0.
    pub open spec fn flags_hi(&self, op: u8) -> int {
        128 * bit(self.qr) + 8 * op + 4 * bit(self.aa) + 2 * bit(self.tc) + bit(self.rd)
    }

    /// Fourth octet: RA in bit 7, the reserved field in bits 6 to 4, the
    /// response code in bits 3 to 0.
    pub open spec fn flags_lo(&self) -> int {
        128 * bit(self.ra) + 16 * self.z + self.rcode.code()
    }

    /// The twelve octets of the header for an operation code `op`.
    pub open spec fn wire_with(&self, op: u8) -> Seq<u8> {
        be16(self.packet_id) + seq![self.flags_hi(op) as u8, self.flags_lo() as u8] + be16(
            self.qdcount,
        ) + be16(self.ancount) + be16(self.nscount) + be16(self.arcount)
    }

    /// The encoding of the header, where its operation code has a wire value.
    pub open spec fn wire(&self) -> Option<Seq<u8>> {
        match self.opcode.code() {
            Some(op) => Some(self.wire_with(op)),
            None => None,
        }
    }

    /// Tells whether the reserved field fits in its three bits.
    pub fn is_wf(&self) -> (r: bool)
        ensures
            r == self.wf(),
    {
        self.z <= 7
    }

    /// Builds the network representation of the header.
    pub fn to_bytes(&self) -> (r: Result<[u8; 12], UnmappedVariant>)
        requires
            self.wf(),
        ensures
            r is Ok <==> self.wire() is Some,
            r matches Ok(b) ==> b@ == self.wire().unwrap(),
            r matches Err(e) ==> e == UnmappedVariant,
    {
        let op = match self.opcode.to_bytes() {
            Ok(v) => v,
            Err(e) => {
                return Err(e);
            },
        };
        let mut res = [0u8;12];

        let b = u16_to_be_bytes(self.packet_id);
        res[0] = b[0];
        res[1] = b[1];

        assert(1u8 << 7 == 128 && 1u8 << 2 == 4 && 1u8 << 1 == 2) by (bit_vector);
        assert(op << 3 == op * 8) by (bit_vector)
            requires
                op < 16,
        ;
        let mut t: u8 = 0;
        if self.qr {
            t += 1 << 7;
        }
        t += op << 3;
        if self.aa {
            t += 1 << 2;
        }
        if self.tc {
            t += 1 << 1;
        }
        if self.rd {
            t += 1;
        }
        res[2] = t;

        let z = self.z;
        assert(z << 4 == z * 16) by (bit_vector)
            requires
                z <= 7,
        ;
        t = self.z << 4;
        if self.ra {
            t += 1 << 7;
        }
        t += self.rcode.to_bytes();
        res[3] = t;

        let b = u16_to_be_bytes(self.qdcount);
        res[4] = b[0];
        res[5] = b[1];
        let b = u16_to_be_bytes(self.ancount);
        res[6] = b[0];
        res[7] = b[1];
        let b = u16_to_be_bytes(self.nscount);
        res[8] = b[0];
        res[9] = b[1];
        let b = u16_to_be_bytes(self.arcount);
        res[10] = b[0];
        res[11] = b[1];

        assert(res@ =~= self.wire_with(op));
        Ok(res)
    }
}

/// The encoding of a header has exactly twelve octets.
pub proof fn lemma_wire_len(h: DNSHeader, op: u8)
    ensures
        h.wire_with(op).len() == 12,
        h.wire() matches Some(w) ==> w.len() == 12,
{
}

/// Every field of a well-formed header can be read back from its place in
/// the encoding: the identifier and the four counts as 16-bit values with
/// the most significant octet first, the flags and codes from their bits of
/// the third and fourth octets.
pub proof fn lemma_wire_layout(h: DNSHeader, op: u8)
    requires
        h.wf(),
        op < 16,
    ensures
        ({
            let w = h.wire_with(op);
            &&& w[0] * 256 + w[1] == h.packet_id
            &&& w[2] / 128 == bit(h.qr)
            &&& (w[2] / 8) % 16 == op
            &&& (w[2] / 4) % 2 == bit(h.aa)
            &&& (w[2] / 2) % 2 == bit(h.tc)
            &&& w[2] % 2 == bit(h.rd)
            &&& w[3] / 128 == bit(h.ra)
            &&& (w[3] / 16) % 8 == h.z
            &&& w[3] % 16 == h.rcode.code()
            &&& w[4] * 256 + w[5] == h.qdcount
            &&& w[6] * 256 + w[7] == h.ancount
            &&& w[8] * 256 + w[9] == h.nscount
            &&& w[10] * 256 + w[11] == h.arcount
        }),
{
}

/// Two well-formed headers with the same encoding are the same header.
pub proof fn lemma_wire_injective(a: DNSHeader, b: DNSHeader)
    requires
        a.wf(),
        b.wf(),
        a.wire() is Some,
        a.wire() == b.wire(),
    ensures
        a == b,
{
    let oa = a.opcode.code().unwrap();
    let ob = b.opcode.code().unwrap();
    lemma_wire_layout(a, oa);
    lemma_wire_layout(b, ob);
}

impl Default for DNSHeader {
    /// The header of the fixed reply: identifier 1234, a response to a
    /// standard query with no error, every other flag clear and every
    /// section empty.
    fn default() -> (r: Self)
        ensures
            r == (DNSHeader {
                packet_id: 1234,
                qr: true,
                opcode: OpCode::Query,
                aa: false,
                tc: false,
                rd: false,
                ra: false,
                z: 0,
                rcode: RCode::NoError,
                qdcount: 0,
                ancount: 0,
                nscount: 0,
                arcount: 0,
            }),
            r.wf(),
    {
        DNSHeader {
            packet_id: 1234,
            qr: true,
            opcode: OpCode::default(),
            aa: false,
            tc: false,
            rd: false,
            ra: false,
            z: 0,
            rcode: RCode::default(),
            qdcount: 0,
            ancount: 0,
            nscount: 0,
            arcount: 0,
        }
    }
}

} // verus!
