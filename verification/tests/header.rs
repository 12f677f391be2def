use dns_codec::codes::{OpCode, RCode, UnmappedVariant};
use dns_codec::header::DNSHeader;

fn blank() -> DNSHeader {
    DNSHeader {
        packet_id: 0,
        qr: false,
        opcode: OpCode::Query,
        aa: false,
        tc: false,
        rd: false,
        ra: false,
        z: 0,
        rcode: RCode::NoError,
        qdcount: 0,
        ancount: 0,
        nscount: 0,
        arcount: 0,
    }
}

#[test]
fn default_header_fields() {
    let h = DNSHeader::default();
    assert_eq!(h.packet_id, 1234);
    assert!(h.qr);
    assert_eq!(h.opcode, OpCode::Query);
    assert!(!h.aa && !h.tc && !h.rd && !h.ra);
    assert_eq!(h.z, 0);
    assert_eq!(h.rcode, RCode::NoError);
    assert_eq!((h.qdcount, h.ancount, h.nscount, h.arcount), (0, 0, 0, 0));
    assert!(h.is_wf());
}

#[test]
fn default_header_bytes() {
    let b = DNSHeader::default().to_bytes().unwrap();
    assert_eq!(b, [0x04, 0xD2, 0x80, 0x00, 0, 0, 0, 0, 0, 0, 0, 0]);
}

#[test]
fn header_is_twelve_octets() {
    let mut h = blank();
    h.packet_id = 0xFFFF;
    h.qdcount = 0xFFFF;
    h.arcount = 0xFFFF;
    let b = h.to_bytes().unwrap();
    assert_eq!(b.len(), 12);
}

#[test]
fn response_flag_fills_bit_seven() {
    let mut h = blank();
    h.qr = true;
    let b = h.to_bytes().unwrap();
    assert_eq!(b[2], 0x80);
    assert_eq!(b[3], 0x00);
}

#[test]
fn packet_id_is_big_endian() {
    let mut h = blank();
    h.packet_id = 1234;
    let b = h.to_bytes().unwrap();
    assert_eq!(&b[0..2], &[0x04, 0xD2]);
    h.packet_id = 0xABCD;
    let b = h.to_bytes().unwrap();
    assert_eq!(&b[0..2], &[0xAB, 0xCD]);
}

#[test]
fn each_flag_has_its_bit() {
    let mut h = blank();
    h.aa = true;
    assert_eq!(h.to_bytes().unwrap()[2], 0x04);
    let mut h = blank();
    h.tc = true;
    assert_eq!(h.to_bytes().unwrap()[2], 0x02);
    let mut h = blank();
    h.rd = true;
    assert_eq!(h.to_bytes().unwrap()[2], 0x01);
    let mut h = blank();
    h.ra = true;
    assert_eq!(h.to_bytes().unwrap()[3], 0x80);
}

#[test]
fn opcode_sits_in_bits_six_to_three() {
    let mut h = blank();
    h.opcode = OpCode::IQuery;
    assert_eq!(h.to_bytes().unwrap()[2], 0x08);
    h.opcode = OpCode::Status;
    assert_eq!(h.to_bytes().unwrap()[2], 0x10);
    h.opcode = OpCode::Notify;
    assert_eq!(h.to_bytes().unwrap()[2], 0x20);
    h.opcode = OpCode::Update;
    assert_eq!(h.to_bytes().unwrap()[2], 0x28);
    h.opcode = OpCode::DSO;
    assert_eq!(h.to_bytes().unwrap()[2], 0x30);
}

#[test]
fn reserved_field_sits_in_bits_six_to_four() {
    let mut h = blank();
    h.z = 1;
    assert_eq!(h.to_bytes().unwrap()[3], 0x10);
    h.z = 5;
    assert_eq!(h.to_bytes().unwrap()[3], 0x50);
    h.z = 7;
    assert_eq!(h.to_bytes().unwrap()[3], 0x70);
}

#[test]
fn rcode_sits_in_low_nibble() {
    let mut h = blank();
    h.rcode = RCode::NXDomain;
    assert_eq!(h.to_bytes().unwrap()[3], 0x03);
    h.rcode = RCode::Refused;
    h.ra = true;
    h.z = 7;
    assert_eq!(h.to_bytes().unwrap()[3], 0xF5);
}

#[test]
fn all_fields_set() {
    let h = DNSHeader {
        packet_id: 0xBEEF,
        qr: true,
        opcode: OpCode::DSO,
        aa: true,
        tc: true,
        rd: true,
        ra: true,
        z: 2,
        rcode: RCode::ServFail,
        qdcount: 1,
        ancount: 0x0203,
        nscount: 0xFF00,
        arcount: 0x00FF,
    };
    assert_eq!(
        h.to_bytes().unwrap(),
        [0xBE, 0xEF, 0xB7, 0xA2, 0x00, 0x01, 0x02, 0x03, 0xFF, 0x00, 0x00, 0xFF]
    );
}

#[test]
fn unassigned_opcode_is_an_error() {
    let mut h = blank();
    h.opcode = OpCode::Unassigned;
    assert_eq!(h.to_bytes(), Err(UnmappedVariant));
}

#[test]
fn wide_reserved_field_is_not_well_formed() {
    let mut h = blank();
    h.z = 7;
    assert!(h.is_wf());
    h.z = 8;
    assert!(!h.is_wf());
}
