use dns_query::flags::Flags;
use dns_query::request::DNSRequest;

#[test]
fn a_fresh_request_asks_for_recursion_and_nothing_else() {
    let req = DNSRequest::with_id(0xBEEF);
    assert_eq!(req.id, 0xBEEF);
    assert!(!req.qr && !req.aa && !req.tc && req.rd && !req.ra);
    assert_eq!((req.opcode, req.z, req.rcode), (0, 0, 0));
    assert_eq!((req.ancount, req.nscount, req.arcount), (0, 0, 0));
    assert_eq!(req.qdcount(), 0);
    assert!(req.names.is_empty());
}

#[test]
fn new_differs_from_with_id_in_the_identifier_only() {
    let req = DNSRequest::new();
    let same = DNSRequest::with_id(req.id);
    assert_eq!(&req.to_buffer()[..], &same.to_buffer()[..]);
}

#[test]
fn to_buffer_without_questions_is_the_header_alone() {
    let req = DNSRequest::with_id(0x1234);
    let buf = req.to_buffer();
    assert_eq!(buf.len(), 12);
    assert_eq!(&buf[..], &[0x34, 0x12, 0x01, 0x00, 0, 0, 0, 0, 0, 0, 0, 0]);
    assert_eq!(&buf[4..6], &[0, 0]);
    assert_eq!(&buf[6..12], &[0, 0, 0, 0, 0, 0]);
}

#[test]
fn to_buffer_writes_the_identifier_low_octet_first() {
    let buf = DNSRequest::with_id(0xABCD).to_buffer();
    assert_eq!(&buf[0..2], &[0xCD, 0xAB]);
}

#[test]
fn to_buffer_with_one_question() {
    let mut req = DNSRequest::with_id(7);
    req.add_question("www.wp.pl");
    let buf = req.to_buffer();
    assert_eq!(&buf[..12], &[7, 0, 0x01, 0x00, 0, 1, 0, 0, 0, 0, 0, 0]);
    assert_eq!(
        &buf[12..],
        &[3, b'w', b'w', b'w', 2, b'w', b'p', 2, b'p', b'l', 0, 0, 1, 0, 1]
    );
    // eleven octets of name, two of type, two of class
    assert_eq!(buf.len(), 12 + 11 + 4);
}

#[test]
fn add_question_counts_each_question_once() {
    let mut req = DNSRequest::with_id(1);
    assert_eq!(req.qdcount(), 0);
    req.add_question("www.wp.pl");
    assert_eq!(req.qdcount(), 1);
    req.add_question("www.vatican.va");
    assert_eq!(req.qdcount(), 2);
    assert_eq!(req.names[0], vec!["www", "wp", "pl"]);
    assert_eq!(req.names[1], vec!["www", "vatican", "va"]);
    assert_eq!(req.id, 1);
    assert!(req.rd);
}

#[test]
fn to_buffer_with_two_questions() {
    let mut req = DNSRequest::with_id(0x0102);
    let first = String::from("www.wp.pl");
    let second = String::from("www.vatican.va");
    req.add_question(&first);
    req.add_question(&second);
    let buf = req.to_buffer();
    let mut expected: Vec<u8> = vec![0x02, 0x01, 0x01, 0x00, 0, 2, 0, 0, 0, 0, 0, 0];
    expected.extend_from_slice(&[3, b'w', b'w', b'w', 2, b'w', b'p', 2, b'p', b'l', 0]);
    expected.extend_from_slice(&[0, 1, 0, 1]);
    expected.extend_from_slice(&[3, b'w', b'w', b'w', 7]);
    expected.extend_from_slice(b"vatican");
    expected.extend_from_slice(&[2, b'v', b'a', 0]);
    expected.extend_from_slice(&[0, 1, 0, 1]);
    assert_eq!(&buf[..], &expected[..]);
    // 12 + (10 + 5) + (15 + 5)
    assert_eq!(buf.len(), 47);
}

#[test]
fn to_buffer_packs_the_flags_and_writes_the_counts_high_octet_first() {
    let mut req = DNSRequest::with_id(0);
    req.qr = true;
    req.opcode = 2;
    req.aa = true;
    req.rd = false;
    req.ra = true;
    req.z = 5;
    req.rcode = 3;
    req.ancount = 0x0102;
    req.nscount = 0x0304;
    req.arcount = 0x0506;
    let buf = req.to_buffer();
    assert_eq!(&buf[..], &[0, 0, 0x94, 0xD3, 0, 0, 1, 2, 3, 4, 5, 6]);
}

#[test]
fn to_buffer_writes_the_question_count_high_octet_first() {
    let mut req = DNSRequest::with_id(0);
    for _ in 0..258 {
        req.add_question("");
    }
    assert_eq!(req.qdcount(), 258);
    let buf = req.to_buffer();
    assert_eq!(&buf[4..6], &[1, 2]);
    // each empty name is one empty label, the end of the name, type and class
    assert_eq!(buf.len(), 12 + 258 * 6);
}

#[test]
fn to_buffer_grows_past_its_first_capacity() {
    let mut req = DNSRequest::with_id(0);
    let label = "a".repeat(63);
    let name = format!("{label}.{label}.{label}");
    for _ in 0..20 {
        req.add_question(&name);
    }
    let buf = req.to_buffer();
    assert_eq!(buf.len(), 12 + 20 * (3 * 64 + 5));
}

#[test]
fn to_buffer_leaves_the_request_as_it_was() {
    let mut req = DNSRequest::with_id(9);
    req.add_question("a.b");
    let first = req.to_buffer();
    let second = req.to_buffer();
    assert_eq!(first, second);
    assert_eq!(req.qdcount(), 1);
}

#[test]
fn add_question_takes_names_that_do_not_fit_the_wire_format() {
    let mut req = DNSRequest::with_id(0);
    let long = "a".repeat(256);
    req.add_question(&long);
    req.add_question("\u{142}");
    assert_eq!(req.qdcount(), 2);
    let buf = req.to_buffer();
    assert_eq!(buf.len(), 12 + (1 + 256 + 5) + (1 + 1 + 5));
    assert_eq!(buf[12], 0);
    assert_eq!(&buf[buf.len() - 7..], &[2, 0x42, 0, 0, 1, 0, 1]);
}

#[test]
fn fits_the_wire_holds_of_a_fresh_request() {
    let mut req = DNSRequest::new();
    assert!(req.fits_the_wire());
    req.add_question("www.wp.pl");
    assert!(req.fits_the_wire());
}

#[test]
fn fits_the_wire_fails_on_a_field_too_wide() {
    let mut req = DNSRequest::with_id(0);
    req.opcode = 16;
    assert!(!req.fits_the_wire());
    req.opcode = 15;
    req.z = 8;
    assert!(!req.fits_the_wire());
    req.z = 7;
    req.rcode = 16;
    assert!(!req.fits_the_wire());
    req.rcode = 15;
    assert!(req.fits_the_wire());
}

#[test]
fn fits_the_wire_fails_on_more_questions_than_the_count_can_state() {
    let mut req = DNSRequest::with_id(0);
    for _ in 0..65535 {
        req.names.push(Vec::new());
    }
    assert!(req.fits_the_wire());
    assert_eq!(req.qdcount(), 65535);
    req.names.push(Vec::new());
    assert!(!req.fits_the_wire());
}

#[test]
fn header_flags_gathers_the_flag_fields() {
    let mut req = DNSRequest::with_id(0);
    req.tc = true;
    req.opcode = 4;
    req.rcode = 2;
    let flags = req.header_flags();
    assert_eq!(
        flags,
        Flags { qr: false, opcode: 4, aa: false, tc: true, rd: true, ra: false, z: 0, rcode: 2 }
    );
}
