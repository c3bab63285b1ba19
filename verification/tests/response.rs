use bytes::Bytes;
use dns_query::request::DNSRequest;
use dns_query::response::{DNSResponse, DecodeError};

#[test]
fn a_fresh_response_has_the_fields_of_a_plain_query() {
    let resp = DNSResponse::with_id(3);
    assert_eq!(resp.id, 3);
    assert!(!resp.qr && !resp.aa && !resp.tc && resp.rd && !resp.ra);
    assert_eq!((resp.opcode, resp.z, resp.rcode), (0, 0, 0));
    assert_eq!((resp.ancount, resp.nscount, resp.arcount), (0, 0, 0));
    let random = DNSResponse::new();
    assert_eq!(random, DNSResponse::with_id(random.id));
}

#[test]
fn from_buffer_reads_the_identifier_and_the_flags() {
    let mut buf = Bytes::from_static(&[0x34, 0x12, 0x81, 0x80]);
    let mut resp = DNSResponse::with_id(0);
    assert_eq!(resp.from_buffer(&mut buf), Ok(()));
    assert_eq!(resp.id, 0x1234);
    assert!(resp.qr);
    assert_eq!(resp.opcode, 0);
    assert!(!resp.aa);
    assert!(!resp.tc);
    assert!(resp.rd);
    assert!(resp.ra);
    assert_eq!(resp.z, 0);
    assert_eq!(resp.rcode, 0);
    assert!(buf.is_empty());
}

#[test]
fn from_buffer_takes_four_bytes_and_leaves_the_rest() {
    let mut buf = Bytes::from_static(&[0xFF, 0x00, 0x2A, 0x53, 0, 1, 0, 2, 9, 9, 9, 9, 42]);
    let mut resp = DNSResponse::with_id(0);
    resp.ancount = 77;
    assert_eq!(resp.from_buffer(&mut buf), Ok(()));
    assert_eq!(resp.id, 0x00FF);
    assert_eq!((resp.qr, resp.opcode, resp.aa, resp.tc, resp.rd), (false, 5, false, true, false));
    assert_eq!((resp.ra, resp.z, resp.rcode), (false, 5, 3));
    assert_eq!((resp.ancount, resp.nscount, resp.arcount), (77, 0, 0));
    assert_eq!(&buf[..], &[0, 1, 0, 2, 9, 9, 9, 9, 42]);
}

#[test]
fn from_buffer_fails_on_a_short_stream_and_changes_nothing() {
    for len in 0usize..4 {
        let bytes: Vec<u8> = vec![0xAA; len];
        let mut buf = Bytes::from(bytes.clone());
        let mut resp = DNSResponse::with_id(0x5555);
        let before = resp;
        assert_eq!(resp.from_buffer(&mut buf), Err(DecodeError::Underrun { available: len }));
        assert_eq!(resp, before);
        assert_eq!(&buf[..], &bytes[..]);
    }
}

#[test]
fn from_buffer_reads_back_what_to_buffer_wrote() {
    let mut req = DNSRequest::with_id(0xC0DE);
    req.opcode = 9;
    req.tc = true;
    req.z = 2;
    req.rcode = 11;
    req.add_question("example.org");
    let mut buf = req.to_buffer().freeze();
    let mut resp = DNSResponse::with_id(0);
    assert_eq!(resp.from_buffer(&mut buf), Ok(()));
    assert_eq!(resp.id, 0xC0DE);
    assert_eq!((resp.qr, resp.opcode, resp.aa, resp.tc, resp.rd), (false, 9, false, true, true));
    assert_eq!((resp.ra, resp.z, resp.rcode), (false, 2, 11));
    assert_eq!(buf.len(), req.to_buffer().len() - 4);
}

#[test]
fn header_flags_of_a_decoded_response() {
    let mut buf = Bytes::from_static(&[0, 0, 0xFF, 0xFF]);
    let mut resp = DNSResponse::with_id(1);
    assert_eq!(resp.from_buffer(&mut buf), Ok(()));
    let flags = resp.header_flags();
    assert!(flags.qr && flags.aa && flags.tc && flags.rd && flags.ra);
    assert_eq!((flags.opcode, flags.z, flags.rcode), (15, 7, 15));
    assert_eq!(resp.id, 0);
}
