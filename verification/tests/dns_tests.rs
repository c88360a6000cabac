use rust_in_action::dns::{DnsMessageType, DnsQuery, DomainName, OP_CODE_QUERY, RECORD_TYPE_A};
use rust_in_action::dns::{
    build_query, first_a_record, message_id, message_id_from, parse_response, DnsAnswer, DnsError,
};

#[test]
fn message_ids_are_never_zero() {
    assert_eq!(message_id_from(0), 1);
    assert_eq!(message_id_from(1), 1);
    assert_eq!(message_id_from(0xbeef), 0xbeef);
    for _ in 0..1000 {
        assert_ne!(message_id(), 0);
    }
}

#[test]
fn query_bytes() {
    let bytes = build_query("example.com", 0x1234).unwrap();
    let expected: Vec<u8> = vec![
        0x12, 0x34, 0x01, 0x00, 0x00, 0x01, 0x00, 0x00, 0x00, 0x00, 0x00, 0x00, 7, b'e', b'x',
        b'a', b'm', b'p', b'l', b'e', 3, b'c', b'o', b'm', 0, 0x00, 0x01, 0x00, 0x01,
    ];
    assert_eq!(bytes, expected);
}

#[test]
fn invalid_domain_name() {
    let long_label = "a".repeat(64) + ".com";
    assert!(matches!(build_query(&long_label, 1), Err(DnsError::ParseDomainName(_))));
}

fn response() -> Vec<u8> {
    let mut r: Vec<u8> = vec![0x12, 0x34, 0x81, 0x80, 0x00, 0x01, 0x00, 0x02, 0x00, 0x00, 0x00, 0x00];
    r.extend_from_slice(&[7, b'e', b'x', b'a', b'm', b'p', b'l', b'e', 3, b'c', b'o', b'm', 0, 0, 1, 0, 1]);
    // CNAME answer pointing back at the question name
    r.extend_from_slice(&[0xc0, 0x0c, 0x00, 0x05, 0x00, 0x01, 0, 0, 0x0e, 0x10, 0x00, 0x02, 0xc0, 0x0c]);
    // A answer
    r.extend_from_slice(&[0xc0, 0x0c, 0x00, 0x01, 0x00, 0x01, 0, 0, 0x0e, 0x10, 0x00, 0x04, 93, 184, 216, 34]);
    r
}

#[test]
fn reply_gives_first_address() {
    assert_eq!(parse_response(&response()).unwrap(), Some([93, 184, 216, 34]));
}

#[test]
fn reply_without_answers() {
    let mut r = response();
    r[7] = 0;
    r.truncate(12 + 17);
    assert_eq!(parse_response(&r).unwrap(), None);
}

#[test]
fn garbage_reply_is_a_decoding_error() {
    assert!(matches!(parse_response(&[0x12]), Err(DnsError::Decoding(_))));
}

#[test]
fn first_a_record_skips_other_records() {
    let answers = vec![
        DnsAnswer { record_type: 5, a_data: None },
        DnsAnswer { record_type: 1, a_data: None },
        DnsAnswer { record_type: 1, a_data: Some([1, 2, 3, 4]) },
        DnsAnswer { record_type: 1, a_data: Some([5, 6, 7, 8]) },
    ];
    assert_eq!(first_a_record(&answers), Some([1, 2, 3, 4]));
    assert_eq!(first_a_record(&vec![]), None);
}

#[test]
fn a_lookup_asks_for_a_records_recursively() {
    let name = DomainName::parse("example.org").unwrap();
    let q = DnsQuery::a_lookup(name, 77);
    assert_eq!(q.id, 77);
    assert_eq!(q.record_type, RECORD_TYPE_A);
    assert_eq!(q.message_type, DnsMessageType::Query);
    assert_eq!(q.op_code, OP_CODE_QUERY);
    assert!(q.recursion_desired);
}

#[test]
fn encoding_a_lookup_gives_the_query_bytes() {
    let q = DnsQuery::a_lookup(DomainName::parse("example.com").unwrap(), 0x1234);
    assert_eq!(q.encode().unwrap(), build_query("example.com", 0x1234).unwrap());
}
