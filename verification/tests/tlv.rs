use idreader::error::IdError;
use idreader::tlv::{le16, parse_tlv, tlv_encode};

#[test]
fn le16_reads_little_endian() {
    assert_eq!(le16(0x0A, 0x06), 0x060A);
    assert_eq!(le16(0xFF, 0xFF), 0xFFFF);
    assert_eq!(le16(0x00, 0x00), 0x0000);
}

#[test]
fn decode_one_record() {
    let buf = vec![0x0A, 0x06, 0x02, 0x00, 0x41, 0x42];
    let m = parse_tlv(&buf).unwrap();
    assert_eq!(m.get(1546), Some(&vec![0x41, 0x42]));
    assert_eq!(m.get(1547), None);
}

#[test]
fn decode_empty_buffer_is_empty_mapping() {
    let m = parse_tlv(&vec![]).unwrap();
    assert!(m.is_empty());
    assert_eq!(m.get(0), None);
}

fn expect_malformed(buf: Vec<u8>) {
    match parse_tlv(&buf) {
        Err(e) => assert_eq!(e, IdError::MalformedTlv),
        Ok(_) => panic!("a malformed buffer must not decode"),
    }
}

#[test]
fn decode_truncated_prefix_fails() {
    // Not even a whole tag/length prefix.
    expect_malformed(vec![0x0A]);
    expect_malformed(vec![0x0A, 0x06, 0x02]);
}

#[test]
fn decode_truncated_value_fails() {
    // The announced value length runs past the buffer end.
    expect_malformed(vec![0x0A, 0x06, 0x05, 0x00, 0x41]);
}

#[test]
fn decode_truncated_trailing_record_fails() {
    // A good record followed by a cut-off one fails the whole decode.
    expect_malformed(vec![0x0A, 0x06, 0x01, 0x00, 0x41, 0x0B, 0x06, 0x09]);
}

#[test]
fn decode_repeated_tag_keeps_the_later_value() {
    let buf = vec![
        0x0A, 0x06, 0x01, 0x00, 0x41, // tag 1546 -> [0x41]
        0x0A, 0x06, 0x01, 0x00, 0x42, // tag 1546 -> [0x42], wins
    ];
    let m = parse_tlv(&buf).unwrap();
    assert_eq!(m.get(1546), Some(&vec![0x42]));
}

#[test]
fn encode_lays_records_back_to_back() {
    let pairs = vec![(0x060A_u16, vec![0x41, 0x42]), (0xFFFF_u16, vec![])];
    let encoded = tlv_encode(&pairs);
    assert_eq!(encoded, vec![0x0A, 0x06, 0x02, 0x00, 0x41, 0x42, 0xFF, 0xFF, 0x00, 0x00]);
}

#[test]
fn decode_is_left_inverse_of_encode() {
    let big = vec![0xA5u8; 300];
    let pairs = vec![
        (1546u16, vec![1, 2, 3]),
        (1559u16, vec![]),
        (40000u16, big.clone()),
        (0u16, vec![0xFF]),
    ];
    let m = parse_tlv(&tlv_encode(&pairs)).unwrap();
    assert_eq!(m.get(1546), Some(&vec![1, 2, 3]));
    assert_eq!(m.get(1559), Some(&vec![]));
    assert_eq!(m.get(40000), Some(&big));
    assert_eq!(m.get(0), Some(&vec![0xFF]));
    // ... and nothing else is present.
    assert_eq!(m.get(1547), None);
    assert_eq!(m.get(1), None);
}

#[test]
fn map_insert_overwrites() {
    let mut m = idreader::tlv::TlvMap::new();
    assert!(m.is_empty());
    m.insert(7, vec![1]);
    m.insert(8, vec![2]);
    m.insert(7, vec![3]);
    assert_eq!(m.get(7), Some(&vec![3]));
    assert_eq!(m.get(8), Some(&vec![2]));
    assert!(!m.is_empty());
}
