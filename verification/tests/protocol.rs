use idreader::apdu::{
    licna_karta_aid, read_binary_apdu, select_aid_apdu, select_file_apdu, split_response,
    DOCUMENT_FILE, PERSONAL_FILE, PHOTO_FILE, RESIDENCE_FILE,
};
use idreader::detect::CardVariant;
use idreader::error::IdError;
use idreader::session::{read_whole_file_from_image, FileReadSession};

#[test]
fn select_file_apdu_bytes() {
    assert_eq!(select_file_apdu(PERSONAL_FILE, 4), vec![0x00, 0xa4, 0x08, 0x00, 0x02, 0x0F, 0x03, 0x04]);
    assert_eq!(select_file_apdu(DOCUMENT_FILE, 4), vec![0x00, 0xa4, 0x08, 0x00, 0x02, 0x0F, 0x02, 0x04]);
    assert_eq!(select_file_apdu(RESIDENCE_FILE, 4), vec![0x00, 0xa4, 0x08, 0x00, 0x02, 0x0F, 0x04, 0x04]);
    assert_eq!(select_file_apdu(PHOTO_FILE, 4), vec![0x00, 0xa4, 0x08, 0x00, 0x02, 0x0F, 0x06, 0x04]);
}

#[test]
fn select_aid_apdu_bytes() {
    let mut expected = vec![0x00, 0xa4, 0x04, 0x00, 0x0b];
    expected.extend_from_slice(&licna_karta_aid());
    assert_eq!(select_aid_apdu(), expected);
    assert_eq!(
        licna_karta_aid(),
        vec![0xF3, 0x81, 0x00, 0x00, 0x02, 0x53, 0x45, 0x52, 0x49, 0x44, 0x01]
    );
}

#[test]
fn read_binary_apdu_bytes() {
    // Offset split over P1/P2, length clamped to the 254-byte block size.
    assert_eq!(read_binary_apdu(0, 6), vec![0x00, 0xb0, 0x00, 0x00, 0x06]);
    assert_eq!(read_binary_apdu(0x1234, 1000), vec![0x00, 0xb0, 0x12, 0x34, 0xFE]);
    assert_eq!(read_binary_apdu(0x1234, 254), vec![0x00, 0xb0, 0x12, 0x34, 0xFE]);
    assert_eq!(read_binary_apdu(0x1234, 253), vec![0x00, 0xb0, 0x12, 0x34, 0xFD]);
    // Offsets beyond 16 bits are not representable and wrap silently:
    // the implicit file-size ceiling of the wire format.
    assert_eq!(read_binary_apdu(0x10005, 10), vec![0x00, 0xb0, 0x00, 0x05, 0x0A]);
}

#[test]
fn split_response_success() {
    assert_eq!(split_response(&[0x41, 0x42, 0x90, 0x00]), Ok(vec![0x41, 0x42]));
    assert_eq!(split_response(&[0x90, 0x00]), Ok(vec![]));
}

#[test]
fn split_response_bad_status() {
    // Security status not satisfied: the offending code is carried.
    assert_eq!(
        split_response(&[0x41, 0x69, 0x82]),
        Err(IdError::UnexpectedStatus(0x6982))
    );
    assert_eq!(
        IdError::UnexpectedStatus(0x6982).describe(),
        "Reader returned error code 0x6982"
    );
    assert_eq!(split_response(&[0x90]), Err(IdError::MalformedResponse));
    assert_eq!(split_response(&[]), Err(IdError::MalformedResponse));
}

#[test]
fn file_read_walks_select_header_body() {
    // A Gemalto file of 3 body bytes: header reports the length at
    // bytes 2..4, and the 4 header bytes land in the output buffer.
    let mut s = FileReadSession::new(CardVariant::Gemalto, PERSONAL_FILE, false);
    assert_eq!(s.request(), Some(select_file_apdu(PERSONAL_FILE, 4)));
    s.advance(&[0x90, 0x00]).unwrap();
    assert_eq!(s.request(), Some(read_binary_apdu(0, 4)));
    s.advance(&[0xAA, 0xBB, 0x03, 0x00, 0x90, 0x00]).unwrap();
    assert_eq!(s.request(), Some(read_binary_apdu(4, 3)));
    s.advance(&[0x07, 0x08, 0x09, 0x90, 0x00]).unwrap();
    assert!(s.is_done());
    assert_eq!(s.take_data(), vec![0xAA, 0xBB, 0x03, 0x00, 0x07, 0x08, 0x09]);
}

#[test]
fn file_read_short_block_causes_another_round() {
    // A response shorter than requested never ends the loop early; the
    // remaining count merely shrinks by what actually arrived.
    let mut s = FileReadSession::new(CardVariant::Gemalto, PERSONAL_FILE, false);
    s.advance(&[0x90, 0x00]).unwrap();
    s.advance(&[0x00, 0x00, 0x0A, 0x00, 0x90, 0x00]).unwrap(); // 10 bytes owed
    s.advance(&[1, 2, 3, 4, 0x90, 0x00]).unwrap(); // only 4 arrive
    assert!(!s.is_done());
    assert_eq!(s.request(), Some(read_binary_apdu(8, 6)));
    s.advance(&[0x90, 0x00]).unwrap(); // an empty block changes nothing
    assert!(!s.is_done());
    assert_eq!(s.request(), Some(read_binary_apdu(8, 6)));
    s.advance(&[5, 6, 7, 8, 9, 10, 0x90, 0x00]).unwrap();
    assert!(s.is_done());
    assert_eq!(s.take_data(), vec![0, 0, 10, 0, 1, 2, 3, 4, 5, 6, 7, 8, 9, 10]);
}

#[test]
fn file_read_fails_on_status_at_every_step() {
    // Every operation layered on the block read fails with the
    // offending status word and no data.
    let bad = [0x69, 0x82];

    let mut s = FileReadSession::new(CardVariant::Apollo, PERSONAL_FILE, false);
    assert_eq!(s.advance(&bad), Err(IdError::UnexpectedStatus(0x6982)));
    assert!(!s.is_done());

    let mut s = FileReadSession::new(CardVariant::Apollo, PERSONAL_FILE, false);
    s.advance(&[0x00, 0x00, 0x90, 0x00]).unwrap();
    assert_eq!(s.advance(&bad), Err(IdError::UnexpectedStatus(0x6982)));

    let mut s = FileReadSession::new(CardVariant::Apollo, PERSONAL_FILE, false);
    s.advance(&[0x00, 0x00, 0x90, 0x00]).unwrap();
    s.advance(&[0, 0, 0, 0, 5, 0, 0x90, 0x00]).unwrap();
    assert_eq!(s.advance(&bad), Err(IdError::UnexpectedStatus(0x6982)));
    assert!(s.request().is_none());
}

#[test]
fn file_read_rejects_malformed_shapes() {
    // Apollo select payload shorter than its two framing bytes.
    let mut s = FileReadSession::new(CardVariant::Apollo, PERSONAL_FILE, false);
    assert_eq!(s.advance(&[0x41, 0x90, 0x00]), Err(IdError::MalformedResponse));

    // Apollo header payload shorter than 6 bytes.
    let mut s = FileReadSession::new(CardVariant::Apollo, PERSONAL_FILE, false);
    s.advance(&[0x00, 0x00, 0x90, 0x00]).unwrap();
    assert_eq!(s.advance(&[0, 0, 0, 0, 0x90, 0x00]), Err(IdError::MalformedResponse));

    // Apollo photograph header reporting fewer bytes than its own
    // embedded header takes.
    let mut s = FileReadSession::new(CardVariant::Apollo, PHOTO_FILE, true);
    s.advance(&[0x00, 0x00, 0x90, 0x00]).unwrap();
    assert_eq!(s.advance(&[0, 0, 0, 0, 3, 0, 0x90, 0x00]), Err(IdError::MalformedResponse));

    // A block longer than what remained.
    let mut s = FileReadSession::new(CardVariant::Gemalto, PERSONAL_FILE, false);
    s.advance(&[0x90, 0x00]).unwrap();
    s.advance(&[0, 0, 2, 0, 0x90, 0x00]).unwrap();
    assert_eq!(s.advance(&[1, 2, 3, 0x90, 0x00]), Err(IdError::MalformedResponse));
}

#[test]
fn whole_file_block_count_is_rounded_up() {
    // 600 body bytes are not a multiple of 254: the loop takes exactly
    // ceil(600 / 254) = 3 block reads, and the blocks concatenate to
    // the original bytes in order.
    let body: Vec<u8> = (0..600u32).map(|i| (i % 251) as u8).collect();
    let mut image = vec![0x00, 0x00, 0x58, 0x02]; // 600 = 0x0258, little-endian
    image.extend_from_slice(&body);
    let (data, rounds) = read_whole_file_from_image(CardVariant::Gemalto, PERSONAL_FILE, false, &image);
    assert_eq!(rounds, 3);
    assert_eq!(data, image);

    let (data, rounds) = read_whole_file_from_image(CardVariant::Gemalto, PHOTO_FILE, true, &image);
    assert_eq!(rounds, 3);
    assert_eq!(data, body);
}

#[test]
fn whole_file_apollo_counts_and_bytes() {
    // 700 body bytes behind the 6-byte Apollo header: 3 block reads.
    let body: Vec<u8> = (0..700u32).map(|i| (i % 249) as u8).collect();
    let mut image = vec![0x0F, 0x03, 0x00, 0x00, 0xBC, 0x02]; // 700 = 0x02BC
    image.extend_from_slice(&body);
    let (data, rounds) = read_whole_file_from_image(CardVariant::Apollo, PERSONAL_FILE, false, &image);
    assert_eq!(rounds, 3);
    assert_eq!(data, body);

    // Exactly one full block takes one read.
    let body = vec![0x55u8; 254];
    let mut image = vec![0, 0, 0, 0, 254, 0];
    image.extend_from_slice(&body);
    let (data, rounds) = read_whole_file_from_image(CardVariant::Apollo, PERSONAL_FILE, false, &image);
    assert_eq!(rounds, 1);
    assert_eq!(data, body);
}

#[test]
fn whole_file_apollo_strip_scenario() {
    // The header reports length 10 and the strip flag is on: the read
    // returns exactly 10 - 4 = 6 bytes, starting 4 bytes past the
    // header, in a single 254-byte-capped block read.
    let image = vec![
        0x00, 0x00, 0x00, 0x00, 10, 0x00, // header: length 10 at bytes 4..6
        0xAA, 0xBB, 0xCC, 0xDD, // embedded tag+length header, skipped
        1, 2, 3, 4, 5, 6, // the payload
    ];
    let (data, rounds) = read_whole_file_from_image(CardVariant::Apollo, PHOTO_FILE, true, &image);
    assert_eq!(data, vec![1, 2, 3, 4, 5, 6]);
    assert_eq!(rounds, 1);
}

#[test]
fn whole_file_empty_body() {
    let image = vec![0x00, 0x00, 0x00, 0x00];
    let (data, rounds) = read_whole_file_from_image(CardVariant::Gemalto, PERSONAL_FILE, true, &image);
    assert_eq!(data, vec![]);
    assert_eq!(rounds, 0);
}
