use idreader::detect::{apollo_signature, gemalto_signature, CardVariant};
use idreader::error::IdError;
use idreader::record::{PersonalId, PersonalIdItem};
use idreader::session::ReadIdSession;
use idreader::tags::{tag_code, tag_description, tag_json_id, PersonalIdTag, PersonalIdTagType};
use idreader::tlv::TlvMap;

fn fresh_record() -> PersonalId {
    PersonalId::new(&apollo_signature()).unwrap()
}

#[test]
fn item_new_reads_valid_text() {
    let mut m = TlvMap::new();
    m.insert(tag_code(PersonalIdTag::GivenName), b"Ana".to_vec());
    let item = PersonalIdItem::new(PersonalIdTag::GivenName, &m).unwrap();
    assert_eq!(item.tag, PersonalIdTag::GivenName);
    assert_eq!(item.value, "Ana");
}

#[test]
fn item_new_skips_absent_and_invalid() {
    let mut m = TlvMap::new();
    m.insert(tag_code(PersonalIdTag::Surname), vec![0xFF, 0xFE, 0x41]);
    assert!(PersonalIdItem::new(PersonalIdTag::Surname, &m).is_none());
    assert!(PersonalIdItem::new(PersonalIdTag::GivenName, &m).is_none());
}

#[test]
fn merge_keeps_valid_drops_invalid_leaves_absent() {
    let mut id = fresh_record();
    let mut m = TlvMap::new();
    m.insert(tag_code(PersonalIdTag::GivenName), b"Ana".to_vec());
    m.insert(tag_code(PersonalIdTag::Surname), vec![0xFF, 0xFE]); // not UTF-8
    id.fit_in(&m);

    // Valid text appears with exactly that text.
    let item = id.get_item(PersonalIdTag::GivenName).unwrap();
    assert_eq!(item.value, "Ana");
    // Invalid text bytes: the tag is silently absent, not an error.
    assert!(id.get_item(PersonalIdTag::Surname).is_none());
    // A tag the file does not carry is absent.
    assert!(id.get_item(PersonalIdTag::Street).is_none());
}

#[test]
fn merge_decodes_multibyte_text() {
    let mut id = fresh_record();
    let mut m = TlvMap::new();
    // "Đorđe" in UTF-8: two 2-byte characters among plain ASCII.
    m.insert(
        tag_code(PersonalIdTag::ParentGivenName),
        vec![0xC4, 0x90, 0x6F, 0x72, 0xC4, 0x91, 0x65],
    );
    id.fit_in(&m);
    let item = id.get_item(PersonalIdTag::ParentGivenName).unwrap();
    assert_eq!(item.value, "Đorđe");
    assert_eq!(item.value.chars().count(), 5);
}

#[test]
fn remerge_overwrites_redefined_tag() {
    let mut id = fresh_record();
    let mut first = TlvMap::new();
    first.insert(tag_code(PersonalIdTag::State), b"SRB".to_vec());
    first.insert(tag_code(PersonalIdTag::Place), b"Nis".to_vec());
    id.fit_in(&first);

    let mut second = TlvMap::new();
    second.insert(tag_code(PersonalIdTag::State), b"MNE".to_vec());
    id.fit_in(&second);

    // The second file's value wins for the redefined tag ...
    assert_eq!(id.get_item(PersonalIdTag::State).unwrap().value, "MNE");
    // ... and the first file's other field still stands.
    assert_eq!(id.get_item(PersonalIdTag::Place).unwrap().value, "Nis");
}

#[test]
fn merge_file_decodes_and_merges() {
    let mut id = fresh_record();
    let buffer = idreader::tlv::tlv_encode(&vec![
        (tag_code(PersonalIdTag::GivenName), b"Mila".to_vec()),
        (tag_code(PersonalIdTag::Sex), vec![0xC0]), // not UTF-8, skipped
    ]);
    id.merge_file(&buffer).unwrap();
    assert_eq!(id.get_item(PersonalIdTag::GivenName).unwrap().value, "Mila");
    assert!(id.get_item(PersonalIdTag::Sex).is_none());

    // A malformed buffer is an error and leaves the record unchanged.
    assert_eq!(id.merge_file(&vec![0x01]), Err(IdError::MalformedTlv));
    assert_eq!(id.get_item(PersonalIdTag::GivenName).unwrap().value, "Mila");
}

#[test]
fn tag_catalogue_entries() {
    assert_eq!(tag_code(PersonalIdTag::DocRegNo), 1546);
    assert_eq!(tag_code(PersonalIdTag::AddressDate), 1580);
    assert_eq!(tag_code(PersonalIdTag::Absent), 0);
    assert_eq!(tag_description(PersonalIdTag::PersonalNumber), "JMBG");
    assert_eq!(tag_description(PersonalIdTag::PlaceOfBirth), "Mesto rođenja");
    assert_eq!(tag_json_id(PersonalIdTag::PersonalNumber), "PersonalNumber");
    let t = PersonalIdTagType::of(PersonalIdTag::Surname);
    assert_eq!(t.id, PersonalIdTag::Surname);
    assert_eq!(t.description, "Prezime");
    assert_eq!(t.json_id, "Surname");
    let d = PersonalIdTagType::default();
    assert_eq!(d.id, PersonalIdTag::Absent);
    assert_eq!(d.description, "");
    let it = PersonalIdItem::default();
    assert_eq!(it.tag, PersonalIdTag::Absent);
    assert_eq!(it.value, "");
}

#[test]
fn to_json_exact_output() {
    let mut id = fresh_record();
    let mut m = TlvMap::new();
    m.insert(tag_code(PersonalIdTag::GivenName), b"Ana".to_vec());
    id.fit_in(&m);
    id.set_image(vec![0, 0, 0]);
    // base64 of three zero bytes is "AAAA"; an identity-like encoding
    // would fail this comparison.
    assert_eq!(id.to_json(), "{\"GivenName\": \"Ana\",\n\"Image\": \"AAAA\"\n}");
}

#[test]
fn to_json_empty_record() {
    let id = fresh_record();
    assert_eq!(id.to_json(), "{\"Image\": \"\"\n}");
}

#[test]
fn read_id_apollo_end_to_end() {
    let id = fresh_record();
    let mut s = ReadIdSession::new(id);

    // Apollo needs no application select: the first request is already
    // the SELECT of the personal-data file.
    assert_eq!(
        s.request().unwrap(),
        idreader::apdu::select_file_apdu(idreader::apdu::PERSONAL_FILE, 4)
    );

    // Three structured files, each a single-field TLV body.
    let files: [(u16, &[u8]); 3] = [
        (tag_code(PersonalIdTag::GivenName), b"Ana"),
        (tag_code(PersonalIdTag::State), b"SRB"),
        (tag_code(PersonalIdTag::DocRegNo), b"12345"),
    ];
    for (code, text) in files {
        let body = idreader::tlv::tlv_encode(&vec![(code, text.to_vec())]);
        s.advance(&[0x00, 0x00, 0x90, 0x00]).unwrap(); // select file
        let hdr = vec![0x00, 0x00, 0x00, 0x00, body.len() as u8, 0x00, 0x90, 0x00];
        s.advance(&hdr).unwrap(); // header: length of the body
        let mut block = body.clone();
        block.extend_from_slice(&[0x90, 0x00]);
        s.advance(&block).unwrap(); // the whole body in one block
    }

    // The photograph file: 4 embedded header bytes are skipped.
    let photo = [9u8, 8, 7, 6, 5];
    s.advance(&[0x00, 0x00, 0x90, 0x00]).unwrap(); // select file
    s.advance(&[0x00, 0x00, 0x00, 0x00, 9, 0x00, 0x90, 0x00]).unwrap(); // 4 + 5 bytes
    let mut block = photo.to_vec();
    block.extend_from_slice(&[0x90, 0x00]);
    s.advance(&block).unwrap();

    assert!(s.is_done());
    assert!(s.request().is_none());
    let id = s.finish();
    assert_eq!(id.get_item(PersonalIdTag::GivenName).unwrap().value, "Ana");
    assert_eq!(id.get_item(PersonalIdTag::State).unwrap().value, "SRB");
    assert_eq!(id.get_item(PersonalIdTag::DocRegNo).unwrap().value, "12345");
    assert!(id.get_item(PersonalIdTag::Surname).is_none());
    assert_eq!(id.image_bytes(), &vec![9, 8, 7, 6, 5]);
}

#[test]
fn read_id_gemalto_selects_application_first() {
    let id = PersonalId::new(&gemalto_signature()).unwrap();
    assert_eq!(id.card_variant(), CardVariant::Gemalto);
    let mut s = ReadIdSession::new(id);
    assert_eq!(s.request().unwrap(), idreader::apdu::select_aid_apdu());
    s.advance(&[0x90, 0x00]).unwrap();
    assert_eq!(
        s.request().unwrap(),
        idreader::apdu::select_file_apdu(idreader::apdu::PERSONAL_FILE, 4)
    );
}

#[test]
fn read_id_gemalto_end_to_end() {
    let id = PersonalId::new(&gemalto_signature()).unwrap();
    let mut s = ReadIdSession::new(id);
    s.advance(&[0x90, 0x00]).unwrap(); // application select

    // Three structured files. A Gemalto whole-file read accumulates the
    // 4 header bytes into the buffer, so a file whose header is itself
    // a tag/length prefix decodes as that one record.
    let files: [(u16, &[u8]); 3] = [
        (tag_code(PersonalIdTag::Surname), b"Peric"),
        (tag_code(PersonalIdTag::Community), b"Zvezdara"),
        (tag_code(PersonalIdTag::ExpiryDate), b"01.01.2030"),
    ];
    for (code, text) in files {
        s.advance(&[0x90, 0x00]).unwrap(); // select file
        let hdr = vec![
            (code % 256) as u8,
            (code / 256) as u8,
            text.len() as u8,
            0x00,
            0x90,
            0x00,
        ];
        s.advance(&hdr).unwrap(); // header: tag and body length
        let mut block = text.to_vec();
        block.extend_from_slice(&[0x90, 0x00]);
        s.advance(&block).unwrap();
    }

    // The photograph: the 4 accumulated header bytes are stripped off
    // the assembled buffer, leaving the body verbatim.
    let photo = [1u8, 2, 3];
    s.advance(&[0x90, 0x00]).unwrap(); // select file
    s.advance(&[0x00, 0x00, photo.len() as u8, 0x00, 0x90, 0x00]).unwrap();
    let mut block = photo.to_vec();
    block.extend_from_slice(&[0x90, 0x00]);
    s.advance(&block).unwrap();

    assert!(s.is_done());
    let id = s.finish();
    assert_eq!(id.get_item(PersonalIdTag::Surname).unwrap().value, "Peric");
    assert_eq!(id.get_item(PersonalIdTag::Community).unwrap().value, "Zvezdara");
    assert_eq!(id.get_item(PersonalIdTag::ExpiryDate).unwrap().value, "01.01.2030");
    assert_eq!(id.image_bytes(), &vec![1, 2, 3]);
}

#[test]
fn read_id_fails_without_partial_record() {
    // A bad status at the application select parks the whole read.
    let id = PersonalId::new(&gemalto_signature()).unwrap();
    let mut s = ReadIdSession::new(id);
    assert_eq!(s.advance(&[0x69, 0x82]), Err(IdError::UnexpectedStatus(0x6982)));
    assert!(s.is_failed());
    assert!(!s.is_done());
    assert!(s.request().is_none());

    // A bad status in the middle of a file read does the same.
    let id = fresh_record();
    let mut s = ReadIdSession::new(id);
    s.advance(&[0x00, 0x00, 0x90, 0x00]).unwrap();
    assert_eq!(s.advance(&[0x69, 0x82]), Err(IdError::UnexpectedStatus(0x6982)));
    assert!(s.is_failed());
}

#[test]
fn error_descriptions() {
    assert_eq!(IdError::UnknownCardType.describe(), "Unknown card type");
    assert_eq!(IdError::MalformedResponse.describe(), "Malformed response from card");
    assert_eq!(IdError::MalformedTlv.describe(), "Malformed TLV data");
    assert_eq!(IdError::UnexpectedStatus(0x6A82).describe(), "Reader returned error code 0x6a82");
    assert_eq!(IdError::UnexpectedStatus(0x9001).describe(), "Reader returned error code 0x9001");
}
