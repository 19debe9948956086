use idreader::detect::{
    apollo_signature, detect_card, gemalto_1_signature, gemalto_even_newer_signature,
    gemalto_new_signature, gemalto_signature, CardVariant,
};
use idreader::error::IdError;
use idreader::record::PersonalId;

#[test]
fn detect_apollo() {
    let atr = apollo_signature();
    assert_eq!(detect_card(&atr), Ok(CardVariant::Apollo));
}

#[test]
fn detect_gemalto_all_revisions() {
    for atr in [
        gemalto_signature(),
        gemalto_new_signature(),
        gemalto_even_newer_signature(),
        gemalto_1_signature(),
    ] {
        assert_eq!(detect_card(&atr), Ok(CardVariant::Gemalto));
    }
}

#[test]
fn detect_unknown_signature() {
    assert_eq!(detect_card(&[0x3B, 0x00, 0x01]), Err(IdError::UnknownCardType));
    assert_eq!(detect_card(&[]), Err(IdError::UnknownCardType));
}

#[test]
fn detect_no_prefix_matching() {
    // A truncated or extended known signature must not match.
    let mut atr = apollo_signature();
    atr.pop();
    assert_eq!(detect_card(&atr), Err(IdError::UnknownCardType));
    let mut atr = gemalto_signature();
    atr.push(0x00);
    assert_eq!(detect_card(&atr), Err(IdError::UnknownCardType));
}

#[test]
fn record_construction_follows_detection() {
    let id = PersonalId::new(&apollo_signature()).unwrap();
    assert_eq!(id.card_variant(), CardVariant::Apollo);
    assert!(id.items().is_empty());
    assert!(id.image_bytes().is_empty());

    let id = PersonalId::new(&gemalto_new_signature()).unwrap();
    assert_eq!(id.card_variant(), CardVariant::Gemalto);

    match PersonalId::new(&[0x01, 0x02, 0x03]) {
        Err(err) => {
            assert_eq!(err, IdError::UnknownCardType);
            assert_eq!(err.describe(), "Unknown card type");
        },
        Ok(_) => panic!("an unknown signature must not construct a record"),
    }
}
