use vstd::prelude::*;
use crate::error::IdError;

verus! {

/// The two known card-chip families. The set of variants is fixed, so the
/// protocol operations dispatch on this tag rather than through indirection.
#[derive(Clone, Copy, Debug, PartialEq, Eq, Structural)]
pub enum CardVariant {
    /// The Apollo chip family.
    Apollo,
    /// The Gemalto chip family (several firmware revisions, one behaviour).
    Gemalto,
}

/// The reset signature of the Apollo chip family.
pub open spec fn spec_apollo_signature() -> Seq<u8> {
    seq![
        0x3bu8, 0xb9, 0x18, 0x00, 0x81, 0x31, 0xfe, 0x9e, 0x80, 0x73, 0xff, 0x61, 0x40, 0x83,
        0x00, 0x00, 0x00, 0xdf,
    ]
}

/// The reset signature of the first known Gemalto firmware revision.
pub open spec fn spec_gemalto_signature() -> Seq<u8> {
    seq![
        0x3Bu8, 0xFF, 0x94, 0x00, 0x00, 0x81, 0x31, 0x80, 0x43, 0x80, 0x31, 0x80, 0x65, 0xB0,
        0x85, 0x02, 0x01, 0xF3, 0x12, 0x0F, 0xFF, 0x82, 0x90, 0x00, 0x79,
    ]
}

/// The reset signature of a later Gemalto firmware revision.
pub open spec fn spec_gemalto_new_signature() -> Seq<u8> {
    seq![
        0x3Bu8, 0xF9, 0x96, 0x00, 0x00, 0x80, 0x31, 0xFE, 0x45, 0x53, 0x43, 0x45, 0x37, 0x20,
        0x47, 0x43, 0x4E, 0x33, 0x5E,
    ]
}

/// The reset signature of a still later Gemalto firmware revision.
pub open spec fn spec_gemalto_even_newer_signature() -> Seq<u8> {
    seq![
        0x3Bu8, 0x9E, 0x96, 0x80, 0x31, 0xFE, 0x45, 0x53, 0x43, 0x45, 0x20, 0x38, 0x2E, 0x30,
        0x2D, 0x43, 0x31, 0x56, 0x30, 0x0D, 0x0A, 0x6F,
    ]
}

/// The reset signature of the newest known Gemalto firmware revision.
pub open spec fn spec_gemalto_1_signature() -> Seq<u8> {
    seq![
        0x3Bu8, 0x9E, 0x96, 0x80, 0x31, 0xFE, 0x45, 0x53, 0x43, 0x45, 0x20, 0x38, 0x2E, 0x30,
        0x2D, 0x43, 0x32, 0x56, 0x30, 0x0D, 0x0A, 0x6C,
    ]
}

/// Detection: the chip family a reset signature belongs to, if any.
/// Matching is exact byte-sequence equality against the fixed catalogue;
/// there is no partial or prefix matching, and no fallback.
pub open spec fn spec_detect(atr: Seq<u8>) -> Option<CardVariant> {
    if atr == spec_apollo_signature() {
        Some(CardVariant::Apollo)
    } else if atr == spec_gemalto_signature() || atr == spec_gemalto_new_signature() || atr
        == spec_gemalto_even_newer_signature() || atr == spec_gemalto_1_signature() {
        Some(CardVariant::Gemalto)
    } else {
        None
    }
}

/// Two byte strings are equal.
fn bytes_eq(a: &[u8], b: &[u8]) -> (r: bool)
    ensures
        r == (a@ == b@),
{
    if a.len() != b.len() {
        assert(a@ != b@) by {
            assert(a@.len() != b@.len());
        }
        return false;
    }
    let n: usize = a.len();
    let mut i: usize = 0;
    while i < n
        invariant
            n == a@.len() == b@.len(),
            i <= n,
            forall|k: int| 0 <= k < i ==> a@[k] == b@[k],
        decreases n - i,
    {
        if a[i] != b[i] {
            return false;
        }
        i += 1;
    }
    assert(a@ =~= b@);
    true
}

/// The Apollo reset signature, as bytes.
pub fn apollo_signature() -> (r: Vec<u8>)
    ensures
        r@ == spec_apollo_signature(),
{
    let v: Vec<u8> = vec![
        0x3b, 0xb9, 0x18, 0x00, 0x81, 0x31, 0xfe, 0x9e, 0x80, 0x73, 0xff, 0x61, 0x40, 0x83,
        0x00, 0x00, 0x00, 0xdf,
    ];
    assert(v@ =~= spec_apollo_signature());
    v
}

/// The first Gemalto reset signature, as bytes.
pub fn gemalto_signature() -> (r: Vec<u8>)
    ensures
        r@ == spec_gemalto_signature(),
{
    let v: Vec<u8> = vec![
        0x3B, 0xFF, 0x94, 0x00, 0x00, 0x81, 0x31, 0x80, 0x43, 0x80, 0x31, 0x80, 0x65, 0xB0,
        0x85, 0x02, 0x01, 0xF3, 0x12, 0x0F, 0xFF, 0x82, 0x90, 0x00, 0x79,
    ];
    assert(v@ =~= spec_gemalto_signature());
    v
}

/// The later Gemalto reset signature, as bytes.
pub fn gemalto_new_signature() -> (r: Vec<u8>)
    ensures
        r@ == spec_gemalto_new_signature(),
{
    let v: Vec<u8> = vec![
        0x3B, 0xF9, 0x96, 0x00, 0x00, 0x80, 0x31, 0xFE, 0x45, 0x53, 0x43, 0x45, 0x37, 0x20,
        0x47, 0x43, 0x4E, 0x33, 0x5E,
    ];
    assert(v@ =~= spec_gemalto_new_signature());
    v
}

/// The still later Gemalto reset signature, as bytes.
pub fn gemalto_even_newer_signature() -> (r: Vec<u8>)
    ensures
        r@ == spec_gemalto_even_newer_signature(),
{
    let v: Vec<u8> = vec![
        0x3B, 0x9E, 0x96, 0x80, 0x31, 0xFE, 0x45, 0x53, 0x43, 0x45, 0x20, 0x38, 0x2E, 0x30,
        0x2D, 0x43, 0x31, 0x56, 0x30, 0x0D, 0x0A, 0x6F,
    ];
    assert(v@ =~= spec_gemalto_even_newer_signature());
    v
}

/// The newest Gemalto reset signature, as bytes.
pub fn gemalto_1_signature() -> (r: Vec<u8>)
    ensures
        r@ == spec_gemalto_1_signature(),
{
    let v: Vec<u8> = vec![
        0x3B, 0x9E, 0x96, 0x80, 0x31, 0xFE, 0x45, 0x53, 0x43, 0x45, 0x20, 0x38, 0x2E, 0x30,
        0x2D, 0x43, 0x32, 0x56, 0x30, 0x0D, 0x0A, 0x6C,
    ];
    assert(v@ =~= spec_gemalto_1_signature());
    v
}

/// Matches a card's reset signature against the fixed catalogue and names
/// the protocol variant to use. An unmatched signature is a hard failure:
/// the read cannot proceed.
pub fn detect_card(atr: &[u8]) -> (r: Result<CardVariant, IdError>)
    ensures
        r is Ok <==> spec_detect(atr@) is Some,
        r matches Ok(v) ==> Some(v) == spec_detect(atr@),
        r matches Err(e) ==> e == IdError::UnknownCardType,
{
    let apollo = apollo_signature();
    if bytes_eq(atr, apollo.as_slice()) {
        return Ok(CardVariant::Apollo);
    }
    let g = gemalto_signature();
    if bytes_eq(atr, g.as_slice()) {
        return Ok(CardVariant::Gemalto);
    }
    let g = gemalto_new_signature();
    if bytes_eq(atr, g.as_slice()) {
        return Ok(CardVariant::Gemalto);
    }
    let g = gemalto_even_newer_signature();
    if bytes_eq(atr, g.as_slice()) {
        return Ok(CardVariant::Gemalto);
    }
    let g = gemalto_1_signature();
    if bytes_eq(atr, g.as_slice()) {
        return Ok(CardVariant::Gemalto);
    }
    Err(IdError::UnknownCardType)
}

} // verus!
