use vstd::prelude::*;

verus! {

/// The known field tags of the on-card files. The catalogue is fixed at
/// compile time; `Absent` is the sentinel entry that stands for absence.
#[derive(Clone, Copy, Debug, PartialEq, Eq, Structural)]
pub enum PersonalIdTag {
    DocRegNo,
    IssuingDate,
    ExpiryDate,
    IssuingAuthority,
    PersonalNumber,
    Surname,
    GivenName,
    ParentGivenName,
    Sex,
    PlaceOfBirth,
    CommunityOfBirth,
    StateOfBirth,
    DateOfBirth,
    State,
    Community,
    Place,
    Street,
    HouseNumber,
    HouseLetter,
    Entrance,
    Floor,
    AppartmentNumber,
    AddressDate,
    Absent,
}

/// The numeric tag id each catalogue entry carries on the card.
pub open spec fn spec_tag_code(t: PersonalIdTag) -> u16 {
    match t {
        PersonalIdTag::DocRegNo => 1546,
        PersonalIdTag::IssuingDate => 1549,
        PersonalIdTag::ExpiryDate => 1550,
        PersonalIdTag::IssuingAuthority => 1551,
        PersonalIdTag::PersonalNumber => 1558,
        PersonalIdTag::Surname => 1559,
        PersonalIdTag::GivenName => 1560,
        PersonalIdTag::ParentGivenName => 1561,
        PersonalIdTag::Sex => 1562,
        PersonalIdTag::PlaceOfBirth => 1563,
        PersonalIdTag::CommunityOfBirth => 1564,
        PersonalIdTag::StateOfBirth => 1565,
        PersonalIdTag::DateOfBirth => 1566,
        PersonalIdTag::State => 1568,
        PersonalIdTag::Community => 1569,
        PersonalIdTag::Place => 1570,
        PersonalIdTag::Street => 1571,
        PersonalIdTag::HouseNumber => 1572,
        PersonalIdTag::HouseLetter => 1573,
        PersonalIdTag::Entrance => 1574,
        PersonalIdTag::Floor => 1575,
        PersonalIdTag::AppartmentNumber => 1578,
        PersonalIdTag::AddressDate => 1580,
        PersonalIdTag::Absent => 0,
    }
}

/// The numeric tag id of a catalogue entry.
pub fn tag_code(t: PersonalIdTag) -> (c: u16)
    ensures
        c == spec_tag_code(t),
{
    match t {
        PersonalIdTag::DocRegNo => 1546,
        PersonalIdTag::IssuingDate => 1549,
        PersonalIdTag::ExpiryDate => 1550,
        PersonalIdTag::IssuingAuthority => 1551,
        PersonalIdTag::PersonalNumber => 1558,
        PersonalIdTag::Surname => 1559,
        PersonalIdTag::GivenName => 1560,
        PersonalIdTag::ParentGivenName => 1561,
        PersonalIdTag::Sex => 1562,
        PersonalIdTag::PlaceOfBirth => 1563,
        PersonalIdTag::CommunityOfBirth => 1564,
        PersonalIdTag::StateOfBirth => 1565,
        PersonalIdTag::DateOfBirth => 1566,
        PersonalIdTag::State => 1568,
        PersonalIdTag::Community => 1569,
        PersonalIdTag::Place => 1570,
        PersonalIdTag::Street => 1571,
        PersonalIdTag::HouseNumber => 1572,
        PersonalIdTag::HouseLetter => 1573,
        PersonalIdTag::Entrance => 1574,
        PersonalIdTag::Floor => 1575,
        PersonalIdTag::AppartmentNumber => 1578,
        PersonalIdTag::AddressDate => 1580,
        PersonalIdTag::Absent => 0,
    }
}

/// The human-readable description of each catalogue entry.
pub open spec fn spec_tag_description(t: PersonalIdTag) -> Seq<char> {
    match t {
        PersonalIdTag::DocRegNo => "Broj dokumenta"@,
        PersonalIdTag::IssuingDate => "Datum izdavanja"@,
        PersonalIdTag::ExpiryDate => "Datum isteka"@,
        PersonalIdTag::IssuingAuthority => "Izdato od"@,
        PersonalIdTag::PersonalNumber => "JMBG"@,
        PersonalIdTag::Surname => "Prezime"@,
        PersonalIdTag::GivenName => "Ime"@,
        PersonalIdTag::ParentGivenName => "Ime roditelja"@,
        PersonalIdTag::Sex => "Pol"@,
        PersonalIdTag::PlaceOfBirth => "Mesto rođenja"@,
        PersonalIdTag::CommunityOfBirth => "Opština rođenja"@,
        PersonalIdTag::StateOfBirth => "Država rođenja"@,
        PersonalIdTag::DateOfBirth => "Datum rođenja"@,
        PersonalIdTag::State => "Država"@,
        PersonalIdTag::Community => "Opština"@,
        PersonalIdTag::Place => "Mesto"@,
        PersonalIdTag::Street => "Ulica"@,
        PersonalIdTag::HouseNumber => "Kućni broj"@,
        PersonalIdTag::HouseLetter => "Kućna oznaka"@,
        PersonalIdTag::Entrance => "Broj ulaza"@,
        PersonalIdTag::Floor => "Sprat broj"@,
        PersonalIdTag::AppartmentNumber => "Broj stana"@,
        PersonalIdTag::AddressDate => "Datum adrese"@,
        PersonalIdTag::Absent => ""@,
    }
}

/// The human-readable description of a catalogue entry.
pub fn tag_description(t: PersonalIdTag) -> (r: &'static str)
    ensures
        r@ == spec_tag_description(t),
{
    match t {
        PersonalIdTag::DocRegNo => "Broj dokumenta",
        PersonalIdTag::IssuingDate => "Datum izdavanja",
        PersonalIdTag::ExpiryDate => "Datum isteka",
        PersonalIdTag::IssuingAuthority => "Izdato od",
        PersonalIdTag::PersonalNumber => "JMBG",
        PersonalIdTag::Surname => "Prezime",
        PersonalIdTag::GivenName => "Ime",
        PersonalIdTag::ParentGivenName => "Ime roditelja",
        PersonalIdTag::Sex => "Pol",
        PersonalIdTag::PlaceOfBirth => "Mesto rođenja",
        PersonalIdTag::CommunityOfBirth => "Opština rođenja",
        PersonalIdTag::StateOfBirth => "Država rođenja",
        PersonalIdTag::DateOfBirth => "Datum rođenja",
        PersonalIdTag::State => "Država",
        PersonalIdTag::Community => "Opština",
        PersonalIdTag::Place => "Mesto",
        PersonalIdTag::Street => "Ulica",
        PersonalIdTag::HouseNumber => "Kućni broj",
        PersonalIdTag::HouseLetter => "Kućna oznaka",
        PersonalIdTag::Entrance => "Broj ulaza",
        PersonalIdTag::Floor => "Sprat broj",
        PersonalIdTag::AppartmentNumber => "Broj stana",
        PersonalIdTag::AddressDate => "Datum adrese",
        PersonalIdTag::Absent => "",
    }
}

/// The external field name of each catalogue entry.
pub open spec fn spec_tag_json_id(t: PersonalIdTag) -> Seq<char> {
    match t {
        PersonalIdTag::DocRegNo => "DocRegNo"@,
        PersonalIdTag::IssuingDate => "IssuingDate"@,
        PersonalIdTag::ExpiryDate => "ExpiryDate"@,
        PersonalIdTag::IssuingAuthority => "IssuingAuthority"@,
        PersonalIdTag::PersonalNumber => "PersonalNumber"@,
        PersonalIdTag::Surname => "Surname"@,
        PersonalIdTag::GivenName => "GivenName"@,
        PersonalIdTag::ParentGivenName => "ParentGivenName"@,
        PersonalIdTag::Sex => "Sex"@,
        PersonalIdTag::PlaceOfBirth => "PlaceOfBirth"@,
        PersonalIdTag::CommunityOfBirth => "CommunityOfBirth"@,
        PersonalIdTag::StateOfBirth => "StateOfBirth"@,
        PersonalIdTag::DateOfBirth => "DateOfBirth"@,
        PersonalIdTag::State => "State"@,
        PersonalIdTag::Community => "Community"@,
        PersonalIdTag::Place => "Place"@,
        PersonalIdTag::Street => "Street"@,
        PersonalIdTag::HouseNumber => "HouseNumber"@,
        PersonalIdTag::HouseLetter => "HouseLetter"@,
        PersonalIdTag::Entrance => "Entrance"@,
        PersonalIdTag::Floor => "Floor"@,
        PersonalIdTag::AppartmentNumber => "AppartmentNumber"@,
        PersonalIdTag::AddressDate => "AddressDate"@,
        PersonalIdTag::Absent => ""@,
    }
}

/// The external field name of a catalogue entry.
pub fn tag_json_id(t: PersonalIdTag) -> (r: &'static str)
    ensures
        r@ == spec_tag_json_id(t),
{
    match t {
        PersonalIdTag::DocRegNo => "DocRegNo",
        PersonalIdTag::IssuingDate => "IssuingDate",
        PersonalIdTag::ExpiryDate => "ExpiryDate",
        PersonalIdTag::IssuingAuthority => "IssuingAuthority",
        PersonalIdTag::PersonalNumber => "PersonalNumber",
        PersonalIdTag::Surname => "Surname",
        PersonalIdTag::GivenName => "GivenName",
        PersonalIdTag::ParentGivenName => "ParentGivenName",
        PersonalIdTag::Sex => "Sex",
        PersonalIdTag::PlaceOfBirth => "PlaceOfBirth",
        PersonalIdTag::CommunityOfBirth => "CommunityOfBirth",
        PersonalIdTag::StateOfBirth => "StateOfBirth",
        PersonalIdTag::DateOfBirth => "DateOfBirth",
        PersonalIdTag::State => "State",
        PersonalIdTag::Community => "Community",
        PersonalIdTag::Place => "Place",
        PersonalIdTag::Street => "Street",
        PersonalIdTag::HouseNumber => "HouseNumber",
        PersonalIdTag::HouseLetter => "HouseLetter",
        PersonalIdTag::Entrance => "Entrance",
        PersonalIdTag::Floor => "Floor",
        PersonalIdTag::AppartmentNumber => "AppartmentNumber",
        PersonalIdTag::AddressDate => "AddressDate",
        PersonalIdTag::Absent => "",
    }
}

/// The catalogue in its fixed order, the sentinel entry last. Record
/// assembly walks this order; the order has no semantic effect, since the
/// results merge into an unordered mapping.
pub open spec fn spec_all_tags() -> Seq<PersonalIdTag> {
    seq![
        PersonalIdTag::DocRegNo,
        PersonalIdTag::IssuingDate,
        PersonalIdTag::ExpiryDate,
        PersonalIdTag::IssuingAuthority,
        PersonalIdTag::PersonalNumber,
        PersonalIdTag::Surname,
        PersonalIdTag::GivenName,
        PersonalIdTag::ParentGivenName,
        PersonalIdTag::Sex,
        PersonalIdTag::PlaceOfBirth,
        PersonalIdTag::CommunityOfBirth,
        PersonalIdTag::StateOfBirth,
        PersonalIdTag::DateOfBirth,
        PersonalIdTag::State,
        PersonalIdTag::Community,
        PersonalIdTag::Place,
        PersonalIdTag::Street,
        PersonalIdTag::HouseNumber,
        PersonalIdTag::HouseLetter,
        PersonalIdTag::Entrance,
        PersonalIdTag::Floor,
        PersonalIdTag::AppartmentNumber,
        PersonalIdTag::AddressDate,
        PersonalIdTag::Absent,
    ]
}

/// The catalogue in its fixed order, as a vector.
pub fn all_tags() -> (r: Vec<PersonalIdTag>)
    ensures
        r@ == spec_all_tags(),
{
    let v: Vec<PersonalIdTag> = vec![
        PersonalIdTag::DocRegNo,
        PersonalIdTag::IssuingDate,
        PersonalIdTag::ExpiryDate,
        PersonalIdTag::IssuingAuthority,
        PersonalIdTag::PersonalNumber,
        PersonalIdTag::Surname,
        PersonalIdTag::GivenName,
        PersonalIdTag::ParentGivenName,
        PersonalIdTag::Sex,
        PersonalIdTag::PlaceOfBirth,
        PersonalIdTag::CommunityOfBirth,
        PersonalIdTag::StateOfBirth,
        PersonalIdTag::DateOfBirth,
        PersonalIdTag::State,
        PersonalIdTag::Community,
        PersonalIdTag::Place,
        PersonalIdTag::Street,
        PersonalIdTag::HouseNumber,
        PersonalIdTag::HouseLetter,
        PersonalIdTag::Entrance,
        PersonalIdTag::Floor,
        PersonalIdTag::AppartmentNumber,
        PersonalIdTag::AddressDate,
        PersonalIdTag::Absent,
    ];
    assert(v@ =~= spec_all_tags());
    v
}

/// Every tag of the catalogue stands in the fixed order exactly where
/// detection and assembly expect it; in particular the catalogue holds
/// every tag value.
pub proof fn lemma_all_tags_complete(t: PersonalIdTag)
    ensures
        spec_all_tags().contains(t),
{
    let s = spec_all_tags();
    match t {
        PersonalIdTag::DocRegNo => assert(s[0] == t),
        PersonalIdTag::IssuingDate => assert(s[1] == t),
        PersonalIdTag::ExpiryDate => assert(s[2] == t),
        PersonalIdTag::IssuingAuthority => assert(s[3] == t),
        PersonalIdTag::PersonalNumber => assert(s[4] == t),
        PersonalIdTag::Surname => assert(s[5] == t),
        PersonalIdTag::GivenName => assert(s[6] == t),
        PersonalIdTag::ParentGivenName => assert(s[7] == t),
        PersonalIdTag::Sex => assert(s[8] == t),
        PersonalIdTag::PlaceOfBirth => assert(s[9] == t),
        PersonalIdTag::CommunityOfBirth => assert(s[10] == t),
        PersonalIdTag::StateOfBirth => assert(s[11] == t),
        PersonalIdTag::DateOfBirth => assert(s[12] == t),
        PersonalIdTag::State => assert(s[13] == t),
        PersonalIdTag::Community => assert(s[14] == t),
        PersonalIdTag::Place => assert(s[15] == t),
        PersonalIdTag::Street => assert(s[16] == t),
        PersonalIdTag::HouseNumber => assert(s[17] == t),
        PersonalIdTag::HouseLetter => assert(s[18] == t),
        PersonalIdTag::Entrance => assert(s[19] == t),
        PersonalIdTag::Floor => assert(s[20] == t),
        PersonalIdTag::AppartmentNumber => assert(s[21] == t),
        PersonalIdTag::AddressDate => assert(s[22] == t),
        PersonalIdTag::Absent => assert(s[23] == t),
    }
}

/// One catalogue entry: the numeric tag id, the human-readable
/// description, and the external field name.
pub struct PersonalIdTagType {
    pub id: PersonalIdTag,
    pub description: &'static str,
    pub json_id: &'static str,
}

impl PersonalIdTagType {
    /// The catalogue entry of a tag.
    pub fn of(t: PersonalIdTag) -> (r: PersonalIdTagType)
        ensures
            r.id == t,
            r.description@ == spec_tag_description(t),
            r.json_id@ == spec_tag_json_id(t),
    {
        PersonalIdTagType { id: t, description: tag_description(t), json_id: tag_json_id(t) }
    }
}

impl Default for PersonalIdTagType {
    /// The sentinel entry that stands for absence.
    fn default() -> (r: Self)
        ensures
            r.id == PersonalIdTag::Absent,
            r.description@ == ""@,
            r.json_id@ == ""@,
    {
        PersonalIdTagType { id: PersonalIdTag::Absent, description: "", json_id: "" }
    }
}

} // verus!
