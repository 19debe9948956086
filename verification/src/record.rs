use vstd::prelude::*;
use vstd::utf8::{valid_utf8, decode_utf8};
use crate::detect::{CardVariant, spec_detect, detect_card};
use crate::error::IdError;
use crate::tags::{
    PersonalIdTag, spec_tag_code, tag_code, spec_tag_json_id, tag_json_id, all_tags,
    spec_all_tags, lemma_all_tags_complete,
};
use crate::tlv::{TlvMap, parse_tlv, spec_parse_tlv, lemma_tlv_map_view};

verus! {

/// Relies on std's String::from_utf8: it returns Ok exactly when the
/// bytes are valid UTF-8, and then decodes them as Unicode scalars.
#[verifier::external_body]
fn utf8_to_string(bytes: Vec<u8>) -> (r: Option<String>)
    ensures
        r is Some <==> valid_utf8(bytes@),
        r matches Some(s) ==> s@ == decode_utf8(bytes@),
{
    String::from_utf8(bytes).ok()
}

/// What base64::encode returns for given bytes: the encoding depends on
/// the bytes alone.
pub uninterp spec fn base64_of(bytes: Seq<u8>) -> Seq<char>;

/// Relies on base64::encode: the standard alphabet with padding, so the
/// output is ASCII, four characters for every started group of three
/// input bytes, and a function of the input alone.
#[verifier::external_body]
fn base64_encode(bytes: &Vec<u8>) -> (r: String)
    requires
        bytes@.len() / 3 * 4 + 4 <= usize::MAX,
    ensures
        r@ == base64_of(bytes@),
        r@.len() == bytes@.len() / 3 * 4 + (if bytes@.len() % 3 == 0 {
            0int
        } else {
            4int
        }),
{
    base64::encode(bytes)
}

/// One decoded field of the record: which catalogue tag it is, and its
/// text value.
pub struct PersonalIdItem {
    pub tag: PersonalIdTag,
    pub value: String,
}

impl PersonalIdItem {
    /// Builds the item for a catalogue tag from a decoded file's tag/value
    /// mapping: present exactly when the mapping holds the tag's raw bytes
    /// and those bytes are valid text. Non-text bytes give no item, and no
    /// error: that lossy behaviour is deliberate.
    pub fn new(tag: PersonalIdTag, map: &TlvMap) -> (r: Option<PersonalIdItem>)
        requires
            map.wf(),
        ensures
            r is Some <==> (map.spec_get(spec_tag_code(tag)) matches Some(v) && valid_utf8(v)),
            r matches Some(item) ==> item.tag == tag && (map.spec_get(spec_tag_code(tag))
                matches Some(v) && item.value@ == decode_utf8(v)),
    {
        match map.get(tag_code(tag)) {
            None => None,
            Some(v) => {
                let bytes = vstd::slice::slice_to_vec(v.as_slice());
                match utf8_to_string(bytes) {
                    None => None,
                    Some(s) => Some(PersonalIdItem { tag, value: s }),
                }
            },
        }
    }
}

impl Default for PersonalIdItem {
    /// The empty item: the sentinel tag and an empty text value.
    fn default() -> (r: Self)
        ensures
            r.tag == PersonalIdTag::Absent,
            r.value@ == Seq::<char>::empty(),
    {
        PersonalIdItem { tag: PersonalIdTag::Absent, value: String::new() }
    }
}

/// The text an item list associates with a tag: the value of the latest
/// item carrying that tag, if any.
pub open spec fn spec_items_get(s: Seq<PersonalIdItem>, t: PersonalIdTag) -> Option<Seq<char>>
    decreases s.len(),
{
    if s.len() == 0 {
        None
    } else if s.last().tag == t {
        Some(s.last().value@)
    } else {
        spec_items_get(s.drop_last(), t)
    }
}

proof fn lemma_items_get_absent(s: Seq<PersonalIdItem>, t: PersonalIdTag)
    requires
        forall|j: int| 0 <= j < s.len() ==> (#[trigger] s[j]).tag != t,
    ensures
        spec_items_get(s, t) is None,
    decreases s.len(),
{
    if s.len() > 0 {
        lemma_items_get_absent(s.drop_last(), t);
    }
}

proof fn lemma_items_get_at(s: Seq<PersonalIdItem>, i: int)
    requires
        0 <= i < s.len(),
        forall|j: int, k: int|
            0 <= j < k < s.len() ==> (#[trigger] s[j]).tag != (#[trigger] s[k]).tag,
    ensures
        spec_items_get(s, s[i].tag) == Some(s[i].value@),
    decreases s.len(),
{
    if i == s.len() - 1 {
    } else {
        assert(s.last().tag != s[i].tag);
        assert(s.drop_last()[i] == s[i]);
        lemma_items_get_at(s.drop_last(), i);
    }
}

proof fn lemma_items_get_remove(s: Seq<PersonalIdItem>, i: int, t: PersonalIdTag)
    requires
        0 <= i < s.len(),
        s[i].tag != t,
    ensures
        spec_items_get(s.remove(i), t) == spec_items_get(s, t),
    decreases s.len(),
{
    if i == s.len() - 1 {
        assert(s.remove(i) =~= s.drop_last());
    } else {
        assert(s.remove(i).last() == s.last());
        assert(s.remove(i).drop_last() =~= s.drop_last().remove(i));
        lemma_items_get_remove(s.drop_last(), i, t);
    }
}

/// What one merge step leaves for a tag: raw bytes present in the decoded
/// file under the tag's id and valid as text replace the previous value;
/// anything else leaves the previous value standing. A non-text value is
/// silently skipped, never an error.
pub open spec fn spec_merge_value(
    prev: Option<Seq<char>>,
    tlv: Map<u16, Seq<u8>>,
    t: PersonalIdTag,
) -> Option<Seq<char>> {
    let code = spec_tag_code(t);
    if tlv.contains_key(code) && valid_utf8(tlv[code]) {
        Some(decode_utf8(tlv[code]))
    } else {
        prev
    }
}

/// The JSON fragment of one record item.
pub open spec fn spec_json_item(it: PersonalIdItem) -> Seq<char> {
    "\""@ + spec_tag_json_id(it.tag) + "\": \""@ + it.value@ + "\",\n"@
}

/// The JSON fragments of a list of record items, in list order.
pub open spec fn spec_json_items(s: Seq<PersonalIdItem>) -> Seq<char>
    decreases s.len(),
{
    if s.len() == 0 {
        Seq::empty()
    } else {
        spec_json_items(s.drop_last()) + spec_json_item(s.last())
    }
}

/// The personal-data record assembled from a card: the decoded fields,
/// the photograph bytes (empty until read), and the protocol variant
/// chosen at construction.
pub struct PersonalId {
    personal: Vec<PersonalIdItem>,
    image: Vec<u8>,
    card_reader: CardVariant,
}

impl PersonalId {
    /// Well-formedness: no two items carry the same tag. Constructors
    /// establish it and every method preserves it.
    pub closed spec fn wf(self) -> bool {
        forall|j: int, k: int|
            0 <= j < k < self.personal@.len() ==> (#[trigger] self.personal@[j]).tag != (
            #[trigger] self.personal@[k]).tag
    }

    /// The text this record holds for a tag, if any.
    pub closed spec fn spec_get(&self, t: PersonalIdTag) -> Option<Seq<char>> {
        spec_items_get(self.personal@, t)
    }

    /// The record's items, in insertion order.
    pub closed spec fn spec_items(&self) -> Seq<PersonalIdItem> {
        self.personal@
    }

    /// The photograph bytes this record holds.
    pub closed spec fn spec_image(&self) -> Seq<u8> {
        self.image@
    }

    /// The protocol variant this record was constructed for.
    pub closed spec fn variant(&self) -> CardVariant {
        self.card_reader
    }

    /// The record's whole JSON rendering: every item's field, then the
    /// photograph as base64 under the "Image" key.
    pub closed spec fn spec_to_json(&self) -> Seq<char> {
        "{"@ + spec_json_items(self.personal@) + "\"Image\": \""@ + base64_of(self.image@)
            + "\"\n"@ + "}"@
    }

    /// Creates the empty record for the card a reset signature names:
    /// detection picks the protocol variant by exact match against the
    /// catalogue of known signatures, and an unmatched signature is a
    /// hard failure that constructs nothing.
    pub fn new(atr: &[u8]) -> (r: Result<PersonalId, IdError>)
        ensures
            r is Ok <==> spec_detect(atr@) is Some,
            r matches Ok(id) ==> id.wf() && Some(id.variant()) == spec_detect(atr@)
                && id.spec_image() =~= Seq::<u8>::empty() && forall|t: PersonalIdTag|
                id.spec_get(t) is None,
            r matches Err(e) ==> e == IdError::UnknownCardType,
    {
        match detect_card(atr) {
            Ok(variant) => Ok(
                PersonalId { personal: Vec::new(), image: Vec::new(), card_reader: variant },
            ),
            Err(e) => Err(e),
        }
    }

    /// The protocol variant this record was constructed for.
    pub fn card_variant(&self) -> (v: CardVariant)
        ensures
            v == self.variant(),
    {
        self.card_reader
    }

    /// The record's items, in insertion order.
    pub fn items(&self) -> (r: &Vec<PersonalIdItem>)
        ensures
            r@ == self.spec_items(),
    {
        &self.personal
    }

    /// The index of the item carrying a tag, if one is there.
    fn find_index(&self, t: PersonalIdTag) -> (r: Option<usize>)
        ensures
            r matches Some(i) ==> i < self.personal@.len() && self.personal@[i as int].tag == t,
            r is None ==> forall|j: int|
                0 <= j < self.personal@.len() ==> (#[trigger] self.personal@[j]).tag != t,
    {
        let n: usize = self.personal.len();
        let mut i: usize = 0;
        while i < n
            invariant
                n == self.personal@.len(),
                i <= n,
                forall|j: int| 0 <= j < i ==> (#[trigger] self.personal@[j]).tag != t,
            decreases n - i,
        {
            if self.personal[i].tag == t {
                return Some(i);
            }
            i += 1;
        }
        None
    }

    /// Looks the item for a tag up.
    pub fn get_item(&self, t: PersonalIdTag) -> (r: Option<&PersonalIdItem>)
        requires
            self.wf(),
        ensures
            r is Some <==> self.spec_get(t) is Some,
            r matches Some(item) ==> item.tag == t && Some(item.value@) == self.spec_get(t),
    {
        match self.find_index(t) {
            Some(i) => {
                proof {
                    lemma_items_get_at(self.personal@, i as int);
                }
                Some(&self.personal[i])
            },
            None => {
                proof {
                    lemma_items_get_absent(self.personal@, t);
                }
                None
            },
        }
    }

    /// Puts an item in, replacing any earlier item with the same tag.
    fn upsert(&mut self, item: PersonalIdItem)
        requires
            old(self).wf(),
        ensures
            final(self).wf(),
            final(self).spec_image() == old(self).spec_image(),
            final(self).variant() == old(self).variant(),
            forall|t: PersonalIdTag|
                final(self).spec_get(t) == (if t == item.tag {
                    Some(item.value@)
                } else {
                    old(self).spec_get(t)
                }),
    {
        let ghost pre = self.personal@;
        let ghost tag = item.tag;
        match self.find_index(item.tag) {
            Some(i) => {
                self.personal.remove(i);
                proof {
                    pre.remove_ensures(i as int);
                    assert forall|j: int|
                        0 <= j < self.personal@.len() implies (#[trigger] self.personal@[j]).tag
                        != tag by {
                        if j < i {
                            assert(self.personal@[j] == pre[j]);
                        } else {
                            assert(self.personal@[j] == pre[j + 1]);
                        }
                    }
                    assert forall|j: int, k: int|
                        0 <= j < k < self.personal@.len() implies (
                    #[trigger] self.personal@[j]).tag != (#[trigger] self.personal@[k]).tag by {
                        if j < i {
                            assert(self.personal@[j] == pre[j]);
                        } else {
                            assert(self.personal@[j] == pre[j + 1]);
                        }
                        if k < i {
                            assert(self.personal@[k] == pre[k]);
                        } else {
                            assert(self.personal@[k] == pre[k + 1]);
                        }
                    }
                    assert forall|t: PersonalIdTag| t != tag implies spec_items_get(
                        self.personal@,
                        t,
                    ) == spec_items_get(pre, t) by {
                        lemma_items_get_remove(pre, i as int, t);
                    }
                }
            },
            None => {
                proof {
                    lemma_items_get_absent(pre, tag);
                }
            },
        }
        let ghost mid = self.personal@;
        self.personal.push(item);
        proof {
            assert(self.personal@.drop_last() =~= mid);
        }
    }

    /// Merges one decoded file into the record: for each catalogue tag,
    /// in catalogue order, raw bytes present under the tag's id and valid
    /// as text enter the record, overwriting any earlier value; a tag
    /// whose bytes are not valid text, or which the file does not carry,
    /// leaves the record's earlier value standing. Skipping non-text
    /// values silently is deliberate lossy behaviour, not an error.
    pub fn fit_in(&mut self, map: &TlvMap)
        requires
            old(self).wf(),
            map.wf(),
        ensures
            final(self).wf(),
            final(self).spec_image() == old(self).spec_image(),
            final(self).variant() == old(self).variant(),
            forall|t: PersonalIdTag|
                final(self).spec_get(t) == spec_merge_value(old(self).spec_get(t), map@, t),
    {
        let tags = all_tags();
        let n: usize = tags.len();
        let mut i: usize = 0;
        while i < n
            invariant
                tags@ == spec_all_tags(),
                n == tags@.len(),
                i <= n,
                map.wf(),
                self.wf(),
                self.spec_image() == old(self).spec_image(),
                self.variant() == old(self).variant(),
                forall|t: PersonalIdTag|
                    spec_all_tags().take(i as int).contains(t) ==> self.spec_get(t)
                        == spec_merge_value(old(self).spec_get(t), map@, t),
                forall|t: PersonalIdTag|
                    !spec_all_tags().take(i as int).contains(t) ==> self.spec_get(t) == old(
                        self,
                    ).spec_get(t),
            decreases n - i,
        {
            let t = tags[i];
            let ghost before = *self;
            proof {
                lemma_tlv_map_view(map, spec_tag_code(t));
            }
            match PersonalIdItem::new(t, map) {
                Some(item) => {
                    self.upsert(item);
                },
                None => {},
            }
            proof {
                assert(spec_all_tags().take(i + 1) =~= spec_all_tags().take(i as int).push(
                    spec_all_tags()[i as int],
                ));
                assert forall|x: PersonalIdTag|
                    spec_all_tags().take(i + 1).contains(x) implies self.spec_get(x)
                    == spec_merge_value(old(self).spec_get(x), map@, x) by {
                    if spec_all_tags().take(i as int).contains(x) {
                        if x == t {
                        } else {
                            assert(before.spec_get(x) == spec_merge_value(
                                old(self).spec_get(x),
                                map@,
                                x,
                            ));
                        }
                    } else {
                        assert(x == t);
                        assert(before.spec_get(x) == old(self).spec_get(x));
                        lemma_tlv_map_view(map, spec_tag_code(x));
                    }
                }
                assert forall|x: PersonalIdTag|
                    !spec_all_tags().take(i + 1).contains(x) implies self.spec_get(x) == old(
                        self,
                    ).spec_get(x) by {
                    assert(!spec_all_tags().take(i as int).contains(x));
                    assert(x != t) by {
                        assert(spec_all_tags().take(i + 1)[i as int] == t);
                    }
                }
            }
            i += 1;
        }
        proof {
            assert forall|t: PersonalIdTag| spec_all_tags().take(n as int).contains(t) by {
                lemma_all_tags_complete(t);
                assert(spec_all_tags().take(n as int) =~= spec_all_tags());
            }
        }
    }

    /// Decodes one file's bytes and merges the result into the record.
    /// A malformed buffer leaves the record unchanged and is the only
    /// error of this step.
    pub fn merge_file(&mut self, buffer: &Vec<u8>) -> (r: Result<(), IdError>)
        requires
            old(self).wf(),
        ensures
            final(self).wf(),
            final(self).spec_image() == old(self).spec_image(),
            final(self).variant() == old(self).variant(),
            r is Ok <==> spec_parse_tlv(buffer@) is Some,
            r is Ok ==> forall|t: PersonalIdTag|
                final(self).spec_get(t) == spec_merge_value(
                    old(self).spec_get(t),
                    spec_parse_tlv(buffer@)->0,
                    t,
                ),
            r is Err ==> *final(self) == *old(self),
            r matches Err(e) ==> e == IdError::MalformedTlv,
    {
        match parse_tlv(buffer) {
            Ok(map) => {
                self.fit_in(&map);
                Ok(())
            },
            Err(e) => Err(e),
        }
    }

    /// The photograph bytes this record holds (empty until the
    /// photograph file was read).
    pub fn image_bytes(&self) -> (r: &Vec<u8>)
        ensures
            r@ == self.spec_image(),
    {
        &self.image
    }

    /// Stores the photograph bytes read from the card, verbatim; nothing
    /// of this layer decodes them.
    pub fn set_image(&mut self, data: Vec<u8>)
        requires
            old(self).wf(),
        ensures
            final(self).wf(),
            final(self).spec_image() == data@,
            final(self).variant() == old(self).variant(),
            forall|t: PersonalIdTag| final(self).spec_get(t) == old(self).spec_get(t),
    {
        self.image = data;
    }

    /// Renders the record as JSON: one field per item under its external
    /// name, then the photograph bytes as base64 under the "Image" key.
    /// (The length bound on the photograph only keeps the base64 buffer
    /// computable on this machine.)
    pub fn to_json(&self) -> (r: String)
        requires
            self.spec_image().len() / 3 * 4 + 4 <= usize::MAX,
        ensures
            r@ == self.spec_to_json(),
    {
        let mut out = "{".to_owned();
        let n: usize = self.personal.len();
        let mut i: usize = 0;
        while i < n
            invariant
                n == self.personal@.len(),
                i <= n,
                self.image@.len() / 3 * 4 + 4 <= usize::MAX,

                out@ == "{"@ + spec_json_items(self.personal@.take(i as int)),
            decreases n - i,
        {
            out.append("\"");
            out.append(tag_json_id(self.personal[i].tag));
            out.append("\": \"");
            out.append(self.personal[i].value.as_str());
            out.append("\",\n");
            proof {
                assert(self.personal@.take(i + 1).drop_last() =~= self.personal@.take(i as int));
                assert(self.personal@.take(i + 1).last() == self.personal@[i as int]);
                assert(out@ =~= "{"@ + spec_json_items(self.personal@.take(i + 1)));
            }
            i += 1;
        }
        proof {
            assert(self.personal@.take(n as int) =~= self.personal@);
        }
        out.append("\"Image\": \"");
        let b64 = base64_encode(&self.image);
        out.append(b64.as_str());
        out.append("\"\n");
        out.append("}");
        proof {
            assert(out@ =~= self.spec_to_json());
        }
        out
    }
}

} // verus!
