use vstd::prelude::*;
use crate::error::IdError;

verus! {

/// The 16-bit value of two bytes read little-endian.
pub open spec fn spec_le16(lo: u8, hi: u8) -> u16 {
    (lo + hi * 256) as u16
}

/// Reads a 16-bit little-endian value from two bytes.
pub fn le16(lo: u8, hi: u8) -> (r: u16)
    ensures
        r == spec_le16(lo, hi),
{
    (lo as u16) + (hi as u16) * 256
}

/// A mapping from 16-bit tag to raw value bytes, the transient result of
/// decoding one on-card file. Keys are unique; a repeated insert for a tag
/// overwrites the earlier value.
pub struct TlvMap {
    entries: Vec<(u16, Vec<u8>)>,
}

/// The value the entry list associates with a tag: the value of the
/// latest entry carrying that tag, if any.
pub open spec fn spec_entries_get(s: Seq<(u16, Vec<u8>)>, tag: u16) -> Option<Seq<u8>>
    decreases s.len(),
{
    if s.len() == 0 {
        None
    } else if s.last().0 == tag {
        Some(s.last().1@)
    } else {
        spec_entries_get(s.drop_last(), tag)
    }
}

proof fn lemma_entries_get_absent(s: Seq<(u16, Vec<u8>)>, tag: u16)
    requires
        forall|j: int| 0 <= j < s.len() ==> (#[trigger] s[j]).0 != tag,
    ensures
        spec_entries_get(s, tag) is None,
    decreases s.len(),
{
    if s.len() > 0 {
        lemma_entries_get_absent(s.drop_last(), tag);
    }
}

proof fn lemma_entries_get_at(s: Seq<(u16, Vec<u8>)>, i: int)
    requires
        0 <= i < s.len(),
        forall|j: int, k: int| 0 <= j < k < s.len() ==> (#[trigger] s[j]).0 != (#[trigger] s[k]).0,
    ensures
        spec_entries_get(s, s[i].0) == Some(s[i].1@),
    decreases s.len(),
{
    if i == s.len() - 1 {
    } else {
        assert(s.last().0 != s[i].0);
        assert(s.drop_last()[i] == s[i]);
        lemma_entries_get_at(s.drop_last(), i);
    }
}

proof fn lemma_entries_get_remove(s: Seq<(u16, Vec<u8>)>, i: int, tag: u16)
    requires
        0 <= i < s.len(),
        s[i].0 != tag,
    ensures
        spec_entries_get(s.remove(i), tag) == spec_entries_get(s, tag),
    decreases s.len(),
{
    if i == s.len() - 1 {
        assert(s.remove(i) =~= s.drop_last());
    } else {
        assert(s.remove(i).last() == s.last());
        assert(s.remove(i).drop_last() =~= s.drop_last().remove(i));
        lemma_entries_get_remove(s.drop_last(), i, tag);
    }
}

impl TlvMap {
    /// Well-formedness: no two entries carry the same tag. Constructors
    /// establish it and every method preserves it.
    pub closed spec fn wf(self) -> bool {
        forall|j: int, k: int|
            0 <= j < k < self.entries@.len() ==> (#[trigger] self.entries@[j]).0 != (
            #[trigger] self.entries@[k]).0
    }

    /// The raw bytes this map associates with a tag, if any.
    pub closed spec fn spec_get(&self, tag: u16) -> Option<Seq<u8>> {
        spec_entries_get(self.entries@, tag)
    }

    /// An empty mapping.
    pub fn new() -> (r: TlvMap)
        ensures
            r.wf(),
            forall|t: u16| r.spec_get(t) is None,
            r@ == Map::<u16, Seq<u8>>::empty(),
    {
        let r = TlvMap { entries: Vec::new() };
        proof {
            assert forall|t: u16| r.spec_get(t) is None by {}
            assert(r@ =~= Map::<u16, Seq<u8>>::empty());
        }
        r
    }

    /// The index of the entry carrying a tag, if one is there.
    fn find_index(&self, tag: u16) -> (r: Option<usize>)
        ensures
            r matches Some(i) ==> i < self.entries@.len() && self.entries@[i as int].0 == tag,
            r is None ==> forall|j: int|
                0 <= j < self.entries@.len() ==> (#[trigger] self.entries@[j]).0 != tag,
    {
        let n: usize = self.entries.len();
        let mut i: usize = 0;
        while i < n
            invariant
                n == self.entries@.len(),
                i <= n,
                forall|j: int| 0 <= j < i ==> (#[trigger] self.entries@[j]).0 != tag,
            decreases n - i,
        {
            if self.entries[i].0 == tag {
                return Some(i);
            }
            i += 1;
        }
        None
    }

    /// Inserts a value for a tag; a later write for the same tag wins.
    pub fn insert(&mut self, tag: u16, value: Vec<u8>)
        requires
            old(self).wf(),
        ensures
            final(self).wf(),
            final(self)@ == old(self)@.insert(tag, value@),
            forall|t: u16|
                final(self).spec_get(t) == (if t == tag {
                    Some(value@)
                } else {
                    old(self).spec_get(t)
                }),
    {
        let ghost pre = self.entries@;
        match self.find_index(tag) {
            Some(i) => {
                self.entries.remove(i);
                proof {
                    pre.remove_ensures(i as int);
                    assert forall|j: int|
                        0 <= j < self.entries@.len() implies (#[trigger] self.entries@[j]).0
                        != tag by {
                        if j < i {
                            assert(self.entries@[j] == pre[j]);
                        } else {
                            assert(self.entries@[j] == pre[j + 1]);
                        }
                    }
                    assert forall|j: int, k: int|
                        0 <= j < k < self.entries@.len() implies (#[trigger] self.entries@[j]).0
                        != (#[trigger] self.entries@[k]).0 by {
                        if j < i {
                            assert(self.entries@[j] == pre[j]);
                        } else {
                            assert(self.entries@[j] == pre[j + 1]);
                        }
                        if k < i {
                            assert(self.entries@[k] == pre[k]);
                        } else {
                            assert(self.entries@[k] == pre[k + 1]);
                        }
                    }
                    assert forall|t: u16| t != tag implies spec_entries_get(self.entries@, t)
                        == spec_entries_get(pre, t) by {
                        lemma_entries_get_remove(pre, i as int, t);
                    }
                }
            },
            None => {
                proof {
                    lemma_entries_get_absent(pre, tag);
                }
            },
        }
        let ghost mid = self.entries@;
        self.entries.push((tag, value));
        proof {
            assert(self.entries@.drop_last() =~= mid);
            assert(self.entries@.last() == (tag, value));
            assert forall|t: u16|
                final(self).spec_get(t) == (if t == tag {
                    Some(value@)
                } else {
                    old(self).spec_get(t)
                }) by {}
            assert forall|t: u16|
                #[trigger] final(self)@.contains_key(t) == old(self)@.insert(
                    tag,
                    value@,
                ).contains_key(t) by {}
            assert(final(self)@ =~= old(self)@.insert(tag, value@));
        }
    }

    /// Looks a tag up.
    pub fn get(&self, tag: u16) -> (r: Option<&Vec<u8>>)
        requires
            self.wf(),
        ensures
            r is Some <==> self.spec_get(tag) is Some,
            r matches Some(v) ==> Some(v@) == self.spec_get(tag),
    {
        let n: usize = self.entries.len();
        let mut i: usize = 0;
        while i < n
            invariant
                n == self.entries@.len(),
                i <= n,
                forall|j: int| 0 <= j < i ==> (#[trigger] self.entries@[j]).0 != tag,
                self.wf(),
            decreases n - i,
        {
            if self.entries[i].0 == tag {
                proof {
                    lemma_entries_get_at(self.entries@, i as int);
                }
                return Some(&self.entries[i].1);
            }
            i += 1;
        }
        proof {
            lemma_entries_get_absent(self.entries@, tag);
        }
        None
    }

    /// The mapping holds no tag at all.
    pub fn is_empty(&self) -> (r: bool)
        requires
            self.wf(),
        ensures
            r <==> self@ == Map::<u16, Seq<u8>>::empty(),
    {
        if self.entries.len() == 0 {
            proof {
                assert forall|t: u16| self.spec_get(t) is None by {}
                assert(self@ =~= Map::<u16, Seq<u8>>::empty());
            }
            true
        } else {
            proof {
                lemma_entries_get_at(self.entries@, self.entries@.len() - 1);
                assert(self@.contains_key(self.entries@.last().0));
            }
            false
        }
    }
}

impl View for TlvMap {
    type V = Map<u16, Seq<u8>>;

    /// The mapping as a mathematical map.
    closed spec fn view(&self) -> Map<u16, Seq<u8>> {
        Map::new(|t: u16| self.spec_get(t) is Some, |t: u16| self.spec_get(t)->0)
    }
}

/// The two views of a [`TlvMap`] agree: the map holds exactly the tags
/// that [`TlvMap::spec_get`] finds, with the same bytes.
pub broadcast proof fn lemma_tlv_map_view(m: &TlvMap, t: u16)
    ensures
        #[trigger] m@.contains_key(t) <==> m.spec_get(t) is Some,
        m@.contains_key(t) ==> m@[t] == m.spec_get(t)->0,
{
}

/// Decoding a buffer of consecutive tag-length-value records, starting
/// from a mapping already accumulated: each record is a 2-byte
/// little-endian tag, a 2-byte little-endian length, and that many value
/// bytes. `None` stands for a malformed buffer: a tag/length read, or a
/// value slice, that would run past the buffer end.
pub open spec fn spec_parse_tlv_from(b: Seq<u8>, acc: Map<u16, Seq<u8>>) -> Option<
    Map<u16, Seq<u8>>,
>
    decreases b.len(),
{
    if b.len() == 0 {
        Some(acc)
    } else if b.len() < 4 {
        None
    } else {
        let tag = spec_le16(b[0], b[1]);
        let len = spec_le16(b[2], b[3]) as int;
        if b.len() < 4 + len {
            None
        } else {
            spec_parse_tlv_from(b.skip(4 + len), acc.insert(tag, b.subrange(4, 4 + len)))
        }
    }
}

/// Decoding a whole buffer: the mapping from tag to raw value bytes, or
/// `None` for a malformed buffer. An empty buffer decodes to the empty
/// mapping.
pub open spec fn spec_parse_tlv(b: Seq<u8>) -> Option<Map<u16, Seq<u8>>> {
    spec_parse_tlv_from(b, Map::empty())
}

/// An empty buffer decodes to the empty mapping.
pub proof fn lemma_parse_tlv_empty()
    ensures
        spec_parse_tlv(Seq::<u8>::empty()) == Some(Map::<u16, Seq<u8>>::empty()),
{
}

/// A buffer whose first record is truncated fails to decode: either the
/// tag/length prefix itself is cut short, or the announced value length
/// runs past the buffer end.
pub proof fn lemma_parse_tlv_truncated(b: Seq<u8>)
    requires
        0 < b.len(),
        b.len() < 4 || b.len() < 4 + spec_le16(b[2], b[3]),
    ensures
        spec_parse_tlv(b) is None,
{
}

/// Parses a flat byte buffer of consecutive tag-length-value records into
/// a mapping from tag to raw value bytes. A cursor walks the buffer;
/// parsing ends when the cursor reaches the buffer length, and fails on a
/// record that would run past it. A repeated tag keeps the later value.
pub fn parse_tlv(buffer: &Vec<u8>) -> (r: Result<TlvMap, IdError>)
    ensures
        r is Ok <==> spec_parse_tlv(buffer@) is Some,
        r matches Ok(m) ==> m.wf() && Some(m@) == spec_parse_tlv(buffer@),
        r matches Err(e) ==> e == IdError::MalformedTlv,
{
    let n: usize = buffer.len();
    let mut m = TlvMap::new();
    let mut cursor: usize = 0;
    proof {
        assert(buffer@.skip(0) =~= buffer@);
    }
    while cursor < n
        invariant
            n == buffer@.len(),
            cursor <= n,
            m.wf(),
            spec_parse_tlv_from(buffer@.skip(cursor as int), m@) == spec_parse_tlv(buffer@),
        decreases n - cursor,
    {
        let ghost rest = buffer@.skip(cursor as int);
        assert(rest.len() == n - cursor);
        if n - cursor < 4 {
            return Err(IdError::MalformedTlv);
        }
        assert(rest[0] == buffer@[cursor as int]);
        assert(rest[1] == buffer@[cursor as int + 1]);
        assert(rest[2] == buffer@[cursor as int + 2]);
        assert(rest[3] == buffer@[cursor as int + 3]);
        let tag: u16 = le16(buffer[cursor], buffer[cursor + 1]);
        let length: usize = le16(buffer[cursor + 2], buffer[cursor + 3]) as usize;
        if n - (cursor + 4) < length {
            assert(rest.len() < 4 + spec_le16(rest[2], rest[3]));
            return Err(IdError::MalformedTlv);
        }
        let value = vstd::slice::slice_to_vec(
            vstd::slice::slice_subrange(buffer.as_slice(), cursor + 4, cursor + 4 + length),
        );
        assert(value@ =~= rest.subrange(4, 4 + length as int));
        m.insert(tag, value);
        cursor = cursor + 4 + length;
        proof {
            assert(buffer@.skip(cursor as int) =~= rest.skip(4 + length as int));
        }
    }
    assert(buffer@.skip(cursor as int) =~= Seq::<u8>::empty());
    Ok(m)
}

/// The canonical encoding of one (tag, value) record: 2-byte little-endian
/// tag, 2-byte little-endian length, then the value bytes.
pub open spec fn spec_tlv_record(tag: u16, value: Seq<u8>) -> Seq<u8>
    recommends
        value.len() <= 0xFFFF,
{
    seq![
        (tag % 256) as u8,
        (tag / 256) as u8,
        (value.len() % 256) as u8,
        ((value.len() / 256) % 256) as u8,
    ] + value
}

/// The canonical encoding of a sequence of (tag, value) pairs, records
/// laid back to back with no padding or terminator.
pub open spec fn spec_tlv_encode(pairs: Seq<(u16, Seq<u8>)>) -> Seq<u8>
    decreases pairs.len(),
{
    if pairs.len() == 0 {
        Seq::empty()
    } else {
        spec_tlv_record(pairs.first().0, pairs.first().1) + spec_tlv_encode(pairs.drop_first())
    }
}

/// The pairs of an entry list, with the value bytes abstracted.
pub open spec fn spec_pairs_view(pairs: Seq<(u16, Vec<u8>)>) -> Seq<(u16, Seq<u8>)> {
    pairs.map_values(|p: (u16, Vec<u8>)| (p.0, p.1@))
}

proof fn lemma_tlv_encode_push(pairs: Seq<(u16, Seq<u8>)>, tag: u16, value: Seq<u8>)
    requires
        value.len() <= 0xFFFF,
    ensures
        spec_tlv_encode(pairs.push((tag, value))) == spec_tlv_encode(pairs) + spec_tlv_record(
            tag,
            value,
        ),
    decreases pairs.len(),
{
    if pairs.len() == 0 {
        let p = pairs.push((tag, value));
        assert(p.first() == (tag, value));
        assert(p.drop_first() =~= Seq::<(u16, Seq<u8>)>::empty());
        assert(spec_tlv_encode(p) == spec_tlv_record(tag, value) + spec_tlv_encode(
            Seq::<(u16, Seq<u8>)>::empty(),
        ));
        assert(spec_tlv_encode(p) =~= spec_tlv_encode(pairs) + spec_tlv_record(tag, value));
    } else {
        assert(pairs.push((tag, value)).drop_first() =~= pairs.drop_first().push((tag, value)));
        assert(pairs.push((tag, value)).first() == pairs.first());
        lemma_tlv_encode_push(pairs.drop_first(), tag, value);
        assert(spec_tlv_encode(pairs.push((tag, value))) =~= spec_tlv_encode(pairs)
            + spec_tlv_record(tag, value));
    }
}

/// Encodes (tag, value) pairs back to back in the canonical form that
/// [`parse_tlv`] reads.
pub fn tlv_encode(pairs: &Vec<(u16, Vec<u8>)>) -> (r: Vec<u8>)
    requires
        forall|i: int| 0 <= i < pairs@.len() ==> (#[trigger] pairs@[i]).1@.len() <= 0xFFFF,
    ensures
        r@ == spec_tlv_encode(spec_pairs_view(pairs@)),
{
    let n: usize = pairs.len();
    let mut out: Vec<u8> = Vec::new();
    let mut i: usize = 0;
    while i < n
        invariant
            n == pairs@.len(),
            i <= n,
            forall|k: int| 0 <= k < pairs@.len() ==> (#[trigger] pairs@[k]).1@.len() <= 0xFFFF,
            out@ == spec_tlv_encode(spec_pairs_view(pairs@).take(i as int)),
        decreases n - i,
    {
        let tag: u16 = pairs[i].0;
        let len: usize = pairs[i].1.len();
        let ghost before = out@;
        out.push((tag % 256) as u8);
        out.push((tag / 256) as u8);
        out.push((len % 256) as u8);
        out.push(((len / 256) % 256) as u8);
        out.extend_from_slice(pairs[i].1.as_slice());
        proof {
            let pv = spec_pairs_view(pairs@);
            assert(out@ =~= before + spec_tlv_record(tag, pairs@[i as int].1@));
            lemma_tlv_encode_push(pv.take(i as int), tag, pairs@[i as int].1@);
            assert(pv.take(i as int).push((tag, pairs@[i as int].1@)) =~= pv.take(i as int + 1));
        }
        i += 1;
    }
    proof {
        assert(spec_pairs_view(pairs@).take(n as int) =~= spec_pairs_view(pairs@));
    }
    out
}

/// Folding (tag, value) pairs into a mapping, in order, later pairs
/// overwriting earlier ones with the same tag.
pub open spec fn spec_pairs_fold(pairs: Seq<(u16, Seq<u8>)>, acc: Map<u16, Seq<u8>>) -> Map<
    u16,
    Seq<u8>,
>
    decreases pairs.len(),
{
    if pairs.len() == 0 {
        acc
    } else {
        spec_pairs_fold(pairs.drop_first(), acc.insert(pairs.first().0, pairs.first().1))
    }
}

proof fn lemma_parse_tlv_from_encode(pairs: Seq<(u16, Seq<u8>)>, acc: Map<u16, Seq<u8>>)
    requires
        forall|i: int| 0 <= i < pairs.len() ==> (#[trigger] pairs[i]).1.len() <= 0xFFFF,
    ensures
        spec_parse_tlv_from(spec_tlv_encode(pairs), acc) == Some(spec_pairs_fold(pairs, acc)),
    decreases pairs.len(),
{
    if pairs.len() == 0 {
    } else {
        let tag = pairs.first().0;
        let value = pairs.first().1;
        let b = spec_tlv_encode(pairs);
        let rec = spec_tlv_record(tag, value);
        assert(rec.len() == 4 + value.len());
        assert(b.len() == rec.len() + spec_tlv_encode(pairs.drop_first()).len());
        assert(b[0] == (tag % 256) as u8);
        assert(b[1] == (tag / 256) as u8);
        assert(b[2] == (value.len() % 256) as u8);
        assert(b[3] == ((value.len() / 256) % 256) as u8);
        assert(spec_le16(b[0], b[1]) == tag) by {
            assert(tag % 256 + (tag / 256) * 256 == tag) by (nonlinear_arith);
        }
        assert(spec_le16(b[2], b[3]) == value.len()) by {
            assert(value.len() % 256 + ((value.len() / 256) % 256) * 256 == value.len()) by {
                assert(value.len() / 256 <= 255);
                assert((value.len() / 256) % 256 == value.len() / 256);
                assert(value.len() % 256 + (value.len() / 256) * 256 == value.len())
                    by (nonlinear_arith);
            }
        }
        let len = spec_le16(b[2], b[3]) as int;
        assert(len == value.len());
        assert(b.len() >= 4 + len);
        assert(b.subrange(4, 4 + len) =~= value);
        assert(b.skip(4 + len) =~= spec_tlv_encode(pairs.drop_first()));
        lemma_parse_tlv_from_encode(pairs.drop_first(), acc.insert(tag, value));
    }
}

proof fn lemma_pairs_fold_get(pairs: Seq<(u16, Seq<u8>)>, acc: Map<u16, Seq<u8>>, t: u16)
    ensures
        spec_pairs_fold(pairs, acc).contains_key(t) <==> acc.contains_key(t) || (exists|i: int|
            0 <= i < pairs.len() && (#[trigger] pairs[i]).0 == t),
        !(exists|i: int| 0 <= i < pairs.len() && (#[trigger] pairs[i]).0 == t)
            ==> spec_pairs_fold(pairs, acc).contains_key(t) == acc.contains_key(t) && (
        acc.contains_key(t) ==> spec_pairs_fold(pairs, acc)[t] == acc[t]),
    decreases pairs.len(),
{
    if pairs.len() == 0 {
    } else {
        let rest = pairs.drop_first();
        let acc1 = acc.insert(pairs.first().0, pairs.first().1);
        lemma_pairs_fold_get(rest, acc1, t);
        assert forall|i: int| 0 <= i < rest.len() implies rest[i] == pairs[i + 1] by {}
        if exists|i: int| 0 <= i < rest.len() && (#[trigger] rest[i]).0 == t {
            let i = choose|i: int| 0 <= i < rest.len() && (#[trigger] rest[i]).0 == t;
            assert((pairs[i + 1]).0 == t);
        }
        if exists|i: int| 0 <= i < pairs.len() && (#[trigger] pairs[i]).0 == t {
            let i = choose|i: int| 0 <= i < pairs.len() && (#[trigger] pairs[i]).0 == t;
            if i == 0 {
                assert(acc1.contains_key(t));
            } else {
                assert((rest[i - 1]).0 == t);
            }
        }
    }
}

proof fn lemma_pairs_fold_distinct(pairs: Seq<(u16, Seq<u8>)>, acc: Map<u16, Seq<u8>>, i: int)
    requires
        forall|j: int, k: int| 0 <= j < k < pairs.len() ==> (#[trigger] pairs[j]).0 != (
        #[trigger] pairs[k]).0,
        0 <= i < pairs.len(),
    ensures
        spec_pairs_fold(pairs, acc).contains_key(pairs[i].0),
        spec_pairs_fold(pairs, acc)[pairs[i].0] == pairs[i].1,
    decreases pairs.len(),
{
    let rest = pairs.drop_first();
    let acc1 = acc.insert(pairs.first().0, pairs.first().1);
    assert forall|j: int| 0 <= j < rest.len() implies rest[j] == pairs[j + 1] by {}
    if i == 0 {
        assert(!(exists|j: int| 0 <= j < rest.len() && (#[trigger] rest[j]).0 == pairs[0].0));
        lemma_pairs_fold_get(rest, acc1, pairs[0].0);
    } else {
        lemma_pairs_fold_distinct(rest, acc1, i - 1);
    }
}

/// Decoding is a left-inverse of the canonical encoding: encoding
/// (tag, value) pairs whose tags are distinct and whose values fit a
/// 16-bit length, then decoding the resulting buffer, yields exactly the
/// mapping the pairs describe: every pair's tag maps to that pair's
/// value bytes, and no other tag is present.
pub proof fn lemma_tlv_round_trip(pairs: Seq<(u16, Seq<u8>)>)
    requires
        forall|i: int| 0 <= i < pairs.len() ==> (#[trigger] pairs[i]).1.len() <= 0xFFFF,
        forall|j: int, k: int| 0 <= j < k < pairs.len() ==> (#[trigger] pairs[j]).0 != (
        #[trigger] pairs[k]).0,
    ensures
        spec_parse_tlv(spec_tlv_encode(pairs)) is Some,
        forall|i: int|
            0 <= i < pairs.len() ==> spec_parse_tlv(spec_tlv_encode(pairs))->0.contains_key(
                (#[trigger] pairs[i]).0,
            ) && spec_parse_tlv(spec_tlv_encode(pairs))->0[pairs[i].0] == pairs[i].1,
        forall|t: u16|
            #[trigger] spec_parse_tlv(spec_tlv_encode(pairs))->0.contains_key(t) ==> exists|i: int|
                0 <= i < pairs.len() && (#[trigger] pairs[i]).0 == t,
{
    lemma_parse_tlv_from_encode(pairs, Map::empty());
    assert forall|i: int| 0 <= i < pairs.len() implies spec_parse_tlv(
        spec_tlv_encode(pairs),
    )->0.contains_key((#[trigger] pairs[i]).0) && spec_parse_tlv(spec_tlv_encode(pairs))->0[
        pairs[i].0] == pairs[i].1 by {
        lemma_pairs_fold_distinct(pairs, Map::empty(), i);
    }
    assert forall|t: u16|
        #[trigger] spec_parse_tlv(spec_tlv_encode(pairs))->0.contains_key(t) implies exists|i: int|
        0 <= i < pairs.len() && (#[trigger] pairs[i]).0 == t by {
        lemma_pairs_fold_get(pairs, Map::empty(), t);
    }
}

} // verus!
