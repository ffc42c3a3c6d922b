//! Entity attribute maps.
//!
//! On the wire an attribute map is a run of `[1-byte header][typed value]`
//! entries terminated by the header value 127. A header packs a value type
//! in its top three bits and an attribute key in its low five; a key seen
//! twice keeps the later value.

use vstd::prelude::*;

use crate::codec::{
    parse_i16, parse_i32, parse_i8, parse_u32, parse_u8, DecodeError, Reader,
};
use crate::text::{parse_str, read_str};

verus! {

/// One typed attribute value. A 32-bit float value is carried as its raw
/// IEEE-754 bits: the protocol only moves it, nothing here computes with it.
#[derive(Debug, Clone, PartialEq)]
pub enum EntityAttributeValue {
    I8(i8),
    I16(i16),
    I32(i32),
    F32Bits(u32),
    Str(String),
    Item { id: i16, num_items: i8, data: i16 },
    ChunkPos(i32, i32, i32),
}

/// The mathematical value of an attribute: a string becomes its character
/// sequence.
pub enum AttrValue {
    I8(i8),
    I16(i16),
    I32(i32),
    F32Bits(u32),
    Str(Seq<char>),
    Item { id: i16, num_items: i8, data: i16 },
    ChunkPos(i32, i32, i32),
}

impl View for EntityAttributeValue {
    type V = AttrValue;

    open spec fn view(&self) -> AttrValue {
        match self {
            EntityAttributeValue::I8(x) => AttrValue::I8(*x),
            EntityAttributeValue::I16(x) => AttrValue::I16(*x),
            EntityAttributeValue::I32(x) => AttrValue::I32(*x),
            EntityAttributeValue::F32Bits(x) => AttrValue::F32Bits(*x),
            EntityAttributeValue::Str(s) => AttrValue::Str(s@),
            EntityAttributeValue::Item { id, num_items, data } => AttrValue::Item {
                id: *id,
                num_items: *num_items,
                data: *data,
            },
            EntityAttributeValue::ChunkPos(x, y, z) => AttrValue::ChunkPos(*x, *y, *z),
        }
    }
}

/// Spec-level parse of one typed value, selected by the header's type tag.
pub open spec fn parse_attr_value(s: Seq<u8>, i: int, ty: u8) -> Result<
    (AttrValue, int),
    DecodeError,
> {
    if ty == 0 {
        match parse_i8(s, i) {
            Ok((v, j)) => Ok((AttrValue::I8(v), j)),
            Err(e) => Err(e),
        }
    } else if ty == 1 {
        match parse_i16(s, i) {
            Ok((v, j)) => Ok((AttrValue::I16(v), j)),
            Err(e) => Err(e),
        }
    } else if ty == 2 {
        match parse_i32(s, i) {
            Ok((v, j)) => Ok((AttrValue::I32(v), j)),
            Err(e) => Err(e),
        }
    } else if ty == 3 {
        match parse_u32(s, i) {
            Ok((v, j)) => Ok((AttrValue::F32Bits(v), j)),
            Err(e) => Err(e),
        }
    } else if ty == 4 {
        match parse_str(s, i, 64) {
            Ok((cs, j)) => Ok((AttrValue::Str(cs), j)),
            Err(e) => Err(e),
        }
    } else if ty == 5 {
        match parse_i16(s, i) {
            Err(e) => Err(e),
            Ok((id, j)) => match parse_i8(s, j) {
                Err(e) => Err(e),
                Ok((num_items, j)) => match parse_i16(s, j) {
                    Err(e) => Err(e),
                    Ok((data, j)) => Ok((AttrValue::Item { id, num_items, data }, j)),
                },
            },
        }
    } else if ty == 6 {
        match parse_i32(s, i) {
            Err(e) => Err(e),
            Ok((x, j)) => match parse_i32(s, j) {
                Err(e) => Err(e),
                Ok((y, j)) => match parse_i32(s, j) {
                    Err(e) => Err(e),
                    Ok((z, j)) => Ok((AttrValue::ChunkPos(x, y, z), j)),
                },
            },
        }
    } else {
        Err(DecodeError::AttributeType(ty))
    }
}

/// A successful value parse moves the cursor forward and stays inside the
/// buffer.
pub proof fn lemma_parse_attr_value_advances(s: Seq<u8>, i: int, ty: u8)
    ensures
        parse_attr_value(s, i, ty) matches Ok(r) ==> i < r.1 <= s.len(),
{
}

/// Spec-level parse of a whole attribute map: the entries in wire order,
/// ending just past the terminator byte.
pub open spec fn parse_attributes(s: Seq<u8>, i: int) -> Result<
    (Seq<(u8, AttrValue)>, int),
    DecodeError,
>
    decreases s.len() - i,
    via parse_attributes_decreases
{
    match parse_u8(s, i) {
        Err(e) => Err(e),
        Ok((header, j)) => if header == 127 {
            Ok((Seq::empty(), j))
        } else {
            let ty = header / 32;
            let key = header % 32;
            match parse_attr_value(s, j, ty) {
                Err(e) => Err(e),
                Ok((v, k)) => match parse_attributes(s, k) {
                    Err(e) => Err(e),
                    Ok((rest, end)) => Ok((seq![(key, v)] + rest, end)),
                },
            }
        },
    }
}

#[via_fn]
proof fn parse_attributes_decreases(s: Seq<u8>, i: int) {
    if let Ok((header, j)) = parse_u8(s, i) {
        if header != 127 {
            lemma_parse_attr_value_advances(s, j, header / 32);
        }
    }
}

/// The key-to-value map a run of entries builds up, later entries winning.
pub open spec fn map_of(pairs: Seq<(u8, AttrValue)>) -> Map<u8, AttrValue>
    decreases pairs.len(),
{
    if pairs.len() == 0 {
        Map::empty()
    } else {
        map_of(pairs.drop_last()).insert(pairs.last().0, pairs.last().1)
    }
}

/// The keys of the built map are exactly the keys of the entries.
pub proof fn lemma_map_of_contains(pairs: Seq<(u8, AttrValue)>, k: u8)
    ensures
        map_of(pairs).contains_key(k) <==> exists|i: int|
            0 <= i < pairs.len() && (#[trigger] pairs[i]).0 == k,
    decreases pairs.len(),
{
    if pairs.len() > 0 {
        lemma_map_of_contains(pairs.drop_last(), k);
        if pairs.last().0 == k {
            assert(pairs[pairs.len() - 1].0 == k);
        } else if map_of(pairs).contains_key(k) {
            let i = choose|i: int| 0 <= i < pairs.drop_last().len() && (#[trigger] pairs.drop_last(
            )[i]).0 == k;
            assert(pairs[i].0 == k);
        } else {
            assert forall|i: int| 0 <= i < pairs.len() && (#[trigger] pairs[i]).0 == k implies
            false by {
                if i < pairs.len() - 1 {
                    assert(pairs.drop_last()[i].0 == k);
                }
            }
        }
    }
}

/// Entries with pairwise distinct keys.
pub open spec fn distinct_keys(pairs: Seq<(u8, AttrValue)>) -> bool {
    forall|i: int, j: int|
        0 <= i < j < pairs.len() ==> (#[trigger] pairs[i]).0 != (#[trigger] pairs[j]).0
}

/// Entries with distinct keys build a map with exactly one pair per entry:
/// decoding `N` such entries yields exactly `N` key/value pairs.
pub proof fn lemma_map_of_distinct_len(pairs: Seq<(u8, AttrValue)>)
    requires
        distinct_keys(pairs),
    ensures
        map_of(pairs).dom().len() == pairs.len(),
        map_of(pairs).dom().finite(),
    decreases pairs.len(),
{
    if pairs.len() == 0 {
        assert(map_of(pairs).dom() =~= Set::<u8>::empty());
    } else {
        let front = pairs.drop_last();
        assert(distinct_keys(front)) by {
            assert forall|i: int, j: int| 0 <= i < j < front.len() implies (
            #[trigger] front[i]).0 != (#[trigger] front[j]).0 by {
                assert(pairs[i].0 != pairs[j].0);
            }
        }
        lemma_map_of_distinct_len(front);
        lemma_map_of_contains(front, pairs.last().0);
        assert(!map_of(front).contains_key(pairs.last().0)) by {
            if map_of(front).contains_key(pairs.last().0) {
                let i = choose|i: int|
                    0 <= i < front.len() && (#[trigger] front[i]).0 == pairs.last().0;
                assert(pairs[i].0 == pairs[pairs.len() - 1].0);
            }
        }
        assert(map_of(pairs).dom() =~= map_of(front).dom().insert(pairs.last().0));
    }
}

/// A decoded attribute map: an association list in first-insertion order
/// whose keys are unique, viewed as a key-to-value map.
#[derive(Debug)]
pub struct EntityAttributes {
    entries: Vec<(u8, EntityAttributeValue)>,
}

impl View for EntityAttributes {
    type V = Map<u8, AttrValue>;

    closed spec fn view(&self) -> Map<u8, AttrValue> {
        map_of(self.model())
    }
}

impl EntityAttributes {
    /// The entries as the spec sees them.
    pub closed spec fn model(&self) -> Seq<(u8, AttrValue)> {
        Seq::new(self.entries@.len(), |i: int| (self.entries@[i].0, self.entries@[i].1@))
    }

    /// Keys are stored at most once.
    pub closed spec fn wf(&self) -> bool {
        distinct_keys(self.model())
    }

    pub fn new() -> (r: EntityAttributes)
        ensures
            r.wf(),
            r@ == Map::<u8, AttrValue>::empty(),
            r.model() == Seq::<(u8, AttrValue)>::empty(),
    {
        let r = EntityAttributes { entries: Vec::new() };
        proof {
            assert(r.model() =~= Seq::<(u8, AttrValue)>::empty());
        }
        r
    }

    /// Adds a key/value pair, replacing the value if the key is present.
    pub fn insert(&mut self, key: u8, value: EntityAttributeValue)
        requires
            old(self).wf(),
        ensures
            final(self).wf(),
            final(self)@ == old(self)@.insert(key, value@),
    {
        let ghost old_model = self.model();
        let n = self.entries.len();
        let mut i: usize = 0;
        while i < n
            invariant
                i <= n,
                n == self.entries@.len(),
                self.wf(),
                self.model() == old_model,
                old_model == old(self).model(),
                forall|t: int| 0 <= t < i ==> (#[trigger] old_model[t]).0 != key,
            decreases n - i,
        {
            if self.entries[i].0 == key {
                proof {
                    assert(old_model[i as int].0 == key);
                }
                self.entries.set(i, (key, value));
                proof {
                    lemma_map_of_update(old_model, i as int, key, value@);
                    assert(self.model() =~= old_model.update(i as int, (key, value@)));
                    assert(distinct_keys(self.model()));
                }
                return ;
            }
            i = i + 1;
        }
        self.entries.push((key, value));
        proof {
            assert(self.model() =~= old_model.push((key, value@)));
            assert(self.model().drop_last() =~= old_model);
            assert(final(self)@ == old(self)@.insert(key, value@));
            assert forall|a: int, b: int| 0 <= a < b < self.model().len() implies (
            #[trigger] self.model()[a]).0 != (#[trigger] self.model()[b]).0 by {
                if b == self.model().len() - 1 {
                    assert(old_model[a].0 != key);
                } else {
                    assert(old_model[a].0 != old_model[b].0);
                }
            }
        }
    }

    /// Looks a key up.
    pub fn get(&self, key: u8) -> (r: Option<&EntityAttributeValue>)
        requires
            self.wf(),
        ensures
            match r {
                Some(v) => self@.contains_key(key) && self@[key] == v@,
                None => !self@.contains_key(key),
            },
    {
        let n = self.entries.len();
        let mut i: usize = 0;
        while i < n
            invariant
                i <= n,
                n == self.entries@.len(),
                self.wf(),
                forall|t: int| 0 <= t < i ==> (#[trigger] self.model()[t]).0 != key,
            decreases n - i,
        {
            if self.entries[i].0 == key {
                proof {
                    assert(self.model()[i as int].0 == key);
                    lemma_map_of_lookup(self.model(), i as int);
                }
                return Some(&self.entries[i].1);
            }
            i = i + 1;
        }
        proof {
            lemma_map_of_contains(self.model(), key);
        }
        None
    }

    /// How many distinct attributes the map holds.
    pub fn len(&self) -> (r: usize)
        requires
            self.wf(),
        ensures
            r == self@.dom().len(),
    {
        proof {
            lemma_map_of_distinct_len(self.model());
        }
        self.entries.len()
    }
}

/// With unique keys, updating the entry that holds a key builds the same map
/// as inserting over the whole list.
proof fn lemma_map_of_update(pairs: Seq<(u8, AttrValue)>, i: int, key: u8, v: AttrValue)
    requires
        distinct_keys(pairs),
        0 <= i < pairs.len(),
        pairs[i].0 == key,
    ensures
        map_of(pairs.update(i, (key, v))) == map_of(pairs).insert(key, v),
    decreases pairs.len(),
{
    let updated = pairs.update(i, (key, v));
    if i == pairs.len() - 1 {
        assert(updated.drop_last() =~= pairs.drop_last());
        assert(map_of(pairs).insert(key, v) =~= map_of(pairs.drop_last()).insert(
            pairs.last().0,
            pairs.last().1,
        ).insert(key, v));
        assert(updated.last() == (key, v));
        assert(map_of(updated) =~= map_of(pairs).insert(key, v));
    } else {
        let front = pairs.drop_last();
        assert(distinct_keys(front)) by {
            assert forall|a: int, b: int| 0 <= a < b < front.len() implies (
            #[trigger] front[a]).0 != (#[trigger] front[b]).0 by {
                assert(pairs[a].0 != pairs[b].0);
            }
        }
        assert(front[i].0 == key);
        lemma_map_of_update(front, i, key, v);
        assert(updated.drop_last() =~= front.update(i, (key, v)));
        assert(updated.last() == pairs.last());
        assert(pairs.last().0 != key) by {
            assert(pairs[i].0 == key);
            assert(pairs[pairs.len() - 1].0 != pairs[i].0);
        }
        assert(map_of(updated) =~= map_of(pairs).insert(key, v)) by {
            assert(map_of(updated) == map_of(front).insert(key, v).insert(
                pairs.last().0,
                pairs.last().1,
            ));
            assert(map_of(front).insert(key, v).insert(pairs.last().0, pairs.last().1) =~= map_of(
                front,
            ).insert(pairs.last().0, pairs.last().1).insert(key, v));
        }
    }
}

/// With unique keys, the map sends each stored key to its stored value.
proof fn lemma_map_of_lookup(pairs: Seq<(u8, AttrValue)>, i: int)
    requires
        distinct_keys(pairs),
        0 <= i < pairs.len(),
    ensures
        map_of(pairs).contains_key(pairs[i].0),
        map_of(pairs)[pairs[i].0] == pairs[i].1,
    decreases pairs.len(),
{
    if i == pairs.len() - 1 {
    } else {
        let front = pairs.drop_last();
        assert(distinct_keys(front)) by {
            assert forall|a: int, b: int| 0 <= a < b < front.len() implies (
            #[trigger] front[a]).0 != (#[trigger] front[b]).0 by {
                assert(pairs[a].0 != pairs[b].0);
            }
        }
        assert(front[i] == pairs[i]);
        lemma_map_of_lookup(front, i);
        assert(pairs.last().0 != pairs[i].0) by {
            assert(pairs[pairs.len() - 1].0 != pairs[i].0);
        }
    }
}

impl EntityAttributeValue {
    /// Reads one typed value, the type selected by an attribute header.
    pub fn read(ty: u8, r: &mut Reader) -> (res: Result<EntityAttributeValue, DecodeError>)
        requires
            old(r).wf(),
        ensures
            final(r).wf(),
            final(r).bytes() == old(r).bytes(),
            match res {
                Ok(v) => parse_attr_value(old(r).bytes(), old(r).spec_pos(), ty) matches Ok(p)
                    && p.0 == v@ && p.1 == final(r).spec_pos(),
                Err(e) => parse_attr_value(old(r).bytes(), old(r).spec_pos(), ty) == Err::<
                    (AttrValue, int),
                    _,
                >(e),
            },
    {
        match ty {
            0 => match r.read_i8() {
                Ok(v) => Ok(EntityAttributeValue::I8(v)),
                Err(e) => Err(e),
            },
            1 => match r.read_i16() {
                Ok(v) => Ok(EntityAttributeValue::I16(v)),
                Err(e) => Err(e),
            },
            2 => match r.read_i32() {
                Ok(v) => Ok(EntityAttributeValue::I32(v)),
                Err(e) => Err(e),
            },
            3 => match r.read_u32() {
                Ok(v) => Ok(EntityAttributeValue::F32Bits(v)),
                Err(e) => Err(e),
            },
            4 => match read_str(r, 64) {
                Ok(s) => Ok(EntityAttributeValue::Str(s)),
                Err(e) => Err(e),
            },
            5 => {
                let id = match r.read_i16() {
                    Ok(v) => v,
                    Err(e) => {
                        return Err(e);
                    },
                };
                let num_items = match r.read_i8() {
                    Ok(v) => v,
                    Err(e) => {
                        return Err(e);
                    },
                };
                let data = match r.read_i16() {
                    Ok(v) => v,
                    Err(e) => {
                        return Err(e);
                    },
                };
                Ok(EntityAttributeValue::Item { id, num_items, data })
            },
            6 => {
                let x = match r.read_i32() {
                    Ok(v) => v,
                    Err(e) => {
                        return Err(e);
                    },
                };
                let y = match r.read_i32() {
                    Ok(v) => v,
                    Err(e) => {
                        return Err(e);
                    },
                };
                let z = match r.read_i32() {
                    Ok(v) => v,
                    Err(e) => {
                        return Err(e);
                    },
                };
                Ok(EntityAttributeValue::ChunkPos(x, y, z))
            },
            _ => Err(DecodeError::AttributeType(ty)),
        }
    }
}

/// Reads a whole attribute map, entry by entry, up to and including the
/// terminator header.
pub fn read_entity_attributes(r: &mut Reader) -> (res: Result<EntityAttributes, DecodeError>)
    requires
        old(r).wf(),
    ensures
        final(r).wf(),
        final(r).bytes() == old(r).bytes(),
        match res {
            Ok(attrs) => attrs.wf() && (parse_attributes(old(r).bytes(), old(r).spec_pos())
                matches Ok(p) && attrs@ == map_of(p.0) && p.1 == final(r).spec_pos()),
            Err(e) => parse_attributes(old(r).bytes(), old(r).spec_pos()) == Err::<
                (Seq<(u8, AttrValue)>, int),
                _,
            >(e),
        },
{
    let mut attrs = EntityAttributes::new();
    let ghost pairs: Seq<(u8, AttrValue)> = Seq::empty();
    loop
        invariant
            r.wf(),
            r.bytes() == old(r).bytes(),
            attrs.wf(),
            attrs@ == map_of(pairs),
            parse_attributes(old(r).bytes(), old(r).spec_pos()) == (match parse_attributes(
                old(r).bytes(),
                r.spec_pos(),
            ) {
                Ok((rest, end)) => Ok::<_, DecodeError>((pairs + rest, end)),
                Err(e) => Err(e),
            }),
        decreases r.bytes().len() - r.spec_pos(),
    {
        let ghost pos0 = r.spec_pos();
        let header = match r.read_u8() {
            Ok(v) => v,
            Err(e) => {
                return Err(e);
            },
        };
        if header == 127 {
            proof {
                assert(pairs + Seq::<(u8, AttrValue)>::empty() =~= pairs);
            }
            return Ok(attrs);
        }
        let ty = header / 32;
        let key = header % 32;
        let value = match EntityAttributeValue::read(ty, r) {
            Ok(v) => v,
            Err(e) => {
                return Err(e);
            },
        };
        proof {
            lemma_parse_attr_value_advances(old(r).bytes(), pos0 + 1, ty);
            if let Ok((rest, end)) = parse_attributes(old(r).bytes(), r.spec_pos()) {
                assert((pairs + (seq![(key, value@)] + rest)) =~= (pairs.push((key, value@))
                    + rest));
            }
            assert(pairs.push((key, value@)).drop_last() =~= pairs);
        }
        attrs.insert(key, value);
        proof {
            pairs = pairs.push((key, value@));
        }
    }
}

} // verus!
