//! Normalization of one raw record into a typed item.
use vstd::prelude::*;
use crate::field::{leading_prefix, parse_leading_number, parse_opt_leading_number, Decimal, FromField};
use crate::image::ImageLocation;
use crate::raw::{boolean_spec, integer_spec, list_spec, opt_view, RawItem};
use crate::types::{parse_rarity, DamageType, ItemType, Rarity};
use crate::wikitext::{wikitext_spec, WikiText};

verus! {

/// A normalized catalog item.
#[derive(Debug)]
pub struct Item {
    pub item_id: i32,
    pub name: String,
    pub types: Vec<ItemType>,
    pub damage: Option<i32>,
    pub damage_type: Option<DamageType>,
    pub autoswing: bool,
    pub velocity: Option<u32>,
    pub knockback: Option<Decimal>,
    pub rarity: Rarity,
    pub tooltip: Option<WikiText>,
    pub image_location: Option<ImageLocation>,
}

/// A column whose text lies outside the vocabulary the pipeline expects.
/// Unlike a missing identity or rarity, this stops the whole run.
#[derive(Debug, Clone, Copy, PartialEq, Eq, Structural)]
pub enum FieldError {
    DamageType,
    Autoswing,
    Velocity,
}

/// The damage type column: `Some(None)` when absent, `None` when its text
/// names no damage type.
pub open spec fn damage_type_spec(f: Option<String>) -> Option<Option<DamageType>> {
    match f {
        None => Some(None),
        Some(s) => match <DamageType as FromField>::field_spec(s@) {
            Some(d) => Some(Some(d)),
            None => None,
        },
    }
}

/// The velocity column, by its numeric prefix: `Some(None)` when absent,
/// `None` when the prefix does not decode.
pub open spec fn velocity_spec(f: Option<String>) -> Option<Option<u32>> {
    match f {
        None => Some(None),
        Some(s) => match <u32 as FromField>::field_spec(leading_prefix(s@)) {
            Some(v) => Some(Some(v)),
            None => None,
        },
    }
}

/// The numeric prefix of an optional column, when it decodes.
pub open spec fn opt_leading_spec<T: FromField>(f: Option<String>) -> Option<<T as DeepView>::V> {
    match f {
        Some(s) => T::field_spec(leading_prefix(s@)),
        None => None,
    }
}

pub open spec fn rarity_spec(f: Option<String>) -> Option<Rarity> {
    match f {
        Some(s) => <Rarity as FromField>::field_spec(s@),
        None => None,
    }
}

/// The first malformed vocabulary column, in record order.
pub open spec fn field_error_spec(raw: RawItem) -> Option<FieldError> {
    if damage_type_spec(raw.damagetype) is None {
        Some(FieldError::DamageType)
    } else if boolean_spec(opt_view(raw.autoswing)) is None {
        Some(FieldError::Autoswing)
    } else if velocity_spec(raw.velocity) is None {
        Some(FieldError::Velocity)
    } else {
        None
    }
}

/// `it` is what the record `raw` normalizes to, with `image` attached.
pub open spec fn normalizes_to(raw: RawItem, image: Option<ImageLocation>, it: Item) -> bool {
    &&& integer_spec::<i32>(raw.itemid) == Some(it.item_id)
    &&& field_error_spec(raw) is None
    &&& rarity_spec(raw.rare) == Some(it.rarity)
    &&& it.name@ == raw.name@
    &&& it.types.deep_view() == list_spec::<ItemType>(raw.item_type)
    &&& it.damage == opt_leading_spec::<i32>(raw.damage)
    &&& damage_type_spec(raw.damagetype) == Some(it.damage_type)
    &&& boolean_spec(opt_view(raw.autoswing)) == Some(it.autoswing)
    &&& velocity_spec(raw.velocity) == Some(it.velocity)
    &&& it.knockback.deep_view() == opt_leading_spec::<Decimal>(raw.knockback)
    &&& match raw.tooltip {
        Some(t) => it.tooltip is Some && it.tooltip->0.text@ == wikitext_spec(t@),
        None => it.tooltip is None,
    }
    &&& it.image_location == image
}

impl Item {
    /// Normalizes one record. A record without an integer identity, or
    /// whose rarity does not decode, is no item (`Ok(None)`). A damage type,
    /// autoswing flag or velocity outside its vocabulary is an error. The
    /// other columns are decoded where present and left unset otherwise.
    pub fn from_raw(raw: &RawItem, image: Option<ImageLocation>) -> (r: Result<Option<Item>, FieldError>)
        ensures
            match r {
                Err(e) => integer_spec::<i32>(raw.itemid) is Some && field_error_spec(*raw) == Some(e),
                Ok(None) => integer_spec::<i32>(raw.itemid) is None || (field_error_spec(*raw) is None
                    && rarity_spec(raw.rare) is None),
                Ok(Some(it)) => normalizes_to(*raw, image, it),
            },
    {
        let item_id = match raw.itemid() {
            Some(id) => id,
            None => return Ok(None),
        };
        let name = raw.name.clone();
        let types = raw.types();
        let damage = parse_opt_leading_number::<i32>(&raw.damage);
        let damage_type = match &raw.damagetype {
            Some(s) => match DamageType::from_field(s.as_str()) {
                Some(d) => Some(d),
                None => return Err(FieldError::DamageType),
            },
            None => None,
        };
        let autoswing = match RawItem::boolean(&raw.autoswing) {
            Ok(b) => b,
            Err(_) => return Err(FieldError::Autoswing),
        };
        let velocity = match &raw.velocity {
            Some(s) => match parse_leading_number::<u32>(s.as_str()) {
                Ok(v) => Some(v),
                Err(_) => return Err(FieldError::Velocity),
            },
            None => None,
        };
        let knockback = parse_opt_leading_number::<Decimal>(&raw.knockback);
        let rarity = match parse_rarity(&raw.rare) {
            Some(r) => r,
            None => return Ok(None),
        };
        let tooltip = match &raw.tooltip {
            Some(t) => Some(WikiText::new(t.as_str())),
            None => None,
        };
        Ok(
            Some(
                Item {
                    item_id,
                    name,
                    types,
                    damage,
                    damage_type,
                    autoswing,
                    velocity,
                    knockback,
                    rarity,
                    tooltip,
                    image_location: image,
                },
            ),
        )
    }
}


/// Whether the record `raw` is an item: it has an integer identity, its
/// vocabulary columns are well formed and its rarity decodes.
pub open spec fn accepted_spec(raw: RawItem) -> bool {
    &&& integer_spec::<i32>(raw.itemid) is Some
    &&& field_error_spec(raw) is None
    &&& rarity_spec(raw.rare) is Some
}

pub open spec fn fails_spec(raw: RawItem) -> bool {
    integer_spec::<i32>(raw.itemid) is Some && field_error_spec(raw) is Some
}

/// `image` is the first location named by the record's image file, or
/// `None` when the record names none or no location has that name.
pub open spec fn located(raw: RawItem, ls: Seq<ImageLocation>, image: Option<ImageLocation>) -> bool {
    match image {
        Some(l) => raw.imagefile is Some && exists|i: int|
            0 <= i < ls.len() && ls[i] == l && l.name@ == raw.imagefile->0@ && forall|j: int|
                0 <= j < i ==> (#[trigger] ls[j]).name@ != raw.imagefile->0@,
        None => raw.imagefile is None || forall|i: int|
            0 <= i < ls.len() ==> (#[trigger] ls[i]).name@ != raw.imagefile->0@,
    }
}

/// The location of the record's image: the first one named by its image
/// file column.
pub fn locate(raw: &RawItem, locations: &Vec<ImageLocation>) -> (r: Option<ImageLocation>)
    ensures
        located(*raw, locations@, r),
{
    let f = match &raw.imagefile {
        Some(f) => f,
        None => return None,
    };
    let mut i: usize = 0;
    while i < locations.len()
        invariant
            i <= locations.len(),
            raw.imagefile == Some(*f),
            forall|j: int| 0 <= j < i ==> (#[trigger] locations@[j]).name@ != f@,
        decreases locations.len() - i,
    {
        if crate::text::equals(locations[i].name.as_str(), f.as_str()) {
            let l = locations[i].copy();
            proof {
                assert(locations@[i as int] == l);
            }
            return Some(l);
        }
        i = i + 1;
    }
    None
}

pub open spec fn sorted_by_id(items: Seq<Item>) -> bool {
    forall|i: int, j: int| 0 <= i < j < items.len() ==> items[i].item_id <= items[j].item_id
}

/// Orders items by identity.
#[verifier::rlimit(40)]
pub fn sort_by_id(items: Vec<Item>) -> (r: Vec<Item>)
    ensures
        sorted_by_id(r@),
        r@.to_multiset() == items@.to_multiset(),
{
    let ghost orig = items@;
    let mut rest = items;
    let mut out: Vec<Item> = Vec::new();
    let ghost taken: Seq<Item> = Seq::empty();
    proof {
        out@.to_multiset_ensures();
        vstd::multiset::lemma_multiset_empty_len(out@.to_multiset());
        assert(out@.to_multiset().add(rest@.to_multiset()) =~= orig.to_multiset());
    }
    while rest.len() > 0
        invariant
            sorted_by_id(out@),
            out@.to_multiset().add(rest@.to_multiset()) == orig.to_multiset(),
        decreases rest.len(),
    {
        let ghost before = rest@;
        let x = rest.remove(0);
        proof {
            assert(before.remove(0) =~= rest@);
        }
        let mut pos: usize = 0;
        while pos < out.len() && out[pos].item_id <= x.item_id
            invariant
                pos <= out.len(),
                forall|k: int| 0 <= k < pos ==> (#[trigger] out@[k]).item_id <= x.item_id,
            decreases out.len() - pos,
        {
            pos = pos + 1;
        }
        let ghost prev = out@;
        out.insert(pos, x);
        proof {
            assert(out@ == prev.insert(pos as int, x));
            prev.insert_ensures(pos as int, x);
            assert forall|i: int, j: int| 0 <= i < j < out@.len() implies out@[i].item_id
                <= out@[j].item_id by {
                if j < pos {
                } else if j == pos {
                    if i < pos {
                        assert(out@[i] == prev[i]);
                    }
                } else if i < pos {
                    assert(out@[j] == prev[j - 1]);
                    assert(out@[i] == prev[i]);
                    if pos < prev.len() {
                        assert(prev[pos as int].item_id > x.item_id);
                        assert(prev[i].item_id <= prev[j - 1].item_id);
                    }
                } else if i == pos {
                    assert(out@[j] == prev[j - 1]);
                    assert(prev[pos as int].item_id > x.item_id);
                    assert(prev[pos as int].item_id <= prev[j - 1].item_id);
                } else {
                    assert(out@[j] == prev[j - 1]);
                    assert(out@[i] == prev[i - 1]);
                }
            }
            before.to_multiset_ensures();
            assert(before.to_multiset().count(x) > 0);
            assert(before.to_multiset() =~= rest@.to_multiset().insert(x));
            vstd::seq_lib::to_multiset_insert(prev, pos as int, x);
            assert(out@.to_multiset() =~= prev.to_multiset().insert(x));
            assert(out@.to_multiset().add(rest@.to_multiset()) =~= prev.to_multiset().add(
                before.to_multiset(),
            ));
        }
    }
    proof {
        rest@.to_multiset_ensures();
        vstd::multiset::lemma_multiset_empty_len(rest@.to_multiset());
        assert(out@.to_multiset().add(rest@.to_multiset()) =~= out@.to_multiset());
    }
    out
}


/// `items` are the items of the accepted records of `raws`, one each and in
/// record order, each with its record's image location.
pub open spec fn normalized_in_order(raws: Seq<RawItem>, ls: Seq<ImageLocation>, items: Seq<Item>) -> bool
    decreases raws.len(),
{
    if raws.len() == 0 {
        items.len() == 0
    } else if accepted_spec(raws.last()) {
        &&& items.len() > 0
        &&& exists|image: Option<ImageLocation>|
            located(raws.last(), ls, image) && #[trigger] normalizes_to(
                raws.last(),
                image,
                items.last(),
            )
        &&& normalized_in_order(raws.drop_last(), ls, items.drop_last())
    } else {
        normalized_in_order(raws.drop_last(), ls, items)
    }
}

/// Normalizes every record, each with the location of its image, keeps the
/// items and orders them by identity. The first record with a malformed
/// vocabulary column stops the run with its error.
pub fn parse_items(raws: &Vec<RawItem>, locations: &Vec<ImageLocation>) -> (r: Result<
    Vec<Item>,
    FieldError,
>)
    ensures
        match r {
            Err(e) => exists|i: int|
                0 <= i < raws@.len() && fails_spec(raws@[i]) && field_error_spec(raws@[i]) == Some(
                    e,
                ) && forall|j: int| 0 <= j < i ==> !fails_spec(#[trigger] raws@[j]),
            Ok(items) => {
                &&& forall|i: int| 0 <= i < raws@.len() ==> !fails_spec(#[trigger] raws@[i])
                &&& sorted_by_id(items@)
                &&& exists|in_order: Seq<Item>|
                    normalized_in_order(raws@, locations@, in_order) && #[trigger] in_order.to_multiset()
                        == items@.to_multiset()
            },
        },
{
    let mut out: Vec<Item> = Vec::new();
    let mut i: usize = 0;
    proof {
        assert(raws@.take(0) =~= Seq::<RawItem>::empty());
    }
    while i < raws.len()
        invariant
            i <= raws.len(),
            forall|j: int| 0 <= j < i ==> !fails_spec(#[trigger] raws@[j]),
            normalized_in_order(raws@.take(i as int), locations@, out@),
        decreases raws.len() - i,
    {
        let ghost now = raws@.take(i + 1);
        proof {
            assert(now.drop_last() =~= raws@.take(i as int));
            assert(now.last() == raws@[i as int]);
        }
        let raw = &raws[i];
        let image = locate(raw, locations);
        match Item::from_raw(raw, image) {
            Err(e) => {
                return Err(e);
            },
            Ok(Some(it)) => {
                let ghost prev = out@;
                out.push(it);
                proof {
                    assert(out@.drop_last() =~= prev);
                    assert(out@.last() == it);
                    assert(located(now.last(), locations@, image) && normalizes_to(
                        now.last(),
                        image,
                        out@.last(),
                    ));
                }
            },
            Ok(None) => {},
        }
        i = i + 1;
    }
    proof {
        assert(raws@.take(raws@.len() as int) =~= raws@);
    }
    let ghost unsorted = out@;
    let sorted = sort_by_id(out);
    proof {
        assert(normalized_in_order(raws@, locations@, unsorted) && unsorted.to_multiset()
            == sorted@.to_multiset());
    }
    Ok(sorted)
}

/// The combat view of a record tagged as a weapon.
#[derive(Debug)]
pub struct Weapon {
    pub name: String,
    pub damage: Option<i32>,
    pub damage_type: Option<DamageType>,
    pub autoswing: bool,
    pub velocity: Option<u32>,
    pub knockback: Option<Decimal>,
    pub rarity: Rarity,
}

/// The first malformed column among those a weapon reads, in record order.
pub open spec fn weapon_error_spec(raw: RawItem) -> Option<FieldError> {
    if damage_type_spec(raw.damagetype) is None {
        Some(FieldError::DamageType)
    } else if boolean_spec(opt_view(raw.autoswing)) is None {
        Some(FieldError::Autoswing)
    } else if velocity_spec(raw.velocity) is None {
        Some(FieldError::Velocity)
    } else {
        None
    }
}

/// Whether the record's category tags include the weapon tag.
pub open spec fn is_weapon_spec(raw: RawItem) -> bool {
    list_spec::<ItemType>(raw.item_type).contains(ItemType::Weapon)
}

fn contains_weapon(types: &Vec<ItemType>) -> (r: bool)
    ensures
        r == types@.contains(ItemType::Weapon),
{
    let mut i: usize = 0;
    while i < types.len()
        invariant
            i <= types.len(),
            forall|j: int| 0 <= j < i ==> types@[j] != ItemType::Weapon,
        decreases types.len() - i,
    {
        if types[i] == ItemType::Weapon {
            return true;
        }
        i = i + 1;
    }
    false
}

impl Weapon {
    /// Reads a weapon from a record tagged as one. Untagged records, and
    /// records whose rarity does not decode, are no weapon; a malformed
    /// damage type, autoswing flag or velocity is an error. Damage and
    /// knockback are read from their numeric prefixes where they decode.
    pub fn from_raw(raw: &RawItem) -> (r: Result<Option<Weapon>, FieldError>)
        ensures
            match r {
                Err(e) => is_weapon_spec(*raw) && weapon_error_spec(*raw) == Some(e),
                Ok(None) => !is_weapon_spec(*raw) || (weapon_error_spec(*raw) is None && rarity_spec(
                    raw.rare,
                ) is None),
                Ok(Some(w)) => {
                    &&& is_weapon_spec(*raw)
                    &&& weapon_error_spec(*raw) is None
                    &&& rarity_spec(raw.rare) == Some(w.rarity)
                    &&& w.name@ == raw.name@
                    &&& w.damage == opt_leading_spec::<i32>(raw.damage)
                    &&& damage_type_spec(raw.damagetype) == Some(w.damage_type)
                    &&& boolean_spec(opt_view(raw.autoswing)) == Some(w.autoswing)
                    &&& velocity_spec(raw.velocity) == Some(w.velocity)
                    &&& w.knockback.deep_view() == opt_leading_spec::<Decimal>(raw.knockback)
                },
            },
    {
        let types = raw.types();
        proof {
            assert(types@ == types.deep_view()) by {
                assert(types.deep_view() =~= types@);
            }
        }
        if !contains_weapon(&types) {
            return Ok(None);
        }
        let damage_type = match &raw.damagetype {
            Some(s) => match DamageType::from_field(s.as_str()) {
                Some(d) => Some(d),
                None => return Err(FieldError::DamageType),
            },
            None => None,
        };
        let autoswing = match RawItem::boolean(&raw.autoswing) {
            Ok(b) => b,
            Err(_) => return Err(FieldError::Autoswing),
        };
        let velocity = match &raw.velocity {
            Some(s) => match parse_leading_number::<u32>(s.as_str()) {
                Ok(v) => Some(v),
                Err(_) => return Err(FieldError::Velocity),
            },
            None => None,
        };
        let rarity = match parse_rarity(&raw.rare) {
            Some(r) => r,
            None => return Ok(None),
        };
        Ok(
            Some(
                Weapon {
                    name: raw.name.clone(),
                    damage: parse_opt_leading_number::<i32>(&raw.damage),
                    damage_type,
                    autoswing,
                    velocity,
                    knockback: parse_opt_leading_number::<Decimal>(&raw.knockback),
                    rarity,
                },
            ),
        )
    }
}

} // verus!
