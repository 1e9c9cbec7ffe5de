//! The record shape of one row of the remote item table.
use vstd::prelude::*;
use crate::field::{
    delimited_spec, parse_delimited, DecodeError, FromField,
};
use crate::text::{equals, owned};
use crate::types::ItemType;

verus! {

/// One row of the item table. Every column but the two names may be absent,
/// and every value is text, whatever it encodes.
#[derive(Debug, PartialEq, Eq)]
pub struct RawItem {
    pub itemid: Option<String>,
    pub name: String,
    pub internalname: String,
    pub image: Option<String>,
    pub imagefile: Option<String>,
    pub imageplaced: Option<String>,
    pub imageequipped: Option<String>,
    pub autoswing: Option<String>,
    pub stack: Option<String>,
    pub consumable: Option<String>,
    pub hardmode: Option<String>,
    pub item_type: Option<String>,
    pub listcat: Option<String>,
    pub tag: Option<String>,
    pub damage: Option<String>,
    pub damagetype: Option<String>,
    pub defense: Option<String>,
    pub velocity: Option<String>,
    pub knockback: Option<String>,
    pub research: Option<String>,
    pub rare: Option<String>,
    pub buy: Option<String>,
    pub sell: Option<String>,
    pub axe: Option<String>,
    pub pick: Option<String>,
    pub hammer: Option<String>,
    pub fishing: Option<String>,
    pub bait: Option<String>,
    pub bonus: Option<String>,
    pub toolspeed: Option<String>,
    pub usetime: Option<String>,
    pub unobtainable: Option<String>,
    pub critical: Option<String>,
    pub tooltip: Option<String>,
    pub placeable: Option<String>,
    pub placedwidth: Option<String>,
    pub placedheight: Option<String>,
    pub mana: Option<String>,
    pub hheal: Option<String>,
    pub mheal: Option<String>,
    pub bodyslot: Option<String>,
    pub buffs: Option<String>,
    pub debuffs: Option<String>,
}

/// The column names of the item table, in record order.
pub open spec fn field_names() -> Seq<Seq<char>> {
    seq![
            "itemid"@,
            "name"@,
            "internalname"@,
            "image"@,
            "imagefile"@,
            "imageplaced"@,
            "imageequipped"@,
            "autoswing"@,
            "stack"@,
            "consumable"@,
            "hardmode"@,
            "type"@,
            "listcat"@,
            "tag"@,
            "damage"@,
            "damagetype"@,
            "defense"@,
            "velocity"@,
            "knockback"@,
            "research"@,
            "rare"@,
            "buy"@,
            "sell"@,
            "axe"@,
            "pick"@,
            "hammer"@,
            "fishing"@,
            "bait"@,
            "bonus"@,
            "toolspeed"@,
            "usetime"@,
            "unobtainable"@,
            "critical"@,
            "tooltip"@,
            "placeable"@,
            "placedwidth"@,
            "placedheight"@,
            "mana"@,
            "hheal"@,
            "mheal"@,
            "bodyslot"@,
            "buffs"@,
            "debuffs"@
    ]
}

/// What a boolean column holds: `1` is true, `0` or absence false, and any
/// other text does not decode.
pub open spec fn boolean_spec(field: Option<Seq<char>>) -> Option<bool> {
    match field {
        None => Some(false),
        Some(s) => if s == "1"@ {
            Some(true)
        } else if s == "0"@ {
            Some(false)
        } else {
            None
        },
    }
}

pub open spec fn opt_view(field: Option<String>) -> Option<Seq<char>> {
    match field {
        Some(s) => Some(s@),
        None => None,
    }
}

/// What a list column holds: its decodable pieces, none when absent.
pub open spec fn list_spec<T: FromField>(field: Option<String>) -> Seq<<T as DeepView>::V> {
    match field {
        Some(s) => delimited_spec::<T>(s@),
        None => Seq::empty(),
    }
}

/// What an integer column holds, read as a whole.
pub open spec fn integer_spec<T: FromField>(field: Option<String>) -> Option<<T as DeepView>::V> {
    match field {
        Some(s) => T::field_spec(s@),
        None => None,
    }
}

fn copy_opt(field: &Option<String>) -> (r: Option<String>)
    ensures
        r == *field,
{
    match field {
        Some(s) => Some(s.clone()),
        None => None,
    }
}

impl RawItem {
    /// A record with the given names and every other column absent.
    pub fn new(name: String, internalname: String) -> (r: RawItem)
        ensures
            r.name == name,
            r.internalname == internalname,
            r.itemid is None,
            r.imagefile is None,
            r.autoswing is None,
            r.item_type is None,
            r.damage is None,
            r.damagetype is None,
            r.velocity is None,
            r.knockback is None,
            r.rare is None,
            r.tooltip is None,
    {
        RawItem {
            itemid: None,
            name: name,
            internalname: internalname,
            image: None,
            imagefile: None,
            imageplaced: None,
            imageequipped: None,
            autoswing: None,
            stack: None,
            consumable: None,
            hardmode: None,
            item_type: None,
            listcat: None,
            tag: None,
            damage: None,
            damagetype: None,
            defense: None,
            velocity: None,
            knockback: None,
            research: None,
            rare: None,
            buy: None,
            sell: None,
            axe: None,
            pick: None,
            hammer: None,
            fishing: None,
            bait: None,
            bonus: None,
            toolspeed: None,
            usetime: None,
            unobtainable: None,
            critical: None,
            tooltip: None,
            placeable: None,
            placedwidth: None,
            placedheight: None,
            mana: None,
            hheal: None,
            mheal: None,
            bodyslot: None,
            buffs: None,
            debuffs: None,
        }
    }

    /// The column names to ask the remote table for.
    pub fn fields() -> (r: Vec<String>)
        ensures
            r@.map_values(|s: String| s@) == field_names(),
    {
        proof {
            reveal_strlit("itemid");
            reveal_strlit("name");
            reveal_strlit("internalname");
            reveal_strlit("image");
            reveal_strlit("imagefile");
            reveal_strlit("imageplaced");
            reveal_strlit("imageequipped");
            reveal_strlit("autoswing");
            reveal_strlit("stack");
            reveal_strlit("consumable");
            reveal_strlit("hardmode");
            reveal_strlit("type");
            reveal_strlit("listcat");
            reveal_strlit("tag");
            reveal_strlit("damage");
            reveal_strlit("damagetype");
            reveal_strlit("defense");
            reveal_strlit("velocity");
            reveal_strlit("knockback");
            reveal_strlit("research");
            reveal_strlit("rare");
            reveal_strlit("buy");
            reveal_strlit("sell");
            reveal_strlit("axe");
            reveal_strlit("pick");
            reveal_strlit("hammer");
            reveal_strlit("fishing");
            reveal_strlit("bait");
            reveal_strlit("bonus");
            reveal_strlit("toolspeed");
            reveal_strlit("usetime");
            reveal_strlit("unobtainable");
            reveal_strlit("critical");
            reveal_strlit("tooltip");
            reveal_strlit("placeable");
            reveal_strlit("placedwidth");
            reveal_strlit("placedheight");
            reveal_strlit("mana");
            reveal_strlit("hheal");
            reveal_strlit("mheal");
            reveal_strlit("bodyslot");
            reveal_strlit("buffs");
            reveal_strlit("debuffs");
        }
        let r = vec![
        owned("itemid"),
        owned("name"),
        owned("internalname"),
        owned("image"),
        owned("imagefile"),
        owned("imageplaced"),
        owned("imageequipped"),
        owned("autoswing"),
        owned("stack"),
        owned("consumable"),
        owned("hardmode"),
        owned("type"),
        owned("listcat"),
        owned("tag"),
        owned("damage"),
        owned("damagetype"),
        owned("defense"),
        owned("velocity"),
        owned("knockback"),
        owned("research"),
        owned("rare"),
        owned("buy"),
        owned("sell"),
        owned("axe"),
        owned("pick"),
        owned("hammer"),
        owned("fishing"),
        owned("bait"),
        owned("bonus"),
        owned("toolspeed"),
        owned("usetime"),
        owned("unobtainable"),
        owned("critical"),
        owned("tooltip"),
        owned("placeable"),
        owned("placedwidth"),
        owned("placedheight"),
        owned("mana"),
        owned("hheal"),
        owned("mheal"),
        owned("bodyslot"),
        owned("buffs"),
        owned("debuffs"),
        ];
        proof {
            assert(r@.map_values(|s: String| s@) =~= field_names());
        }
        r
    }

    pub fn name(&self) -> (r: &str)
        ensures
            r@ == self.name@,
    {
        self.name.as_str()
    }

    pub fn internalname(&self) -> (r: &str)
        ensures
            r@ == self.internalname@,
    {
        self.internalname.as_str()
    }

    /// Decodes a `^`-delimited list column; absence gives an empty list.
    pub fn list<T: FromField>(field: &Option<String>) -> (r: Vec<T>)
        ensures
            r.deep_view() == list_spec::<T>(*field),
    {
        match field {
            Some(s) => parse_delimited::<T>(s.as_str()),
            None => {
                let r: Vec<T> = Vec::new();
                proof {
                    assert(r.deep_view() =~= Seq::<<T as DeepView>::V>::empty());
                }
                r
            },
        }
    }

    /// Decodes an integer column read as a whole; absence or bad text gives
    /// `None`.
    pub fn integer<T: FromField>(field: &Option<String>) -> (r: Option<T>)
        ensures
            r.deep_view() == integer_spec::<T>(*field),
    {
        match field {
            Some(s) => T::from_field(s.as_str()),
            None => None,
        }
    }

    /// Decodes a boolean column.
    pub fn boolean(field: &Option<String>) -> (r: Result<bool, DecodeError>)
        ensures
            match r {
                Ok(b) => boolean_spec(opt_view(*field)) == Some(b),
                Err(_) => boolean_spec(opt_view(*field)) is None,
            },
    {
        proof {
            reveal_strlit("1");
            reveal_strlit("0");
        }
        match field {
            None => Ok(false),
            Some(s) => if equals(s.as_str(), "1") {
                Ok(true)
            } else if equals(s.as_str(), "0") {
                Ok(false)
            } else {
                Err(DecodeError)
            },
        }
    }

    /// A markup column, as its source text.
    pub fn wikitext(field: &Option<String>) -> (r: Option<String>)
        ensures
            r == *field,
    {
        copy_opt(field)
    }

    /// A plain text column.
    pub fn string(field: &Option<String>) -> (r: Option<String>)
        ensures
            r == *field,
    {
        copy_opt(field)
    }

    /// The category tags that decode; unknown ones are dropped.
    pub fn types(&self) -> (r: Vec<ItemType>)
        ensures
            r.deep_view() == list_spec::<ItemType>(self.item_type),
    {
        RawItem::list::<ItemType>(&self.item_type)
    }

    /// The identity column, if it holds an integer.
    pub fn itemid(&self) -> (r: Option<i32>)
        ensures
            r == integer_spec::<i32>(self.itemid),
    {
        RawItem::integer::<i32>(&self.itemid)
    }

    pub fn imagefile(&self) -> (r: Option<String>)
        ensures
            r == self.imagefile,
    {
        RawItem::string(&self.imagefile)
    }

    pub fn damagetype(&self) -> (r: Option<String>)
        ensures
            r == self.damagetype,
    {
        RawItem::string(&self.damagetype)
    }

    pub fn tooltip(&self) -> (r: Option<String>)
        ensures
            r == self.tooltip,
    {
        RawItem::wikitext(&self.tooltip)
    }

    /// The item this record normalizes to, without an image; see
    /// `Item::from_raw`.
    pub fn parse(&self) -> (r: Result<Option<crate::item::Item>, crate::item::FieldError>)
        ensures
            match r {
                Err(e) => integer_spec::<i32>(self.itemid) is Some && crate::item::field_error_spec(
                    *self,
                ) == Some(e),
                Ok(None) => integer_spec::<i32>(self.itemid) is None || (
                crate::item::field_error_spec(*self) is None && crate::item::rarity_spec(self.rare)
                    is None),
                Ok(Some(it)) => crate::item::normalizes_to(*self, None, it),
            },
    {
        crate::item::Item::from_raw(self, None)
    }
}

} // verus!
