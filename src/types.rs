//! The closed vocabularies of a normalized item.
use vstd::prelude::*;
use crate::field::{leading_prefix, parse_leading_number, DecodeError, FromField};
use crate::text::matches_label;

verus! {

/// A category tag of an item.
#[derive(Debug, Clone, Copy, PartialEq, Eq, Structural)]
pub enum ItemType {
    Weapon,
    Tool,
}

impl DeepView for ItemType {
    type V = ItemType;

    open spec fn deep_view(&self) -> ItemType {
        *self
    }
}

// Matching ignores ASCII case. No label holds a letter that a non-ASCII
// character lowercases to, so this agrees with full Unicode lowercasing.
impl FromField for ItemType {
    open spec fn field_spec(s: Seq<char>) -> Option<ItemType> {
        let l = crate::text::ascii_lower(s);
        if l == "weapon"@ {
            Some(ItemType::Weapon)
        } else if l == "tool"@ {
            Some(ItemType::Tool)
        } else {
            None
        }
    }

    fn from_field(s: &str) -> (r: Option<ItemType>) {
        if matches_label(s, "weapon") {
            Some(ItemType::Weapon)
        } else if matches_label(s, "tool") {
            Some(ItemType::Tool)
        } else {
            None
        }
    }
}

/// The damage class of a weapon; `-` stands for none of the four.
#[derive(Debug, Clone, Copy, PartialEq, Eq, Structural)]
pub enum DamageType {
    Melee,
    Ranged,
    Summon,
    Magic,
    Other,
}

impl DeepView for DamageType {
    type V = DamageType;

    open spec fn deep_view(&self) -> DamageType {
        *self
    }
}

impl FromField for DamageType {
    open spec fn field_spec(s: Seq<char>) -> Option<DamageType> {
        let l = crate::text::ascii_lower(s);
        if l == "melee"@ {
            Some(DamageType::Melee)
        } else if l == "ranged"@ {
            Some(DamageType::Ranged)
        } else if l == "summon"@ {
            Some(DamageType::Summon)
        } else if l == "magic"@ {
            Some(DamageType::Magic)
        } else if l == "-"@ {
            Some(DamageType::Other)
        } else {
            None
        }
    }

    fn from_field(s: &str) -> (r: Option<DamageType>) {
        if matches_label(s, "melee") {
            Some(DamageType::Melee)
        } else if matches_label(s, "ranged") {
            Some(DamageType::Ranged)
        } else if matches_label(s, "summon") {
            Some(DamageType::Summon)
        } else if matches_label(s, "magic") {
            Some(DamageType::Magic)
        } else if matches_label(s, "-") {
            Some(DamageType::Other)
        } else {
            None
        }
    }
}

/// The quality tier of an item.
#[derive(Debug, Clone, Copy, PartialEq, Eq, Structural)]
pub enum Rarity {
    Gray,
    White,
    Blue,
    Green,
    Orange,
    LightRed,
    Pink,
    LightPurple,
    Lime,
    Yellow,
    Cyan,
    Red,
    Purple,
    Expert,
    Master,
    Quest,
}

impl DeepView for Rarity {
    type V = Rarity;

    open spec fn deep_view(&self) -> Rarity {
        *self
    }
}

impl Rarity {
    /// The tier with the numeric code `c`: `-1` to `11` for the ordinary
    /// tiers, `-11`, `-12` and `-13` for Quest, Expert and Master.
    pub open spec fn from_code_spec(c: int) -> Option<Rarity> {
        if c == -1 {
            Some(Rarity::Gray)
        } else if c == 0 {
            Some(Rarity::White)
        } else if c == 1 {
            Some(Rarity::Blue)
        } else if c == 2 {
            Some(Rarity::Green)
        } else if c == 3 {
            Some(Rarity::Orange)
        } else if c == 4 {
            Some(Rarity::LightRed)
        } else if c == 5 {
            Some(Rarity::Pink)
        } else if c == 6 {
            Some(Rarity::LightPurple)
        } else if c == 7 {
            Some(Rarity::Lime)
        } else if c == 8 {
            Some(Rarity::Yellow)
        } else if c == 9 {
            Some(Rarity::Cyan)
        } else if c == 10 {
            Some(Rarity::Red)
        } else if c == 11 {
            Some(Rarity::Purple)
        } else if c == -12 {
            Some(Rarity::Expert)
        } else if c == -13 {
            Some(Rarity::Master)
        } else if c == -11 {
            Some(Rarity::Quest)
        } else {
            None
        }
    }

    pub open spec fn code_spec(self) -> int {
        match self {
            Rarity::Gray => -1,
            Rarity::White => 0,
            Rarity::Blue => 1,
            Rarity::Green => 2,
            Rarity::Orange => 3,
            Rarity::LightRed => 4,
            Rarity::Pink => 5,
            Rarity::LightPurple => 6,
            Rarity::Lime => 7,
            Rarity::Yellow => 8,
            Rarity::Cyan => 9,
            Rarity::Red => 10,
            Rarity::Purple => 11,
            Rarity::Expert => -12,
            Rarity::Master => -13,
            Rarity::Quest => -11,
        }
    }

    pub open spec fn color_spec(self) -> u32 {
        match self {
            Rarity::Gray => 0x828282,
            Rarity::White => 0xffffff,
            Rarity::Blue => 0x9696ff,
            Rarity::Green => 0x96ff96,
            Rarity::Orange => 0xffc896,
            Rarity::LightRed => 0xff9696,
            Rarity::Pink => 0xff96ff,
            Rarity::LightPurple => 0xd2a0ff,
            Rarity::Lime => 0x96ff0a,
            Rarity::Yellow => 0xffff0a,
            Rarity::Cyan => 0x05c8ff,
            Rarity::Red => 0xff2864,
            Rarity::Purple => 0xb428ff,
            Rarity::Expert => 0xffaf00,
            Rarity::Master => 0xff0000,
            Rarity::Quest => 0xffaf00,
        }
    }

    /// The display color, as `0xRRGGBB`.
    pub fn color(&self) -> (r: u32)
        ensures
            r == self.color_spec(),
    {
        match self {
            Rarity::Gray => 0x828282,
            Rarity::White => 0xffffff,
            Rarity::Blue => 0x9696ff,
            Rarity::Green => 0x96ff96,
            Rarity::Orange => 0xffc896,
            Rarity::LightRed => 0xff9696,
            Rarity::Pink => 0xff96ff,
            Rarity::LightPurple => 0xd2a0ff,
            Rarity::Lime => 0x96ff0a,
            Rarity::Yellow => 0xffff0a,
            Rarity::Cyan => 0x05c8ff,
            Rarity::Red => 0xff2864,
            Rarity::Purple => 0xb428ff,
            Rarity::Expert => 0xffaf00,
            Rarity::Master => 0xff0000,
            Rarity::Quest => 0xffaf00,
        }
    }

    /// The numeric code of the tier.
    pub fn code(&self) -> (r: i32)
        ensures
            r == self.code_spec(),
            Rarity::from_code_spec(r as int) == Some(*self),
    {
        match self {
            Rarity::Gray => -1,
            Rarity::White => 0,
            Rarity::Blue => 1,
            Rarity::Green => 2,
            Rarity::Orange => 3,
            Rarity::LightRed => 4,
            Rarity::Pink => 5,
            Rarity::LightPurple => 6,
            Rarity::Lime => 7,
            Rarity::Yellow => 8,
            Rarity::Cyan => 9,
            Rarity::Red => 10,
            Rarity::Purple => 11,
            Rarity::Expert => -12,
            Rarity::Master => -13,
            Rarity::Quest => -11,
        }
    }

    /// The tier with numeric code `c`, if any.
    pub fn from_code(c: i32) -> (r: Option<Rarity>)
        ensures
            r == Rarity::from_code_spec(c as int),
    {
        match c {
            -1 => Some(Rarity::Gray),
            0 => Some(Rarity::White),
            1 => Some(Rarity::Blue),
            2 => Some(Rarity::Green),
            3 => Some(Rarity::Orange),
            4 => Some(Rarity::LightRed),
            5 => Some(Rarity::Pink),
            6 => Some(Rarity::LightPurple),
            7 => Some(Rarity::Lime),
            8 => Some(Rarity::Yellow),
            9 => Some(Rarity::Cyan),
            10 => Some(Rarity::Red),
            11 => Some(Rarity::Purple),
            -12 => Some(Rarity::Expert),
            -13 => Some(Rarity::Master),
            -11 => Some(Rarity::Quest),
            _ => None,
        }
    }
}

// The literal `quest` is tried first: the Quest tier's code lies outside the
// run of the ordinary codes. Anything else goes through its numeric prefix.
impl FromField for Rarity {
    open spec fn field_spec(s: Seq<char>) -> Option<Rarity> {
        if s == "quest"@ {
            Some(Rarity::Quest)
        } else {
            match <i32 as FromField>::field_spec(leading_prefix(s)) {
                Some(c) => Rarity::from_code_spec(c as int),
                None => None,
            }
        }
    }

    fn from_field(s: &str) -> (r: Option<Rarity>) {
        if crate::text::equals(s, "quest") {
            return Some(Rarity::Quest);
        }
        match parse_leading_number::<i32>(s) {
            Ok(c) => Rarity::from_code(c),
            Err(DecodeError) => None,
        }
    }
}

/// Decodes an optional rarity field; absence is a failure.
pub fn parse_rarity(s: &Option<String>) -> (r: Option<Rarity>)
    ensures
        r == match s {
            Some(t) => <Rarity as FromField>::field_spec(t@),
            None => None,
        },
{
    match s {
        Some(t) => Rarity::from_field(t.as_str()),
        None => None,
    }
}

} // verus!
