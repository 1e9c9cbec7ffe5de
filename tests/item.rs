use wiki_data::image::ImageLocation;
use wiki_data::item::{locate, parse_items, sort_by_id, FieldError, Item, Weapon};
use wiki_data::raw::RawItem;
use wiki_data::types::{DamageType, ItemType, Rarity};

fn record(id: &str, name: &str, rare: &str) -> RawItem {
    let mut r = RawItem::new(name.to_string(), name.replace(' ', ""));
    r.itemid = Some(id.to_string());
    r.rare = Some(rare.to_string());
    r
}

fn location(name: &str) -> ImageLocation {
    ImageLocation { name: name.to_string(), url: format!("https://img/{name}"), width: 32, height: 16 }
}

#[test]
fn normalizes_a_full_record() {
    let mut r = record("4", "Copper Shortsword", "0");
    r.item_type = Some("Weapon^bogus".to_string());
    r.damage = Some("5 (melee)".to_string());
    r.damagetype = Some("melee".to_string());
    r.autoswing = Some("1".to_string());
    r.velocity = Some("12 (fast)".to_string());
    r.knockback = Some("4.5 (average)".to_string());
    r.tooltip = Some("Stabs&lt;br&gt;quickly".to_string());
    let it = Item::from_raw(&r, Some(location("Copper.png"))).unwrap().unwrap();
    assert_eq!(it.item_id, 4);
    assert_eq!(it.name, "Copper Shortsword");
    assert_eq!(it.types, vec![ItemType::Weapon]);
    assert_eq!(it.damage, Some(5));
    assert_eq!(it.damage_type, Some(DamageType::Melee));
    assert!(it.autoswing);
    assert_eq!(it.velocity, Some(12));
    assert_eq!(it.knockback.as_ref().unwrap().as_str(), "4.5");
    assert_eq!(it.rarity, Rarity::White);
    assert_eq!(it.tooltip.unwrap().text, "Stabs\nquickly");
    assert_eq!(it.image_location, Some(location("Copper.png")));
}

#[test]
fn absent_columns_stay_unset() {
    let it = Item::from_raw(&record("7", "Torch", "quest"), None).unwrap().unwrap();
    assert_eq!(it.types, Vec::<ItemType>::new());
    assert_eq!(it.damage, None);
    assert_eq!(it.damage_type, None);
    assert!(!it.autoswing);
    assert_eq!(it.velocity, None);
    assert!(it.knockback.is_none());
    assert_eq!(it.rarity, Rarity::Quest);
    assert!(it.tooltip.is_none());
    assert!(it.image_location.is_none());
}

#[test]
fn missing_identity_or_rarity_is_no_item() {
    let mut r = record("1", "Placeholder", "3");
    r.itemid = None;
    assert!(matches!(Item::from_raw(&r, None), Ok(None)));
    let r = record("abc", "Bad id", "3");
    assert!(matches!(Item::from_raw(&r, None), Ok(None)));
    let r = record("2", "Bad rarity", "99");
    assert!(matches!(Item::from_raw(&r, None), Ok(None)));
    let mut r = record("2", "No rarity", "3");
    r.rare = None;
    assert!(matches!(Item::from_raw(&r, None), Ok(None)));
}

#[test]
fn malformed_vocabulary_is_an_error() {
    let mut r = record("1", "A", "3");
    r.damagetype = Some("thrown".to_string());
    assert_eq!(Item::from_raw(&r, None).err(), Some(FieldError::DamageType));
    let mut r = record("1", "A", "3");
    r.autoswing = Some("yes".to_string());
    assert_eq!(Item::from_raw(&r, None).err(), Some(FieldError::Autoswing));
    let mut r = record("1", "A", "3");
    r.velocity = Some("fast".to_string());
    assert_eq!(Item::from_raw(&r, None).err(), Some(FieldError::Velocity));
    let mut r = record("1", "A", "99");
    r.damagetype = Some("thrown".to_string());
    assert_eq!(Item::from_raw(&r, None).err(), Some(FieldError::DamageType));
}

#[test]
fn missing_identity_hides_malformed_columns() {
    let mut r = record("1", "A", "3");
    r.itemid = None;
    r.damagetype = Some("thrown".to_string());
    assert!(matches!(Item::from_raw(&r, None), Ok(None)));
}

#[test]
fn locate_takes_the_first_matching_location() {
    let mut r = record("1", "A", "3");
    let ls = vec![location("a.png"), location("b.png")];
    assert_eq!(locate(&r, &ls), None);
    r.imagefile = Some("b.png".to_string());
    assert_eq!(locate(&r, &ls), Some(location("b.png")));
    r.imagefile = Some("c.png".to_string());
    assert_eq!(locate(&r, &ls), None);
}

#[test]
fn parse_items_sorts_by_identity() {
    let mut a = record("30", "C", "1");
    a.imagefile = Some("c.png".to_string());
    let raws = vec![a, record("10", "A", "2"), record("x", "Junk", "2"), record("20", "B", "99"), record("5", "D", "-13")];
    let items = parse_items(&raws, &vec![location("c.png")]).unwrap();
    let ids: Vec<i32> = items.iter().map(|i| i.item_id).collect();
    assert_eq!(ids, vec![5, 10, 30]);
    assert_eq!(items[2].image_location, Some(location("c.png")));
    assert_eq!(items[0].rarity, Rarity::Master);
}

#[test]
fn parse_items_stops_on_malformed_vocabulary() {
    let mut bad = record("2", "B", "1");
    bad.velocity = Some("slow".to_string());
    let raws = vec![record("1", "A", "1"), bad];
    assert_eq!(parse_items(&raws, &vec![]).err(), Some(FieldError::Velocity));
}

#[test]
fn sort_by_id_is_stable() {
    let raws = vec![record("2", "first", "1"), record("1", "x", "1"), record("2", "second", "1")];
    let items: Vec<Item> = raws.iter().map(|r| Item::from_raw(r, None).unwrap().unwrap()).collect();
    let sorted = sort_by_id(items);
    let names: Vec<&str> = sorted.iter().map(|i| i.name.as_str()).collect();
    assert_eq!(names, vec!["x", "first", "second"]);
    assert!(sort_by_id(vec![]).is_empty());
}

#[test]
fn raw_item_accessors() {
    let mut r = RawItem::new("Iron Pickaxe".to_string(), "IronPickaxe".to_string());
    r.itemid = Some("1".to_string());
    r.imagefile = Some("Iron_Pickaxe.png".to_string());
    r.damagetype = Some("melee".to_string());
    r.tooltip = Some("Mines".to_string());
    r.item_type = Some("tool".to_string());
    assert_eq!(r.name(), "Iron Pickaxe");
    assert_eq!(r.internalname(), "IronPickaxe");
    assert_eq!(r.itemid(), Some(1));
    assert_eq!(r.imagefile(), Some("Iron_Pickaxe.png".to_string()));
    assert_eq!(r.damagetype(), Some("melee".to_string()));
    assert_eq!(r.tooltip(), Some("Mines".to_string()));
    assert_eq!(r.types(), vec![ItemType::Tool]);
    assert_eq!(RawItem::integer::<i32>(&Some("12 px".to_string())), None);
    assert_eq!(RawItem::integer::<i32>(&Some("12".to_string())), Some(12));
    assert_eq!(RawItem::wikitext(&Some("x".to_string())), Some("x".to_string()));
    assert_eq!(RawItem::string(&None), None);
}

#[test]
fn field_names_in_record_order() {
    let f = RawItem::fields();
    assert_eq!(f.len(), 43);
    assert_eq!(f[0], "itemid");
    assert_eq!(f[11], "type");
    assert_eq!(f[42], "debuffs");
    assert_eq!(f.join(",").matches(',').count(), 42);
}

#[test]
fn raw_parse_attaches_no_image() {
    let mut r = record("9", "Gel", "0");
    r.imagefile = Some("Gel.png".to_string());
    let it = r.parse().unwrap().unwrap();
    assert_eq!(it.item_id, 9);
    assert!(it.image_location.is_none());
}

#[test]
fn weapon_needs_weapon_tag() {
    let mut r = record("1", "Wooden Sword", "0");
    assert!(matches!(Weapon::from_raw(&r), Ok(None)));
    r.item_type = Some("Tool^weapon".to_string());
    r.damage = Some("7".to_string());
    r.damagetype = Some("Melee".to_string());
    r.autoswing = Some("0".to_string());
    r.velocity = Some("8 (fast)".to_string());
    r.knockback = Some("5".to_string());
    let w = Weapon::from_raw(&r).unwrap().unwrap();
    assert_eq!(w.name, "Wooden Sword");
    assert_eq!(w.damage, Some(7));
    assert_eq!(w.damage_type, Some(DamageType::Melee));
    assert!(!w.autoswing);
    assert_eq!(w.velocity, Some(8));
    assert_eq!(w.knockback.unwrap().as_str(), "5");
    assert_eq!(w.rarity, Rarity::White);
}

#[test]
fn weapon_errors_and_rejections() {
    let mut r = record("1", "Sword", "0");
    r.item_type = Some("weapon".to_string());
    r.autoswing = Some("2".to_string());
    assert_eq!(Weapon::from_raw(&r).err(), Some(FieldError::Autoswing));
    r.autoswing = None;
    r.damagetype = Some("fire".to_string());
    assert_eq!(Weapon::from_raw(&r).err(), Some(FieldError::DamageType));
    r.damagetype = None;
    r.velocity = Some("fast".to_string());
    assert_eq!(Weapon::from_raw(&r).err(), Some(FieldError::Velocity));
    r.velocity = None;
    r.rare = Some("42".to_string());
    assert!(matches!(Weapon::from_raw(&r), Ok(None)));
}
