use wiki_data::field::{parse_delimited, parse_leading_number, parse_opt_leading_number, Decimal, DecodeError, FromField};
use wiki_data::raw::RawItem;
use wiki_data::types::{parse_rarity, DamageType, ItemType, Rarity};

fn as_f32(r: Result<Decimal, DecodeError>) -> Result<f32, DecodeError> {
    r.map(|d| d.as_str().parse::<f32>().unwrap())
}

#[test]
fn leading_number() {
    assert_eq!(parse_leading_number::<i32>("123"), Ok(123));
    assert!(parse_leading_number::<i32>("123.0").is_err());
    assert_eq!(as_f32(parse_leading_number::<Decimal>("123.0")), Ok(123.0));

    assert_eq!(parse_leading_number::<i32>("123 abc"), Ok(123));
    assert_eq!(parse_leading_number::<i32>("123 456"), Ok(123));
    assert_eq!(as_f32(parse_leading_number::<Decimal>("123.0 456")), Ok(123.0));
}

#[test]
fn leading_number_examples() {
    assert_eq!(parse_leading_number::<i32>("15 (avg)"), Ok(15));
    assert_eq!(as_f32(parse_leading_number::<Decimal>("12.5 blue")), Ok(12.5));
    assert_eq!(parse_leading_number::<i32>("abc"), Err(DecodeError));
    assert_eq!(parse_leading_number::<Decimal>("abc"), Err(DecodeError));
    assert_eq!(parse_leading_number::<i32>("15"), Ok(15));
    assert_eq!(parse_leading_number::<i32>("-7 knockback"), Ok(-7));
    assert_eq!(parse_leading_number::<i32>(""), Err(DecodeError));
}

#[test]
fn leading_number_keeps_the_prefix_text() {
    let d = parse_leading_number::<Decimal>("12.5 blue").unwrap();
    assert_eq!(d.as_str(), "12.5");
    assert!(parse_leading_number::<Decimal>("1.2.3").is_err());
    assert!(parse_leading_number::<Decimal>("-").is_err());
    assert_eq!(parse_leading_number::<Decimal>(".5x").unwrap().as_str(), ".5");
}

#[test]
fn integer_limits() {
    assert_eq!(i32::from_field("2147483647"), Some(2147483647));
    assert_eq!(i32::from_field("2147483648"), None);
    assert_eq!(i32::from_field("-2147483648"), Some(-2147483648));
    assert_eq!(i32::from_field("-2147483649"), None);
    assert_eq!(i32::from_field("+12"), Some(12));
    assert_eq!(i32::from_field("-"), None);
    assert_eq!(u32::from_field("4294967295"), Some(4294967295));
    assert_eq!(u32::from_field("4294967296"), None);
    assert_eq!(u32::from_field("-1"), None);
    assert_eq!(usize::from_field("5283"), Some(5283));
    assert_eq!(usize::from_field("99999999999999999999999"), None);
}

#[test]
fn optional_leading_number() {
    assert_eq!(parse_opt_leading_number::<u32>(&Some("14 (fast)".to_string())), Some(14));
    assert_eq!(parse_opt_leading_number::<u32>(&Some("fast".to_string())), None);
    assert_eq!(parse_opt_leading_number::<u32>(&None), None);
}

#[test]
fn boolean_decode() {
    assert_eq!(RawItem::boolean(&Some("1".to_string())), Ok(true));
    assert_eq!(RawItem::boolean(&Some("0".to_string())), Ok(false));
    assert_eq!(RawItem::boolean(&None), Ok(false));
    assert_eq!(RawItem::boolean(&Some("yes".to_string())), Err(DecodeError));
}

#[test]
fn delimited_list_decode() {
    let types = parse_delimited::<ItemType>("Weapon^Tool^bogus");
    assert_eq!(types, vec![ItemType::Weapon, ItemType::Tool]);
    assert_eq!(RawItem::list::<ItemType>(&None), Vec::<ItemType>::new());
    assert_eq!(RawItem::list::<ItemType>(&Some("bogus".to_string())), Vec::<ItemType>::new());
    assert_eq!(parse_delimited::<String>("a^^b"), vec!["a".to_string(), String::new(), "b".to_string()]);
    assert_eq!(parse_delimited::<i32>("1^x^3^"), vec![1, 3]);
}

#[test]
fn labels_ignore_case() {
    assert_eq!(ItemType::from_field("WEAPON"), Some(ItemType::Weapon));
    assert_eq!(ItemType::from_field("tOoL"), Some(ItemType::Tool));
    assert_eq!(ItemType::from_field("weapons"), None);
    assert_eq!(DamageType::from_field("Melee"), Some(DamageType::Melee));
    assert_eq!(DamageType::from_field("RANGED"), Some(DamageType::Ranged));
    assert_eq!(DamageType::from_field("summon"), Some(DamageType::Summon));
    assert_eq!(DamageType::from_field("Magic"), Some(DamageType::Magic));
    assert_eq!(DamageType::from_field("-"), Some(DamageType::Other));
    assert_eq!(DamageType::from_field("thrown"), None);
}

#[test]
fn rarity_decode() {
    assert_eq!(Rarity::from_field("quest"), Some(Rarity::Quest));
    assert_eq!(Rarity::from_field("3"), Some(Rarity::Orange));
    assert_eq!(Rarity::from_field("99"), None);
    assert_eq!(Rarity::from_field("-12"), Some(Rarity::Expert));
    assert_eq!(Rarity::from_field("-12").unwrap().color(), 0xffaf00);
    assert_eq!(Rarity::from_field("5 (pink)"), Some(Rarity::Pink));
    assert_eq!(Rarity::from_field("Quest"), None);
    assert_eq!(parse_rarity(&Some("-1".to_string())), Some(Rarity::Gray));
    assert_eq!(parse_rarity(&None), None);
}

#[test]
fn rarity_codes_and_colors() {
    let all = [
        (Rarity::Gray, -1, 0x828282),
        (Rarity::White, 0, 0xffffff),
        (Rarity::Blue, 1, 0x9696ff),
        (Rarity::Green, 2, 0x96ff96),
        (Rarity::Orange, 3, 0xffc896),
        (Rarity::LightRed, 4, 0xff9696),
        (Rarity::Pink, 5, 0xff96ff),
        (Rarity::LightPurple, 6, 0xd2a0ff),
        (Rarity::Lime, 7, 0x96ff0a),
        (Rarity::Yellow, 8, 0xffff0a),
        (Rarity::Cyan, 9, 0x05c8ff),
        (Rarity::Red, 10, 0xff2864),
        (Rarity::Purple, 11, 0xb428ff),
        (Rarity::Expert, -12, 0xffaf00),
        (Rarity::Master, -13, 0xff0000),
        (Rarity::Quest, -11, 0xffaf00),
    ];
    for (r, code, color) in all {
        assert_eq!(r.code(), code);
        assert_eq!(r.color(), color);
        assert_eq!(Rarity::from_code(code), Some(r));
    }
    assert_eq!(Rarity::from_code(12), None);
    assert_eq!(Rarity::from_code(-2), None);
}
