use wiki_data::item::Item as CatalogItem;
use wiki_data::raw::RawItem;
use wiki_data::tdata::{Data, Item, Milestone, TDataTree, TreeError};

fn catalog(names: &[&str]) -> Vec<CatalogItem> {
    names
        .iter()
        .enumerate()
        .map(|(i, n)| {
            let mut r = RawItem::new(n.to_string(), n.to_string());
            r.itemid = Some(i.to_string());
            r.rare = Some("1".to_string());
            CatalogItem::from_raw(&r, None).unwrap().unwrap()
        })
        .collect()
}

fn item(name: &str, milestone: &str) -> Item {
    Item { name: name.to_string(), tags: vec!["t".to_string()], milestone: milestone.to_string() }
}

fn milestones(names: &[&str]) -> Vec<Milestone> {
    names.iter().map(|n| Milestone { name: n.to_string() }).collect()
}

#[test]
fn items_grouped_in_input_order() {
    let data = Data {
        milestones: milestones(&["Early", "Late"]),
        items: vec![item("item1", "Early"), item("item2", "Late"), item("item3", "Early")],
    };
    let cat = catalog(&["item3", "item1", "item2"]);
    let tree = TDataTree::from_tdata(&data, &cat).ok().unwrap();
    assert_eq!(tree.milestones.len(), 2);
    assert_eq!(tree.milestones[0].name, "Early");
    let early: Vec<&str> = tree.milestones[0].items.iter().map(|t| t.tdata.name.as_str()).collect();
    assert_eq!(early, vec!["item1", "item3"]);
    assert_eq!(tree.milestones[1].name, "Late");
    let late: Vec<&str> = tree.milestones[1].items.iter().map(|t| t.tdata.name.as_str()).collect();
    assert_eq!(late, vec!["item2"]);
    assert_eq!(cat[tree.milestones[0].items[0].wiki_data].name, "item1");
    assert_eq!(tree.milestones[0].items[1].wiki_data, 0);
    assert_eq!(tree.milestones[0].items[0].tdata.tags, vec!["t".to_string()]);
}

#[test]
fn unknown_milestone_aborts() {
    let data = Data { milestones: milestones(&["Early"]), items: vec![item("item1", "Middle")] };
    let cat = catalog(&["item1"]);
    assert_eq!(TDataTree::from_tdata(&data, &cat).err(), Some(TreeError::UnknownMilestone));
}

#[test]
fn missing_catalog_entry_aborts() {
    let data = Data { milestones: milestones(&["Early"]), items: vec![item("item9", "Early")] };
    let cat = catalog(&["item1"]);
    assert_eq!(TDataTree::from_tdata(&data, &cat).err(), Some(TreeError::MissingWikiData));
}

#[test]
fn empty_milestones_stay() {
    let data = Data { milestones: milestones(&["A", "B"]), items: vec![] };
    let tree = TDataTree::from_tdata(&data, &vec![]).ok().unwrap();
    assert_eq!(tree.milestones.len(), 2);
    assert!(tree.milestones[1].items.is_empty());
}

#[test]
fn data_parts_concatenate() {
    let a = Data { milestones: milestones(&["A"]), items: vec![] };
    let b = Data { milestones: vec![], items: vec![item("x", "A"), item("y", "A")] };
    let c = Data { milestones: milestones(&["B"]), items: vec![item("z", "B")] };
    let d = Data::concat(vec![a, b, c]);
    let ms: Vec<&str> = d.milestones.iter().map(|m| m.name.as_str()).collect();
    assert_eq!(ms, vec!["A", "B"]);
    let is: Vec<&str> = d.items.iter().map(|i| i.name.as_str()).collect();
    assert_eq!(is, vec!["x", "y", "z"]);
}
