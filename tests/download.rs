use wiki_data::download::{CargoQuery, CargoQueryEntry, Count, Pagination};
use wiki_data::raw::RawItem;

fn rows(n: usize) -> Vec<RawItem> {
    (0..n).map(|i| RawItem::new(format!("r{i}"), format!("r{i}"))).collect()
}

#[test]
fn pages_until_total_reached() {
    let mut p = Pagination::new(5);
    assert_eq!(p.next_offset(), Some(0));
    p.receive(rows(3));
    assert_eq!(p.next_offset(), Some(3));
    p.receive(rows(3));
    assert_eq!(p.next_offset(), None);
    assert_eq!(p.finish().len(), 6);
}

#[test]
fn empty_page_ends_download() {
    let mut p = Pagination::new(100);
    p.receive(rows(2));
    assert_eq!(p.next_offset(), Some(2));
    p.receive(vec![]);
    assert_eq!(p.next_offset(), None);
    let records = p.finish();
    assert_eq!(records.len(), 2);
    assert_eq!(records[1].name, "r1");
}

#[test]
fn zero_total_asks_nothing() {
    let p = Pagination::new(0);
    assert_eq!(p.next_offset(), None);
}

#[test]
fn count_from_query() {
    let q = CargoQuery { cargoquery: vec![CargoQueryEntry { title: Count { count: "5283".to_string() } }] };
    assert_eq!(Count::total(&q), Some(5283));
    let bad = CargoQuery { cargoquery: vec![CargoQueryEntry { title: Count { count: "many".to_string() } }] };
    assert_eq!(Count::total(&bad), None);
    let none: CargoQuery<Count> = CargoQuery { cargoquery: vec![] };
    assert_eq!(Count::total(&none), None);
}

#[test]
fn rows_of_query() {
    let q = CargoQuery {
        cargoquery: vec![CargoQueryEntry { title: 1 }, CargoQueryEntry { title: 2 }],
    };
    assert_eq!(q.into_rows(), vec![1, 2]);
}
