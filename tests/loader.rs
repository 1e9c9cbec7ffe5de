use wiki_data::image::Image;
use wiki_data::loader::{LoadFailure, Loader};

fn image(name: &str) -> Image {
    Image { name: name.to_string(), data: vec![0], width: 1, height: 1 }
}

#[test]
fn wiki_addresses_resolve() {
    let l = Loader::new(vec![image("a.png"), image("b.png")]);
    assert_eq!(l.load("wiki://b.png"), Ok(1));
    assert_eq!(l.load("wiki://c.png"), Err(LoadFailure::NotFound));
    assert_eq!(l.load("https://b.png"), Err(LoadFailure::NotSupported));
    assert_eq!(l.load("wiki:/"), Err(LoadFailure::NotSupported));
    assert_eq!(l.load("wiki://"), Err(LoadFailure::NotFound));
}
