use wiki_data::image::{
    image_titles, missing_locations, pending_image_files, sort_by_name, Image, ImageDownload,
    ImageLocation, WikiImageInfo, WikiImageInfoPage,
};
use wiki_data::raw::RawItem;

fn location(name: &str) -> ImageLocation {
    ImageLocation { name: name.to_string(), url: format!("https://img/{name}"), width: 8, height: 9 }
}

fn image(name: &str) -> Image {
    Image { name: name.to_string(), data: vec![1, 2], width: 8, height: 9 }
}

fn info(url: &str) -> WikiImageInfo {
    WikiImageInfo {
        url: url.to_string(),
        descriptionurl: String::new(),
        descriptionshorturl: String::new(),
        width: 40,
        height: 20,
        size: 100,
    }
}

#[test]
fn resume_fetches_the_complement() {
    let locations = vec![location("a"), location("b"), location("c"), location("d")];
    let stored = vec![image("b"), image("d")];
    assert_eq!(missing_locations(&locations, &stored), vec![location("a"), location("c")]);

    let mut run = ImageDownload::new(stored, &locations);
    let mut asked = Vec::new();
    while let Some(l) = run.next_location() {
        asked.push(l.name.clone());
        run.receive(Some(vec![7]));
    }
    assert_eq!(asked, vec!["a".to_string(), "c".to_string()]);
    assert!(run.is_complete());
    let done = run.finish();
    let mut names: Vec<String> = done.iter().map(|i| i.name.clone()).collect();
    assert_eq!(names, vec!["b", "d", "a", "c"]);
    names.sort();
    names.dedup();
    assert_eq!(names, vec!["a", "b", "c", "d"]);
    assert_eq!(done[2].data, vec![7]);
    assert_eq!((done[2].width, done[2].height), (8, 9));
}

#[test]
fn first_failure_stops_and_keeps_progress() {
    let locations = vec![location("a"), location("b"), location("c")];
    let mut run = ImageDownload::new(vec![], &locations);
    assert_eq!(run.next_location().map(|l| l.name.clone()), Some("a".to_string()));
    run.receive(Some(vec![1]));
    assert_eq!(run.next_location().map(|l| l.name.clone()), Some("b".to_string()));
    run.receive(None);
    assert!(run.next_location().is_none());
    assert!(!run.is_complete());
    let done = run.finish();
    assert_eq!(done.len(), 1);
    assert_eq!(done[0].name, "a");
}

#[test]
fn nothing_to_fetch_when_all_stored() {
    let locations = vec![location("a")];
    let run = ImageDownload::new(vec![image("a")], &locations);
    assert!(run.next_location().is_none());
    assert!(run.is_complete());
}

#[test]
fn location_from_info_page() {
    let page = WikiImageInfoPage {
        title: "File:Torch.png".to_string(),
        pageid: Some(3),
        ns: 6,
        imagerepository: None,
        imageinfo: vec![info("https://img/Torch.png"), info("https://img/old.png")],
    };
    let l = ImageLocation::from_page(&page).unwrap();
    assert_eq!(l.name, "Torch.png");
    assert_eq!(l.url, "https://img/Torch.png");
    assert_eq!((l.width, l.height), (40, 20));

    let empty = WikiImageInfoPage { imageinfo: vec![], ..page };
    assert!(ImageLocation::from_page(&empty).is_none());
    let untitled = WikiImageInfoPage {
        title: "Torch.png".to_string(),
        pageid: None,
        ns: 6,
        imagerepository: None,
        imageinfo: vec![info("u")],
    };
    assert!(ImageLocation::from_page(&untitled).is_none());
}

#[test]
fn titles_are_prefixed_and_joined() {
    assert_eq!(image_titles(&vec!["a.png".to_string(), "b.png".to_string()]), "File:a.png|File:b.png");
    assert_eq!(image_titles(&vec!["a.png".to_string()]), "File:a.png");
    assert_eq!(image_titles(&vec![]), "");
}

#[test]
fn pending_files_skip_known_and_missing() {
    let mut a = RawItem::new("A".to_string(), "A".to_string());
    a.imagefile = Some("a.png".to_string());
    let b = RawItem::new("B".to_string(), "B".to_string());
    let mut c = RawItem::new("C".to_string(), "C".to_string());
    c.imagefile = Some("c.png".to_string());
    let pending = pending_image_files(&vec![a, b, c], &vec![location("a.png")]);
    assert_eq!(pending, vec!["c.png".to_string()]);
}

#[test]
fn locations_sorted_by_name() {
    let sorted = sort_by_name(vec![location("b"), location("ab"), location("a"), location("B")]);
    let names: Vec<&str> = sorted.iter().map(|l| l.name.as_str()).collect();
    assert_eq!(names, vec!["B", "a", "ab", "b"]);
}

#[test]
fn image_ref_borrows_fields() {
    let img = image("x");
    let r = img.as_ref();
    assert_eq!(r.name, "x");
    assert_eq!(r.data, &[1u8, 2][..]);
    assert_eq!((r.width, r.height), (8, 9));
}
