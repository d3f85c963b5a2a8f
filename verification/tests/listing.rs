use novelfire::listing::{
    home_scrollers, novel_item_entry, parse_home_section, parse_novel_items, HomeSection, NovelImage,
    NovelItem, NovelLink,
};

fn item(href: Option<&str>, title: Option<&str>, heading: Option<&str>, data_src: Option<&str>, src: Option<&str>) -> NovelItem {
    NovelItem {
        link: Some(NovelLink { href: href.map(Into::into), title: title.map(Into::into) }),
        heading: heading.map(Into::into),
        image: Some(NovelImage { data_src: data_src.map(Into::into), src: src.map(Into::into) }),
    }
}

#[test]
fn novel_item_prefers_lazy_cover_and_link_title() {
    let it = item(
        Some("https://novelfire.net/book/shadow-slave"),
        Some(" Shadow Slave "),
        Some("Other"),
        Some("https://novelfire.net/lazy.jpg"),
        Some("https://novelfire.net/placeholder.gif"),
    );
    let m = novel_item_entry(&it).unwrap();
    assert_eq!(m.key, "shadow-slave");
    assert_eq!(m.title, "Shadow Slave");
    assert_eq!(m.cover.as_deref(), Some("https://novelfire.net/lazy.jpg"));
    assert_eq!(m.url.as_deref(), Some("https://novelfire.net/book/shadow-slave"));
    assert!(m.cover.as_deref().is_some_and(|c| c.starts_with("https://")));
}

#[test]
fn novel_item_fallbacks_and_skips() {
    // heading when the link has no title; src when there is no data-src
    let it = item(Some("https://novelfire.net/book/a"), None, Some(" Heading "), None, Some("s.jpg"));
    let m = novel_item_entry(&it).unwrap();
    assert_eq!(m.title, "Heading");
    assert_eq!(m.cover.as_deref(), Some("s.jpg"));
    // a blank link title does not fall back to the heading
    assert!(novel_item_entry(&item(Some("https://novelfire.net/book/a"), Some("  "), Some("H"), None, None)).is_none());
    // no href, no slug, no title, no link
    assert!(novel_item_entry(&item(None, Some("T"), None, None, None)).is_none());
    assert!(novel_item_entry(&item(Some("https://novelfire.net/ranking"), Some("T"), None, None, None)).is_none());
    assert!(novel_item_entry(&item(Some("https://novelfire.net/book/a"), None, None, None, None)).is_none());
    let no_link = NovelItem { link: None, heading: Some("T".into()), image: None };
    assert!(novel_item_entry(&no_link).is_none());
    let no_image = NovelItem {
        link: Some(NovelLink { href: Some("https://novelfire.net/book/b".into()), title: Some("B".into()) }),
        heading: None,
        image: None,
    };
    assert_eq!(novel_item_entry(&no_image).unwrap().cover, None);
}

#[test]
fn parse_novel_items_keeps_order_and_skips_bad_entries() {
    let items = Some(vec![
        item(Some("https://novelfire.net/book/one"), Some("One"), None, None, None),
        item(None, Some("broken"), None, None, None),
        item(Some("https://novelfire.net/book/two/chapter-1"), Some("Two"), None, None, None),
    ]);
    let entries = parse_novel_items(&items);
    let keys: Vec<&str> = entries.iter().map(|m| m.key.as_str()).collect();
    assert_eq!(keys, vec!["one", "two"]);
    assert!(parse_novel_items(&None).is_empty());
    assert!(parse_novel_items(&Some(vec![])).is_empty());
}

fn section(heading: Option<&str>, slugs: &[&str]) -> HomeSection {
    HomeSection {
        heading: heading.map(Into::into),
        items: Some(
            slugs
                .iter()
                .map(|s| item(Some(&format!("https://novelfire.net/book/{s}")), Some(s), None, None, None))
                .collect(),
        ),
    }
}

#[test]
fn home_section_is_found_by_trimmed_heading() {
    let sections = Some(vec![
        section(None, &["x"]),
        section(Some(" Recommends \n"), &["a", "b"]),
        section(Some("Recommends"), &["c"]),
        section(Some("Latest Novels"), &[]),
    ]);
    let keys: Vec<String> = parse_home_section(&sections, "Recommends").into_iter().map(|m| m.key).collect();
    assert_eq!(keys, vec!["a", "b"]);
    assert!(parse_home_section(&sections, "Latest Novels").is_empty());
    assert!(parse_home_section(&sections, "Completed Stories").is_empty());
    assert!(parse_home_section(&None, "Recommends").is_empty());
}

#[test]
fn home_has_sections_in_order_without_empty_ones() {
    let sections = Some(vec![
        section(Some("Completed Stories"), &["z"]),
        section(Some("Latest Novels"), &[]),
        section(Some("Recommends"), &["a"]),
    ]);
    let rows = home_scrollers(&sections);
    let titles: Vec<&str> = rows.iter().map(|r| r.title.as_str()).collect();
    assert_eq!(titles, vec!["Recommends", "Completed Stories"]);
    assert!(rows.iter().all(|r| !r.entries.is_empty()));
    assert!(home_scrollers(&None).is_empty());
}
