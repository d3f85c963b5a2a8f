use novelfire::details::DetailsPage;
use novelfire::model::{DeepLinkResult, FilterValue, Manga, SearchItem, SearchResponse, SourceError};
use novelfire::source::{
    chapter_index_query, chapter_index_request, handle_deep_link, manga_from_search_item, plan_search,
    search_results, update_details, update_steps, SearchRequest,
};

#[test]
fn deep_link_novel_and_chapter() {
    assert!(matches!(
        handle_deep_link("https://novelfire.net/book/shadow-slave"),
        Some(DeepLinkResult::Manga { key }) if key == "shadow-slave"
    ));
    assert!(matches!(
        handle_deep_link("https://novelfire.net/book/shadow-slave/chapter-2479"),
        Some(DeepLinkResult::Chapter { manga_key, key })
            if manga_key == "shadow-slave" && key == "chapter-2479"
    ));
    // The chapter-list URL is not a chapter.
    assert!(matches!(
        handle_deep_link("https://novelfire.net/book/shadow-slave/chapters"),
        Some(DeepLinkResult::Manga { key }) if key == "shadow-slave"
    ));
    assert!(handle_deep_link("https://novelfire.net/ranking").is_none());
}

#[test]
fn deep_link_other_cases() {
    assert!(matches!(
        handle_deep_link("https://novelfire.net/book/a/chapter-3?ref=x#top"),
        Some(DeepLinkResult::Chapter { manga_key, key }) if manga_key == "a" && key == "chapter-3"
    ));
    assert!(matches!(
        handle_deep_link("https://novelfire.net/book/a/chapter-3/comments"),
        Some(DeepLinkResult::Chapter { key, .. }) if key == "chapter-3"
    ));
    assert!(matches!(
        handle_deep_link("https://novelfire.net/book/a?x=/chapter-3"),
        Some(DeepLinkResult::Manga { key }) if key == "a"
    ));
    assert!(handle_deep_link("https://novelfire.net/book/").is_none());
}

fn hit(title: &str, slug: &str, image: &str) -> SearchItem {
    SearchItem { title: title.into(), slug: slug.into(), image: image.into() }
}

#[test]
fn search_hits_become_novels() {
    let m = manga_from_search_item(&hit("Shadow Slave", "shadow-slave", "server-1/ss.jpg"));
    assert_eq!(m.key, "shadow-slave");
    assert_eq!(m.title, "Shadow Slave");
    assert_eq!(m.cover.as_deref(), Some("https://novelfire.net/server-1/ss.jpg"));
    assert_eq!(m.url.as_deref(), Some("https://novelfire.net/book/shadow-slave"));
    let r = search_results(&SearchResponse { data: vec![hit("A", "a", "a.jpg"), hit("B", "b", "b.jpg")] });
    assert!(!r.has_next_page);
    let keys: Vec<&str> = r.entries.iter().map(|m| m.key.as_str()).collect();
    assert_eq!(keys, vec!["a", "b"]);
}

#[test]
fn search_plans() {
    assert!(matches!(plan_search(Some("shadow slave".into()), 2, &[]), SearchRequest::Nothing));
    assert!(matches!(
        plan_search(Some("shadow slave".into()), 1, &[]),
        SearchRequest::Search { keyword } if keyword == "shadow slave"
    ));
    let filters = vec![FilterValue::Select { id: "genre".into(), value: "action".into() }];
    assert!(matches!(
        plan_search(None, 4, &filters),
        SearchRequest::Browse { url } if url == "https://novelfire.net/genre-action/sort-new/status-all/all-novel?page=4"
    ));
}

fn page(post_id: Option<&str>) -> DetailsPage {
    DetailsPage {
        title: Some("Title".into()),
        cover: None,
        author: None,
        summary: None,
        categories: None,
        header_stats: None,
        post_id: post_id.map(Into::into),
    }
}

#[test]
fn chapter_index_query_asks_for_every_row() {
    let q = chapter_index_query("4567");
    assert_eq!(q.len(), 16);
    assert_eq!(q[0], ("draw".to_string(), "1".to_string()));
    assert_eq!(q[10], ("length".to_string(), "-1".to_string()));
    assert_eq!(q[13], ("post_id".to_string(), "4567".to_string()));
    assert_eq!(q[15], ("only_bookmark".to_string(), "false".to_string()));
    assert_eq!(chapter_index_request(&page(Some("4567"))).unwrap(), q);
    let e = chapter_index_request(&page(None)).unwrap_err();
    assert_eq!(e, SourceError::PostIdNotFound);
    assert_eq!(e.message(), "post id not found");
}

#[test]
fn update_details_only_when_asked() {
    let m = Manga::new("k".into(), "old".into());
    let kept = update_details(m.clone(), false, &page(None)).unwrap();
    assert_eq!(kept.title, "old");
    let filled = update_details(m, true, &page(None)).unwrap();
    assert_eq!(filled.title, "Title");
    assert_eq!(filled.url.as_deref(), Some("https://novelfire.net/book/k"));
}

#[test]
fn update_steps_cases() {
    let s = update_steps(true, true);
    assert!(s.fill_details && s.send_partial && s.fetch_chapters);
    let s = update_steps(true, false);
    assert!(s.fill_details && !s.send_partial && !s.fetch_chapters);
    let s = update_steps(false, true);
    assert!(!s.fill_details && !s.send_partial && s.fetch_chapters);
    let s = update_steps(false, false);
    assert!(!s.fill_details && !s.send_partial && !s.fetch_chapters);
}

#[test]
fn any_page_under_a_novel_leads_back_to_it() {
    for key in ["chapters", "chapter-9", "", "book/x", "a?b#c", "/book/other"] {
        let url = novelfire::urls::build_chapter_url("shadow-slave", key);
        assert_eq!(novelfire::urls::slug_from_url(&url).as_deref(), Some("shadow-slave"), "{key:?}");
    }
}
