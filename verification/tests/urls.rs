use novelfire::model::FilterValue;
use novelfire::urls::{
    build_browse_url, build_chapter_url, build_novel_url, chapter_index_url, cover_url, home_url,
    next_page_selector, ranking_url, search_url, slug_from_url, BASE_URL,
};

fn select(id: &str, value: &str) -> FilterValue {
    FilterValue::Select { id: id.into(), value: value.into() }
}

fn sort(id: &str, index: i32) -> FilterValue {
    FilterValue::Sort { id: id.into(), index, ascending: false }
}

#[test]
fn base_url_is_the_site() {
    assert_eq!(BASE_URL, "https://novelfire.net");
}

#[test]
fn page_addresses() {
    assert_eq!(cover_url("server-1/shadow-slave.jpg"), "https://novelfire.net/server-1/shadow-slave.jpg");
    assert_eq!(build_novel_url("shadow-slave"), "https://novelfire.net/book/shadow-slave");
    assert_eq!(
        build_chapter_url("shadow-slave", "chapter-2479"),
        "https://novelfire.net/book/shadow-slave/chapter-2479"
    );
    assert_eq!(home_url(), "https://novelfire.net/home");
    assert_eq!(ranking_url("most-read", 2), "https://novelfire.net/ranking/most-read?page=2");
    assert_eq!(
        search_url("shadow%20slave"),
        "https://novelfire.net/ajax/searchLive?keyword=shadow%20slave&type=title"
    );
    assert_eq!(
        chapter_index_url("draw=1&post_id=7"),
        "https://novelfire.net/ajax/listChapterDataAjax?draw=1&post_id=7"
    );
}

#[test]
fn browse_url_defaults() {
    assert_eq!(
        build_browse_url(&[], 1),
        "https://novelfire.net/genre-all/sort-new/status-all/all-novel?page=1"
    );
}

#[test]
fn browse_url_takes_filters() {
    let filters = vec![
        select("genre", "action"),
        select("status", "completed"),
        select("language", "korean"),
        sort("sort", 1),
    ];
    assert_eq!(
        build_browse_url(&filters, 3),
        "https://novelfire.net/genre-action/sort-popular/status-completed/korean-novel?page=3"
    );
}

#[test]
fn browse_url_last_filter_wins_and_others_are_ignored() {
    let filters = vec![
        select("genre", "action"),
        sort("sort", 1),
        select("genre", "romance"),
        sort("sort", 2),
        sort("other", 1),
        select("sort", "popular"),
        select("unknown", "x"),
        FilterValue::Text { id: "genre".into(), value: "horror".into() },
        FilterValue::Check { id: "status".into(), value: 1 },
        FilterValue::Range { id: "genre".into() },
        FilterValue::MultiSelect { id: "genre".into(), included: vec!["a".into()], excluded: vec![] },
    ];
    assert_eq!(
        build_browse_url(&filters, -2),
        "https://novelfire.net/genre-romance/sort-latest-release/status-all/all-novel?page=-2"
    );
    assert_eq!(
        build_browse_url(&[sort("sort", 2), sort("sort", 7)], 1),
        "https://novelfire.net/genre-all/sort-new/status-all/all-novel?page=1"
    );
}

#[test]
fn next_page_selector_names_the_following_page() {
    assert_eq!(next_page_selector(1), "a[href*='page=2']");
    assert_eq!(next_page_selector(-1), "a[href*='page=0']");
    assert_eq!(next_page_selector(i32::MAX - 1), "a[href*='page=2147483647']");
}

#[test]
fn slug_from_url_cases() {
    assert_eq!(slug_from_url("https://novelfire.net/book/shadow-slave").as_deref(), Some("shadow-slave"));
    assert_eq!(
        slug_from_url("https://novelfire.net/book/shadow-slave/chapter-1").as_deref(),
        Some("shadow-slave")
    );
    assert_eq!(slug_from_url("https://novelfire.net/book/abc?x=1").as_deref(), Some("abc"));
    assert_eq!(slug_from_url("https://novelfire.net/book/abc#top").as_deref(), Some("abc"));
    assert_eq!(slug_from_url("/book/abc/book/def").as_deref(), Some("abc"));
    assert_eq!(slug_from_url("https://novelfire.net/book/"), None);
    assert_eq!(slug_from_url("https://novelfire.net/book//x"), None);
    assert_eq!(slug_from_url("https://novelfire.net/ranking"), None);
    assert_eq!(slug_from_url(""), None);
}

#[test]
fn novel_address_gives_back_its_slug() {
    for slug in ["shadow-slave", "a", "lord-of-the-mysteries", "x_y.z"] {
        assert_eq!(slug_from_url(&build_novel_url(slug)).as_deref(), Some(slug));
    }
}
