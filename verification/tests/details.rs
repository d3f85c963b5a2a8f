use novelfire::details::{content_rating_from_tags, fill_manga_details, header_stat, DetailsPage, HeaderStatSpan};
use novelfire::model::{ContentRating, Manga, MangaStatus, SourceError};

fn tags(t: &[&str]) -> Vec<String> {
    t.iter().map(|s| s.to_string()).collect()
}

#[test]
fn content_rating_cases() {
    assert_eq!(content_rating_from_tags(&tags(&["Action", "Adult"])), ContentRating::NSFW);
    assert_eq!(content_rating_from_tags(&tags(&["Smut"])), ContentRating::NSFW);
    assert_eq!(content_rating_from_tags(&tags(&["Mature", "Harem"])), ContentRating::NSFW);
    assert_eq!(content_rating_from_tags(&tags(&["Harem", "Mature"])), ContentRating::NSFW);
    assert_eq!(content_rating_from_tags(&tags(&["Ecchi"])), ContentRating::Suggestive);
    assert_eq!(content_rating_from_tags(&tags(&["Fantasy", "Yuri"])), ContentRating::Suggestive);
    assert_eq!(content_rating_from_tags(&tags(&["Yaoi"])), ContentRating::Suggestive);
    assert_eq!(content_rating_from_tags(&tags(&["Fantasy", "adult", " Adult"])), ContentRating::Safe);
    assert_eq!(content_rating_from_tags(&[]), ContentRating::Safe);
}

#[test]
fn more_tags_never_lower_the_rating() {
    let rank = |r: ContentRating| match r {
        ContentRating::Unknown => -1,
        ContentRating::Safe => 0,
        ContentRating::Suggestive => 1,
        ContentRating::NSFW => 2,
    };
    let mut acc: Vec<String> = Vec::new();
    let mut last = rank(content_rating_from_tags(&acc));
    for t in ["Drama", "Ecchi", "Action", "Adult", "Romance"] {
        acc.push(t.into());
        let now = rank(content_rating_from_tags(&acc));
        assert!(now >= last);
        last = now;
    }
    assert_eq!(last, 2);
}

fn span(label: Option<&str>, value: Option<&str>) -> HeaderStatSpan {
    HeaderStatSpan { label: label.map(Into::into), value: value.map(Into::into) }
}

#[test]
fn header_stat_takes_the_first_matching_span() {
    let spans = Some(vec![
        span(Some("Chapters"), Some("3000")),
        span(None, Some("x")),
        span(Some(" Status \n"), Some("  Ongoing ")),
        span(Some("Status"), Some("Completed")),
    ]);
    assert_eq!(header_stat(&spans, "Status").as_deref(), Some("Ongoing"));
    assert_eq!(header_stat(&spans, "Chapters").as_deref(), Some("3000"));
    assert_eq!(header_stat(&spans, "Views"), None);
    assert_eq!(header_stat(&None, "Status"), None);
    let no_value = Some(vec![span(Some("Status"), None), span(Some("Status"), Some("Ongoing"))]);
    assert_eq!(header_stat(&no_value, "Status"), None);
}

fn page() -> DetailsPage {
    DetailsPage {
        title: Some("  Shadow Slave \n".into()),
        cover: Some("https://novelfire.net/server-1/shadow-slave.jpg".into()),
        author: Some(" Guiltythree ".into()),
        summary: Some("  Growing up in poverty...  ".into()),
        categories: Some(vec![Some(" Action ".into()), None, Some("   ".into()), Some("Fantasy".into())]),
        header_stats: Some(vec![span(Some("Status"), Some("Ongoing"))]),
        post_id: Some("1234".into()),
    }
}

#[test]
fn details_parse_shadow_slave() {
    let manga = Manga::new("shadow-slave".into(), String::new());
    let manga = fill_manga_details(&page(), manga).expect("details");
    assert_eq!(manga.key, "shadow-slave");
    assert_eq!(manga.title, "Shadow Slave");
    assert_eq!(manga.authors.as_deref(), Some(&["Guiltythree".to_string()][..]));
    assert_eq!(manga.status, MangaStatus::Ongoing);
    assert_eq!(manga.tags, Some(vec!["Action".to_string(), "Fantasy".to_string()]));
    assert_eq!(manga.content_rating, ContentRating::Safe);
    assert_eq!(manga.description.as_deref(), Some("Growing up in poverty..."));
    assert!(manga.cover.as_deref().is_some_and(|c| c.contains("shadow-slave")));
    assert_eq!(manga.url.as_deref(), Some("https://novelfire.net/book/shadow-slave"));
}

#[test]
fn details_other_cases() {
    let mut p = page();
    p.categories = None;
    p.summary = Some("   ".into());
    p.author = Some("   ".into());
    p.header_stats = Some(vec![span(Some("Status"), Some("Completed"))]);
    let m = fill_manga_details(&p, Manga::default()).unwrap();
    assert_eq!(m.tags, None);
    assert_eq!(m.content_rating, ContentRating::Unknown);
    assert_eq!(m.description, None);
    assert_eq!(m.authors, Some(vec![String::new()]));
    assert_eq!(m.status, MangaStatus::Completed);
    assert_eq!(m.url.as_deref(), Some("https://novelfire.net/book/"));

    p.header_stats = Some(vec![span(Some("Status"), Some("Hiatus"))]);
    p.categories = Some(vec![Some("Smut".into())]);
    let m = fill_manga_details(&p, Manga::default()).unwrap();
    assert_eq!(m.status, MangaStatus::Unknown);
    assert_eq!(m.content_rating, ContentRating::NSFW);
}

#[test]
fn details_without_title_fail() {
    let mut p = page();
    p.title = None;
    assert_eq!(fill_manga_details(&p, Manga::default()).unwrap_err(), SourceError::TitleNotFound);
    p.title = Some(" \t ".into());
    let e = fill_manga_details(&p, Manga::default()).unwrap_err();
    assert_eq!(e, SourceError::TitleNotFound);
    assert_eq!(e.message(), "title not found");
}
