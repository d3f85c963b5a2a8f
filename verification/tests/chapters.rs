use novelfire::chapters::{chapter_from_row, chapters_from_index, clean_chapter_title};
use novelfire::model::ChapterIndexRow;
use novelfire::source::handle_deep_link;
use novelfire::model::DeepLinkResult;

#[test]
fn chapter_titles_clean_both_site_formats() {
    // Old format (chapters <= 2820): number duplicated after a dash.
    assert_eq!(
        clean_chapter_title("Chapter 2820 - 2820: Throne of Blood", "2820").as_deref(),
        Some("Throne of Blood")
    );
    assert_eq!(
        clean_chapter_title("Chapter 1 - 1: Nightmare Begins", "1").as_deref(),
        Some("Nightmare Begins")
    );
    // New format (chapters >= 2821): no separator at all.
    assert_eq!(
        clean_chapter_title("Chapter 2821 Above Deck", "2821").as_deref(),
        Some("Above Deck")
    );
    // Title starting with digits survives.
    assert_eq!(
        clean_chapter_title("Chapter 5 - 5: 100 Days of Night", "5").as_deref(),
        Some("100 Days of Night")
    );
    // Bare heading with no title yields None.
    assert_eq!(clean_chapter_title("Chapter 2900", "2900"), None);
}

#[test]
fn chapter_title_edge_cases() {
    // No "Chapter" word: only a leading separator is dropped.
    assert_eq!(clean_chapter_title("  - Prologue  ", "0").as_deref(), Some("Prologue"));
    // A repeated number with no separator after it stays.
    assert_eq!(clean_chapter_title("Chapter 12 12 Monkeys", "12").as_deref(), Some("12 Monkeys"));
    // The colon variant.
    assert_eq!(clean_chapter_title("Chapter 3: The Door", "3").as_deref(), Some("The Door"));
    // A different number is not stripped.
    assert_eq!(clean_chapter_title("Chapter 3 - 4: Odd", "3").as_deref(), Some("4: Odd"));
    assert_eq!(clean_chapter_title("", "1"), None);
    assert_eq!(clean_chapter_title("   \u{3000} ", "1"), None);
    assert_eq!(clean_chapter_title("Chapter 7 -", "7"), None);
    assert_eq!(clean_chapter_title("Epilogue", "9").as_deref(), Some("Epilogue"));
}

fn row(n: i64, title: &str) -> ChapterIndexRow {
    ChapterIndexRow { n_sort: n, title: title.into() }
}

#[test]
fn chapter_from_row_builds_key_url_and_title() {
    let c = chapter_from_row("shadow-slave", &row(2490, "Chapter 2490 - 2490: Heal Thyself"));
    assert_eq!(c.key, "chapter-2490");
    assert_eq!(c.title.as_deref(), Some("Heal Thyself"));
    assert_eq!(c.url.as_deref(), Some("https://novelfire.net/book/shadow-slave/chapter-2490"));
    assert_eq!(c.chapter_number, Some(2490));
}

#[test]
fn chapter_index_is_listed_newest_first() {
    let rows = vec![
        row(1, "Chapter 1 - 1: Nightmare Begins"),
        row(2, "Chapter 2 - 2: Second"),
        row(3, "Chapter 3 Third"),
    ];
    let chapters = chapters_from_index("shadow-slave", &rows);
    assert_eq!(chapters.len(), 3);
    let keys: Vec<&str> = chapters.iter().map(|c| c.key.as_str()).collect();
    assert_eq!(keys, vec!["chapter-3", "chapter-2", "chapter-1"]);
    assert_eq!(chapters[0].title.as_deref(), Some("Third"));
    assert_eq!(chapters.last().unwrap().title.as_deref(), Some("Nightmare Begins"));
    let first = chapters.first().and_then(|c| c.chapter_number).unwrap();
    let last = chapters.last().and_then(|c| c.chapter_number).unwrap();
    assert!(first > last);
    assert!(chapters_from_index("x", &[]).is_empty());
}

#[test]
fn chapter_links_lead_back_to_their_chapters() {
    let rows = vec![row(7, "Chapter 7 Seven"), row(-3, "odd"), row(0, "zero")];
    for c in chapters_from_index("lord-of-the-mysteries", &rows) {
        match handle_deep_link(c.url.as_deref().unwrap()) {
            Some(DeepLinkResult::Chapter { manga_key, key }) => {
                assert_eq!(manga_key, "lord-of-the-mysteries");
                assert_eq!(key, c.key);
            }
            _ => panic!("expected a chapter link"),
        }
    }
}

#[test]
fn clean_titles_are_trimmed_ends_of_the_heading() {
    let cases = [
        ("  Chapter 10 - 10:  The End  ", "10"),
        ("Chapter 4 Four\u{3000}", "4"),
        (":  colon first ", "1"),
        ("Chapter", "1"),
        ("Chapter 1 - 1 - x", "1"),
    ];
    for (raw, n) in cases {
        if let Some(t) = clean_chapter_title(raw, n) {
            assert!(!t.is_empty());
            assert_eq!(t.trim(), t);
            assert!(raw.trim().ends_with(&t), "{raw:?} -> {t:?}");
        }
    }
}
