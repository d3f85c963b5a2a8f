//! A novel's details page: title, cover, author, summary, tags, content rating
//! and status, read from what the page shows.
use vstd::prelude::*;

use crate::model::{opt_view, strings_view, ContentRating, Manga, MangaStatus, MangaView, SourceError};
use crate::text::{chars_of, same_text, string_of, trim, trim_chars};
use crate::urls::{build_novel_url, BASE_URL};

verus! {

/// A tag that marks a novel as adult content.
pub open spec fn is_nsfw_tag(t: Seq<char>) -> bool {
    t == "Adult"@ || t == "Mature"@ || t == "Smut"@
}

/// A tag that marks a novel as suggestive.
pub open spec fn is_suggestive_tag(t: Seq<char>) -> bool {
    t == "Ecchi"@ || t == "Yaoi"@ || t == "Yuri"@ || t == "Harem"@
}

/// The content rating that a novel's tags call for: adult when any tag is an
/// adult one, else suggestive when any is a suggestive one, else safe.
pub open spec fn rating_of_tags(tags: Seq<Seq<char>>) -> ContentRating {
    if exists|t: Seq<char>| tags.contains(t) && is_nsfw_tag(t) {
        ContentRating::NSFW
    } else if exists|t: Seq<char>| tags.contains(t) && is_suggestive_tag(t) {
        ContentRating::Suggestive
    } else {
        ContentRating::Safe
    }
}

fn nsfw_tag(t: &str) -> (r: bool)
    ensures
        r == is_nsfw_tag(t@),
{
    same_text(t, "Adult") || same_text(t, "Mature") || same_text(t, "Smut")
}

fn suggestive_tag(t: &str) -> (r: bool)
    ensures
        r == is_suggestive_tag(t@),
{
    same_text(t, "Ecchi") || same_text(t, "Yaoi") || same_text(t, "Yuri") || same_text(t, "Harem")
}

/// The content rating that the tags call for.
pub fn content_rating_from_tags(tags: &[String]) -> (r: ContentRating)
    ensures
        r == rating_of_tags(strings_view(tags@)),
{
    let ghost v = strings_view(tags@);
    let n = tags.len();
    let mut nsfw = false;
    let mut suggestive = false;
    let mut i: usize = 0;
    while i < n
        invariant
            n == tags@.len(),
            v == strings_view(tags@),
            i <= n,
            nsfw <==> exists|j: int| 0 <= j < i && is_nsfw_tag(#[trigger] v[j]),
            suggestive <==> exists|j: int| 0 <= j < i && is_suggestive_tag(#[trigger] v[j]),
        decreases n - i,
    {
        if nsfw_tag(tags[i].as_str()) {
            nsfw = true;
        }
        if suggestive_tag(tags[i].as_str()) {
            suggestive = true;
        }
        assert(v[i as int] == tags@[i as int]@);
        i = i + 1;
    }
    if nsfw {
        proof {
            let j = choose|j: int| 0 <= j < n && is_nsfw_tag(#[trigger] v[j]);
            assert(v.contains(v[j]));
        }
        ContentRating::NSFW
    } else if suggestive {
        proof {
            let j = choose|j: int| 0 <= j < n && is_suggestive_tag(#[trigger] v[j]);
            assert(v.contains(v[j]));
        }
        assert forall|t: Seq<char>| v.contains(t) implies !is_nsfw_tag(t) by {
            let k = choose|k: int| 0 <= k < v.len() && v[k] == t;
        }
        ContentRating::Suggestive
    } else {
        assert forall|t: Seq<char>| v.contains(t) implies !is_nsfw_tag(t) && !is_suggestive_tag(
            t,
        ) by {
            let k = choose|k: int| 0 <= k < v.len() && v[k] == t;
        }
        ContentRating::Safe
    }
}

/// How strong a content rating is: safe below suggestive below adult.
pub open spec fn rating_rank(r: ContentRating) -> int {
    match r {
        ContentRating::Unknown => -1,
        ContentRating::Safe => 0,
        ContentRating::Suggestive => 1,
        ContentRating::NSFW => 2,
    }
}

/// The rating depends only on which tags are present: neither their order nor
/// repetitions matter.
pub proof fn lemma_rating_ignores_order(a: Seq<Seq<char>>, b: Seq<Seq<char>>)
    requires
        a.to_set() == b.to_set(),
    ensures
        rating_of_tags(a) == rating_of_tags(b),
{
    assert forall|t: Seq<char>| a.contains(t) <==> b.contains(t) by {
        assert(a.contains(t) <==> a.to_set().contains(t));
        assert(b.contains(t) <==> b.to_set().contains(t));
    }
}

/// One more tag never makes a novel's rating milder.
pub proof fn lemma_rating_monotone(tags: Seq<Seq<char>>, t: Seq<char>)
    ensures
        rating_rank(rating_of_tags(tags)) <= rating_rank(rating_of_tags(tags.push(t))),
{
    assert forall|u: Seq<char>| tags.contains(u) implies tags.push(t).contains(u) by {
        let k = choose|k: int| 0 <= k < tags.len() && tags[k] == u;
        assert(tags.push(t)[k] == u);
    }
}

/// A `span` of the page's `.header-stats`: the text of its `<small>` (the
/// label) and of its `<strong>` (the value), e.g.
/// `<span><strong>Ongoing</strong><small>Status</small></span>`.
#[derive(Clone, Debug)]
pub struct HeaderStatSpan {
    pub label: Option<String>,
    pub value: Option<String>,
}

/// The span's trimmed label is `label`.
pub open spec fn span_has_label(span: HeaderStatSpan, label: Seq<char>) -> bool {
    match span.label {
        Some(t) => trim(t@) == label,
        None => false,
    }
}

/// The trimmed value of the first span labelled `label`.
pub open spec fn header_stat_of(spans: Seq<HeaderStatSpan>, label: Seq<char>) -> Option<Seq<char>>
    decreases spans.len(),
{
    if spans.len() == 0 {
        None
    } else if span_has_label(spans[0], label) {
        match spans[0].value {
            Some(v) => Some(trim(v@)),
            None => None,
        }
    } else {
        header_stat_of(spans.drop_first(), label)
    }
}

/// The value of an optional list of spans for `label`.
pub open spec fn header_stat_in(spans: Option<Vec<HeaderStatSpan>>, label: Seq<char>) -> Option<
    Seq<char>,
> {
    match spans {
        Some(v) => header_stat_of(v@, label),
        None => None,
    }
}

/// Reads the value in `.header-stats` for the given label, e.g.
/// `<span><strong>Ongoing</strong><small>Status</small></span>`.
pub fn header_stat(spans: &Option<Vec<HeaderStatSpan>>, label: &str) -> (r: Option<String>)
    ensures
        opt_view(r) == header_stat_in(*spans, label@),
{
    let list = match spans {
        Some(v) => v,
        None => return None,
    };
    let want = chars_of(label);
    let n = list.len();
    let mut i: usize = 0;
    assert(list@.skip(0) == list@);
    while i < n
        invariant
            n == list@.len(),
            header_stat_in(*spans, label@) == header_stat_of(list@, label@),
            want@ == label@,
            i <= n,
            header_stat_of(list@, label@) == header_stat_of(list@.skip(i as int), label@),
        decreases n - i,
    {
        assert(list@.skip(i as int)[0] == list@[i as int]);
        assert(list@.skip(i as int).drop_first() == list@.skip(i + 1));
        let span = &list[i];
        let matches = match &span.label {
            Some(t) => {
                let cs = chars_of(t.as_str());
                let tt = trim_chars(cs.as_slice());
                crate::text::chars_eq(tt.as_slice(), want.as_slice())
            },
            None => false,
        };
        assert(matches == span_has_label(list@[i as int], label@));
        if matches {
            return match &span.value {
                Some(v) => {
                    let cs = chars_of(v.as_str());
                    let tv = trim_chars(cs.as_slice());
                    Some(string_of(tv.as_slice()))
                },
                None => None,
            };
        }
        i = i + 1;
    }
    None
}

/// What the logic reads from a novel's page.
#[derive(Clone, Debug)]
pub struct DetailsPage {
    /// Text of `h1.novel-title`.
    pub title: Option<String>,
    /// `content` of `meta[property='og:image']`.
    pub cover: Option<String>,
    /// Text of `.author a span[itemprop='author']`.
    pub author: Option<String>,
    /// Text of `.summary .content`.
    pub summary: Option<String>,
    /// Texts of the `.categories li a` elements, when the page could be searched.
    pub categories: Option<Vec<Option<String>>>,
    /// The `.header-stats span` elements, when the page could be searched.
    pub header_stats: Option<Vec<HeaderStatSpan>>,
    /// `report-post_id` of `a#novel-report`.
    pub post_id: Option<String>,
}

/// The trimmed text, when it is not blank.
pub open spec fn nonblank(o: Option<String>) -> Option<Seq<char>> {
    match o {
        Some(t) => if trim(t@).len() > 0 {
            Some(trim(t@))
        } else {
            None
        },
        None => None,
    }
}

/// The tags named by the categories: each text trimmed, blank ones and missing
/// ones left out, in order.
pub open spec fn category_tags(cats: Seq<Option<String>>) -> Seq<Seq<char>>
    decreases cats.len(),
{
    if cats.len() == 0 {
        seq![]
    } else {
        let rest = category_tags(cats.drop_last());
        match nonblank(cats.last()) {
            Some(t) => rest.push(t),
            None => rest,
        }
    }
}

/// The status that a status label names.
pub open spec fn status_named(stat: Option<Seq<char>>) -> MangaStatus {
    match stat {
        Some(s) => if s == "Ongoing"@ {
            MangaStatus::Ongoing
        } else if s == "Completed"@ {
            MangaStatus::Completed
        } else {
            MangaStatus::Unknown
        },
        None => MangaStatus::Unknown,
    }
}

/// The novel with its details filled in from the page, or why not.
pub open spec fn details_of(page: DetailsPage, m: MangaView) -> Result<MangaView, SourceError> {
    match nonblank(page.title) {
        None => Err(SourceError::TitleNotFound),
        Some(title) => {
            let tags = match page.categories {
                Some(c) => Some(category_tags(c@)),
                None => None,
            };
            Ok(
                MangaView {
                    key: m.key,
                    title,
                    cover: opt_view(page.cover),
                    authors: match page.author {
                        Some(a) => Some(seq![trim(a@)]),
                        None => None,
                    },
                    description: nonblank(page.summary),
                    url: Some(BASE_URL@ + "/book/"@ + m.key),
                    tags,
                    status: status_named(header_stat_in(page.header_stats, "Status"@)),
                    content_rating: match tags {
                        Some(t) => rating_of_tags(t),
                        None => ContentRating::Unknown,
                    },
                    chapters: m.chapters,
                },
            )
        },
    }
}

/// The view of a result that carries a novel.
pub open spec fn manga_result_view(r: Result<Manga, SourceError>) -> Result<MangaView, SourceError> {
    match r {
        Ok(m) => Ok(m@),
        Err(e) => Err(e),
    }
}

/// The trimmed text, when it is not blank.
pub fn nonblank_exec(o: &Option<String>) -> (r: Option<String>)
    ensures
        opt_view(r) == nonblank(*o),
{
    match o {
        Some(t) => {
            let cs = chars_of(t.as_str());
            let tt = trim_chars(cs.as_slice());
            if tt.len() > 0 {
                Some(string_of(tt.as_slice()))
            } else {
                None
            }
        },
        None => None,
    }
}

fn category_tags_exec(cats: &Vec<Option<String>>) -> (r: Vec<String>)
    ensures
        strings_view(r@) == category_tags(cats@),
{
    let mut out: Vec<String> = Vec::new();
    let n = cats.len();
    let mut i: usize = 0;
    while i < n
        invariant
            n == cats@.len(),
            i <= n,
            strings_view(out@) == category_tags(cats@.take(i as int)),
        decreases n - i,
    {
        let ghost before = out@;
        assert(cats@.take(i + 1).drop_last() == cats@.take(i as int));
        assert(cats@.take(i + 1).last() == cats@[i as int]);
        match nonblank_exec(&cats[i]) {
            Some(t) => {
                out.push(t);
                assert(strings_view(out@) == strings_view(before).push(out@.last()@));
            },
            None => {},
        }
        i = i + 1;
    }
    assert(cats@.take(n as int) == cats@);
    out
}

fn status_named_exec(stat: &Option<String>) -> (r: MangaStatus)
    ensures
        r == status_named(opt_view(*stat)),
{
    match stat {
        Some(s) => if same_text(s.as_str(), "Ongoing") {
            MangaStatus::Ongoing
        } else if same_text(s.as_str(), "Completed") {
            MangaStatus::Completed
        } else {
            MangaStatus::Unknown
        },
        None => MangaStatus::Unknown,
    }
}

/// Fills in a novel's title, cover, address, authors, description, tags,
/// content rating and status from its page. Fails when the page has no title.
pub fn fill_manga_details(page: &DetailsPage, manga: Manga) -> (r: Result<Manga, SourceError>)
    ensures
        manga_result_view(r) == details_of(*page, manga@),
{
    let title = match nonblank_exec(&page.title) {
        Some(t) => t,
        None => return Err(SourceError::TitleNotFound),
    };
    let mut manga = manga;
    manga.title = title;
    manga.cover = page.cover.clone();
    manga.url = Some(build_novel_url(manga.key.as_str()));
    manga.authors = match &page.author {
        Some(a) => {
            let cs = chars_of(a.as_str());
            let t = trim_chars(cs.as_slice());
            let mut v: Vec<String> = Vec::new();
            v.push(string_of(t.as_slice()));
            assert(strings_view(v@) == seq![t@]);
            Some(v)
        },
        None => None,
    };
    manga.description = nonblank_exec(&page.summary);
    manga.tags = match &page.categories {
        Some(c) => Some(category_tags_exec(c)),
        None => None,
    };
    manga.content_rating = match &manga.tags {
        Some(t) => content_rating_from_tags(t.as_slice()),
        None => ContentRating::Unknown,
    };
    let stat = header_stat(&page.header_stats, "Status");
    manga.status = status_named_exec(&stat);
    Ok(manga)
}

} // verus!

verus! {

/// The rating that tags call for, tag by tag: `Adult`, `Mature` or `Smut`
/// makes a novel adult; otherwise `Ecchi`, `Yaoi`, `Yuri` or `Harem` makes it
/// suggestive; a novel with none of these seven tags is safe.
pub proof fn lemma_rating_by_tag_names(tags: Seq<Seq<char>>)
    ensures
        ({
            let adult = tags.contains("Adult"@) || tags.contains("Mature"@) || tags.contains(
                "Smut"@,
            );
            let suggestive = tags.contains("Ecchi"@) || tags.contains("Yaoi"@) || tags.contains(
                "Yuri"@,
            ) || tags.contains("Harem"@);
            &&& adult ==> rating_of_tags(tags) == ContentRating::NSFW
            &&& !adult && suggestive ==> rating_of_tags(tags) == ContentRating::Suggestive
            &&& !adult && !suggestive ==> rating_of_tags(tags) == ContentRating::Safe
        }),
{
    let adult = tags.contains("Adult"@) || tags.contains("Mature"@) || tags.contains("Smut"@);
    if adult {
        if tags.contains("Adult"@) {
            assert(is_nsfw_tag("Adult"@));
        } else if tags.contains("Mature"@) {
            assert(is_nsfw_tag("Mature"@));
        } else {
            assert(is_nsfw_tag("Smut"@));
        }
    } else {
        assert forall|t: Seq<char>| tags.contains(t) implies !is_nsfw_tag(t) by {}
        if tags.contains("Ecchi"@) {
            assert(is_suggestive_tag("Ecchi"@));
        } else if tags.contains("Yaoi"@) {
            assert(is_suggestive_tag("Yaoi"@));
        } else if tags.contains("Yuri"@) {
            assert(is_suggestive_tag("Yuri"@));
        } else if tags.contains("Harem"@) {
            assert(is_suggestive_tag("Harem"@));
        } else {
            assert forall|t: Seq<char>| tags.contains(t) implies !is_suggestive_tag(t) by {}
        }
    }
}

/// The status of a novel, by the label its page shows: `Ongoing` and
/// `Completed` are known, anything else (or none) is unknown.
pub proof fn lemma_status_by_label(stat: Option<Seq<char>>)
    ensures
        stat == Some("Ongoing"@) ==> status_named(stat) == MangaStatus::Ongoing,
        stat == Some("Completed"@) ==> status_named(stat) == MangaStatus::Completed,
        stat != Some("Ongoing"@) && stat != Some("Completed"@) ==> status_named(stat)
            == MangaStatus::Unknown,
{
    reveal_strlit("Ongoing");
    reveal_strlit("Completed");
    assert("Ongoing"@.len() != "Completed"@.len());
}

} // verus!
