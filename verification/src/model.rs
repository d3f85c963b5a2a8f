//! The values that the source hands to the reader app: novels (`Manga`),
//! chapters, listing filters, deep-link targets and errors, with their views.
use vstd::prelude::*;

verus! {

/// The view of an optional string.
pub open spec fn opt_view(o: Option<String>) -> Option<Seq<char>> {
    match o {
        Some(s) => Some(s@),
        None => None,
    }
}

/// The views of a sequence of strings.
pub open spec fn strings_view(v: Seq<String>) -> Seq<Seq<char>> {
    v.map_values(|s: String| s@)
}

/// The view of an optional list of strings.
pub open spec fn opt_strings_view(o: Option<Vec<String>>) -> Option<Seq<Seq<char>>> {
    match o {
        Some(v) => Some(strings_view(v@)),
        None => None,
    }
}

/// How suitable a novel is for a general audience.
#[derive(Clone, Copy, Debug, PartialEq, Eq, Structural)]
pub enum ContentRating {
    Unknown,
    Safe,
    Suggestive,
    NSFW,
}

/// Publication status of a novel.
#[derive(Clone, Copy, Debug, PartialEq, Eq, Structural)]
pub enum MangaStatus {
    Unknown,
    Ongoing,
    Completed,
    Cancelled,
    Hiatus,
}

/// A chapter of a novel. `chapter_number` is the site's sort number of the
/// chapter (its `n_sort`), from which the reader app takes the displayed number.
#[derive(Clone, Debug)]
pub struct Chapter {
    pub key: String,
    pub title: Option<String>,
    pub url: Option<String>,
    pub chapter_number: Option<i64>,
}

pub struct ChapterView {
    pub key: Seq<char>,
    pub title: Option<Seq<char>>,
    pub url: Option<Seq<char>>,
    pub chapter_number: Option<i64>,
}

impl View for Chapter {
    type V = ChapterView;

    open spec fn view(&self) -> ChapterView {
        ChapterView {
            key: self.key@,
            title: opt_view(self.title),
            url: opt_view(self.url),
            chapter_number: self.chapter_number,
        }
    }
}

/// The views of a sequence of chapters.
pub open spec fn chapters_view(v: Seq<Chapter>) -> Seq<ChapterView> {
    v.map_values(|c: Chapter| c@)
}

/// A novel, as the reader app lists and shows it.
#[derive(Clone, Debug)]
pub struct Manga {
    pub key: String,
    pub title: String,
    pub cover: Option<String>,
    pub authors: Option<Vec<String>>,
    pub description: Option<String>,
    pub url: Option<String>,
    pub tags: Option<Vec<String>>,
    pub status: MangaStatus,
    pub content_rating: ContentRating,
    pub chapters: Option<Vec<Chapter>>,
}

pub struct MangaView {
    pub key: Seq<char>,
    pub title: Seq<char>,
    pub cover: Option<Seq<char>>,
    pub authors: Option<Seq<Seq<char>>>,
    pub description: Option<Seq<char>>,
    pub url: Option<Seq<char>>,
    pub tags: Option<Seq<Seq<char>>>,
    pub status: MangaStatus,
    pub content_rating: ContentRating,
    pub chapters: Option<Seq<ChapterView>>,
}

impl View for Manga {
    type V = MangaView;

    open spec fn view(&self) -> MangaView {
        MangaView {
            key: self.key@,
            title: self.title@,
            cover: opt_view(self.cover),
            authors: opt_strings_view(self.authors),
            description: opt_view(self.description),
            url: opt_view(self.url),
            tags: opt_strings_view(self.tags),
            status: self.status,
            content_rating: self.content_rating,
            chapters: match self.chapters {
                Some(c) => Some(chapters_view(c@)),
                None => None,
            },
        }
    }
}

/// The views of a sequence of novels.
pub open spec fn mangas_view(v: Seq<Manga>) -> Seq<MangaView> {
    v.map_values(|m: Manga| m@)
}

/// A novel known only by its key and title; every other field empty.
pub open spec fn bare_manga(key: Seq<char>, title: Seq<char>) -> MangaView {
    MangaView {
        key,
        title,
        cover: None,
        authors: None,
        description: None,
        url: None,
        tags: None,
        status: MangaStatus::Unknown,
        content_rating: ContentRating::Unknown,
        chapters: None,
    }
}

impl Manga {
    /// A novel with the given key and title and nothing else known of it.
    pub fn new(key: String, title: String) -> (m: Manga)
        ensures
            m@ == bare_manga(key@, title@),
    {
        Manga {
            key,
            title,
            cover: None,
            authors: None,
            description: None,
            url: None,
            tags: None,
            status: MangaStatus::Unknown,
            content_rating: ContentRating::Unknown,
            chapters: None,
        }
    }
}

impl Default for Manga {
    fn default() -> (m: Manga)
        ensures
            m@ == bare_manga(Seq::empty(), Seq::empty()),
    {
        Manga::new(String::new(), String::new())
    }
}

/// A filter that the user set on the browse listing.
#[derive(Clone, Debug)]
#[allow(inconsistent_fields)]
pub enum FilterValue {
    Text { id: String, value: String },
    Sort { id: String, index: i32, ascending: bool },
    Check { id: String, value: i32 },
    Select { id: String, value: String },
    MultiSelect { id: String, included: Vec<String>, excluded: Vec<String> },
    Range { id: String },
}

/// Where a link on the site leads within the app.
#[derive(Clone, Debug)]
pub enum DeepLinkResult {
    Manga { key: String },
    Chapter { manga_key: String, key: String },
}

/// Why a page of the site could not be read.
#[derive(Clone, Copy, Debug, PartialEq, Eq, Structural)]
pub enum SourceError {
    /// The novel page has no (non-blank) title.
    TitleNotFound,
    /// The novel page has no post id, which the chapter index needs.
    PostIdNotFound,
    /// The chapter page has no readable text.
    ChapterTextNotFound,
}

impl SourceError {
    /// The message the source reports for this error.
    pub fn message(&self) -> (r: String)
        ensures
            r@ == match *self {
                SourceError::TitleNotFound => "title not found"@,
                SourceError::PostIdNotFound => "post id not found"@,
                SourceError::ChapterTextNotFound => "chapter text not found"@,
            },
    {
        match self {
            SourceError::TitleNotFound => String::from_str("title not found"),
            SourceError::PostIdNotFound => String::from_str("post id not found"),
            SourceError::ChapterTextNotFound => String::from_str("chapter text not found"),
        }
    }
}

/// One page of a listing.
#[derive(Clone, Debug)]
pub struct MangaPageResult {
    pub entries: Vec<Manga>,
    pub has_next_page: bool,
}

// ---------------------------------------------------------------------------
// The site's JSON answers
// ---------------------------------------------------------------------------

/// One hit of the live search endpoint.
#[derive(Clone, Debug)]
pub struct SearchItem {
    pub title: String,
    pub slug: String,
    pub image: String,
}

/// The live search endpoint's answer.
#[derive(Clone, Debug)]
pub struct SearchResponse {
    pub data: Vec<SearchItem>,
}

/// One row of the site's chapter index: the chapter's sort number and raw heading.
#[derive(Clone, Debug)]
pub struct ChapterIndexRow {
    pub n_sort: i64,
    pub title: String,
}

/// The chapter index endpoint's answer: every chapter, oldest first.
#[derive(Clone, Debug)]
pub struct ChapterIndexResponse {
    pub data: Vec<ChapterIndexRow>,
}

} // verus!
