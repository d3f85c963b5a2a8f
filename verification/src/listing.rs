//! Listings of novels: the `li.novel-item` entries that browse, ranking and home
//! pages share, and the home page's sections.
use vstd::prelude::*;

use crate::details::{nonblank, nonblank_exec};
use crate::model::{bare_manga, mangas_view, opt_view, Manga, MangaView};
use crate::text::{chars_eq, chars_of, string_of, trim, trim_chars};
use crate::urls::{slug_from_url, url_slug};

verus! {

/// The `a[href*='/book/']` link of an entry: its absolute `href` and its `title`.
#[derive(Clone, Debug)]
pub struct NovelLink {
    pub href: Option<String>,
    pub title: Option<String>,
}

/// The `img` of an entry: its absolute `data-src` (where lazy loading keeps the
/// cover) and its absolute `src`.
#[derive(Clone, Debug)]
pub struct NovelImage {
    pub data_src: Option<String>,
    pub src: Option<String>,
}

/// What the logic reads from one `li.novel-item`.
#[derive(Clone, Debug)]
pub struct NovelItem {
    pub link: Option<NovelLink>,
    /// Text of `h4.novel-title`.
    pub heading: Option<String>,
    pub image: Option<NovelImage>,
}

/// The entry's title: the link's `title`, or the heading when the link has
/// none, trimmed; none when blank.
pub open spec fn item_title(link: NovelLink, heading: Option<String>) -> Option<Seq<char>> {
    match link.title {
        Some(t) => nonblank(Some(t)),
        None => nonblank(heading),
    }
}

/// The entry's cover: `data-src` in preference to `src`.
pub open spec fn item_cover(image: Option<NovelImage>) -> Option<Seq<char>> {
    match image {
        Some(img) => match img.data_src {
            Some(d) => Some(d@),
            None => opt_view(img.src),
        },
        None => None,
    }
}

/// The novel that an entry lists, if it has a book link with a slug and a title.
pub open spec fn novel_entry(item: NovelItem) -> Option<MangaView> {
    match item.link {
        None => None,
        Some(link) => match link.href {
            None => None,
            Some(url) => match url_slug(url@) {
                None => None,
                Some(slug) => match item_title(link, item.heading) {
                    None => None,
                    Some(title) => Some(
                        MangaView {
                            cover: item_cover(item.image),
                            url: Some(url@),
                            ..bare_manga(slug, title)
                        },
                    ),
                },
            },
        },
    }
}

/// The novels that a list of entries lists, in order.
pub open spec fn novel_entries(items: Seq<NovelItem>) -> Seq<MangaView>
    decreases items.len(),
{
    if items.len() == 0 {
        seq![]
    } else {
        let rest = novel_entries(items.drop_last());
        match novel_entry(items.last()) {
            Some(m) => rest.push(m),
            None => rest,
        }
    }
}

/// The novels of an optional list of entries.
pub open spec fn entries_of(items: Option<Vec<NovelItem>>) -> Seq<MangaView> {
    match items {
        Some(v) => novel_entries(v@),
        None => seq![],
    }
}

/// The novel that one entry lists.
pub fn novel_item_entry(item: &NovelItem) -> (r: Option<Manga>)
    ensures
        match r {
            Some(m) => novel_entry(*item) == Some(m@),
            None => novel_entry(*item) is None,
        },
{
    let link = match &item.link {
        Some(l) => l,
        None => return None,
    };
    let url = match &link.href {
        Some(u) => u,
        None => return None,
    };
    let slug = match slug_from_url(url.as_str()) {
        Some(s) => s,
        None => return None,
    };
    let title = match &link.title {
        Some(_) => nonblank_exec(&link.title),
        None => nonblank_exec(&item.heading),
    };
    let title = match title {
        Some(t) => t,
        None => return None,
    };
    let cover = match &item.image {
        Some(img) => match &img.data_src {
            Some(d) => Some(d.clone()),
            None => img.src.clone(),
        },
        None => None,
    };
    let mut m = Manga::new(slug, title);
    m.cover = cover;
    m.url = Some(url.clone());
    Some(m)
}

/// Parse `li.novel-item` entries (browse, ranking, and home sections share
/// this markup). Covers are lazy-loaded, so prefer `data-src` over `src`.
/// Entries without a book link, a slug or a title are left out.
pub fn parse_novel_items(items: &Option<Vec<NovelItem>>) -> (r: Vec<Manga>)
    ensures
        mangas_view(r@) == entries_of(*items),
{
    let mut entries: Vec<Manga> = Vec::new();
    let list = match items {
        Some(v) => v,
        None => return entries,
    };
    let n = list.len();
    let mut i: usize = 0;
    while i < n
        invariant
            n == list@.len(),
            entries_of(*items) == novel_entries(list@),
            i <= n,
            mangas_view(entries@) == novel_entries(list@.take(i as int)),
        decreases n - i,
    {
        let ghost before = entries@;
        assert(list@.take(i + 1).drop_last() == list@.take(i as int));
        assert(list@.take(i + 1).last() == list@[i as int]);
        match novel_item_entry(&list[i]) {
            Some(m) => {
                entries.push(m);
                assert(mangas_view(entries@) == mangas_view(before).push(entries@.last()@));
            },
            None => {},
        }
        i = i + 1;
    }
    assert(list@.take(n as int) == list@);
    entries
}

/// Every listed novel has a non-blank key and title and keeps the address its
/// key was read from; there are never more novels than entries.
pub proof fn lemma_entries_well_formed(items: Seq<NovelItem>)
    ensures
        novel_entries(items).len() <= items.len(),
        forall|i: int|
            0 <= i < novel_entries(items).len() ==> {
                let m = #[trigger] novel_entries(items)[i];
                &&& m.key.len() > 0
                &&& m.title.len() > 0
                &&& m.title == trim(m.title)
                &&& m.url matches Some(u) && url_slug(u) == Some(m.key)
            },
    decreases items.len(),
{
    if items.len() > 0 {
        lemma_entries_well_formed(items.drop_last());
        let rest = novel_entries(items.drop_last());
        match novel_entry(items.last()) {
            Some(m) => {
                lemma_entry_well_formed(items.last());
                assert forall|i: int| 0 <= i < rest.push(m).len() implies {
                    let e = #[trigger] rest.push(m)[i];
                    &&& e.key.len() > 0
                    &&& e.title.len() > 0
                    &&& e.title == trim(e.title)
                    &&& e.url matches Some(u) && url_slug(u) == Some(e.key)
                } by {
                    if i < rest.len() {
                        assert(rest.push(m)[i] == rest[i]);
                    }
                }
            },
            None => {},
        }
    }
}

proof fn lemma_entry_well_formed(item: NovelItem)
    ensures
        novel_entry(item) matches Some(m) ==> {
            &&& m.key.len() > 0
            &&& m.title.len() > 0
            &&& m.title == trim(m.title)
            &&& m.url matches Some(u) && url_slug(u) == Some(m.key)
        },
{
    if let Some(link) = item.link {
        let raw = match link.title {
            Some(t) => t,
            None => item.heading.unwrap(),
        };
        if novel_entry(item) is Some {
            crate::text::lemma_trim_idempotent(raw@);
        }
    }
}

/// A `section.container` of the home page: the text of its
/// `.section-header h3` and its `li.novel-item` entries.
#[derive(Clone, Debug)]
pub struct HomeSection {
    pub heading: Option<String>,
    pub items: Option<Vec<NovelItem>>,
}

/// The section's trimmed heading is `heading`.
pub open spec fn section_has_heading(s: HomeSection, heading: Seq<char>) -> bool {
    match s.heading {
        Some(t) => trim(t@) == heading,
        None => false,
    }
}

/// The novels of the first section headed `heading`; none when there is none.
pub open spec fn section_entries(sections: Seq<HomeSection>, heading: Seq<char>) -> Seq<MangaView>
    decreases sections.len(),
{
    if sections.len() == 0 {
        seq![]
    } else if section_has_heading(sections[0], heading) {
        entries_of(sections[0].items)
    } else {
        section_entries(sections.drop_first(), heading)
    }
}

/// The novels of the home section headed `heading`, among optional sections.
pub open spec fn home_section_entries(sections: Option<Vec<HomeSection>>, heading: Seq<char>) -> Seq<
    MangaView,
> {
    match sections {
        Some(v) => section_entries(v@, heading),
        None => seq![],
    }
}

/// Entries from the home-page `<section>` whose `.section-header h3` matches
/// `heading`.
pub fn parse_home_section(sections: &Option<Vec<HomeSection>>, heading: &str) -> (r: Vec<Manga>)
    ensures
        mangas_view(r@) == home_section_entries(*sections, heading@),
{
    let list = match sections {
        Some(v) => v,
        None => return Vec::new(),
    };
    let want = chars_of(heading);
    let n = list.len();
    let mut i: usize = 0;
    assert(list@.skip(0) == list@);
    while i < n
        invariant
            n == list@.len(),
            want@ == heading@,
            home_section_entries(*sections, heading@) == section_entries(list@, heading@),
            i <= n,
            section_entries(list@, heading@) == section_entries(list@.skip(i as int), heading@),
        decreases n - i,
    {
        assert(list@.skip(i as int)[0] == list@[i as int]);
        assert(list@.skip(i as int).drop_first() == list@.skip(i + 1));
        let section = &list[i];
        let matches = match &section.heading {
            Some(t) => {
                let cs = chars_of(t.as_str());
                let tt = trim_chars(cs.as_slice());
                chars_eq(tt.as_slice(), want.as_slice())
            },
            None => false,
        };
        assert(matches == section_has_heading(list@[i as int], heading@));
        if matches {
            return parse_novel_items(&section.items);
        }
        i = i + 1;
    }
    Vec::new()
}

/// A titled row of novels on the home screen.
#[derive(Clone, Debug)]
pub struct HomeScroller {
    pub title: String,
    pub entries: Vec<Manga>,
}

/// The home sections the app shows, in order.
pub open spec fn home_headings() -> Seq<Seq<char>> {
    seq!["Recommends"@, "Latest Novels"@, "Completed Stories"@]
}

/// The rows of the home screen: one per home section, in order, leaving out
/// those with no novels.
pub open spec fn home_rows(sections: Option<Vec<HomeSection>>, headings: Seq<Seq<char>>) -> Seq<
    (Seq<char>, Seq<MangaView>),
>
    decreases headings.len(),
{
    if headings.len() == 0 {
        seq![]
    } else {
        let rest = home_rows(sections, headings.drop_last());
        let entries = home_section_entries(sections, headings.last());
        if entries.len() == 0 {
            rest
        } else {
            rest.push((headings.last(), entries))
        }
    }
}

/// The view of the rows of the home screen.
pub open spec fn scrollers_view(v: Seq<HomeScroller>) -> Seq<(Seq<char>, Seq<MangaView>)> {
    v.map_values(|s: HomeScroller| (s.title@, mangas_view(s.entries@)))
}

fn push_scroller(
    rows: &mut Vec<HomeScroller>,
    sections: &Option<Vec<HomeSection>>,
    title: &str,
)
    ensures
        scrollers_view(final(rows)@) == {
            let entries = home_section_entries(*sections, title@);
            if entries.len() == 0 {
                scrollers_view(old(rows)@)
            } else {
                scrollers_view(old(rows)@).push((title@, entries))
            }
        },
{
    let entries = parse_home_section(sections, title);
    if entries.len() > 0 {
        let ghost before = rows@;
        let t = chars_of(title);
        rows.push(HomeScroller { title: string_of(t.as_slice()), entries });
        assert(scrollers_view(rows@) == scrollers_view(before).push(
            (rows@.last().title@, mangas_view(rows@.last().entries@)),
        ));
    }
}

/// The rows of the home screen: the `Recommends`, `Latest Novels` and
/// `Completed Stories` sections, in that order, each only when it lists a novel.
pub fn home_scrollers(sections: &Option<Vec<HomeSection>>) -> (r: Vec<HomeScroller>)
    ensures
        scrollers_view(r@) == home_rows(*sections, home_headings()),
{
    let ghost h = home_headings();
    let ghost h1 = h.drop_last().drop_last();
    let ghost h2 = h.drop_last();
    assert(h1.drop_last() == Seq::<Seq<char>>::empty());
    assert(h2.drop_last() == h1);
    assert(h1.last() == "Recommends"@);
    assert(h2.last() == "Latest Novels"@);
    assert(h.last() == "Completed Stories"@);
    let mut rows: Vec<HomeScroller> = Vec::new();
    assert(scrollers_view(rows@) == home_rows(*sections, h1.drop_last()));
    push_scroller(&mut rows, sections, "Recommends");
    assert(scrollers_view(rows@) == home_rows(*sections, h1));
    push_scroller(&mut rows, sections, "Latest Novels");
    assert(scrollers_view(rows@) == home_rows(*sections, h2));
    push_scroller(&mut rows, sections, "Completed Stories");
    rows
}

/// No row of the home screen is empty.
pub proof fn lemma_home_rows_nonempty(sections: Option<Vec<HomeSection>>, headings: Seq<Seq<char>>)
    ensures
        forall|i: int|
            0 <= i < home_rows(sections, headings).len() ==> (#[trigger] home_rows(
                sections,
                headings,
            )[i]).1.len() > 0,
    decreases headings.len(),
{
    if headings.len() > 0 {
        lemma_home_rows_nonempty(sections, headings.drop_last());
        let rest = home_rows(sections, headings.drop_last());
        let entries = home_section_entries(sections, headings.last());
        if entries.len() > 0 {
            assert forall|i: int| 0 <= i < rest.push((headings.last(), entries)).len() implies (
            #[trigger] rest.push((headings.last(), entries))[i]).1.len() > 0 by {
                if i < rest.len() {
                    assert(rest.push((headings.last(), entries))[i] == rest[i]);
                }
            }
        }
    }
}

} // verus!

verus! {

/// The home screen shows, in this order, `Recommends`, `Latest Novels` and
/// `Completed Stories`, each with the novels of the section of that heading,
/// and leaves out the ones that list no novel.
pub proof fn lemma_home_rows_in_order(sections: Option<Vec<HomeSection>>)
    ensures
        ({
            let e1 = home_section_entries(sections, "Recommends"@);
            let e2 = home_section_entries(sections, "Latest Novels"@);
            let e3 = home_section_entries(sections, "Completed Stories"@);
            let r1: Seq<(Seq<char>, Seq<MangaView>)> = if e1.len() > 0 {
                seq![("Recommends"@, e1)]
            } else {
                seq![]
            };
            let r2: Seq<(Seq<char>, Seq<MangaView>)> = if e2.len() > 0 {
                seq![("Latest Novels"@, e2)]
            } else {
                seq![]
            };
            let r3: Seq<(Seq<char>, Seq<MangaView>)> = if e3.len() > 0 {
                seq![("Completed Stories"@, e3)]
            } else {
                seq![]
            };
            home_rows(sections, home_headings()) == r1 + r2 + r3
        }),
{
    let h = home_headings();
    let h1 = h.drop_last().drop_last();
    let h2 = h.drop_last();
    assert(h1.drop_last() == Seq::<Seq<char>>::empty());
    assert(h2.drop_last() == h1);
    assert(h1.last() == "Recommends"@);
    assert(h2.last() == "Latest Novels"@);
    assert(h.last() == "Completed Stories"@);
    let e1 = home_section_entries(sections, "Recommends"@);
    let e2 = home_section_entries(sections, "Latest Novels"@);
    let e3 = home_section_entries(sections, "Completed Stories"@);
    let empty = Seq::<(Seq<char>, Seq<MangaView>)>::empty();
    assert(home_rows(sections, h1.drop_last()) == empty);
    let r1: Seq<(Seq<char>, Seq<MangaView>)> = if e1.len() > 0 {
        seq![("Recommends"@, e1)]
    } else {
        seq![]
    };
    let r2: Seq<(Seq<char>, Seq<MangaView>)> = if e2.len() > 0 {
        seq![("Latest Novels"@, e2)]
    } else {
        seq![]
    };
    let r3: Seq<(Seq<char>, Seq<MangaView>)> = if e3.len() > 0 {
        seq![("Completed Stories"@, e3)]
    } else {
        seq![]
    };
    assert(home_rows(sections, h1) == r1);
    assert(home_rows(sections, h2) == r1 + r2);
    assert(home_rows(sections, h) == r1 + r2 + r3);
}

} // verus!

verus! {

/// A listed novel's cover is the image's `data-src` when it has one (covers
/// are lazy-loaded), else its `src`; its title is the link's `title`
/// attribute when there is one, else the heading's text, trimmed.
pub proof fn lemma_entry_cover_and_title(item: NovelItem)
    ensures
        novel_entry(item) matches Some(m) ==> {
            &&& m.cover == match item.image {
                Some(img) => match img.data_src {
                    Some(d) => Some(d@),
                    None => match img.src {
                        Some(src) => Some(src@),
                        None => None,
                    },
                },
                None => None,
            }
            &&& match item.link {
                Some(l) => match l.title {
                    Some(t) => m.title == trim(t@),
                    None => item.heading matches Some(h) && m.title == trim(h@),
                },
                None => false,
            }
        },
{
}

} // verus!
