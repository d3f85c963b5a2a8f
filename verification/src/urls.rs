//! The addresses of the site's pages and endpoints, and reading a novel's slug
//! back out of an address.
use vstd::prelude::*;

use crate::model::{opt_view, FilterValue};
use crate::text::{
    chars_of, find_from, int_text, lemma_find_any_from, lemma_find_from, nth_piece, occurs_at,
    push_all, push_decimal, push_str, same_text, split_any, split_any_on, split_from, split_on,
    split_pieces, string_of, views,
};

verus! {

/// The site's origin.
pub const BASE_URL: &'static str = "https://novelfire.net";

/// `BASE_URL` followed by `path`.
fn site_address(path: &str) -> (r: Vec<char>)
    ensures
        r@ == BASE_URL@ + path@,
{
    let mut out = chars_of(BASE_URL);
    push_str(&mut out, path);
    out
}

/// The address of a cover image given by its path on the site.
pub fn cover_url(image_path: &str) -> (r: String)
    ensures
        r@ == BASE_URL@ + "/"@ + image_path@,
{
    let mut out = site_address("/");
    push_str(&mut out, image_path);
    string_of(out.as_slice())
}

/// The address of a novel's page.
pub fn build_novel_url(slug: &str) -> (r: String)
    ensures
        r@ == BASE_URL@ + "/book/"@ + slug@,
{
    let mut out = site_address("/book/");
    push_str(&mut out, slug);
    string_of(out.as_slice())
}

/// The address of a chapter's page.
pub fn build_chapter_url(slug: &str, chapter_key: &str) -> (r: String)
    ensures
        r@ == BASE_URL@ + "/book/"@ + slug@ + "/"@ + chapter_key@,
{
    let mut out = site_address("/book/");
    push_str(&mut out, slug);
    push_str(&mut out, "/");
    push_str(&mut out, chapter_key);
    string_of(out.as_slice())
}

/// The address of the home page.
pub fn home_url() -> (r: String)
    ensures
        r@ == BASE_URL@ + "/home"@,
{
    let out = site_address("/home");
    string_of(out.as_slice())
}

/// The value of the last `Select` filter with the given id, else `default`.
pub open spec fn select_choice(filters: Seq<FilterValue>, id: Seq<char>, default: Seq<char>) -> Seq<
    char,
>
    decreases filters.len(),
{
    if filters.len() == 0 {
        default
    } else {
        match filters.last() {
            FilterValue::Select { id: fid, value } => if fid@ == id {
                value@
            } else {
                select_choice(filters.drop_last(), id, default)
            },
            _ => select_choice(filters.drop_last(), id, default),
        }
    }
}

/// The sort order named by the index of a `sort` filter.
pub open spec fn sort_name(index: i32) -> Seq<char> {
    if index == 1 {
        "popular"@
    } else if index == 2 {
        "latest-release"@
    } else {
        "new"@
    }
}

/// The sort order set by the last `Sort` filter with id `sort`, else `new`.
pub open spec fn sort_choice(filters: Seq<FilterValue>) -> Seq<char>
    decreases filters.len(),
{
    if filters.len() == 0 {
        "new"@
    } else {
        match filters.last() {
            FilterValue::Sort { id, index, .. } => if id@ == "sort"@ {
                sort_name(index)
            } else {
                sort_choice(filters.drop_last())
            },
            _ => sort_choice(filters.drop_last()),
        }
    }
}

/// The address of a page of the browse listing for the given filters.
pub open spec fn browse_url(filters: Seq<FilterValue>, page: i32) -> Seq<char> {
    BASE_URL@ + "/genre-"@ + select_choice(filters, "genre"@, "all"@) + "/sort-"@ + sort_choice(
        filters,
    ) + "/status-"@ + select_choice(filters, "status"@, "all"@) + "/"@ + select_choice(
        filters,
        "language"@,
        "all"@,
    ) + "-novel?page="@ + int_text(page as int)
}

fn sort_name_exec(index: i32) -> (r: Vec<char>)
    ensures
        r@ == sort_name(index),
{
    if index == 1 {
        chars_of("popular")
    } else if index == 2 {
        chars_of("latest-release")
    } else {
        chars_of("new")
    }
}

/// The address of a page of the browse listing: genre, sort order, status and
/// language come from the filters (the last one of each kind counts), `all` and
/// `new` where none is set.
pub fn build_browse_url(filters: &[FilterValue], page: i32) -> (r: String)
    ensures
        r@ == browse_url(filters@, page),
{
    let mut genre = chars_of("all");
    let mut sort = chars_of("new");
    let mut status = chars_of("all");
    let mut lang = chars_of("all");
    let n = filters.len();
    let mut i: usize = 0;
    proof {
        reveal_strlit("genre");
        reveal_strlit("status");
        reveal_strlit("language");
        assert("genre"@[0] != "status"@[0]);
        assert("genre"@.len() != "language"@.len());
        assert("status"@.len() != "language"@.len());
    }
    while i < n
        invariant
            n == filters@.len(),
            i <= n,
            "genre"@ != "status"@,
            "genre"@ != "language"@,
            "status"@ != "language"@,
            genre@ == select_choice(filters@.take(i as int), "genre"@, "all"@),
            status@ == select_choice(filters@.take(i as int), "status"@, "all"@),
            lang@ == select_choice(filters@.take(i as int), "language"@, "all"@),
            sort@ == sort_choice(filters@.take(i as int)),
        decreases n - i,
    {
        let ghost prefix = filters@.take(i + 1);
        assert(prefix.drop_last() == filters@.take(i as int));
        assert(prefix.last() == filters@[i as int]);
        match &filters[i] {
            FilterValue::Select { id, value } => {
                if same_text(id.as_str(), "genre") {
                    genre = chars_of(value.as_str());
                } else if same_text(id.as_str(), "status") {
                    status = chars_of(value.as_str());
                } else if same_text(id.as_str(), "language") {
                    lang = chars_of(value.as_str());
                }
            },
            FilterValue::Sort { id, index, .. } => {
                if same_text(id.as_str(), "sort") {
                    sort = sort_name_exec(*index);
                }
            },
            _ => {},
        }
        i = i + 1;
    }
    assert(filters@.take(n as int) == filters@);
    let mut out = site_address("/genre-");
    push_all(&mut out, genre.as_slice());
    push_str(&mut out, "/sort-");
    push_all(&mut out, sort.as_slice());
    push_str(&mut out, "/status-");
    push_all(&mut out, status.as_slice());
    push_str(&mut out, "/");
    push_all(&mut out, lang.as_slice());
    push_str(&mut out, "-novel?page=");
    push_decimal(&mut out, page as i64);
    string_of(out.as_slice())
}

/// The address of a page of a ranking listing.
pub fn ranking_url(listing_id: &str, page: i32) -> (r: String)
    ensures
        r@ == BASE_URL@ + "/ranking/"@ + listing_id@ + "?page="@ + int_text(page as int),
{
    let mut out = site_address("/ranking/");
    push_str(&mut out, listing_id);
    push_str(&mut out, "?page=");
    push_decimal(&mut out, page as i64);
    string_of(out.as_slice())
}

/// The address of the live search endpoint for a keyword that is already
/// encoded as a URI component.
pub fn search_url(encoded_keyword: &str) -> (r: String)
    ensures
        r@ == BASE_URL@ + "/ajax/searchLive?keyword="@ + encoded_keyword@ + "&type=title"@,
{
    let mut out = site_address("/ajax/searchLive?keyword=");
    push_str(&mut out, encoded_keyword);
    push_str(&mut out, "&type=title");
    string_of(out.as_slice())
}

/// The address of the chapter index endpoint for an encoded query string.
pub fn chapter_index_url(query: &str) -> (r: String)
    ensures
        r@ == BASE_URL@ + "/ajax/listChapterDataAjax?"@ + query@,
{
    let mut out = site_address("/ajax/listChapterDataAjax?");
    push_str(&mut out, query);
    string_of(out.as_slice())
}

/// The CSS selector of a link to the page after `page`.
pub fn next_page_selector(page: i32) -> (r: String)
    requires
        page < i32::MAX,
    ensures
        r@ == "a[href*='page="@ + int_text(page + 1) + "']"@,
{
    let mut out = chars_of("a[href*='page=");
    push_decimal(&mut out, (page + 1) as i64);
    push_str(&mut out, "']");
    string_of(out.as_slice())
}

/// The pieces of an address after its first `/book/`, up to the next one.
pub open spec fn after_book(url: Seq<char>) -> Option<Seq<char>> {
    nth_piece(split_pieces(url, "/book/"@), 1)
}

/// The characters that end a slug in an address.
pub open spec fn slug_stops() -> Seq<char> {
    seq!['/', '?', '#']
}

/// The slug of `{BASE_URL}/book/{slug}[/...]`: what follows the first `/book/`,
/// up to the first `/`, `?` or `#`, when that is not empty.
pub open spec fn url_slug(url: Seq<char>) -> Option<Seq<char>> {
    match after_book(url) {
        None => None,
        Some(rest) => {
            let slug = split_any(rest, slug_stops())[0];
            if slug.len() > 0 {
                Some(slug)
            } else {
                None
            }
        },
    }
}

/// A split of anything has a first piece.
pub proof fn lemma_split_any_nonempty(s: Seq<char>, stops: Seq<char>)
    ensures
        split_any(s, stops).len() >= 1,
{
    lemma_find_any_from(s, stops, 0);
}

/// The characters `/`, `?` and `#`.
fn slug_stops_exec() -> (r: Vec<char>)
    ensures
        r@ == slug_stops(),
{
    let mut r: Vec<char> = Vec::new();
    r.push('/');
    r.push('?');
    r.push('#');
    r
}

/// The text after the first `/book/` of an address, up to the next `/book/`.
pub fn after_book_exec(url: &str) -> (r: Option<Vec<char>>)
    ensures
        match r {
            Some(v) => after_book(url@) == Some(v@),
            None => after_book(url@) is None,
        },
{
    let cs = chars_of(url);
    let sep = chars_of("/book/");
    proof {
        reveal_strlit("/book/");
    }
    let mut pieces = split_on(cs.as_slice(), sep.as_slice());
    assert(views(pieces@).len() == pieces@.len());
    if pieces.len() > 1 {
        let ghost all = pieces@;
        let piece = pieces.remove(1);
        assert(views(all)[1] == piece@);
        Some(piece)
    } else {
        None
    }
}

/// Extracts `{slug}` from `https://novelfire.net/book/{slug}[/...]`.
pub fn slug_from_url(url: &str) -> (r: Option<String>)
    ensures
        opt_view(r) == url_slug(url@),
{
    match after_book_exec(url) {
        None => None,
        Some(rest) => {
            let stops = slug_stops_exec();
            let pieces = split_any_on(rest.as_slice(), stops.as_slice());
            proof {
                lemma_split_any_nonempty(rest@, stops@);
            }
            let slug = &pieces[0];
            if slug.len() > 0 {
                Some(string_of(slug.as_slice()))
            } else {
                None
            }
        },
    }
}

} // verus!

verus! {

/// A slug as the site writes them: not empty, and free of `/`, `?` and `#`.
pub open spec fn is_plain_slug(s: Seq<char>) -> bool {
    s.len() > 0 && forall|i: int| 0 <= i < s.len() ==> !slug_stops().contains(#[trigger] s[i])
}

/// `find_from` finds the first occurrence.
proof fn lemma_find_from_first(s: Seq<char>, p: Seq<char>, start: int, i: int)
    requires
        0 <= start <= i,
        occurs_at(s, p, i),
        forall|j: int| start <= j < i ==> !occurs_at(s, p, j),
    ensures
        find_from(s, p, start) == Some(i),
{
    lemma_find_from(s, p, start);
}

/// Splitting a text free of stop characters gives the text itself first.
pub(crate) proof fn lemma_split_any_plain(s: Seq<char>, stops: Seq<char>)
    requires
        forall|i: int| 0 <= i < s.len() ==> !stops.contains(#[trigger] s[i]),
    ensures
        split_any(s, stops)[0] == s,
{
    lemma_find_any_from(s, stops, 0);
    assert(s.subrange(0, s.len() as int) == s);
}

/// The base address holds no `/book/`, and `/book/` cannot start in it and run
/// on into what follows.
pub(crate) proof fn lemma_base_then_book(rest: Seq<char>)
    ensures
        ({
            let u = BASE_URL@ + "/book/"@ + rest;
            &&& occurs_at(u, "/book/"@, BASE_URL@.len() as int)
            &&& forall|j: int| 0 <= j < BASE_URL@.len() ==> !occurs_at(u, "/book/"@, j)
        }),
{
    reveal_strlit("https://novelfire.net");
    reveal_strlit("/book/");
    let u = BASE_URL@ + "/book/"@ + rest;
    let b = BASE_URL@.len() as int;
    assert(u.subrange(b, b + 6) == "/book/"@);
    assert forall|j: int| 0 <= j < b implies !occurs_at(u, "/book/"@, j) by {
        if occurs_at(u, "/book/"@, j) {
            assert(u.subrange(j, j + 6)[0] == '/');
            assert(u.subrange(j, j + 6)[1] == 'b');
            assert(u[j] == '/');
            assert(u[j + 1] == 'b');
        }
    }
}

/// The address of a novel gives back its slug.
pub proof fn lemma_novel_url_slug(slug: Seq<char>)
    requires
        is_plain_slug(slug),
    ensures
        url_slug(BASE_URL@ + "/book/"@ + slug) == Some(slug),
{
    reveal_strlit("https://novelfire.net");
    reveal_strlit("/book/");
    let sep = "/book/"@;
    let u = BASE_URL@ + sep + slug;
    let b = BASE_URL@.len() as int;
    lemma_base_then_book(slug);
    lemma_find_from_first(u, sep, 0, b);
    let after = b + 6;
    assert(u.subrange(after, u.len() as int) == slug);
    lemma_find_from(u, sep, after);
    assert forall|j: int| after <= j implies !occurs_at(u, sep, j) by {
        if occurs_at(u, sep, j) {
            assert(u.subrange(j, j + 6)[0] == '/');
            assert(u[j] == slug[j - after]);
            assert(slug_stops().contains('/'));
        }
    }
    assert(split_pieces(u, sep) == seq![u.subrange(0, b)] + split_from(u, sep, after));
    assert(split_from(u, sep, after) == seq![slug]);
    assert(after_book(u) == Some(slug));
    lemma_split_any_plain(slug, slug_stops());
}

} // verus!

verus! {

/// No filter sets the sort order.
pub open spec fn no_sort_filter(filters: Seq<FilterValue>) -> bool {
    forall|k: int| 0 <= k < filters.len() ==> !(#[trigger] filters[k] is Sort)
}

proof fn lemma_default_choices(filters: Seq<FilterValue>)
    requires
        no_sort_filter(filters),
    ensures
        sort_choice(filters) == "new"@,
    decreases filters.len(),
{
    if filters.len() > 0 {
        assert(!(filters[filters.len() - 1] is Sort));
        assert forall|k: int| 0 <= k < filters.drop_last().len() implies !(
        #[trigger] filters.drop_last()[k] is Sort) by {
            assert(filters.drop_last()[k] == filters[k]);
        }
        lemma_default_choices(filters.drop_last());
    }
}

/// Without filters the browse listing is every genre, status and language,
/// newest first.
pub proof fn lemma_browse_url_defaults(page: i32)
    ensures
        browse_url(Seq::empty(), page) == BASE_URL@ + "/genre-all/sort-new/status-all/all-novel?page="@
            + int_text(page as int),
{
    reveal_strlit("/genre-all/sort-new/status-all/all-novel?page=");
    reveal_strlit("/genre-");
    reveal_strlit("all");
    reveal_strlit("/sort-");
    reveal_strlit("new");
    reveal_strlit("/status-");
    reveal_strlit("/");
    reveal_strlit("-novel?page=");
    assert("/genre-"@ + "all"@ + "/sort-"@ + "new"@ + "/status-"@ + "all"@ + "/"@ + "all"@
        + "-novel?page="@ == "/genre-all/sort-new/status-all/all-novel?page="@);
    assert(BASE_URL@ + "/genre-"@ + "all"@ + "/sort-"@ + "new"@ + "/status-"@ + "all"@ + "/"@
        + "all"@ + "-novel?page="@ + int_text(page as int) == BASE_URL@ + ("/genre-"@ + "all"@
        + "/sort-"@ + "new"@ + "/status-"@ + "all"@ + "/"@ + "all"@ + "-novel?page="@) + int_text(
        page as int,
    ));
}

/// The sort order that a `sort` filter picks by its index: 1 is `popular`,
/// 2 is `latest-release`, any other index is `new`, the same as no sort
/// filter at all.
pub proof fn lemma_sort_index(
    filters: Seq<FilterValue>,
    id: String,
    index: i32,
    ascending: bool,
    page: i32,
)
    requires
        id@ == "sort"@,
    ensures
        ({
            let f = filters.push(FilterValue::Sort { id, index, ascending });
            &&& index == 1 ==> sort_choice(f) == "popular"@
            &&& index == 2 ==> sort_choice(f) == "latest-release"@
            &&& index != 1 && index != 2 ==> sort_choice(f) == "new"@
            &&& index != 1 && index != 2 && no_sort_filter(filters) ==> browse_url(f, page)
                == browse_url(filters, page)
        }),
{
    let f = filters.push(FilterValue::Sort { id, index, ascending });
    assert(f.drop_last() == filters);
    assert(select_choice(f, "genre"@, "all"@) == select_choice(filters, "genre"@, "all"@));
    assert(select_choice(f, "status"@, "all"@) == select_choice(filters, "status"@, "all"@));
    assert(select_choice(f, "language"@, "all"@) == select_choice(filters, "language"@, "all"@));
    if index != 1 && index != 2 && no_sort_filter(filters) {
        lemma_default_choices(filters);
    }
}

} // verus!

verus! {

/// The browse address carries the chosen genre, sort order, status and
/// language in their places: with a genre, status and language picked and the
/// `popular` order, the address is
/// `{BASE_URL}/genre-{genre}/sort-popular/status-{status}/{language}-novel?page={page}`.
pub proof fn lemma_browse_url_carries_filters(
    gid: String,
    genre: String,
    sid: String,
    status: String,
    lid: String,
    language: String,
    sort_id: String,
    ascending: bool,
    page: i32,
)
    requires
        gid@ == "genre"@,
        sid@ == "status"@,
        lid@ == "language"@,
        sort_id@ == "sort"@,
    ensures
        browse_url(
            seq![
                FilterValue::Select { id: gid, value: genre },
                FilterValue::Select { id: sid, value: status },
                FilterValue::Select { id: lid, value: language },
                FilterValue::Sort { id: sort_id, index: 1, ascending },
            ],
            page,
        ) == BASE_URL@ + "/genre-"@ + genre@ + "/sort-popular/status-"@ + status@ + "/"@
            + language@ + "-novel?page="@ + int_text(page as int),
{
    reveal_strlit("genre");
    reveal_strlit("status");
    reveal_strlit("language");
    reveal_strlit("/sort-");
    reveal_strlit("popular");
    reveal_strlit("/status-");
    reveal_strlit("/sort-popular/status-");
    assert("genre"@[0] != "status"@[0]);
    assert("genre"@.len() != "language"@.len());
    assert("status"@.len() != "language"@.len());
    let f = seq![
        FilterValue::Select { id: gid, value: genre },
        FilterValue::Select { id: sid, value: status },
        FilterValue::Select { id: lid, value: language },
        FilterValue::Sort { id: sort_id, index: 1, ascending },
    ];
    let f3 = f.drop_last();
    let f2 = f3.drop_last();
    let f1 = f2.drop_last();
    assert(f1.drop_last() == Seq::<FilterValue>::empty());
    assert(f.last() == FilterValue::Sort { id: sort_id, index: 1, ascending });
    assert(f3.last() == FilterValue::Select { id: lid, value: language });
    assert(f2.last() == FilterValue::Select { id: sid, value: status });
    assert(f1.last() == FilterValue::Select { id: gid, value: genre });
    assert(select_choice(f1, "genre"@, "all"@) == genre@);
    assert(select_choice(f2, "genre"@, "all"@) == genre@);
    assert(select_choice(f3, "genre"@, "all"@) == genre@);
    assert(select_choice(f, "genre"@, "all"@) == genre@);
    assert(select_choice(f2, "status"@, "all"@) == status@);
    assert(select_choice(f3, "status"@, "all"@) == status@);
    assert(select_choice(f, "status"@, "all"@) == status@);
    assert(select_choice(f3, "language"@, "all"@) == language@);
    assert(select_choice(f, "language"@, "all"@) == language@);
    assert(sort_choice(f) == "popular"@);
    assert("/sort-"@ + "popular"@ + "/status-"@ == "/sort-popular/status-"@);
    let g = BASE_URL@ + "/genre-"@ + genre@;
    assert(g + "/sort-"@ + "popular"@ + "/status-"@ == g + "/sort-popular/status-"@);
}

} // verus!
