//! The decisions of the source's entry points: what a search asks the site
//! for, what search results list, which chapter index to ask for, and where a
//! link on the site leads.
use vstd::prelude::*;

use crate::chapters::{chapter_key_of, index_chapter};
use crate::details::{details_of, fill_manga_details, manga_result_view, DetailsPage};
use crate::model::{
    bare_manga, mangas_view, ChapterIndexRow, DeepLinkResult, FilterValue, Manga, MangaPageResult,
    MangaView, SearchItem, SearchResponse, SourceError,
};
use crate::text::{
    chars_of, has_prefix, int_text, nat_text, nth_piece, split_any, split_any_on, split_pieces,
    starts_with,
    string_of, views,
};
use crate::urls::{
    after_book, after_book_exec, browse_url, build_browse_url, build_novel_url, cover_url,
    lemma_split_any_nonempty, slug_from_url, url_slug, BASE_URL,
};

verus! {

// ---------------------------------------------------------------------------
// Search
// ---------------------------------------------------------------------------

/// The novel that a search hit names.
pub open spec fn search_hit(item: SearchItem) -> MangaView {
    MangaView {
        cover: Some(BASE_URL@ + "/"@ + item.image@),
        url: Some(BASE_URL@ + "/book/"@ + item.slug@),
        ..bare_manga(item.slug@, item.title@)
    }
}

/// The novel that a search hit names: its slug is the key, its image path
/// gives the cover.
pub fn manga_from_search_item(item: &SearchItem) -> (m: Manga)
    ensures
        m@ == search_hit(*item),
{
    let url = build_novel_url(item.slug.as_str());
    let cover = cover_url(item.image.as_str());
    let key = string_of(chars_of(item.slug.as_str()).as_slice());
    let title = string_of(chars_of(item.title.as_str()).as_slice());
    let mut m = Manga::new(key, title);
    m.url = Some(url);
    m.cover = Some(cover);
    m
}

/// The page of results that a search answer gives: every hit, in order, and
/// no further page.
pub fn search_results(response: &SearchResponse) -> (r: MangaPageResult)
    ensures
        mangas_view(r.entries@) == response.data@.map_values(|i: SearchItem| search_hit(i)),
        !r.has_next_page,
{
    let mut entries: Vec<Manga> = Vec::new();
    let n = response.data.len();
    let mut i: usize = 0;
    while i < n
        invariant
            n == response.data@.len(),
            i <= n,
            mangas_view(entries@) == response.data@.take(i as int).map_values(
                |i: SearchItem| search_hit(i),
            ),
        decreases n - i,
    {
        let ghost before = entries@;
        let m = manga_from_search_item(&response.data[i]);
        entries.push(m);
        assert(mangas_view(entries@) == mangas_view(before).push(m@));
        assert(response.data@.take(i + 1) == response.data@.take(i as int).push(
            response.data@[i as int],
        ));
        i = i + 1;
    }
    assert(response.data@.take(n as int) == response.data@);
    MangaPageResult { entries, has_next_page: false }
}

/// What a search asks the site for.
#[derive(Clone, Debug)]
pub enum SearchRequest {
    /// Nothing: the answer is an empty page.
    Nothing,
    /// The live search for a keyword (still to be encoded as a URI component).
    Search { keyword: String },
    /// A page of the browse listing.
    Browse { url: String },
}

/// A keyword search has a single page of results, so a later page asks for
/// nothing; without a keyword the browse listing is asked for, with the filters.
pub fn plan_search(query: Option<String>, page: i32, filters: &[FilterValue]) -> (r: SearchRequest)
    ensures
        match query {
            Some(q) => if page > 1 {
                r is Nothing
            } else {
                r matches SearchRequest::Search { keyword } && keyword@ == q@
            },
            None => r matches SearchRequest::Browse { url } && url@ == browse_url(filters@, page),
        },
{
    match query {
        Some(q) => if page > 1 {
            SearchRequest::Nothing
        } else {
            SearchRequest::Search { keyword: q }
        },
        None => SearchRequest::Browse { url: build_browse_url(filters, page) },
    }
}

// ---------------------------------------------------------------------------
// Updating a novel
// ---------------------------------------------------------------------------

/// The novel with its details filled in from its page when they are asked
/// for; unchanged otherwise.
pub fn update_details(manga: Manga, needs_details: bool, page: &DetailsPage) -> (r: Result<
    Manga,
    SourceError,
>)
    ensures
        needs_details ==> manga_result_view(r) == details_of(*page, manga@),
        !needs_details ==> (r matches Ok(m) && m@ == manga@),
{
    if needs_details {
        fill_manga_details(page, manga)
    } else {
        Ok(manga)
    }
}

/// The views of a list of query parameters.
pub open spec fn params_view(v: Seq<(String, String)>) -> Seq<(Seq<char>, Seq<char>)> {
    v.map_values(|p: (String, String)| (p.0@, p.1@))
}

/// The query of the chapter index endpoint (the request that the site's own
/// chapter list makes: every row at once, in ascending order) for a post id.
pub open spec fn chapter_index_params(post_id: Seq<char>) -> Seq<(Seq<char>, Seq<char>)> {
    seq![
        ("draw"@, "1"@),
        ("columns[0][data]"@, "n_sort"@),
        ("columns[0][name]"@, "cmm_posts_detail.n_sort"@),
        ("columns[0][searchable]"@, "true"@),
        ("columns[0][orderable]"@, "true"@),
        ("columns[0][search][value]"@, ""@),
        ("columns[0][search][regex]"@, "false"@),
        ("order[0][column]"@, "0"@),
        ("order[0][dir]"@, "asc"@),
        ("start"@, "0"@),
        ("length"@, "-1"@),
        ("search[value]"@, ""@),
        ("search[regex]"@, "false"@),
        ("post_id"@, post_id),
        ("user_id"@, ""@),
        ("only_bookmark"@, "false"@),
    ]
}

fn push_param(v: &mut Vec<(String, String)>, key: &str, value: &str)
    ensures
        params_view(final(v)@) == params_view(old(v)@).push((key@, value@)),
{
    let ghost before = v@;
    let k = string_of(chars_of(key).as_slice());
    let val = string_of(chars_of(value).as_slice());
    v.push((k, val));
    assert(params_view(v@) == params_view(before).push((key@, value@)));
}

/// The query parameters of the chapter index request for a post id. `length=-1`
/// asks for all rows, so even the longest novels load in one round trip.
pub fn chapter_index_query(post_id: &str) -> (r: Vec<(String, String)>)
    ensures
        params_view(r@) == chapter_index_params(post_id@),
{
    let mut v: Vec<(String, String)> = Vec::new();
    push_param(&mut v, "draw", "1");
    push_param(&mut v, "columns[0][data]", "n_sort");
    push_param(&mut v, "columns[0][name]", "cmm_posts_detail.n_sort");
    push_param(&mut v, "columns[0][searchable]", "true");
    push_param(&mut v, "columns[0][orderable]", "true");
    push_param(&mut v, "columns[0][search][value]", "");
    push_param(&mut v, "columns[0][search][regex]", "false");
    push_param(&mut v, "order[0][column]", "0");
    push_param(&mut v, "order[0][dir]", "asc");
    push_param(&mut v, "start", "0");
    push_param(&mut v, "length", "-1");
    push_param(&mut v, "search[value]", "");
    push_param(&mut v, "search[regex]", "false");
    push_param(&mut v, "post_id", post_id);
    push_param(&mut v, "user_id", "");
    push_param(&mut v, "only_bookmark", "false");
    assert(params_view(v@) == chapter_index_params(post_id@));
    v
}

/// The chapter index query for a novel's page; fails when the page has no
/// post id.
pub fn chapter_index_request(page: &DetailsPage) -> (r: Result<Vec<(String, String)>, SourceError>)
    ensures
        match page.post_id {
            Some(id) => r matches Ok(q) && params_view(q@) == chapter_index_params(id@),
            None => r == Err::<Vec<(String, String)>, SourceError>(SourceError::PostIdNotFound),
        },
{
    match &page.post_id {
        Some(id) => Ok(chapter_index_query(id.as_str())),
        None => Err(SourceError::PostIdNotFound),
    }
}

// ---------------------------------------------------------------------------
// Deep links
// ---------------------------------------------------------------------------

/// The characters that end the path of an address.
pub open spec fn path_stops() -> Seq<char> {
    seq!['?', '#']
}

/// The chapter key in `{BASE_URL}/book/{slug}/{chapter-key}[?...]`: the second
/// `/`-separated segment of the path after `/book/`, when it starts with
/// `chapter-`.
pub open spec fn url_chapter_key(url: Seq<char>) -> Option<Seq<char>> {
    match after_book(url) {
        None => None,
        Some(rest) => {
            let path = split_any(rest, path_stops())[0];
            match nth_piece(split_any(path, seq!['/']), 1) {
                None => None,
                Some(seg) => if starts_with(seg, "chapter-"@) {
                    Some(seg)
                } else {
                    None
                },
            }
        },
    }
}

fn chapter_key_of_url(url: &str) -> (r: Option<Vec<char>>)
    ensures
        match r {
            Some(k) => url_chapter_key(url@) == Some(k@),
            None => url_chapter_key(url@) is None,
        },
{
    let rest = match after_book_exec(url) {
        Some(r) => r,
        None => return None,
    };
    let mut stops: Vec<char> = Vec::new();
    stops.push('?');
    stops.push('#');
    assert(stops@ == path_stops());
    let pieces = split_any_on(rest.as_slice(), stops.as_slice());
    proof {
        lemma_split_any_nonempty(rest@, stops@);
    }
    let path = &pieces[0];
    let mut slash: Vec<char> = Vec::new();
    slash.push('/');
    assert(slash@ == seq!['/']);
    let segs = split_any_on(path.as_slice(), slash.as_slice());
    if segs.len() < 2 {
        return None;
    }
    let seg = &segs[1];
    let prefix = chars_of("chapter-");
    if has_prefix(seg.as_slice(), prefix.as_slice()) {
        Some(crate::text::copy_range(seg.as_slice(), 0, seg.len()))
    } else {
        None
    }
}

/// Where a link to the site leads: a chapter when the address names one after
/// the novel's slug, else the novel; nowhere when it names no novel.
pub fn handle_deep_link(url: &str) -> (r: Option<DeepLinkResult>)
    ensures
        match url_slug(url@) {
            None => r is None,
            Some(slug) => match url_chapter_key(url@) {
                Some(key) => r matches Some(DeepLinkResult::Chapter { manga_key, key: k })
                    && manga_key@ == slug && k@ == key,
                None => r matches Some(DeepLinkResult::Manga { key }) && key@ == slug,
            },
        },
{
    let slug = match slug_from_url(url) {
        Some(s) => s,
        None => return None,
    };
    match chapter_key_of_url(url) {
        Some(key) => Some(
            DeepLinkResult::Chapter { manga_key: slug, key: string_of(key.as_slice()) },
        ),
        None => Some(DeepLinkResult::Manga { key: slug }),
    }
}

} // verus!

verus! {

/// The first piece of a split ends at the first stop character.
proof fn lemma_split_any_first(s: Seq<char>, stops: Seq<char>, i: int)
    requires
        0 <= i < s.len(),
        stops.contains(s[i]),
        forall|j: int| 0 <= j < i ==> !stops.contains(#[trigger] s[j]),
    ensures
        split_any(s, stops)[0] == s.subrange(0, i),
        split_any(s, stops) == seq![s.subrange(0, i)] + crate::text::split_any_from(s, stops, i + 1),
{
    crate::text::lemma_find_any_from(s, stops, 0);
}

/// The rest of a split, when no stop character follows, is one piece.
proof fn lemma_split_any_from_plain(s: Seq<char>, stops: Seq<char>, k: int)
    requires
        0 <= k <= s.len(),
        forall|j: int| k <= j < s.len() ==> !stops.contains(#[trigger] s[j]),
    ensures
        crate::text::split_any_from(s, stops, k) == seq![s.subrange(k, s.len() as int)],
{
    crate::text::lemma_find_any_from(s, stops, k);
}

/// A key of a chapter as the source makes them: it starts with `chapter-` and
/// holds no `/`, `?` or `#`.
pub open spec fn is_plain_chapter_key(k: Seq<char>) -> bool {
    starts_with(k, "chapter-"@) && forall|i: int|
        0 <= i < k.len() ==> !crate::urls::slug_stops().contains(#[trigger] k[i])
}

/// A link to a chapter's page leads back to that chapter of that novel.
pub proof fn lemma_chapter_url_deep_link(slug: Seq<char>, key: Seq<char>)
    requires
        crate::urls::is_plain_slug(slug),
        is_plain_chapter_key(key),
    ensures
        url_slug(BASE_URL@ + "/book/"@ + slug + "/"@ + key) == Some(slug),
        url_chapter_key(BASE_URL@ + "/book/"@ + slug + "/"@ + key) == Some(key),
{
    reveal_strlit("https://novelfire.net");
    reveal_strlit("/book/");
    reveal_strlit("/");
    reveal_strlit("chapter-");
    let sep = "/book/"@;
    let rest = slug + "/"@ + key;
    let u = BASE_URL@ + sep + slug + "/"@ + key;
    assert(u == BASE_URL@ + sep + rest);
    let b = BASE_URL@.len() as int;
    let after = b + 6;
    crate::urls::lemma_base_then_book(rest);
    crate::text::lemma_find_from(u, sep, 0);
    assert(crate::text::find_from(u, sep, 0) == Some(b));
    assert(u.subrange(after, u.len() as int) == rest);
    assert(key[0] == "chapter-"@[0]);
    crate::text::lemma_find_from(u, sep, after);
    assert forall|j: int| after <= j implies !crate::text::occurs_at(u, sep, j) by {
        if crate::text::occurs_at(u, sep, j) {
            assert(u.subrange(j, j + 6)[0] == '/');
            assert(u.subrange(j, j + 6)[1] == 'b');
            assert(u[j] == rest[j - after]);
            assert(u[j + 1] == rest[j + 1 - after]);
            assert(crate::urls::slug_stops().contains('/'));
            if j - after < slug.len() {
                assert(rest[j - after] == slug[j - after]);
            } else if j - after == slug.len() {
                assert(rest[j + 1 - after] == key[0]);
            } else {
                assert(rest[j - after] == key[j - after - slug.len() - 1]);
            }
        }
    }
    assert(crate::text::split_from(u, sep, after) == seq![rest]);
    assert(after_book(u) == Some(rest));
    // the slug ends at the `/` before the key
    let n = slug.len() as int;
    assert(rest[n] == '/');
    assert(crate::urls::slug_stops().contains('/'));
    assert forall|j: int| 0 <= j < n implies !crate::urls::slug_stops().contains(#[trigger] rest[j]) by {
        assert(rest[j] == slug[j]);
    }
    lemma_split_any_first(rest, crate::urls::slug_stops(), n);
    assert(rest.subrange(0, n) == slug);
    // the path is the whole rest, and its second segment is the key
    assert forall|j: int| 0 <= j < rest.len() implies !path_stops().contains(#[trigger] rest[j]) by {
        if j < n {
            assert(rest[j] == slug[j]);
            assert(!crate::urls::slug_stops().contains(slug[j]));
        } else if j > n {
            assert(rest[j] == key[j - n - 1]);
            assert(!crate::urls::slug_stops().contains(key[j - n - 1]));
        }
    }
    lemma_split_any_from_plain(rest, path_stops(), 0);
    assert(rest.subrange(0, rest.len() as int) == rest);
    let slash = seq!['/'];
    assert(slash[0] == '/');
    assert(slash.contains('/'));
    assert forall|j: int| 0 <= j < n implies !slash.contains(#[trigger] rest[j]) by {
        assert(rest[j] == slug[j]);
        assert(!crate::urls::slug_stops().contains(slug[j]));
    }
    lemma_split_any_first(rest, slash, n);
    assert forall|j: int| n + 1 <= j < rest.len() implies !slash.contains(#[trigger] rest[j]) by {
        assert(rest[j] == key[j - n - 1]);
        assert(!crate::urls::slug_stops().contains(key[j - n - 1]));
    }
    lemma_split_any_from_plain(rest, slash, n + 1);
    assert(rest.subrange(n + 1, rest.len() as int) == key);
}

} // verus!

verus! {

/// The link of every chapter that the chapter list holds leads back to that
/// chapter of that novel.
pub proof fn lemma_listed_chapter_links(slug: Seq<char>, row: ChapterIndexRow)
    requires
        crate::urls::is_plain_slug(slug),
    ensures
        ({
            let c = index_chapter(slug, row);
            &&& c.url matches Some(u) && url_slug(u) == Some(slug) && url_chapter_key(u) == Some(
                c.key,
            )
        }),
{
    reveal_strlit("chapter-");
    let n = row.n_sort as int;
    let key = chapter_key_of(row.n_sort);
    let t = int_text(n);
    let p = "chapter-"@;
    assert(key.take(p.len() as int) == p);
    let digits = if n < 0 {
        nat_text((-n) as nat)
    } else {
        nat_text(n as nat)
    };
    if n < 0 {
        crate::chapters::lemma_nat_text_shape((-n) as nat);
    } else {
        crate::chapters::lemma_nat_text_shape(n as nat);
    }
    assert forall|i: int| 0 <= i < key.len() implies !crate::urls::slug_stops().contains(
        #[trigger] key[i],
    ) by {
        let stops = crate::urls::slug_stops();
        if i < p.len() {
            assert(key[i] == p[i]);
        } else if n < 0 && i == p.len() {
            assert(key[i] == '-');
        } else if n < 0 {
            assert(key[i] == digits[i - p.len() - 1]);
        } else {
            assert(key[i] == digits[i - p.len()]);
        }
        if stops.contains(key[i]) {
            let k = choose|k: int| 0 <= k < stops.len() && stops[k] == key[i];
        }
    }
    lemma_chapter_url_deep_link(slug, key);
}

} // verus!

verus! {

/// A link to any page under a novel's address leads back to that novel,
/// whatever follows the slug.
pub proof fn lemma_chapter_url_slug(slug: Seq<char>, key: Seq<char>)
    requires
        crate::urls::is_plain_slug(slug),
    ensures
        url_slug(BASE_URL@ + "/book/"@ + slug + "/"@ + key) == Some(slug),
{
    reveal_strlit("https://novelfire.net");
    reveal_strlit("/book/");
    reveal_strlit("/");
    let sep = "/book/"@;
    let rest = slug + "/"@ + key;
    let u = BASE_URL@ + sep + slug + "/"@ + key;
    assert(u == BASE_URL@ + sep + rest);
    let b = BASE_URL@.len() as int;
    let after = b + 6;
    let n = slug.len() as int;
    let stops = crate::urls::slug_stops();
    assert(stops.contains('/')) by {
        assert(stops[0] == '/');
    }
    crate::urls::lemma_base_then_book(rest);
    crate::text::lemma_find_from(u, sep, 0);
    assert(crate::text::find_from(u, sep, 0) == Some(b));
    assert forall|j: int| after <= j < after + n implies u[j] == slug[j - after] by {
        assert(u[j] == rest[j - after]);
    }
    assert(u[after + n] == '/') by {
        assert(u[after + n] == rest[n]);
    }
    crate::text::lemma_find_from(u, sep, after);
    let piece = match crate::text::find_from(u, sep, after) {
        None => u.subrange(after, u.len() as int),
        Some(i) => u.subrange(after, i),
    };
    assert(split_pieces(u, sep) == seq![u.subrange(0, b)] + crate::text::split_from(u, sep, after));
    assert(after_book(u) == Some(piece));
    match crate::text::find_from(u, sep, after) {
        None => {},
        Some(i) => {
            assert(u.subrange(i, i + 6)[0] == '/');
            assert(u[i] == '/');
            if i < after + n {
                assert(u[i] == slug[i - after]);
                assert(!stops.contains(slug[i - after]));
            }
        },
    }
    assert(piece.len() >= n);
    assert forall|k: int| 0 <= k < n implies piece[k] == slug[k] by {
        assert(piece[k] == u[after + k]);
    }
    if piece.len() == n {
        assert(piece == slug);
        crate::urls::lemma_split_any_plain(piece, stops);
    } else {
        assert(piece[n] == u[after + n]);
        assert forall|j: int| 0 <= j < n implies !stops.contains(#[trigger] piece[j]) by {
            assert(piece[j] == slug[j]);
        }
        lemma_split_any_first(piece, stops, n);
        assert(piece.subrange(0, n) == slug);
    }
}

/// Which steps an update of a novel takes.
#[derive(Clone, Copy, Debug, PartialEq, Eq, Structural)]
pub struct UpdateSteps {
    /// Fill in the novel's details from its page.
    pub fill_details: bool,
    /// Hand the app the details before the chapters are fetched.
    pub send_partial: bool,
    /// Fetch the chapter index.
    pub fetch_chapters: bool,
}

/// The steps of an update: the details when asked for, the chapters when
/// asked for, and the details handed over early when both are asked for.
pub fn update_steps(needs_details: bool, needs_chapters: bool) -> (r: UpdateSteps)
    ensures
        r.fill_details == needs_details,
        r.send_partial == (needs_details && needs_chapters),
        r.fetch_chapters == needs_chapters,
{
    UpdateSteps {
        fill_details: needs_details,
        send_partial: needs_details && needs_chapters,
        fetch_chapters: needs_chapters,
    }
}

} // verus!

verus! {

/// The chapter index request asks for every row (`length=-1` from `start=0`)
/// of the novel's post, sorted by `n_sort` in ascending order, i.e. oldest
/// first, which the chapter list then turns around.
pub proof fn lemma_chapter_index_asks_oldest_first(post_id: Seq<char>)
    ensures
        ({
            let q = chapter_index_params(post_id);
            &&& q.contains(("columns[0][data]"@, "n_sort"@))
            &&& q.contains(("order[0][column]"@, "0"@))
            &&& q.contains(("order[0][dir]"@, "asc"@))
            &&& q.contains(("start"@, "0"@))
            &&& q.contains(("length"@, "-1"@))
            &&& q.contains(("post_id"@, post_id))
        }),
{
    let q = chapter_index_params(post_id);
    assert(q[1] == ("columns[0][data]"@, "n_sort"@));
    assert(q[7] == ("order[0][column]"@, "0"@));
    assert(q[8] == ("order[0][dir]"@, "asc"@));
    assert(q[9] == ("start"@, "0"@));
    assert(q[10] == ("length"@, "-1"@));
    assert(q[13] == ("post_id"@, post_id));
}

} // verus!

verus! {

/// Every piece of a split is made of characters of the split text, none of
/// them a stop character.
proof fn lemma_split_any_pieces(s: Seq<char>, stops: Seq<char>, start: int)
    requires
        0 <= start,
    ensures
        forall|k: int, j: int|
            0 <= k < crate::text::split_any_from(s, stops, start).len() && 0 <= j
                < crate::text::split_any_from(s, stops, start)[k].len() ==> {
                let c = #[trigger] crate::text::split_any_from(s, stops, start)[k][j];
                &&& !stops.contains(c)
                &&& exists|m: int| start <= m < s.len() && s[m] == c
            },
    decreases s.len() + 1 - start,
{
    let p = crate::text::split_any_from(s, stops, start);
    if start <= s.len() {
        crate::text::lemma_find_any_from(s, stops, start);
        match crate::text::find_any_from(s, stops, start) {
            None => {
                assert forall|k: int, j: int| 0 <= k < p.len() && 0 <= j < p[k].len() implies {
                    let c = #[trigger] p[k][j];
                    &&& !stops.contains(c)
                    &&& exists|m: int| start <= m < s.len() && s[m] == c
                } by {
                    assert(p[k][j] == s[start + j]);
                }
            },
            Some(i) => {
                lemma_split_any_pieces(s, stops, i + 1);
                let q = crate::text::split_any_from(s, stops, i + 1);
                assert forall|k: int, j: int| 0 <= k < p.len() && 0 <= j < p[k].len() implies {
                    let c = #[trigger] p[k][j];
                    &&& !stops.contains(c)
                    &&& exists|m: int| start <= m < s.len() && s[m] == c
                } by {
                    if k == 0 {
                        assert(p[k][j] == s[start + j]);
                    } else {
                        assert(p[k] == q[k - 1]);
                        let c = q[k - 1][j];
                        let m = choose|m: int| i + 1 <= m < s.len() && s[m] == c;
                    }
                }
            },
        }
    }
}

/// What a link leads to has the right shape: a novel's slug is not empty and
/// holds no `/`, `?` or `#`; a chapter's key starts with `chapter-` and holds
/// no `/`, `?` or `#`.
pub proof fn lemma_deep_link_shapes(url: Seq<char>)
    ensures
        url_slug(url) matches Some(slug) ==> slug.len() > 0 && forall|i: int|
            0 <= i < slug.len() ==> #[trigger] slug[i] != '/' && slug[i] != '?' && slug[i] != '#',
        url_chapter_key(url) matches Some(key) ==> starts_with(key, "chapter-"@) && forall|i: int|
            0 <= i < key.len() ==> #[trigger] key[i] != '/' && key[i] != '?' && key[i] != '#',
{
    let slug_stops = crate::urls::slug_stops();
    assert(slug_stops.contains('/') && slug_stops.contains('?') && slug_stops.contains('#')) by {
        assert(slug_stops[0] == '/');
        assert(slug_stops[1] == '?');
        assert(slug_stops[2] == '#');
    }
    let ps = path_stops();
    assert(ps.contains('?') && ps.contains('#')) by {
        assert(ps[0] == '?');
        assert(ps[1] == '#');
    }
    let slash = seq!['/'];
    assert(slash.contains('/')) by {
        assert(slash[0] == '/');
    }
    if let Some(rest) = after_book(url) {
        crate::urls::lemma_split_any_nonempty(rest, slug_stops);
        lemma_split_any_pieces(rest, slug_stops, 0);
        let slug = split_any(rest, slug_stops)[0];
        assert forall|i: int| 0 <= i < slug.len() implies #[trigger] slug[i] != '/' && slug[i]
            != '?' && slug[i] != '#' by {
            assert(!slug_stops.contains(split_any(rest, slug_stops)[0][i]));
        }
        crate::urls::lemma_split_any_nonempty(rest, ps);
        lemma_split_any_pieces(rest, ps, 0);
        let path = split_any(rest, ps)[0];
        lemma_split_any_pieces(path, slash, 0);
        if let Some(seg) = nth_piece(split_any(path, slash), 1) {
            assert forall|i: int| 0 <= i < seg.len() implies #[trigger] seg[i] != '/' && seg[i]
                != '?' && seg[i] != '#' by {
                let c = split_any(path, slash)[1][i];
                assert(!slash.contains(c));
                let m = choose|m: int| 0 <= m < path.len() && path[m] == c;
                assert(!ps.contains(split_any(rest, ps)[0][m]));
            }
        }
    }
}

} // verus!
