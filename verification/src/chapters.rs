//! Chapter titles and the chapter index: the site's endpoint returns every
//! chapter with its raw heading, oldest first; the app lists them newest first
//! with the bare title.
use vstd::prelude::*;

use crate::model::{chapters_view, opt_view, Chapter, ChapterIndexRow, ChapterView};
use crate::text::{
    chars_of, copy_range, decimal, digit_char, int_text, is_white_space, lemma_trim_shape,
    lemma_trim_start_suffix, nat_text, push_all, string_of, strip_prefix, strip_prefix_exec, trim,
    trim_chars, trim_start, trim_start_chars,
};
use crate::urls::{build_chapter_url, BASE_URL};

verus! {

/// `-` and `:` separate a chapter number from its title.
pub open spec fn is_separator(c: char) -> bool {
    c == '-' || c == ':'
}

/// Step one: a leading `Chapter`, then white space, then the chapter number if
/// it follows, then white space, are dropped.
pub open spec fn strip_chapter_word(rest: Seq<char>, number: Seq<char>) -> Seq<char> {
    match strip_prefix(rest, "Chapter"@) {
        Some(r) => {
            let r1 = trim_start(r);
            match strip_prefix(r1, number) {
                Some(r2) => trim_start(r2),
                None => trim_start(r1),
            }
        },
        None => rest,
    }
}

/// Step two: a leading separator and the white space after it are dropped.
pub open spec fn strip_separator(rest: Seq<char>) -> Seq<char> {
    if rest.len() > 0 && is_separator(rest[0]) {
        trim_start(rest.drop_first())
    } else {
        rest
    }
}

/// Step three: a repeated chapter number is dropped, with the white space and
/// separator and white space after it, but only when a separator follows it.
pub open spec fn strip_repeated_number(rest: Seq<char>, number: Seq<char>) -> Seq<char> {
    match strip_prefix(rest, number) {
        Some(r) => {
            let r1 = trim_start(r);
            if r1.len() > 0 && is_separator(r1[0]) {
                trim_start(r1.drop_first())
            } else {
                rest
            }
        },
        None => rest,
    }
}

/// The bare title in a raw chapter heading, if any is left.
pub open spec fn chapter_title(raw: Seq<char>, number: Seq<char>) -> Option<Seq<char>> {
    let rest = strip_repeated_number(
        strip_separator(strip_chapter_word(trim(raw), number)),
        number,
    );
    if rest.len() > 0 {
        Some(rest)
    } else {
        None
    }
}

fn separator(c: char) -> (r: bool)
    ensures
        r == is_separator(c),
{
    c == '-' || c == ':'
}

/// Reduce a raw chapter heading to the bare title. The site uses two formats:
/// older chapters read `"Chapter 2820 - 2820: Throne of Blood"` and newer ones
/// `"Chapter 2821 Above Deck"`, so strip the `Chapter {n}` prefix, then any
/// separator, then a duplicated `{n}:`/`{n} -` prefix.
pub fn clean_chapter_title(raw: &str, number: &str) -> (r: Option<String>)
    ensures
        opt_view(r) == chapter_title(raw@, number@),
{
    let raw_chars = chars_of(raw);
    let num = chars_of(number);
    let word = chars_of("Chapter");
    let mut rest = trim_chars(raw_chars.as_slice());
    let ghost trimmed = rest@;
    if let Some(r) = strip_prefix_exec(rest.as_slice(), word.as_slice()) {
        let r1 = trim_start_chars(r.as_slice());
        rest = match strip_prefix_exec(r1.as_slice(), num.as_slice()) {
            Some(r2) => trim_start_chars(r2.as_slice()),
            None => trim_start_chars(r1.as_slice()),
        };
    }
    assert(rest@ == strip_chapter_word(trimmed, number@));
    let ghost step1 = rest@;
    if rest.len() > 0 && separator(rest[0]) {
        let r = copy_range(rest.as_slice(), 1, rest.len());
        assert(r@ == step1.drop_first());
        rest = trim_start_chars(r.as_slice());
    }
    assert(rest@ == strip_separator(step1));
    let ghost step2 = rest@;
    if let Some(r) = strip_prefix_exec(rest.as_slice(), num.as_slice()) {
        let r1 = trim_start_chars(r.as_slice());
        if r1.len() > 0 && separator(r1[0]) {
            let r2 = copy_range(r1.as_slice(), 1, r1.len());
            assert(r2@ == r1@.drop_first());
            rest = trim_start_chars(r2.as_slice());
        }
    }
    assert(rest@ == strip_repeated_number(step2, number@));
    if rest.len() > 0 {
        Some(string_of(rest.as_slice()))
    } else {
        None
    }
}

/// `t` is a suffix of `s`.
pub open spec fn is_suffix_of(t: Seq<char>, s: Seq<char>) -> bool {
    t.len() <= s.len() && s.skip(s.len() - t.len()) == t
}

proof fn lemma_suffix_trans(a: Seq<char>, b: Seq<char>, c: Seq<char>)
    requires
        is_suffix_of(a, b),
        is_suffix_of(b, c),
    ensures
        is_suffix_of(a, c),
{
    assert(c.skip(c.len() - a.len()) == b.skip(b.len() - a.len()));
}

proof fn lemma_skip_suffix(s: Seq<char>, k: int)
    requires
        0 <= k <= s.len(),
    ensures
        is_suffix_of(s.skip(k), s),
{
}

/// A cleaned title is never blank, is the end of the trimmed heading, and
/// neither starts nor ends with white space.
#[verifier::rlimit(50)]
pub proof fn lemma_clean_title_shape(raw: Seq<char>, number: Seq<char>)
    ensures
        chapter_title(raw, number) matches Some(t) ==> {
            &&& t.len() > 0
            &&& is_suffix_of(t, trim(raw))
            &&& !is_white_space(t[0])
            &&& !is_white_space(t.last())
        },
{
    let t0 = trim(raw);
    lemma_trim_shape(raw);
    let s1 = strip_chapter_word(t0, number);
    // each step keeps a suffix that starts with something other than white space
    match strip_prefix(t0, "Chapter"@) {
        Some(r) => {
            let r1 = trim_start(r);
            lemma_skip_suffix(t0, "Chapter"@.len() as int);
            lemma_trim_start_suffix(r);
            lemma_suffix_trans(r1, r, t0);
            match strip_prefix(r1, number) {
                Some(r2) => {
                    lemma_skip_suffix(r1, number.len() as int);
                    lemma_trim_start_suffix(r2);
                    lemma_suffix_trans(r2, r1, t0);
                    lemma_suffix_trans(s1, r2, t0);
                },
                None => {
                    lemma_trim_start_suffix(r1);
                    lemma_suffix_trans(s1, r1, t0);
                },
            }
        },
        None => {
            assert(t0.skip(0) == t0);
        },
    }
    assert(is_suffix_of(s1, t0));
    assert(s1.len() == 0 || !is_white_space(s1[0]));
    let s2 = strip_separator(s1);
    if s1.len() > 0 && is_separator(s1[0]) {
        lemma_skip_suffix(s1, 1);
        assert(s1.drop_first() == s1.skip(1));
        lemma_trim_start_suffix(s1.drop_first());
        lemma_suffix_trans(s2, s1.drop_first(), s1);
    } else {
        assert(s1.skip(0) == s1);
    }
    lemma_suffix_trans(s2, s1, t0);
    assert(s2.len() == 0 || !is_white_space(s2[0]));
    let s3 = strip_repeated_number(s2, number);
    match strip_prefix(s2, number) {
        Some(r) => {
            let r1 = trim_start(r);
            if r1.len() > 0 && is_separator(r1[0]) {
                lemma_skip_suffix(s2, number.len() as int);
                lemma_trim_start_suffix(r);
                lemma_suffix_trans(r1, r, s2);
                lemma_skip_suffix(r1, 1);
                assert(r1.drop_first() == r1.skip(1));
                lemma_suffix_trans(r1.drop_first(), r1, s2);
                lemma_trim_start_suffix(r1.drop_first());
                lemma_suffix_trans(s3, r1.drop_first(), s2);
            } else {
                assert(s2.skip(0) == s2);
            }
        },
        None => {
            assert(s2.skip(0) == s2);
        },
    }
    lemma_suffix_trans(s3, s2, t0);
    if s3.len() > 0 {
        assert(s3.last() == t0.last());
    }
}

} // verus!

verus! {

/// The key of the chapter with sort number `n`.
pub open spec fn chapter_key_of(n: i64) -> Seq<char> {
    "chapter-"@ + int_text(n as int)
}

/// The chapter that a row of the index describes.
pub open spec fn index_chapter(slug: Seq<char>, row: ChapterIndexRow) -> ChapterView {
    ChapterView {
        key: chapter_key_of(row.n_sort),
        title: chapter_title(row.title@, int_text(row.n_sort as int)),
        url: Some(BASE_URL@ + "/book/"@ + slug + "/"@ + chapter_key_of(row.n_sort)),
        chapter_number: Some(row.n_sort),
    }
}

/// The chapters of an index, in the reverse of the index's order.
pub open spec fn index_chapters(slug: Seq<char>, rows: Seq<ChapterIndexRow>) -> Seq<ChapterView> {
    Seq::new(rows.len(), |i: int| index_chapter(slug, rows[rows.len() - 1 - i]))
}

/// The chapter that a row of the index describes: its key is `chapter-{n}`, its
/// title the bare title of the row's heading.
pub fn chapter_from_row(slug: &str, row: &ChapterIndexRow) -> (c: Chapter)
    ensures
        c@ == index_chapter(slug@, *row),
{
    let number = decimal(row.n_sort);
    let mut key = chars_of("chapter-");
    push_all(&mut key, number.as_slice());
    let key = string_of(key.as_slice());
    let number = string_of(number.as_slice());
    Chapter {
        url: Some(build_chapter_url(slug, key.as_str())),
        title: clean_chapter_title(row.title.as_str(), number.as_str()),
        key,
        chapter_number: Some(row.n_sort),
    }
}

/// Turns the chapter index (oldest first) into the chapter list (newest first).
pub fn chapters_from_index(slug: &str, rows: &[ChapterIndexRow]) -> (r: Vec<Chapter>)
    ensures
        chapters_view(r@) == index_chapters(slug@, rows@),
{
    let mut out: Vec<Chapter> = Vec::new();
    let n = rows.len();
    let mut i: usize = n;
    while i > 0
        invariant
            n == rows@.len(),
            i <= n,
            out@.len() == n - i,
            chapters_view(out@) == index_chapters(slug@, rows@).take(n - i),
        decreases i,
    {
        let c = chapter_from_row(slug, &rows[i - 1]);
        let ghost before = out@;
        out.push(c);
        assert(chapters_view(out@) == chapters_view(before).push(c@));
        assert(index_chapters(slug@, rows@).take(n - i + 1) == index_chapters(slug@, rows@).take(
            n - i,
        ).push(index_chapter(slug@, rows@[i - 1])));
        i = i - 1;
    }
    assert(index_chapters(slug@, rows@).take(n as int) == index_chapters(slug@, rows@));
    out
}

pub(crate) proof fn lemma_nat_text_shape(n: nat)
    ensures
        n < 10 ==> nat_text(n).len() == 1,
        n >= 10 ==> nat_text(n).len() >= 2,
        forall|i: int| 0 <= i < nat_text(n).len() ==> '0' <= #[trigger] nat_text(n)[i] <= '9',
    decreases n,
{
    if n >= 10 {
        lemma_nat_text_shape(n / 10);
        let t = nat_text(n / 10);
        assert forall|i: int| 0 <= i < nat_text(n).len() implies '0' <= #[trigger] nat_text(n)[i]
            <= '9' by {
            if i < t.len() {
                assert(nat_text(n)[i] == t[i]);
            }
        }
    }
}

proof fn lemma_digit_char_injective(x: int, y: int)
    requires
        0 <= x < 10,
        0 <= y < 10,
        digit_char(x) == digit_char(y),
    ensures
        x == y,
{
    assert(digit_char(x) as int == x + 48);
    assert(digit_char(y) as int == y + 48);
}

proof fn lemma_nat_text_injective(a: nat, b: nat)
    requires
        nat_text(a) == nat_text(b),
    ensures
        a == b,
    decreases a,
{
    lemma_nat_text_shape(a);
    lemma_nat_text_shape(b);
    if a < 10 && b < 10 {
        assert(nat_text(a) == seq![digit_char(a as int)]);
        assert(nat_text(b) == seq![digit_char(b as int)]);
        assert(nat_text(a)[0] == nat_text(b)[0]);
        assert(seq![digit_char(a as int)][0] == digit_char(a as int));
        assert(seq![digit_char(b as int)][0] == digit_char(b as int));
        assert(digit_char(a as int) == digit_char(b as int));
        lemma_digit_char_injective(a as int, b as int);
    } else if a >= 10 && b >= 10 {
        assert(nat_text(a) == nat_text(a / 10).push(digit_char((a % 10) as int)));
        assert(nat_text(b) == nat_text(b / 10).push(digit_char((b % 10) as int)));
        assert(nat_text(a).last() == nat_text(b).last());
        let da = digit_char((a % 10) as int);
        let db = digit_char((b % 10) as int);
        assert(nat_text(a / 10).push(da).last() == da);
        assert(nat_text(b / 10).push(db).last() == db);
        assert(digit_char((a % 10) as int) == digit_char((b % 10) as int));
        lemma_digit_char_injective((a % 10) as int, (b % 10) as int);
        assert(nat_text(a).drop_last() == nat_text(a / 10));
        assert(nat_text(b).drop_last() == nat_text(b / 10));
        lemma_nat_text_injective(a / 10, b / 10);
    }
}

/// Different numbers have different decimal texts.
pub proof fn lemma_int_text_injective(a: int, b: int)
    requires
        int_text(a) == int_text(b),
    ensures
        a == b,
{
    if a < 0 && b < 0 {
        assert(int_text(a).skip(1) == nat_text((-a) as nat));
        assert(int_text(b).skip(1) == nat_text((-b) as nat));
        lemma_nat_text_injective((-a) as nat, (-b) as nat);
    } else if a >= 0 && b >= 0 {
        lemma_nat_text_injective(a as nat, b as nat);
    } else if a < 0 {
        lemma_nat_text_shape(b as nat);
        assert(int_text(a)[0] == '-');
        assert('0' <= nat_text(b as nat)[0]);
    } else {
        lemma_nat_text_shape(a as nat);
        assert(int_text(b)[0] == '-');
        assert('0' <= nat_text(a as nat)[0]);
    }
}

/// Chapters with different sort numbers get different keys.
pub proof fn lemma_chapter_keys_distinct(a: i64, b: i64)
    requires
        a != b,
    ensures
        chapter_key_of(a) != chapter_key_of(b),
{
    if chapter_key_of(a) == chapter_key_of(b) {
        let k = "chapter-"@.len() as int;
        assert(chapter_key_of(a).skip(k) == int_text(a as int));
        assert(chapter_key_of(b).skip(k) == int_text(b as int));
        lemma_int_text_injective(a as int, b as int);
    }
}

/// The chapter list holds one chapter per row of the index, the newest (last
/// row) first, and no two chapters share a key when no two rows share a number.
pub proof fn lemma_index_chapters_order(slug: Seq<char>, rows: Seq<ChapterIndexRow>)
    ensures
        index_chapters(slug, rows).len() == rows.len(),
        forall|i: int|
            0 <= i < rows.len() ==> #[trigger] index_chapters(slug, rows)[i]
                == index_chapter(slug, rows[rows.len() - 1 - i]),
        (forall|i: int, j: int|
            0 <= i < j < rows.len() ==> rows[i].n_sort != rows[j].n_sort) ==> forall|i: int, j: int|
            0 <= i < j < rows.len() ==> #[trigger] index_chapters(slug, rows)[i].key
                != #[trigger] index_chapters(slug, rows)[j].key,
{
    if forall|i: int, j: int| 0 <= i < j < rows.len() ==> rows[i].n_sort != rows[j].n_sort {
        assert forall|i: int, j: int| 0 <= i < j < rows.len() implies #[trigger] index_chapters(
            slug,
            rows,
        )[i].key != #[trigger] index_chapters(slug, rows)[j].key by {
            let a = rows[rows.len() - 1 - i];
            let b = rows[rows.len() - 1 - j];
            assert(b.n_sort != a.n_sort);
            lemma_chapter_keys_distinct(a.n_sort, b.n_sort);
        }
    }
}

} // verus!

verus! {

proof fn lemma_trim_start_at_text(s: Seq<char>)
    requires
        s.len() == 0 || !is_white_space(s[0]),
    ensures
        trim_start(s) == s,
{
}

proof fn lemma_trim_start_space(s: Seq<char>)
    ensures
        trim_start(seq![' '] + s) == trim_start(s),
{
    let x = seq![' '] + s;
    assert(x[0] == ' ');
    assert(x.drop_first() == s);
}

proof fn lemma_strip_prefix_concat(p: Seq<char>, s: Seq<char>)
    ensures
        strip_prefix(p + s, p) == Some(s),
{
    assert((p + s).take(p.len() as int) == p);
    assert((p + s).skip(p.len() as int) == s);
}

proof fn lemma_trim_whole(s: Seq<char>)
    requires
        s.len() > 0,
        !is_white_space(s[0]),
        !is_white_space(s.last()),
    ensures
        trim(s) == s,
{
    lemma_trim_start_at_text(s);
}

/// The site's older headings, `Chapter {n} - {n}: {title}` or
/// `Chapter {n} - {n} - {title}`, give the title: the chapter number and its
/// repetition are dropped with either separator after them.
pub proof fn lemma_old_format_title(n: Seq<char>, sep: char, t: Seq<char>)
    requires
        n.len() > 0,
        !is_white_space(n[0]),
        sep == '-' || sep == ':',
        t.len() > 0,
        !is_white_space(t[0]),
        !is_white_space(t.last()),
    ensures
        chapter_title("Chapter "@ + n + " - "@ + n + seq![sep] + " "@ + t, n) == Some(t),
{
    reveal_strlit("Chapter ");
    reveal_strlit("Chapter");
    reveal_strlit(" - ");
    reveal_strlit(" ");
    let c = "Chapter"@;
    assert("Chapter "@ == c + seq![' ']);
    assert(" - "@ == seq![' ', '-', ' ']);
    assert(" "@ == seq![' ']);
    let tail3 = seq![sep, ' '] + t;
    let tail2 = n + tail3;
    let s1 = seq!['-', ' '] + tail2;
    let after_n = seq![' '] + s1;
    let r1 = n + after_n;
    let r = seq![' '] + r1;
    let raw = c + r;
    assert(raw == "Chapter "@ + n + " - "@ + n + seq![sep] + " "@ + t);
    // trimming leaves the heading as it is
    assert(raw[0] == c[0]);
    assert(raw.last() == t.last());
    lemma_trim_whole(raw);
    // `Chapter`, then the number
    lemma_strip_prefix_concat(c, r);
    lemma_trim_start_space(r1);
    lemma_trim_start_at_text(r1);
    lemma_strip_prefix_concat(n, after_n);
    lemma_trim_start_space(s1);
    lemma_trim_start_at_text(s1);
    assert(strip_chapter_word(raw, n) == s1);
    // the separator after it
    assert(s1.drop_first() == seq![' '] + tail2);
    lemma_trim_start_space(tail2);
    lemma_trim_start_at_text(tail2);
    assert(strip_separator(s1) == tail2);
    // the repeated number and its separator
    lemma_strip_prefix_concat(n, tail3);
    lemma_trim_start_at_text(tail3);
    assert(tail3.drop_first() == seq![' '] + t);
    lemma_trim_start_space(t);
    lemma_trim_start_at_text(t);
    assert(strip_repeated_number(tail2, n) == t);
}

/// The site's newer headings, `Chapter {n} {title}`, give the title, as long
/// as the title does not itself start with a separator or with the number.
pub proof fn lemma_new_format_title(n: Seq<char>, t: Seq<char>)
    requires
        n.len() > 0,
        !is_white_space(n[0]),
        t.len() > 0,
        !is_white_space(t[0]),
        !is_white_space(t.last()),
        t[0] != '-' && t[0] != ':',
        !(n.len() <= t.len() && t.take(n.len() as int) == n),
    ensures
        chapter_title("Chapter "@ + n + " "@ + t, n) == Some(t),
{
    reveal_strlit("Chapter ");
    reveal_strlit("Chapter");
    reveal_strlit(" ");
    let c = "Chapter"@;
    assert("Chapter "@ == c + seq![' ']);
    assert(" "@ == seq![' ']);
    let after_n = seq![' '] + t;
    let r1 = n + after_n;
    let r = seq![' '] + r1;
    let raw = c + r;
    assert(raw == "Chapter "@ + n + " "@ + t);
    assert(raw[0] == c[0]);
    assert(raw.last() == t.last());
    lemma_trim_whole(raw);
    lemma_strip_prefix_concat(c, r);
    lemma_trim_start_space(r1);
    lemma_trim_start_at_text(r1);
    lemma_strip_prefix_concat(n, after_n);
    lemma_trim_start_space(t);
    lemma_trim_start_at_text(t);
    assert(strip_chapter_word(raw, n) == t);
    assert(strip_separator(t) == t);
    assert(strip_repeated_number(t, n) == t);
}

} // verus!
