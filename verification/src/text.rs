//! Character-level text handling: the views of strings as `Seq<char>`, and the
//! executable operations (trimming, prefixes, searching, splitting, decimal
//! formatting) that the site logic is built from, each proved against a spec.
use vstd::prelude::*;
use vstd::slice::slice_subrange;
use vstd::slice::slice_to_vec;

verus! {

// ---------------------------------------------------------------------------
// Conversions between `str`/`String` and character vectors
// ---------------------------------------------------------------------------

/// Copies the characters of a string slice into a vector.
pub fn chars_of(s: &str) -> (r: Vec<char>)
    ensures
        r@ == s@,
{
    broadcast use vstd::string::group_string_axioms;

    let mut r: Vec<char> = Vec::new();
    for c in it: s.chars()
        invariant
            it.seq() == s@,
            r@ == it.seq().take(it.index() as int),
    {
        r.push(c);
    }
    r
}

/// Builds a `String` from characters with std's `FromIterator<&char>` for
/// `String`, which appends the characters in order: the result holds exactly `v`.
#[verifier::external_body]
pub(crate) fn string_of(v: &[char]) -> (r: String)
    ensures
        r@ == v@,
{
    String::from_iter(v)
}

/// A copy of `s[from..to]`.
pub fn copy_range(s: &[char], from: usize, to: usize) -> (r: Vec<char>)
    requires
        from <= to <= s@.len(),
    ensures
        r@ == s@.subrange(from as int, to as int),
{
    slice_to_vec(slice_subrange(s, from, to))
}

/// Appends all of `s` to `out`.
pub fn push_all(out: &mut Vec<char>, s: &[char])
    ensures
        final(out)@ == old(out)@ + s@,
{
    let n = s.len();
    let mut i: usize = 0;
    while i < n
        invariant
            n == s@.len(),
            i <= n,
            out@ == old(out)@ + s@.take(i as int),
        decreases n - i,
    {
        assert(s@.take(i as int).push(s@[i as int]) == s@.take(i + 1));
        out.push(s[i]);
        i = i + 1;
    }
    assert(s@.take(n as int) == s@);
}

/// Appends the characters of `s` to `out`.
pub fn push_str(out: &mut Vec<char>, s: &str)
    ensures
        final(out)@ == old(out)@ + s@,
{
    let cs = chars_of(s);
    push_all(out, cs.as_slice());
}

/// Character-wise equality.
pub fn chars_eq(a: &[char], b: &[char]) -> (r: bool)
    ensures
        r == (a@ == b@),
{
    if a.len() != b.len() {
        return false;
    }
    let n = a.len();
    let mut i: usize = 0;
    while i < n
        invariant
            n == a@.len(),
            n == b@.len(),
            i <= n,
            forall|j: int| 0 <= j < i ==> a@[j] == b@[j],
        decreases n - i,
    {
        if a[i] != b[i] {
            return false;
        }
        i = i + 1;
    }
    assert(a@ == b@);
    true
}

/// Whether two strings hold the same characters.
pub fn same_text(a: &str, b: &str) -> (r: bool)
    ensures
        r == (a@ == b@),
{
    let x = chars_of(a);
    let y = chars_of(b);
    chars_eq(x.as_slice(), y.as_slice())
}

// ---------------------------------------------------------------------------
// Whitespace and trimming
// ---------------------------------------------------------------------------

/// The characters with the Unicode `White_Space` property, which is what
/// `char::is_whitespace` and `str::trim` go by.
pub open spec fn is_white_space(c: char) -> bool {
    ||| ('\u{9}' <= c && c <= '\u{d}')
    ||| c == ' '
    ||| c == '\u{85}'
    ||| c == '\u{a0}'
    ||| c == '\u{1680}'
    ||| ('\u{2000}' <= c && c <= '\u{200a}')
    ||| c == '\u{2028}'
    ||| c == '\u{2029}'
    ||| c == '\u{202f}'
    ||| c == '\u{205f}'
    ||| c == '\u{3000}'
}

/// Whether `c` is white space (same answer as `char::is_whitespace`).
pub fn white_space(c: char) -> (r: bool)
    ensures
        r == is_white_space(c),
{
    ('\u{9}' <= c && c <= '\u{d}') || c == ' ' || c == '\u{85}' || c == '\u{a0}' || c == '\u{1680}'
        || ('\u{2000}' <= c && c <= '\u{200a}') || c == '\u{2028}' || c == '\u{2029}' || c
        == '\u{202f}' || c == '\u{205f}' || c == '\u{3000}'
}

/// `s` without its leading white space (`str::trim_start`).
pub open spec fn trim_start(s: Seq<char>) -> Seq<char>
    decreases s.len(),
{
    if s.len() > 0 && is_white_space(s[0]) {
        trim_start(s.drop_first())
    } else {
        s
    }
}

/// `s` without its trailing white space (`str::trim_end`).
pub open spec fn trim_end(s: Seq<char>) -> Seq<char>
    decreases s.len(),
{
    if s.len() > 0 && is_white_space(s.last()) {
        trim_end(s.drop_last())
    } else {
        s
    }
}

/// `s` without leading and trailing white space (`str::trim`).
pub open spec fn trim(s: Seq<char>) -> Seq<char> {
    trim_end(trim_start(s))
}

/// Every character of `s` is white space.
pub open spec fn all_white_space(s: Seq<char>) -> bool {
    forall|i: int| 0 <= i < s.len() ==> is_white_space(#[trigger] s[i])
}

/// The number of leading white-space characters of `s`.
pub fn leading_space(s: &[char]) -> (k: usize)
    ensures
        k <= s@.len(),
        trim_start(s@) == s@.skip(k as int),
        all_white_space(s@.take(k as int)),
{
    let n = s.len();
    let mut i: usize = 0;
    assert(s@.skip(0) == s@);
    while i < n && white_space(s[i])
        invariant
            n == s@.len(),
            i <= n,
            trim_start(s@) == trim_start(s@.skip(i as int)),
            all_white_space(s@.take(i as int)),
        decreases n - i,
    {
        assert(s@.skip(i as int).drop_first() == s@.skip(i + 1));
        assert(s@.take(i + 1) == s@.take(i as int).push(s@[i as int]));
        i = i + 1;
    }
    if i == n {
        assert(s@.skip(i as int).len() == 0);
    }
    i
}

/// The length of `s` once its trailing white space is removed.
pub fn trimmed_end(s: &[char]) -> (k: usize)
    ensures
        k <= s@.len(),
        trim_end(s@) == s@.take(k as int),
        all_white_space(s@.skip(k as int)),
{
    let mut j: usize = s.len();
    assert(s@.take(j as int) == s@);
    while j > 0 && white_space(s[j - 1])
        invariant
            j <= s@.len(),
            trim_end(s@) == trim_end(s@.take(j as int)),
            all_white_space(s@.skip(j as int)),
        decreases j,
    {
        assert(s@.take(j as int).drop_last() == s@.take(j - 1));
        assert(s@.skip(j - 1) == seq![s@[j - 1]] + s@.skip(j as int));
        j = j - 1;
    }
    j
}

/// A copy of `s` without its leading white space.
pub fn trim_start_chars(s: &[char]) -> (r: Vec<char>)
    ensures
        r@ == trim_start(s@),
{
    let k = leading_space(s);
    copy_range(s, k, s.len())
}

/// `trim_end(s)` is a prefix of `s`.
pub proof fn lemma_trim_end_is_prefix(s: Seq<char>)
    ensures
        trim_end(s).len() <= s.len(),
        trim_end(s) == s.take(trim_end(s).len() as int),
    decreases s.len(),
{
    if s.len() > 0 && is_white_space(s.last()) {
        lemma_trim_end_is_prefix(s.drop_last());
        assert(s.drop_last().take(trim_end(s).len() as int) == s.take(trim_end(s).len() as int));
    } else {
        assert(s.take(s.len() as int) == s);
    }
}

/// `trim_start(s)` is a suffix of `s`.
pub proof fn lemma_trim_start_is_suffix(s: Seq<char>)
    ensures
        trim_start(s).len() <= s.len(),
        trim_start(s) == s.skip(s.len() - trim_start(s).len()),
    decreases s.len(),
{
    if s.len() > 0 && is_white_space(s[0]) {
        lemma_trim_start_is_suffix(s.drop_first());
        assert(s.drop_first().skip(s.drop_first().len() - trim_start(s).len()) == s.skip(
            s.len() - trim_start(s).len(),
        ));
    } else {
        assert(s.skip(0) == s);
    }
}

/// `trim_start(s)` is a suffix of `s` that does not start with white space.
pub proof fn lemma_trim_start_suffix(s: Seq<char>)
    ensures
        trim_start(s).len() <= s.len(),
        trim_start(s) == s.skip(s.len() - trim_start(s).len()),
        trim_start(s).len() == 0 || !is_white_space(trim_start(s)[0]),
    decreases s.len(),
{
    lemma_trim_start_is_suffix(s);
    if s.len() > 0 && is_white_space(s[0]) {
        lemma_trim_start_suffix(s.drop_first());
    }
}

/// `trim_end(s)` does not end with white space.
pub proof fn lemma_trim_end_last(s: Seq<char>)
    ensures
        trim_end(s).len() == 0 || !is_white_space(trim_end(s).last()),
    decreases s.len(),
{
    if s.len() > 0 && is_white_space(s.last()) {
        lemma_trim_end_last(s.drop_last());
    }
}

/// A trimmed text neither starts nor ends with white space.
pub proof fn lemma_trim_shape(s: Seq<char>)
    ensures
        trim(s).len() == 0 || (!is_white_space(trim(s)[0]) && !is_white_space(trim(s).last())),
{
    let t = trim_start(s);
    lemma_trim_start_suffix(s);
    lemma_trim_end_is_prefix(t);
    lemma_trim_end_last(t);
    if trim(s).len() > 0 {
        assert(trim(s)[0] == t[0]);
    }
}

/// Trimming twice is trimming once.
pub proof fn lemma_trim_idempotent(s: Seq<char>)
    ensures
        trim(trim(s)) == trim(s),
{
    let t = trim(s);
    lemma_trim_shape(s);
    if t.len() > 0 {
        assert(trim_start(t) == t);
        assert(trim_end(t) == t);
    } else {
        assert(trim_start(t) == t);
        assert(trim_end(t) == t);
    }
}

/// A copy of `s` without leading and trailing white space.
pub fn trim_chars(s: &[char]) -> (r: Vec<char>)
    ensures
        r@ == trim(s@),
{
    let k = leading_space(s);
    let rest = copy_range(s, k, s.len());
    let e = trimmed_end(rest.as_slice());
    copy_range(rest.as_slice(), 0, e)
}

// ---------------------------------------------------------------------------
// Prefixes and occurrences
// ---------------------------------------------------------------------------

/// `p` occurs in `s` at index `i`.
pub open spec fn occurs_at(s: Seq<char>, p: Seq<char>, i: int) -> bool {
    0 <= i && i + p.len() <= s.len() && s.subrange(i, i + p.len()) == p
}

/// `s` starts with `p` (`str::starts_with`).
pub open spec fn starts_with(s: Seq<char>, p: Seq<char>) -> bool {
    p.len() <= s.len() && s.take(p.len() as int) == p
}

/// `str::strip_prefix`: what follows `p` when `s` starts with it.
pub open spec fn strip_prefix(s: Seq<char>, p: Seq<char>) -> Option<Seq<char>> {
    if starts_with(s, p) {
        Some(s.skip(p.len() as int))
    } else {
        None
    }
}

/// Whether `p` occurs in `s` at index `at`.
pub fn occurs_at_exec(s: &[char], p: &[char], at: usize) -> (r: bool)
    ensures
        r == occurs_at(s@, p@, at as int),
{
    if at > s.len() || p.len() > s.len() - at {
        return false;
    }
    let n = p.len();
    let sl = s.len();
    let mut i: usize = 0;
    while i < n
        invariant
            n == p@.len(),
            sl == s@.len(),
            at + n <= sl,
            i <= n,
            forall|j: int| 0 <= j < i ==> s@[at + j] == p@[j],
        decreases n - i,
    {
        if s[at + i] != p[i] {
            assert(s@.subrange(at as int, at + n)[i as int] != p@[i as int]);
            return false;
        }
        i = i + 1;
    }
    assert(s@.subrange(at as int, at + n) == p@);
    true
}

/// Whether `s` starts with `p`.
pub fn has_prefix(s: &[char], p: &[char]) -> (r: bool)
    ensures
        r == starts_with(s@, p@),
{
    let r = occurs_at_exec(s, p, 0);
    assert(s@.subrange(0, p@.len() as int) == s@.take(p@.len() as int));
    r
}

/// What follows `p` in `s`, when `s` starts with `p`.
pub fn strip_prefix_exec(s: &[char], p: &[char]) -> (r: Option<Vec<char>>)
    ensures
        match r {
            Some(v) => strip_prefix(s@, p@) == Some(v@),
            None => strip_prefix(s@, p@) is None,
        },
{
    if has_prefix(s, p) {
        Some(copy_range(s, p.len(), s.len()))
    } else {
        None
    }
}

/// The first index at or after `start` where `p` occurs in `s`.
pub open spec fn find_from(s: Seq<char>, p: Seq<char>, start: int) -> Option<int>
    decreases s.len() + 1 - start,
{
    if start < 0 || start + p.len() > s.len() {
        None
    } else if occurs_at(s, p, start) {
        Some(start)
    } else {
        find_from(s, p, start + 1)
    }
}

/// What `find_from` returns is the first occurrence at or after `start`, and
/// `None` means there is none.
pub proof fn lemma_find_from(s: Seq<char>, p: Seq<char>, start: int)
    requires
        0 <= start,
    ensures
        match find_from(s, p, start) {
            Some(i) => {
                &&& start <= i
                &&& i + p.len() <= s.len()
                &&& occurs_at(s, p, i)
                &&& forall|j: int| start <= j < i ==> !occurs_at(s, p, j)
            },
            None => forall|j: int| start <= j ==> !occurs_at(s, p, j),
        },
    decreases s.len() + 1 - start,
{
    if start + p.len() > s.len() {
    } else if occurs_at(s, p, start) {
    } else {
        lemma_find_from(s, p, start + 1);
    }
}

/// Finds the first occurrence of `p` in `s` at or after `start`.
pub fn find_exec(s: &[char], p: &[char], start: usize) -> (r: Option<usize>)
    ensures
        match r {
            Some(i) => find_from(s@, p@, start as int) == Some(i as int),
            None => find_from(s@, p@, start as int) is None,
        },
{
    if p.len() == 0 {
        if start <= s.len() {
            assert(s@.subrange(start as int, start as int) == p@);
            return Some(start);
        } else {
            return None;
        }
    }
    let mut i = start;
    while i <= s.len() && p.len() <= s.len() - i
        invariant
            p@.len() > 0,
            start <= i,
            find_from(s@, p@, start as int) == find_from(s@, p@, i as int),
        decreases s@.len() + 1 - i,
    {
        if occurs_at_exec(s, p, i) {
            return Some(i);
        }
        i = i + 1;
    }
    None
}

// ---------------------------------------------------------------------------
// Splitting (`str::split` with a string pattern and with a set of characters)
// ---------------------------------------------------------------------------

/// The pieces of `s[start..]` separated by the non-overlapping occurrences of
/// `sep`, found from left to right.
pub open spec fn split_from(s: Seq<char>, sep: Seq<char>, start: int) -> Seq<Seq<char>>
    decreases s.len() + 1 - start,
{
    if sep.len() == 0 || start < 0 || start > s.len() {
        seq![]
    } else {
        match find_from(s, sep, start) {
            None => seq![s.subrange(start, s.len() as int)],
            Some(i) => {
                proof {
                    lemma_find_from(s, sep, start);
                }
                seq![s.subrange(start, i)] + split_from(s, sep, i + sep.len())
            },
        }
    }
}

/// `s.split(sep)` for a non-empty `sep`, as a sequence of pieces.
pub open spec fn split_pieces(s: Seq<char>, sep: Seq<char>) -> Seq<Seq<char>> {
    split_from(s, sep, 0)
}

/// The views of a vector of character vectors.
pub open spec fn views(v: Seq<Vec<char>>) -> Seq<Seq<char>> {
    v.map_values(|x: Vec<char>| x@)
}

/// Splits `s` at the occurrences of `sep`.
pub fn split_on(s: &[char], sep: &[char]) -> (r: Vec<Vec<char>>)
    requires
        sep@.len() > 0,
    ensures
        views(r@) == split_pieces(s@, sep@),
{
    let mut pieces: Vec<Vec<char>> = Vec::new();
    let mut pos: usize = 0;
    let sl = s.len();
    loop
        invariant
            sl == s@.len(),
            sep@.len() > 0,
            pos <= s@.len(),
            views(pieces@) + split_from(s@, sep@, pos as int) == split_pieces(s@, sep@),
        decreases s@.len() + 1 - pos,
    {
        let ghost before = views(pieces@);
        match find_exec(s, sep, pos) {
            None => {
                let piece = copy_range(s, pos, s.len());
                pieces.push(piece);
                assert(views(pieces@) == before.push(s@.subrange(pos as int, s@.len() as int)));
                assert(views(pieces@) == split_pieces(s@, sep@));
                return pieces;
            },
            Some(i) => {
                proof {
                    lemma_find_from(s@, sep@, pos as int);
                }
                let piece = copy_range(s, pos, i);
                pieces.push(piece);
                assert(views(pieces@) == before.push(s@.subrange(pos as int, i as int)));
                assert(views(pieces@) + split_from(s@, sep@, i + sep@.len()) == before
                    + split_from(s@, sep@, pos as int));
                pos = i + sep.len();
            },
        }
    }
}

/// The first index at or after `start` holding one of the characters `stops`.
pub open spec fn find_any_from(s: Seq<char>, stops: Seq<char>, start: int) -> Option<int>
    decreases s.len() - start,
{
    if start < 0 || start >= s.len() {
        None
    } else if stops.contains(s[start]) {
        Some(start)
    } else {
        find_any_from(s, stops, start + 1)
    }
}

/// What `find_any_from` returns lies in range and holds a stop character.
pub proof fn lemma_find_any_from(s: Seq<char>, stops: Seq<char>, start: int)
    requires
        0 <= start,
    ensures
        match find_any_from(s, stops, start) {
            Some(i) => {
                &&& start <= i < s.len()
                &&& stops.contains(s[i])
                &&& forall|j: int| start <= j < i ==> !stops.contains(#[trigger] s[j])
            },
            None => forall|j: int| start <= j < s.len() ==> !stops.contains(#[trigger] s[j]),
        },
    decreases s.len() - start,
{
    if start < s.len() && !stops.contains(s[start]) {
        lemma_find_any_from(s, stops, start + 1);
    }
}

/// The pieces of `s[start..]` separated by any of the characters `stops`.
pub open spec fn split_any_from(s: Seq<char>, stops: Seq<char>, start: int) -> Seq<Seq<char>>
    decreases s.len() + 1 - start,
{
    if start < 0 || start > s.len() {
        seq![]
    } else {
        match find_any_from(s, stops, start) {
            None => seq![s.subrange(start, s.len() as int)],
            Some(i) => {
                proof {
                    lemma_find_any_from(s, stops, start);
                }
                seq![s.subrange(start, i)] + split_any_from(s, stops, i + 1)
            },
        }
    }
}

/// `s.split([c1, c2, ...])` with the characters `stops`, as a sequence of pieces.
pub open spec fn split_any(s: Seq<char>, stops: Seq<char>) -> Seq<Seq<char>> {
    split_any_from(s, stops, 0)
}

/// Whether `c` is one of `stops`.
pub fn contains_char(stops: &[char], c: char) -> (r: bool)
    ensures
        r == stops@.contains(c),
{
    let n = stops.len();
    let mut i: usize = 0;
    while i < n
        invariant
            n == stops@.len(),
            i <= n,
            forall|j: int| 0 <= j < i ==> stops@[j] != c,
        decreases n - i,
    {
        if stops[i] == c {
            return true;
        }
        i = i + 1;
    }
    false
}

/// Finds the first of the characters `stops` in `s` at or after `start`.
pub fn find_any_exec(s: &[char], stops: &[char], start: usize) -> (r: Option<usize>)
    ensures
        match r {
            Some(i) => find_any_from(s@, stops@, start as int) == Some(i as int),
            None => find_any_from(s@, stops@, start as int) is None,
        },
{
    let mut i = start;
    while i < s.len()
        invariant
            start <= i,
            find_any_from(s@, stops@, start as int) == find_any_from(s@, stops@, i as int),
        decreases s@.len() - i,
    {
        if contains_char(stops, s[i]) {
            return Some(i);
        }
        i = i + 1;
    }
    None
}

/// Splits `s` at each of the characters `stops`.
pub fn split_any_on(s: &[char], stops: &[char]) -> (r: Vec<Vec<char>>)
    ensures
        views(r@) == split_any(s@, stops@),
{
    let mut pieces: Vec<Vec<char>> = Vec::new();
    let mut pos: usize = 0;
    let sl = s.len();
    loop
        invariant
            sl == s@.len(),
            pos <= s@.len(),
            views(pieces@) + split_any_from(s@, stops@, pos as int) == split_any(s@, stops@),
        decreases s@.len() + 1 - pos,
    {
        let ghost before = views(pieces@);
        match find_any_exec(s, stops, pos) {
            None => {
                let piece = copy_range(s, pos, s.len());
                pieces.push(piece);
                assert(views(pieces@) == before.push(s@.subrange(pos as int, s@.len() as int)));
                assert(views(pieces@) == split_any(s@, stops@));
                return pieces;
            },
            Some(i) => {
                proof {
                    lemma_find_any_from(s@, stops@, pos as int);
                }
                let piece = copy_range(s, pos, i);
                pieces.push(piece);
                assert(views(pieces@) == before.push(s@.subrange(pos as int, i as int)));
                assert(views(pieces@) + split_any_from(s@, stops@, i + 1) == before
                    + split_any_from(s@, stops@, pos as int));
                pos = i + 1;
            },
        }
    }
}

/// `Iterator::nth` on the pieces of a split.
pub open spec fn nth_piece(pieces: Seq<Seq<char>>, n: int) -> Option<Seq<char>> {
    if 0 <= n < pieces.len() {
        Some(pieces[n])
    } else {
        None
    }
}

// ---------------------------------------------------------------------------
// Decimal text of integers (`Display` for the integer types)
// ---------------------------------------------------------------------------

/// The ASCII digit for `d` in `0..10`.
pub open spec fn digit_char(d: int) -> char {
    (d + 48) as char
}

/// The decimal digits of `n`, most significant first, without leading zeros.
pub open spec fn nat_text(n: nat) -> Seq<char>
    decreases n,
{
    if n < 10 {
        seq![digit_char(n as int)]
    } else {
        nat_text(n / 10).push(digit_char((n % 10) as int))
    }
}

/// The decimal text of `n`, with a leading `-` when it is negative.
pub open spec fn int_text(n: int) -> Seq<char> {
    if n < 0 {
        seq!['-'] + nat_text((-n) as nat)
    } else {
        nat_text(n as nat)
    }
}

fn digit(d: u64) -> (c: char)
    requires
        d < 10,
    ensures
        c == digit_char(d as int),
{
    let b: u8 = d as u8 + 48;
    b as char
}

fn push_nat_text(out: &mut Vec<char>, n: u64)
    ensures
        final(out)@ == old(out)@ + nat_text(n as nat),
    decreases n,
{
    if n >= 10 {
        push_nat_text(out, n / 10);
    }
    out.push(digit(n % 10));
}

/// Appends the decimal text of `n` to `out`.
pub fn push_decimal(out: &mut Vec<char>, n: i64)
    ensures
        final(out)@ == old(out)@ + int_text(n as int),
{
    if n < 0 {
        out.push('-');
        let m: u64 = (-(n as i128)) as u64;
        push_nat_text(out, m);
    } else {
        push_nat_text(out, n as u64);
    }
}

/// The decimal text of `n`.
pub fn decimal(n: i64) -> (r: Vec<char>)
    ensures
        r@ == int_text(n as int),
{
    let mut r: Vec<char> = Vec::new();
    push_decimal(&mut r, n);
    r
}

} // verus!
