//! Chapter text: the nodes of the page's `#content` element, converted to
//! Markdown, with the ads and UI junk that the site injects left out.
use vstd::prelude::*;
use vstd::utf8::encode_utf8;

use crate::model::SourceError;
use crate::text::{
    chars_of, is_white_space, occurs_at_exec, push_all, push_str, starts_with, string_of, trim,
    trim_chars, white_space,
};

verus! {

/// A node of an HTML document.
#[derive(Debug)]
pub enum HtmlNode {
    /// A text node and its text.
    Text(String),
    /// An element.
    Element(HtmlElement),
    /// Any other node (comment, doctype, data).
    Other,
}

/// An HTML element: its tag name (empty when it has none) and its child nodes.
#[derive(Debug)]
pub struct HtmlElement {
    pub tag: String,
    pub children: Vec<HtmlNode>,
}

// ---------------------------------------------------------------------------
// Replacing text (`str::replace`)
// ---------------------------------------------------------------------------

/// `s` with every occurrence of `pat` replaced by `rep`, occurrences taken from
/// left to right without overlap (`str::replace` for a non-empty pattern).
pub open spec fn replace_all(s: Seq<char>, pat: Seq<char>, rep: Seq<char>) -> Seq<char>
    decreases s.len(),
{
    if pat.len() == 0 || s.len() == 0 {
        s
    } else if starts_with(s, pat) {
        rep + replace_all(s.skip(pat.len() as int), pat, rep)
    } else {
        seq![s[0]] + replace_all(s.drop_first(), pat, rep)
    }
}

/// Replaces every occurrence of `pat` in `s` by `rep`.
pub fn replace_exec(s: &[char], pat: &[char], rep: &[char]) -> (r: Vec<char>)
    requires
        pat@.len() > 0,
    ensures
        r@ == replace_all(s@, pat@, rep@),
{
    let mut out: Vec<char> = Vec::new();
    let n = s.len();
    let mut i: usize = 0;
    assert(s@.skip(0) == s@);
    while i < n
        invariant
            n == s@.len(),
            pat@.len() > 0,
            i <= n,
            out@ + replace_all(s@.skip(i as int), pat@, rep@) == replace_all(s@, pat@, rep@),
        decreases n - i,
    {
        let ghost rest = s@.skip(i as int);
        let ghost before = out@;
        if occurs_at_exec(s, pat, i) {
            assert(rest.take(pat@.len() as int) == s@.subrange(i as int, i + pat@.len()));
            assert(starts_with(rest, pat@));
            assert(rest.skip(pat@.len() as int) == s@.skip(i + pat@.len()));
            push_all(&mut out, rep);
            assert(out@ + replace_all(s@.skip(i + pat@.len()), pat@, rep@) == before + (rep@
                + replace_all(s@.skip(i + pat@.len()), pat@, rep@)));
            i = i + pat.len();
        } else {
            proof {
                if pat@.len() <= rest.len() {
                    assert(rest.take(pat@.len() as int) == s@.subrange(i as int, i + pat@.len()));
                }
            }
            assert(!starts_with(rest, pat@));
            assert(rest.drop_first() == s@.skip(i + 1));
            assert(rest[0] == s@[i as int]);
            out.push(s[i]);
            assert(out@ + replace_all(s@.skip(i + 1), pat@, rep@) == before + (seq![s@[i as int]]
                + replace_all(s@.skip(i + 1), pat@, rep@)));
            i = i + 1;
        }
    }
    assert(s@.skip(n as int).len() == 0);
    out
}

} // verus!

verus! {

// ---------------------------------------------------------------------------
// Byte length of text (`str::len`)
// ---------------------------------------------------------------------------

/// Appending a character appends its encoding.
proof fn lemma_encode_utf8_push(s: Seq<char>, c: char)
    ensures
        encode_utf8(s.push(c)) == encode_utf8(s) + vstd::utf8::encode_scalar(c as u32),
    decreases s.len(),
{
    let e = vstd::utf8::encode_scalar(c as u32);
    if s.len() == 0 {
        assert(s.push(c).drop_first() == Seq::<char>::empty());
        assert(s.push(c)[0] == c);
        assert(encode_utf8(Seq::<char>::empty()) == Seq::<u8>::empty());
        assert(encode_utf8(s.push(c)) == e + encode_utf8(s.push(c).drop_first()));
        assert(encode_utf8(s.push(c)) == e + Seq::<u8>::empty());
        assert(e + Seq::<u8>::empty() == e);
        assert(Seq::<u8>::empty() + e == e);
    } else {
        assert(s.push(c).drop_first() == s.drop_first().push(c));
        assert(s.push(c)[0] == s[0]);
        lemma_encode_utf8_push(s.drop_first(), c);
        let h = vstd::utf8::encode_scalar(s[0] as u32);
        assert(encode_utf8(s.push(c)) == h + (encode_utf8(s.drop_first()) + e));
        assert(encode_utf8(s) == h + encode_utf8(s.drop_first()));
        assert(h + (encode_utf8(s.drop_first()) + e) == (h + encode_utf8(s.drop_first())) + e);
    }
}

/// The number of bytes in the UTF-8 encoding of `c`.
fn utf8_width(c: char) -> (w: usize)
    ensures
        w == vstd::utf8::encode_scalar(c as u32).len(),
{
    let v = c as u32;
    if v <= 0x7f {
        1
    } else if v <= 0x7ff {
        2
    } else if v <= 0xffff {
        3
    } else {
        4
    }
}

/// Whether the UTF-8 encoding of `t` takes at least three bytes.
fn at_least_three_bytes(t: &[char]) -> (r: bool)
    ensures
        r == (encode_utf8(t@).len() >= 3),
{
    let n = t.len();
    let mut bytes: usize = 0;
    let mut i: usize = 0;
    while i < n
        invariant
            n == t@.len(),
            i <= n,
            bytes < 3 ==> bytes == encode_utf8(t@.take(i as int)).len(),
            bytes >= 3 ==> encode_utf8(t@.take(i as int)).len() >= 3,
            bytes <= 6,
        decreases n - i,
    {
        proof {
            assert(t@.take(i + 1) == t@.take(i as int).push(t@[i as int]));
            lemma_encode_utf8_push(t@.take(i as int), t@[i as int]);
        }
        if bytes < 3 {
            bytes = bytes + utf8_width(t[i]);
        }
        i = i + 1;
    }
    assert(t@.take(n as int) == t@);
    bytes >= 3
}

// ---------------------------------------------------------------------------
// Markdown
// ---------------------------------------------------------------------------

/// A dash or white space.
pub open spec fn is_dash_or_space(c: char) -> bool {
    c == '-' || is_white_space(c)
}

/// The Markdown for the text of a text node: a rule of three or more bytes
/// made only of dashes and white space stays as it is; any other text has its
/// `*` and `-` escaped with a backslash.
pub open spec fn md_text(t: Seq<char>) -> Seq<char> {
    if encode_utf8(t).len() >= 3 && (forall|i: int| 0 <= i < t.len() ==> is_dash_or_space(
        #[trigger] t[i],
    )) {
        t
    } else {
        replace_all(replace_all(t, "*"@, "\\*"@), "-"@, "\\-"@)
    }
}

/// Elements that are ads or UI junk rather than prose.
pub open spec fn is_junk_tag(t: Seq<char>) -> bool {
    ||| t == "div"@
    ||| t == "script"@
    ||| t == "iframe"@
    ||| t == "ul"@
    ||| t == "nav"@
    ||| t == "dialog"@
    ||| t == "style"@
}

/// What goes before the Markdown of an element's content.
pub open spec fn tag_prefix(tag: Seq<char>) -> Seq<char> {
    if tag == "h1"@ {
        "# "@
    } else if tag == "h2"@ {
        "## "@
    } else if tag == "h3"@ {
        "### "@
    } else if tag == "h4"@ {
        "#### "@
    } else if tag == "h5"@ {
        "##### "@
    } else if tag == "h6"@ {
        "###### "@
    } else if tag == "strong"@ || tag == "b"@ {
        "**"@
    } else if tag == "em"@ || tag == "i"@ {
        "*"@
    } else if tag == "u"@ {
        "__"@
    } else if tag == "s"@ || tag == "strike"@ || tag == "del"@ {
        "~~"@
    } else {
        seq![]
    }
}

/// What goes after the Markdown of an element's content.
pub open spec fn tag_suffix(tag: Seq<char>) -> Seq<char> {
    if tag == "p"@ || tag == "h1"@ || tag == "h2"@ || tag == "h3"@ || tag == "h4"@ || tag == "h5"@
        || tag == "h6"@ {
        "\n\n"@
    } else if tag == "strong"@ || tag == "b"@ {
        "**"@
    } else if tag == "em"@ || tag == "i"@ {
        "*"@
    } else if tag == "u"@ {
        "__"@
    } else if tag == "s"@ || tag == "strike"@ || tag == "del"@ {
        "~~"@
    } else {
        seq![]
    }
}

/// The Markdown of a sequence of nodes.
pub open spec fn md_nodes(nodes: Seq<HtmlNode>) -> Seq<char>
    decreases nodes,
{
    if nodes.len() == 0 {
        seq![]
    } else {
        md_nodes(nodes.drop_last()) + md_node(nodes.last())
    }
}

/// The Markdown of one node: a paragraph ends with a blank line, a line break
/// becomes two spaces and a newline, headings get their `#` marks, bold,
/// italic, underlined and struck text their markers, and any other element
/// just its content.
pub open spec fn md_node(node: HtmlNode) -> Seq<char>
    decreases node,
{
    match node {
        HtmlNode::Text(t) => md_text(t@),
        HtmlNode::Element(e) => if e.tag@ == "br"@ {
            "  \n"@
        } else {
            tag_prefix(e.tag@) + md_nodes(e.children@) + tag_suffix(e.tag@)
        },
        HtmlNode::Other => seq![],
    }
}

/// An element that is ads or UI junk.
pub open spec fn is_junk_node(n: HtmlNode) -> bool {
    match n {
        HtmlNode::Element(e) => is_junk_tag(e.tag@),
        _ => false,
    }
}

/// `b` is `a` with every junk element removed, at every depth: the other
/// nodes stay, in order, each with the junk removed from what it holds.
pub open spec fn junk_removed(a: Seq<HtmlNode>, b: Seq<HtmlNode>) -> bool
    decreases a,
{
    if a.len() == 0 {
        b.len() == 0
    } else if is_junk_node(a.last()) {
        junk_removed(a.drop_last(), b)
    } else {
        &&& b.len() > 0
        &&& junk_removed(a.drop_last(), b.drop_last())
        &&& node_junk_removed(a.last(), b.last())
    }
}

/// `y` is the node `x` with the junk removed from what it holds.
pub open spec fn node_junk_removed(x: HtmlNode, y: HtmlNode) -> bool
    decreases x,
{
    match x {
        HtmlNode::Text(t) => (y matches HtmlNode::Text(u) && u@ == t@),
        HtmlNode::Element(e) => (y matches HtmlNode::Element(f) && f.tag@ == e.tag@
            && junk_removed(e.children@, f.children@)),
        HtmlNode::Other => y is Other,
    }
}

/// The Markdown of a sequence of nodes once every junk element, at every depth,
/// is removed from it (see `lemma_junk_removed_markdown`).
pub open spec fn md_nodes_without_junk(nodes: Seq<HtmlNode>) -> Seq<char>
    decreases nodes,
{
    if nodes.len() == 0 {
        seq![]
    } else {
        md_nodes_without_junk(nodes.drop_last()) + md_node_without_junk(nodes.last())
    }
}

/// The Markdown of one node once the junk is removed: nothing for a junk
/// element, else as `md_node` with the junk removed from what it holds.
pub open spec fn md_node_without_junk(node: HtmlNode) -> Seq<char>
    decreases node,
{
    match node {
        HtmlNode::Text(t) => md_text(t@),
        HtmlNode::Element(e) => if is_junk_tag(e.tag@) {
            seq![]
        } else if e.tag@ == "br"@ {
            "  \n"@
        } else {
            tag_prefix(e.tag@) + md_nodes_without_junk(e.children@) + tag_suffix(e.tag@)
        },
        HtmlNode::Other => seq![],
    }
}

/// Removing the junk and then converting gives `md_nodes_without_junk`.
pub proof fn lemma_junk_removed_markdown(a: Seq<HtmlNode>, b: Seq<HtmlNode>)
    requires
        junk_removed(a, b),
    ensures
        md_nodes(b) == md_nodes_without_junk(a),
    decreases a, 0nat,
{
    if a.len() > 0 {
        if is_junk_node(a.last()) {
            lemma_junk_removed_markdown(a.drop_last(), b);
            assert(md_node_without_junk(a.last()) == Seq::<char>::empty());
            assert(md_nodes_without_junk(a) == md_nodes_without_junk(a.drop_last())
                + Seq::<char>::empty());
        } else {
            lemma_junk_removed_markdown(a.drop_last(), b.drop_last());
            lemma_node_junk_removed_markdown(a.last(), b.last());
        }
    }
}

/// Removing the junk from what a node holds and then converting it gives
/// `md_node_without_junk`.
pub proof fn lemma_node_junk_removed_markdown(x: HtmlNode, y: HtmlNode)
    requires
        node_junk_removed(x, y),
        !is_junk_node(x),
    ensures
        md_node(y) == md_node_without_junk(x),
    decreases x, 1nat,
{
    match x {
        HtmlNode::Element(e) => {
            let f = y->Element_0;
            lemma_junk_removed_markdown(e.children@, f.children@);
        },
        _ => {},
    }
}

} // verus!

verus! {

fn all_dash_or_space(t: &[char]) -> (r: bool)
    ensures
        r == (forall|i: int| 0 <= i < t@.len() ==> is_dash_or_space(#[trigger] t@[i])),
{
    let n = t.len();
    let mut i: usize = 0;
    while i < n
        invariant
            n == t@.len(),
            i <= n,
            forall|j: int| 0 <= j < i ==> is_dash_or_space(#[trigger] t@[j]),
        decreases n - i,
    {
        if !(t[i] == '-' || white_space(t[i])) {
            assert(!is_dash_or_space(t@[i as int]));
            return false;
        }
        i = i + 1;
    }
    true
}

/// Appends the Markdown for the text of a text node.
fn convert_text(t: &String, out: &mut Vec<char>)
    ensures
        final(out)@ == old(out)@ + md_text(t@),
{
    let cs = chars_of(t.as_str());
    if at_least_three_bytes(cs.as_slice()) && all_dash_or_space(cs.as_slice()) {
        push_all(out, cs.as_slice());
    } else {
        let star = chars_of("*");
        let dash = chars_of("-");
        let star_escaped = chars_of("\\*");
        let dash_escaped = chars_of("\\-");
        proof {
            reveal_strlit("*");
            reveal_strlit("-");
        }
        let a = replace_exec(cs.as_slice(), star.as_slice(), star_escaped.as_slice());
        let b = replace_exec(a.as_slice(), dash.as_slice(), dash_escaped.as_slice());
        push_all(out, b.as_slice());
    }
}

/// Whether the tag name is `name`.
fn tag_is(tag: &[char], name: &str) -> (r: bool)
    ensures
        r == (tag@ == name@),
{
    let n = chars_of(name);
    crate::text::chars_eq(tag, n.as_slice())
}

fn junk_tag(tag: &[char]) -> (r: bool)
    ensures
        r == is_junk_tag(tag@),
{
    tag_is(tag, "div") || tag_is(tag, "script") || tag_is(tag, "iframe") || tag_is(tag, "ul")
        || tag_is(tag, "nav") || tag_is(tag, "dialog") || tag_is(tag, "style")
}

fn tag_prefix_exec(tag: &[char]) -> (r: Vec<char>)
    ensures
        r@ == tag_prefix(tag@),
{
    if tag_is(tag, "h1") {
        chars_of("# ")
    } else if tag_is(tag, "h2") {
        chars_of("## ")
    } else if tag_is(tag, "h3") {
        chars_of("### ")
    } else if tag_is(tag, "h4") {
        chars_of("#### ")
    } else if tag_is(tag, "h5") {
        chars_of("##### ")
    } else if tag_is(tag, "h6") {
        chars_of("###### ")
    } else if tag_is(tag, "strong") || tag_is(tag, "b") {
        chars_of("**")
    } else if tag_is(tag, "em") || tag_is(tag, "i") {
        chars_of("*")
    } else if tag_is(tag, "u") {
        chars_of("__")
    } else if tag_is(tag, "s") || tag_is(tag, "strike") || tag_is(tag, "del") {
        chars_of("~~")
    } else {
        Vec::new()
    }
}

fn tag_suffix_exec(tag: &[char]) -> (r: Vec<char>)
    ensures
        r@ == tag_suffix(tag@),
{
    if tag_is(tag, "p") || tag_is(tag, "h1") || tag_is(tag, "h2") || tag_is(tag, "h3") || tag_is(
        tag,
        "h4",
    ) || tag_is(tag, "h5") || tag_is(tag, "h6") {
        chars_of("\n\n")
    } else if tag_is(tag, "strong") || tag_is(tag, "b") {
        chars_of("**")
    } else if tag_is(tag, "em") || tag_is(tag, "i") {
        chars_of("*")
    } else if tag_is(tag, "u") {
        chars_of("__")
    } else if tag_is(tag, "s") || tag_is(tag, "strike") || tag_is(tag, "del") {
        chars_of("~~")
    } else {
        Vec::new()
    }
}

/// Appends the Markdown of an element's child nodes, in order: text is
/// escaped, elements are converted by their tag, other nodes give nothing.
pub fn convert_element_to_markdown(element: &HtmlElement, output: &mut Vec<char>)
    ensures
        final(output)@ == old(output)@ + md_nodes(element.children@),
    decreases element, 0nat,
{
    let nodes = &element.children;
    let n = nodes.len();
    let mut i: usize = 0;
    assert(nodes@.take(0) == Seq::<HtmlNode>::empty());
    while i < n
        invariant
            nodes == &element.children,
            n == nodes@.len(),
            i <= n,
            output@ == old(output)@ + md_nodes(nodes@.take(i as int)),
        decreases n - i,
    {
        assert(nodes@.take(i + 1).drop_last() == nodes@.take(i as int));
        assert(nodes@.take(i + 1).last() == nodes@[i as int]);
        match &nodes[i] {
            HtmlNode::Text(t) => convert_text(t, output),
            HtmlNode::Element(child) => convert_tag_to_markdown(child, output),
            HtmlNode::Other => {
                assert(md_node(nodes@[i as int]) == Seq::<char>::empty());
                assert(output@ == output@ + Seq::<char>::empty());
            },
        }
        assert(output@ == old(output)@ + (md_nodes(nodes@.take(i as int)) + md_node(
            nodes@[i as int],
        )));
        i = i + 1;
    }
    assert(nodes@.take(n as int) == nodes@);
}

/// Appends the Markdown of an element by its tag: a paragraph ends with a
/// blank line, a line break is two spaces and a newline, headings get their
/// `#` marks, bold, italic, underlined and struck text their markers, any other
/// element just its content.
pub fn convert_tag_to_markdown(element: &HtmlElement, output: &mut Vec<char>)
    ensures
        final(output)@ == old(output)@ + md_node(HtmlNode::Element(*element)),
    decreases element, 1nat,
{
    let tag = chars_of(element.tag.as_str());
    if tag_is(tag.as_slice(), "br") {
        push_str(output, "  \n");
    } else {
        let pre = tag_prefix_exec(tag.as_slice());
        let suf = tag_suffix_exec(tag.as_slice());
        let ghost start = output@;
        push_all(output, pre.as_slice());
        convert_element_to_markdown(element, output);
        push_all(output, suf.as_slice());
        assert(output@ == start + (tag_prefix(element.tag@) + md_nodes(element.children@)
            + tag_suffix(element.tag@)));
    }
}

} // verus!

verus! {

/// A copy of an element's child nodes with every junk element removed, at
/// every depth.
pub fn remove_junk(element: &HtmlElement) -> (r: Vec<HtmlNode>)
    ensures
        junk_removed(element.children@, r@),
    decreases element, 0nat,
{
    let nodes = &element.children;
    let n = nodes.len();
    let mut out: Vec<HtmlNode> = Vec::new();
    let mut i: usize = 0;
    assert(nodes@.take(0) == Seq::<HtmlNode>::empty());
    while i < n
        invariant
            nodes == &element.children,
            n == nodes@.len(),
            i <= n,
            junk_removed(nodes@.take(i as int), out@),
        decreases n - i,
    {
        assert(nodes@.take(i + 1).drop_last() == nodes@.take(i as int));
        assert(nodes@.take(i + 1).last() == nodes@[i as int]);
        let ghost before = out@;
        match &nodes[i] {
            HtmlNode::Text(t) => {
                let copy = t.clone();
                out.push(HtmlNode::Text(copy));
                assert(out@.drop_last() == before);
                assert(node_junk_removed(nodes@[i as int], out@.last()));
            },
            HtmlNode::Element(child) => {
                let tag = chars_of(child.tag.as_str());
                if !junk_tag(tag.as_slice()) {
                    let cleaned = HtmlElement { tag: child.tag.clone(), children: remove_junk(child) };
                    out.push(HtmlNode::Element(cleaned));
                    assert(out@.drop_last() == before);
                    assert(node_junk_removed(nodes@[i as int], out@.last()));
                } else {
                    assert(is_junk_node(nodes@[i as int]));
                }
            },
            HtmlNode::Other => {
                out.push(HtmlNode::Other);
                assert(out@.drop_last() == before);
                assert(node_junk_removed(nodes@[i as int], out@.last()));
            },
        }
        i = i + 1;
    }
    assert(nodes@.take(n as int) == nodes@);
    out
}

} // verus!

verus! {

/// The text of a chapter: the Markdown of the `#content` element's nodes once
/// the junk is removed from them, with every `****` removed; empty when the
/// page has no such element.
pub open spec fn chapter_text(content: Option<HtmlElement>) -> Seq<char> {
    match content {
        Some(e) => replace_all(md_nodes_without_junk(e.children@), "****"@, Seq::empty()),
        None => seq![],
    }
}

/// The chapter's text as Markdown, from the nodes of its `#content` element:
/// the ads and UI junk injected there (`div`, `script`, `iframe`, `ul`, `nav`,
/// `dialog`, `style` elements) are removed first, then the rest is converted.
/// Fails when no text is left.
pub fn extract_chapter_text(content: &Option<HtmlElement>) -> (r: Result<String, SourceError>)
    ensures
        match r {
            Ok(s) => s@ == chapter_text(*content) && trim(s@).len() > 0,
            Err(e) => e == SourceError::ChapterTextNotFound && trim(chapter_text(*content)).len()
                == 0,
        },
{
    let mut text: Vec<char> = Vec::new();
    if let Some(container) = content {
        let cleaned = HtmlElement { tag: container.tag.clone(), children: remove_junk(container) };
        let mut md: Vec<char> = Vec::new();
        convert_element_to_markdown(&cleaned, &mut md);
        proof {
            lemma_junk_removed_markdown(container.children@, cleaned.children@);
        }
        assert(md@ == md_nodes_without_junk(container.children@));
        let stars = chars_of("****");
        proof {
            reveal_strlit("****");
        }
        let nothing: Vec<char> = Vec::new();
        text = replace_exec(md.as_slice(), stars.as_slice(), nothing.as_slice());
    }
    let trimmed = trim_chars(text.as_slice());
    if trimmed.len() == 0 {
        return Err(SourceError::ChapterTextNotFound);
    }
    Ok(string_of(text.as_slice()))
}

} // verus!

verus! {

/// `t` starts with `m` stars.
pub open spec fn starts_with_stars(t: Seq<char>, m: int) -> bool {
    m <= t.len() && forall|i: int| 0 <= i < m ==> t[i] == '*'
}

/// Removing `****` never makes new leading stars.
proof fn lemma_removal_keeps_leading_stars(t: Seq<char>, m: int)
    requires
        0 <= m,
        starts_with_stars(replace_all(t, "****"@, Seq::empty()), m),
    ensures
        starts_with_stars(t, m),
    decreases t.len(),
{
    reveal_strlit("****");
    let p = "****"@;
    let r = replace_all(t, p, Seq::empty());
    if t.len() == 0 {
    } else if starts_with(t, p) {
        let rest = t.skip(4);
        assert(Seq::<char>::empty() + replace_all(rest, p, Seq::empty()) == replace_all(
            rest,
            p,
            Seq::empty(),
        ));
        lemma_removal_keeps_leading_stars(rest, m);
        assert forall|i: int| 0 <= i < m implies t[i] == '*' by {
            if i < 4 {
                assert(t.take(4)[i] == p[i]);
            } else {
                assert(t[i] == rest[i - 4]);
            }
        }
    } else if m > 0 {
        let rest = t.drop_first();
        let rr = replace_all(rest, p, Seq::empty());
        assert(r == seq![t[0]] + rr);
        assert(r[0] == t[0]);
        assert forall|i: int| 0 <= i < m - 1 implies rr[i] == '*' by {
            assert(r[i + 1] == rr[i]);
        }
        lemma_removal_keeps_leading_stars(rest, m - 1);
        assert forall|i: int| 0 <= i < m implies t[i] == '*' by {
            if i > 0 {
                assert(t[i] == rest[i - 1]);
            }
        }
    }
}

/// Text with every `****` removed holds no `****`: no empty bold markers are
/// left in a chapter's text.
pub proof fn lemma_no_empty_bold_left(s: Seq<char>)
    ensures
        forall|i: int| !crate::text::occurs_at(replace_all(s, "****"@, Seq::empty()), "****"@, i),
    decreases s.len(),
{
    reveal_strlit("****");
    let p = "****"@;
    let r = replace_all(s, p, Seq::empty());
    if s.len() == 0 {
    } else if starts_with(s, p) {
        let rest = s.skip(4);
        assert(Seq::<char>::empty() + replace_all(rest, p, Seq::empty()) == replace_all(
            rest,
            p,
            Seq::empty(),
        ));
        lemma_no_empty_bold_left(rest);
    } else {
        let rest = s.drop_first();
        let rr = replace_all(rest, p, Seq::empty());
        lemma_no_empty_bold_left(rest);
        assert(r == seq![s[0]] + rr);
        assert forall|i: int| !crate::text::occurs_at(r, p, i) by {
            if crate::text::occurs_at(r, p, i) {
                if i >= 1 {
                    assert(r.subrange(i, i + 4) == rr.subrange(i - 1, i + 3));
                    assert(crate::text::occurs_at(rr, p, i - 1));
                } else {
                    assert(r.subrange(0, 4)[0] == p[0]);
                    assert(r[0] == '*');
                    assert(s[0] == '*');
                    assert forall|j: int| 0 <= j < 3 implies rr[j] == '*' by {
                        assert(r.subrange(0, 4)[j + 1] == p[j + 1]);
                        assert(r[j + 1] == rr[j]);
                    }
                    lemma_removal_keeps_leading_stars(rest, 3);
                    assert(s.take(4) == p) by {
                        assert forall|j: int| 0 <= j < 4 implies s.take(4)[j] == p[j] by {
                            if j > 0 {
                                assert(s[j] == rest[j - 1]);
                            }
                        }
                    }
                }
            }
        }
    }
}

/// The text of a chapter holds no `****`.
pub proof fn lemma_chapter_text_has_no_empty_bold(content: Option<HtmlElement>)
    ensures
        forall|i: int| !crate::text::occurs_at(chapter_text(content), "****"@, i),
{
    reveal_strlit("****");
    match content {
        Some(e) => {
            lemma_no_empty_bold_left(md_nodes_without_junk(e.children@));
            let r = replace_all(md_nodes_without_junk(e.children@), "****"@, Seq::empty());
            assert(chapter_text(content) == r);
            assert forall|i: int| !crate::text::occurs_at(chapter_text(content), "****"@, i) by {
                assert(!crate::text::occurs_at(r, "****"@, i));
            }
        },
        None => {},
    }
}

} // verus!

verus! {

/// The Markdown of two runs of nodes, junk removed, is that of each, joined.
pub proof fn lemma_md_nodes_without_junk_append(a: Seq<HtmlNode>, b: Seq<HtmlNode>)
    ensures
        md_nodes_without_junk(a + b) == md_nodes_without_junk(a) + md_nodes_without_junk(b),
    decreases b.len(),
{
    if b.len() == 0 {
        assert(a + b == a);
        assert(md_nodes_without_junk(a) + Seq::<char>::empty() == md_nodes_without_junk(a));
    } else {
        assert((a + b).drop_last() == a + b.drop_last());
        assert((a + b).last() == b.last());
        lemma_md_nodes_without_junk_append(a, b.drop_last());
        assert(md_nodes_without_junk(a + b) == md_nodes_without_junk(a) + md_nodes_without_junk(
            b.drop_last(),
        ) + md_node_without_junk(b.last()));
    }
}

/// Junk leaves no trace in a chapter's text: wherever a junk element stands
/// among the nodes, and whatever it holds, the text is that of the nodes
/// without it.
pub proof fn lemma_junk_leaves_no_trace(a: Seq<HtmlNode>, junk: HtmlElement, b: Seq<HtmlNode>)
    requires
        is_junk_tag(junk.tag@),
    ensures
        md_nodes_without_junk(a + seq![HtmlNode::Element(junk)] + b) == md_nodes_without_junk(
            a + b,
        ),
{
    let j = seq![HtmlNode::Element(junk)];
    lemma_md_nodes_without_junk_append(a + j, b);
    lemma_md_nodes_without_junk_append(a, j);
    lemma_md_nodes_without_junk_append(a, b);
    assert(j.drop_last() == Seq::<HtmlNode>::empty());
    assert(md_nodes_without_junk(j) == md_nodes_without_junk(Seq::<HtmlNode>::empty())
        + md_node_without_junk(j.last()));
    assert(md_nodes_without_junk(j) == Seq::<char>::empty());
    assert(md_nodes_without_junk(a) + Seq::<char>::empty() == md_nodes_without_junk(a));
}

} // verus!

verus! {

/// The Markdown of an element, tag by tag: a paragraph ends with a blank
/// line, `br` is two spaces and a newline, `h1` to `h6` get one to six `#`,
/// `strong`/`b` are wrapped in `**`, `em`/`i` in `*`, `u` in `__`,
/// `s`/`strike`/`del` in `~~`, and any other element is just its content.
pub proof fn lemma_element_markdown(e: HtmlElement)
    ensures
        ({
            let t = e.tag@;
            let c = md_nodes(e.children@);
            let m = md_node(HtmlNode::Element(e));
            &&& t == "p"@ ==> m == c + "\n\n"@
            &&& t == "br"@ ==> m == "  \n"@
            &&& t == "h1"@ ==> m == "# "@ + c + "\n\n"@
            &&& t == "h2"@ ==> m == "## "@ + c + "\n\n"@
            &&& t == "h3"@ ==> m == "### "@ + c + "\n\n"@
            &&& t == "h4"@ ==> m == "#### "@ + c + "\n\n"@
            &&& t == "h5"@ ==> m == "##### "@ + c + "\n\n"@
            &&& t == "h6"@ ==> m == "###### "@ + c + "\n\n"@
            &&& (t == "strong"@ || t == "b"@) ==> m == "**"@ + c + "**"@
            &&& (t == "em"@ || t == "i"@) ==> m == "*"@ + c + "*"@
            &&& t == "u"@ ==> m == "__"@ + c + "__"@
            &&& (t == "s"@ || t == "strike"@ || t == "del"@) ==> m == "~~"@ + c + "~~"@
            &&& (t != "p"@ && t != "br"@ && t != "h1"@ && t != "h2"@ && t != "h3"@ && t != "h4"@
                && t != "h5"@ && t != "h6"@ && t != "strong"@ && t != "b"@ && t != "em"@ && t
                != "i"@ && t != "u"@ && t != "s"@ && t != "strike"@ && t != "del"@) ==> m == c
        }),
{
    lemma_tag_names_distinct();
    let c = md_nodes(e.children@);
    assert(Seq::<char>::empty() + c == c);
    assert(c + Seq::<char>::empty() == c);
}

/// Only `div`, `script`, `iframe`, `ul`, `nav`, `dialog` and `style` elements
/// are junk: they give nothing in a chapter's text, and every other element
/// is kept and converted like any element.
pub proof fn lemma_only_listed_tags_are_junk(e: HtmlElement)
    ensures
        ({
            let t = e.tag@;
            let listed = t == "div"@ || t == "script"@ || t == "iframe"@ || t == "ul"@ || t
                == "nav"@ || t == "dialog"@ || t == "style"@;
            &&& listed ==> md_node_without_junk(HtmlNode::Element(e)) == Seq::<char>::empty()
            &&& !listed && t == "br"@ ==> md_node_without_junk(HtmlNode::Element(e)) == "  \n"@
            &&& !listed && t != "br"@ ==> md_node_without_junk(HtmlNode::Element(e))
                == tag_prefix(t) + md_nodes_without_junk(e.children@) + tag_suffix(t)
        }),
{
}

/// A chapter's paragraph keeps its italic words: in the text of `#content`
/// holding `<p>a<i>b</i></p>` (for any texts a and b free of `*` and `-`),
/// the words of `b` stand between `*`s after `a`.
pub proof fn lemma_italic_in_paragraph(content: HtmlElement, a: String, b: String, i: HtmlElement, p: HtmlElement)
    requires
        i.tag@ == "i"@,
        i.children@ == seq![HtmlNode::Text(b)],
        p.tag@ == "p"@,
        p.children@ == seq![HtmlNode::Text(a), HtmlNode::Element(i)],
        content.children@ == seq![HtmlNode::Element(p)],
        forall|k: int| 0 <= k < a@.len() ==> a@[k] != '*' && a@[k] != '-',
        forall|k: int| 0 <= k < b@.len() ==> b@[k] != '*' && b@[k] != '-',
        a@.len() > 0,
        b@.len() > 0,
    ensures
        md_nodes_without_junk(content.children@) == a@ + "*"@ + b@ + "*"@ + "\n\n"@,
{
    reveal_strlit("i");
    reveal_strlit("p");
    reveal_strlit("br");
    reveal_strlit("*");
    reveal_strlit("\n\n");
    lemma_tag_names_distinct();
    lemma_only_listed_tags_are_junk(i);
    lemma_only_listed_tags_are_junk(p);
    lemma_md_text_plain(a@);
    lemma_md_text_plain(b@);
    assert(md_nodes_without_junk(Seq::<HtmlNode>::empty()) == Seq::<char>::empty());
    let bi = seq![HtmlNode::Text(b)];
    assert(bi.drop_last() == Seq::<HtmlNode>::empty());
    assert(bi.last() == HtmlNode::Text(b));
    assert(md_node_without_junk(HtmlNode::Text(b)) == b@);
    assert(md_nodes_without_junk(bi) == Seq::<char>::empty() + b@);
    assert(md_node_without_junk(HtmlNode::Element(i)) == "*"@ + b@ + "*"@);
    let pc = seq![HtmlNode::Text(a), HtmlNode::Element(i)];
    assert(pc.drop_last() == seq![HtmlNode::Text(a)]);
    assert(pc.last() == HtmlNode::Element(i));
    assert(seq![HtmlNode::Text(a)].drop_last() == Seq::<HtmlNode>::empty());
    assert(seq![HtmlNode::Text(a)].last() == HtmlNode::Text(a));
    assert(md_node_without_junk(HtmlNode::Text(a)) == a@);
    assert(md_nodes_without_junk(seq![HtmlNode::Text(a)]) == Seq::<char>::empty() + a@);
    assert(md_nodes_without_junk(pc) == a@ + ("*"@ + b@ + "*"@));
    let cc = seq![HtmlNode::Element(p)];
    assert(cc.drop_last() == Seq::<HtmlNode>::empty());
    assert(cc.last() == HtmlNode::Element(p));
    assert(md_node_without_junk(HtmlNode::Element(p)) == Seq::<char>::empty() + (a@ + ("*"@ + b@
        + "*"@)) + "\n\n"@);
    assert(md_nodes_without_junk(cc) == Seq::<char>::empty() + md_node_without_junk(
        HtmlNode::Element(p),
    ));
}

/// Replacing a character that does not occur changes nothing.
proof fn lemma_replace_absent(s: Seq<char>, c: char, rep: Seq<char>)
    requires
        forall|k: int| 0 <= k < s.len() ==> s[k] != c,
    ensures
        replace_all(s, seq![c], rep) == s,
    decreases s.len(),
{
    if s.len() > 0 {
        assert(!starts_with(s, seq![c])) by {
            assert(s.take(1)[0] == s[0]);
        }
        lemma_replace_absent(s.drop_first(), c, rep);
        assert(seq![s[0]] + s.drop_first() == s);
    }
}

/// Text without `*` or `-` is its own Markdown.
pub proof fn lemma_md_text_plain(t: Seq<char>)
    requires
        forall|k: int| 0 <= k < t.len() ==> t[k] != '*' && t[k] != '-',
    ensures
        md_text(t) == t,
{
    reveal_strlit("*");
    reveal_strlit("-");
    assert("*"@ == seq!['*']);
    assert("-"@ == seq!['-']);
    lemma_replace_absent(t, '*', "\\*"@);
    lemma_replace_absent(t, '-', "\\-"@);
}

} // verus!

verus! {

/// The tag names that the Markdown and junk rules name are all different.
proof fn lemma_tag_names_distinct()
    ensures
        "p"@ != "br"@,
        "p"@ != "h1"@,
        "p"@ != "h2"@,
        "p"@ != "h3"@,
        "p"@ != "h4"@,
        "p"@ != "h5"@,
        "p"@ != "h6"@,
        "p"@ != "strong"@,
        "p"@ != "b"@,
        "p"@ != "em"@,
        "p"@ != "i"@,
        "p"@ != "u"@,
        "p"@ != "s"@,
        "p"@ != "strike"@,
        "p"@ != "del"@,
        "p"@ != "div"@,
        "p"@ != "script"@,
        "p"@ != "iframe"@,
        "p"@ != "ul"@,
        "p"@ != "nav"@,
        "p"@ != "dialog"@,
        "p"@ != "style"@,
        "br"@ != "h1"@,
        "br"@ != "h2"@,
        "br"@ != "h3"@,
        "br"@ != "h4"@,
        "br"@ != "h5"@,
        "br"@ != "h6"@,
        "br"@ != "strong"@,
        "br"@ != "b"@,
        "br"@ != "em"@,
        "br"@ != "i"@,
        "br"@ != "u"@,
        "br"@ != "s"@,
        "br"@ != "strike"@,
        "br"@ != "del"@,
        "br"@ != "div"@,
        "br"@ != "script"@,
        "br"@ != "iframe"@,
        "br"@ != "ul"@,
        "br"@ != "nav"@,
        "br"@ != "dialog"@,
        "br"@ != "style"@,
        "h1"@ != "h2"@,
        "h1"@ != "h3"@,
        "h1"@ != "h4"@,
        "h1"@ != "h5"@,
        "h1"@ != "h6"@,
        "h1"@ != "strong"@,
        "h1"@ != "b"@,
        "h1"@ != "em"@,
        "h1"@ != "i"@,
        "h1"@ != "u"@,
        "h1"@ != "s"@,
        "h1"@ != "strike"@,
        "h1"@ != "del"@,
        "h1"@ != "div"@,
        "h1"@ != "script"@,
        "h1"@ != "iframe"@,
        "h1"@ != "ul"@,
        "h1"@ != "nav"@,
        "h1"@ != "dialog"@,
        "h1"@ != "style"@,
        "h2"@ != "h3"@,
        "h2"@ != "h4"@,
        "h2"@ != "h5"@,
        "h2"@ != "h6"@,
        "h2"@ != "strong"@,
        "h2"@ != "b"@,
        "h2"@ != "em"@,
        "h2"@ != "i"@,
        "h2"@ != "u"@,
        "h2"@ != "s"@,
        "h2"@ != "strike"@,
        "h2"@ != "del"@,
        "h2"@ != "div"@,
        "h2"@ != "script"@,
        "h2"@ != "iframe"@,
        "h2"@ != "ul"@,
        "h2"@ != "nav"@,
        "h2"@ != "dialog"@,
        "h2"@ != "style"@,
        "h3"@ != "h4"@,
        "h3"@ != "h5"@,
        "h3"@ != "h6"@,
        "h3"@ != "strong"@,
        "h3"@ != "b"@,
        "h3"@ != "em"@,
        "h3"@ != "i"@,
        "h3"@ != "u"@,
        "h3"@ != "s"@,
        "h3"@ != "strike"@,
        "h3"@ != "del"@,
        "h3"@ != "div"@,
        "h3"@ != "script"@,
        "h3"@ != "iframe"@,
        "h3"@ != "ul"@,
        "h3"@ != "nav"@,
        "h3"@ != "dialog"@,
        "h3"@ != "style"@,
        "h4"@ != "h5"@,
        "h4"@ != "h6"@,
        "h4"@ != "strong"@,
        "h4"@ != "b"@,
        "h4"@ != "em"@,
        "h4"@ != "i"@,
        "h4"@ != "u"@,
        "h4"@ != "s"@,
        "h4"@ != "strike"@,
        "h4"@ != "del"@,
        "h4"@ != "div"@,
        "h4"@ != "script"@,
        "h4"@ != "iframe"@,
        "h4"@ != "ul"@,
        "h4"@ != "nav"@,
        "h4"@ != "dialog"@,
        "h4"@ != "style"@,
        "h5"@ != "h6"@,
        "h5"@ != "strong"@,
        "h5"@ != "b"@,
        "h5"@ != "em"@,
        "h5"@ != "i"@,
        "h5"@ != "u"@,
        "h5"@ != "s"@,
        "h5"@ != "strike"@,
        "h5"@ != "del"@,
        "h5"@ != "div"@,
        "h5"@ != "script"@,
        "h5"@ != "iframe"@,
        "h5"@ != "ul"@,
        "h5"@ != "nav"@,
        "h5"@ != "dialog"@,
        "h5"@ != "style"@,
        "h6"@ != "strong"@,
        "h6"@ != "b"@,
        "h6"@ != "em"@,
        "h6"@ != "i"@,
        "h6"@ != "u"@,
        "h6"@ != "s"@,
        "h6"@ != "strike"@,
        "h6"@ != "del"@,
        "h6"@ != "div"@,
        "h6"@ != "script"@,
        "h6"@ != "iframe"@,
        "h6"@ != "ul"@,
        "h6"@ != "nav"@,
        "h6"@ != "dialog"@,
        "h6"@ != "style"@,
        "strong"@ != "b"@,
        "strong"@ != "em"@,
        "strong"@ != "i"@,
        "strong"@ != "u"@,
        "strong"@ != "s"@,
        "strong"@ != "strike"@,
        "strong"@ != "del"@,
        "strong"@ != "div"@,
        "strong"@ != "script"@,
        "strong"@ != "iframe"@,
        "strong"@ != "ul"@,
        "strong"@ != "nav"@,
        "strong"@ != "dialog"@,
        "strong"@ != "style"@,
        "b"@ != "em"@,
        "b"@ != "i"@,
        "b"@ != "u"@,
        "b"@ != "s"@,
        "b"@ != "strike"@,
        "b"@ != "del"@,
        "b"@ != "div"@,
        "b"@ != "script"@,
        "b"@ != "iframe"@,
        "b"@ != "ul"@,
        "b"@ != "nav"@,
        "b"@ != "dialog"@,
        "b"@ != "style"@,
        "em"@ != "i"@,
        "em"@ != "u"@,
        "em"@ != "s"@,
        "em"@ != "strike"@,
        "em"@ != "del"@,
        "em"@ != "div"@,
        "em"@ != "script"@,
        "em"@ != "iframe"@,
        "em"@ != "ul"@,
        "em"@ != "nav"@,
        "em"@ != "dialog"@,
        "em"@ != "style"@,
        "i"@ != "u"@,
        "i"@ != "s"@,
        "i"@ != "strike"@,
        "i"@ != "del"@,
        "i"@ != "div"@,
        "i"@ != "script"@,
        "i"@ != "iframe"@,
        "i"@ != "ul"@,
        "i"@ != "nav"@,
        "i"@ != "dialog"@,
        "i"@ != "style"@,
        "u"@ != "s"@,
        "u"@ != "strike"@,
        "u"@ != "del"@,
        "u"@ != "div"@,
        "u"@ != "script"@,
        "u"@ != "iframe"@,
        "u"@ != "ul"@,
        "u"@ != "nav"@,
        "u"@ != "dialog"@,
        "u"@ != "style"@,
        "s"@ != "strike"@,
        "s"@ != "del"@,
        "s"@ != "div"@,
        "s"@ != "script"@,
        "s"@ != "iframe"@,
        "s"@ != "ul"@,
        "s"@ != "nav"@,
        "s"@ != "dialog"@,
        "s"@ != "style"@,
        "strike"@ != "del"@,
        "strike"@ != "div"@,
        "strike"@ != "script"@,
        "strike"@ != "iframe"@,
        "strike"@ != "ul"@,
        "strike"@ != "nav"@,
        "strike"@ != "dialog"@,
        "strike"@ != "style"@,
        "del"@ != "div"@,
        "del"@ != "script"@,
        "del"@ != "iframe"@,
        "del"@ != "ul"@,
        "del"@ != "nav"@,
        "del"@ != "dialog"@,
        "del"@ != "style"@,
        "div"@ != "script"@,
        "div"@ != "iframe"@,
        "div"@ != "ul"@,
        "div"@ != "nav"@,
        "div"@ != "dialog"@,
        "div"@ != "style"@,
        "script"@ != "iframe"@,
        "script"@ != "ul"@,
        "script"@ != "nav"@,
        "script"@ != "dialog"@,
        "script"@ != "style"@,
        "iframe"@ != "ul"@,
        "iframe"@ != "nav"@,
        "iframe"@ != "dialog"@,
        "iframe"@ != "style"@,
        "ul"@ != "nav"@,
        "ul"@ != "dialog"@,
        "ul"@ != "style"@,
        "nav"@ != "dialog"@,
        "nav"@ != "style"@,
        "dialog"@ != "style"@,
{
    reveal_strlit("p");
    reveal_strlit("br");
    reveal_strlit("h1");
    reveal_strlit("h2");
    reveal_strlit("h3");
    reveal_strlit("h4");
    reveal_strlit("h5");
    reveal_strlit("h6");
    reveal_strlit("strong");
    reveal_strlit("b");
    reveal_strlit("em");
    reveal_strlit("i");
    reveal_strlit("u");
    reveal_strlit("s");
    reveal_strlit("strike");
    reveal_strlit("del");
    reveal_strlit("div");
    reveal_strlit("script");
    reveal_strlit("iframe");
    reveal_strlit("ul");
    reveal_strlit("nav");
    reveal_strlit("dialog");
    reveal_strlit("style");
    assert("p"@.len() != "br"@.len());
    assert("p"@.len() != "h1"@.len());
    assert("p"@.len() != "h2"@.len());
    assert("p"@.len() != "h3"@.len());
    assert("p"@.len() != "h4"@.len());
    assert("p"@.len() != "h5"@.len());
    assert("p"@.len() != "h6"@.len());
    assert("p"@.len() != "strong"@.len());
    assert("p"@.len() != "em"@.len());
    assert("p"@.len() != "strike"@.len());
    assert("p"@.len() != "del"@.len());
    assert("p"@.len() != "div"@.len());
    assert("p"@.len() != "script"@.len());
    assert("p"@.len() != "iframe"@.len());
    assert("p"@.len() != "ul"@.len());
    assert("p"@.len() != "nav"@.len());
    assert("p"@.len() != "dialog"@.len());
    assert("p"@.len() != "style"@.len());
    assert("br"@.len() != "strong"@.len());
    assert("br"@.len() != "b"@.len());
    assert("br"@.len() != "i"@.len());
    assert("br"@.len() != "u"@.len());
    assert("br"@.len() != "s"@.len());
    assert("br"@.len() != "strike"@.len());
    assert("br"@.len() != "del"@.len());
    assert("br"@.len() != "div"@.len());
    assert("br"@.len() != "script"@.len());
    assert("br"@.len() != "iframe"@.len());
    assert("br"@.len() != "nav"@.len());
    assert("br"@.len() != "dialog"@.len());
    assert("br"@.len() != "style"@.len());
    assert("h1"@.len() != "strong"@.len());
    assert("h1"@.len() != "b"@.len());
    assert("h1"@.len() != "i"@.len());
    assert("h1"@.len() != "u"@.len());
    assert("h1"@.len() != "s"@.len());
    assert("h1"@.len() != "strike"@.len());
    assert("h1"@.len() != "del"@.len());
    assert("h1"@.len() != "div"@.len());
    assert("h1"@.len() != "script"@.len());
    assert("h1"@.len() != "iframe"@.len());
    assert("h1"@.len() != "nav"@.len());
    assert("h1"@.len() != "dialog"@.len());
    assert("h1"@.len() != "style"@.len());
    assert("h2"@.len() != "strong"@.len());
    assert("h2"@.len() != "b"@.len());
    assert("h2"@.len() != "i"@.len());
    assert("h2"@.len() != "u"@.len());
    assert("h2"@.len() != "s"@.len());
    assert("h2"@.len() != "strike"@.len());
    assert("h2"@.len() != "del"@.len());
    assert("h2"@.len() != "div"@.len());
    assert("h2"@.len() != "script"@.len());
    assert("h2"@.len() != "iframe"@.len());
    assert("h2"@.len() != "nav"@.len());
    assert("h2"@.len() != "dialog"@.len());
    assert("h2"@.len() != "style"@.len());
    assert("h3"@.len() != "strong"@.len());
    assert("h3"@.len() != "b"@.len());
    assert("h3"@.len() != "i"@.len());
    assert("h3"@.len() != "u"@.len());
    assert("h3"@.len() != "s"@.len());
    assert("h3"@.len() != "strike"@.len());
    assert("h3"@.len() != "del"@.len());
    assert("h3"@.len() != "div"@.len());
    assert("h3"@.len() != "script"@.len());
    assert("h3"@.len() != "iframe"@.len());
    assert("h3"@.len() != "nav"@.len());
    assert("h3"@.len() != "dialog"@.len());
    assert("h3"@.len() != "style"@.len());
    assert("h4"@.len() != "strong"@.len());
    assert("h4"@.len() != "b"@.len());
    assert("h4"@.len() != "i"@.len());
    assert("h4"@.len() != "u"@.len());
    assert("h4"@.len() != "s"@.len());
    assert("h4"@.len() != "strike"@.len());
    assert("h4"@.len() != "del"@.len());
    assert("h4"@.len() != "div"@.len());
    assert("h4"@.len() != "script"@.len());
    assert("h4"@.len() != "iframe"@.len());
    assert("h4"@.len() != "nav"@.len());
    assert("h4"@.len() != "dialog"@.len());
    assert("h4"@.len() != "style"@.len());
    assert("h5"@.len() != "strong"@.len());
    assert("h5"@.len() != "b"@.len());
    assert("h5"@.len() != "i"@.len());
    assert("h5"@.len() != "u"@.len());
    assert("h5"@.len() != "s"@.len());
    assert("h5"@.len() != "strike"@.len());
    assert("h5"@.len() != "del"@.len());
    assert("h5"@.len() != "div"@.len());
    assert("h5"@.len() != "script"@.len());
    assert("h5"@.len() != "iframe"@.len());
    assert("h5"@.len() != "nav"@.len());
    assert("h5"@.len() != "dialog"@.len());
    assert("h5"@.len() != "style"@.len());
    assert("h6"@.len() != "strong"@.len());
    assert("h6"@.len() != "b"@.len());
    assert("h6"@.len() != "i"@.len());
    assert("h6"@.len() != "u"@.len());
    assert("h6"@.len() != "s"@.len());
    assert("h6"@.len() != "strike"@.len());
    assert("h6"@.len() != "del"@.len());
    assert("h6"@.len() != "div"@.len());
    assert("h6"@.len() != "script"@.len());
    assert("h6"@.len() != "iframe"@.len());
    assert("h6"@.len() != "nav"@.len());
    assert("h6"@.len() != "dialog"@.len());
    assert("h6"@.len() != "style"@.len());
    assert("strong"@.len() != "b"@.len());
    assert("strong"@.len() != "em"@.len());
    assert("strong"@.len() != "i"@.len());
    assert("strong"@.len() != "u"@.len());
    assert("strong"@.len() != "s"@.len());
    assert("strong"@.len() != "del"@.len());
    assert("strong"@.len() != "div"@.len());
    assert("strong"@.len() != "ul"@.len());
    assert("strong"@.len() != "nav"@.len());
    assert("strong"@.len() != "style"@.len());
    assert("b"@.len() != "em"@.len());
    assert("b"@.len() != "strike"@.len());
    assert("b"@.len() != "del"@.len());
    assert("b"@.len() != "div"@.len());
    assert("b"@.len() != "script"@.len());
    assert("b"@.len() != "iframe"@.len());
    assert("b"@.len() != "ul"@.len());
    assert("b"@.len() != "nav"@.len());
    assert("b"@.len() != "dialog"@.len());
    assert("b"@.len() != "style"@.len());
    assert("em"@.len() != "i"@.len());
    assert("em"@.len() != "u"@.len());
    assert("em"@.len() != "s"@.len());
    assert("em"@.len() != "strike"@.len());
    assert("em"@.len() != "del"@.len());
    assert("em"@.len() != "div"@.len());
    assert("em"@.len() != "script"@.len());
    assert("em"@.len() != "iframe"@.len());
    assert("em"@.len() != "nav"@.len());
    assert("em"@.len() != "dialog"@.len());
    assert("em"@.len() != "style"@.len());
    assert("i"@.len() != "strike"@.len());
    assert("i"@.len() != "del"@.len());
    assert("i"@.len() != "div"@.len());
    assert("i"@.len() != "script"@.len());
    assert("i"@.len() != "iframe"@.len());
    assert("i"@.len() != "ul"@.len());
    assert("i"@.len() != "nav"@.len());
    assert("i"@.len() != "dialog"@.len());
    assert("i"@.len() != "style"@.len());
    assert("u"@.len() != "strike"@.len());
    assert("u"@.len() != "del"@.len());
    assert("u"@.len() != "div"@.len());
    assert("u"@.len() != "script"@.len());
    assert("u"@.len() != "iframe"@.len());
    assert("u"@.len() != "ul"@.len());
    assert("u"@.len() != "nav"@.len());
    assert("u"@.len() != "dialog"@.len());
    assert("u"@.len() != "style"@.len());
    assert("s"@.len() != "strike"@.len());
    assert("s"@.len() != "del"@.len());
    assert("s"@.len() != "div"@.len());
    assert("s"@.len() != "script"@.len());
    assert("s"@.len() != "iframe"@.len());
    assert("s"@.len() != "ul"@.len());
    assert("s"@.len() != "nav"@.len());
    assert("s"@.len() != "dialog"@.len());
    assert("s"@.len() != "style"@.len());
    assert("strike"@.len() != "del"@.len());
    assert("strike"@.len() != "div"@.len());
    assert("strike"@.len() != "ul"@.len());
    assert("strike"@.len() != "nav"@.len());
    assert("strike"@.len() != "style"@.len());
    assert("del"@.len() != "script"@.len());
    assert("del"@.len() != "iframe"@.len());
    assert("del"@.len() != "ul"@.len());
    assert("del"@.len() != "dialog"@.len());
    assert("del"@.len() != "style"@.len());
    assert("div"@.len() != "script"@.len());
    assert("div"@.len() != "iframe"@.len());
    assert("div"@.len() != "ul"@.len());
    assert("div"@.len() != "dialog"@.len());
    assert("div"@.len() != "style"@.len());
    assert("script"@.len() != "ul"@.len());
    assert("script"@.len() != "nav"@.len());
    assert("script"@.len() != "style"@.len());
    assert("iframe"@.len() != "ul"@.len());
    assert("iframe"@.len() != "nav"@.len());
    assert("iframe"@.len() != "style"@.len());
    assert("ul"@.len() != "nav"@.len());
    assert("ul"@.len() != "dialog"@.len());
    assert("ul"@.len() != "style"@.len());
    assert("nav"@.len() != "dialog"@.len());
    assert("nav"@.len() != "style"@.len());
    assert("dialog"@.len() != "style"@.len());
    assert("p"@[0] != "b"@[0]);
    assert("p"@[0] != "i"@[0]);
    assert("p"@[0] != "u"@[0]);
    assert("p"@[0] != "s"@[0]);
    assert("br"@[0] != "h1"@[0]);
    assert("br"@[0] != "h2"@[0]);
    assert("br"@[0] != "h3"@[0]);
    assert("br"@[0] != "h4"@[0]);
    assert("br"@[0] != "h5"@[0]);
    assert("br"@[0] != "h6"@[0]);
    assert("br"@[0] != "em"@[0]);
    assert("br"@[0] != "ul"@[0]);
    assert("h1"@[1] != "h2"@[1]);
    assert("h1"@[1] != "h3"@[1]);
    assert("h1"@[1] != "h4"@[1]);
    assert("h1"@[1] != "h5"@[1]);
    assert("h1"@[1] != "h6"@[1]);
    assert("h1"@[0] != "em"@[0]);
    assert("h1"@[0] != "ul"@[0]);
    assert("h2"@[1] != "h3"@[1]);
    assert("h2"@[1] != "h4"@[1]);
    assert("h2"@[1] != "h5"@[1]);
    assert("h2"@[1] != "h6"@[1]);
    assert("h2"@[0] != "em"@[0]);
    assert("h2"@[0] != "ul"@[0]);
    assert("h3"@[1] != "h4"@[1]);
    assert("h3"@[1] != "h5"@[1]);
    assert("h3"@[1] != "h6"@[1]);
    assert("h3"@[0] != "em"@[0]);
    assert("h3"@[0] != "ul"@[0]);
    assert("h4"@[1] != "h5"@[1]);
    assert("h4"@[1] != "h6"@[1]);
    assert("h4"@[0] != "em"@[0]);
    assert("h4"@[0] != "ul"@[0]);
    assert("h5"@[1] != "h6"@[1]);
    assert("h5"@[0] != "em"@[0]);
    assert("h5"@[0] != "ul"@[0]);
    assert("h6"@[0] != "em"@[0]);
    assert("h6"@[0] != "ul"@[0]);
    assert("strong"@[3] != "strike"@[3]);
    assert("strong"@[1] != "script"@[1]);
    assert("strong"@[0] != "iframe"@[0]);
    assert("strong"@[0] != "dialog"@[0]);
    assert("b"@[0] != "i"@[0]);
    assert("b"@[0] != "u"@[0]);
    assert("b"@[0] != "s"@[0]);
    assert("em"@[0] != "ul"@[0]);
    assert("i"@[0] != "u"@[0]);
    assert("i"@[0] != "s"@[0]);
    assert("u"@[0] != "s"@[0]);
    assert("strike"@[1] != "script"@[1]);
    assert("strike"@[0] != "iframe"@[0]);
    assert("strike"@[0] != "dialog"@[0]);
    assert("del"@[1] != "div"@[1]);
    assert("del"@[0] != "nav"@[0]);
    assert("div"@[0] != "nav"@[0]);
    assert("script"@[0] != "iframe"@[0]);
    assert("script"@[0] != "dialog"@[0]);
    assert("iframe"@[0] != "dialog"@[0]);
}

} // verus!

verus! {

/// Replacing one character distributes over joined text.
proof fn lemma_replace_char_append(a: Seq<char>, b: Seq<char>, c: char, r: Seq<char>)
    ensures
        replace_all(a + b, seq![c], r) == replace_all(a, seq![c], r) + replace_all(b, seq![c], r),
    decreases a.len(),
{
    let p = seq![c];
    if a.len() == 0 {
        assert(a + b == b);
        assert(Seq::<char>::empty() + replace_all(b, p, r) == replace_all(b, p, r));
    } else {
        let ab = a + b;
        assert(ab[0] == a[0]);
        assert(starts_with(ab, p) == (ab[0] == c)) by {
            if ab[0] == c {
                assert(ab.take(1) == p);
            } else {
                assert(ab.take(1)[0] != p[0]);
            }
        }
        assert(starts_with(a, p) == (a[0] == c)) by {
            if a[0] == c {
                assert(a.take(1) == p);
            } else {
                assert(a.take(1)[0] != p[0]);
            }
        }
        assert(ab.skip(1) == a.skip(1) + b);
        assert(ab.drop_first() == a.drop_first() + b);
        assert(a.skip(1) == a.drop_first());
        lemma_replace_char_append(a.drop_first(), b, c, r);
    }
}

/// Replacing one character in a one-character text.
proof fn lemma_replace_char_single(x: char, c: char, r: Seq<char>)
    ensures
        replace_all(seq![x], seq![c], r) == (if x == c {
            r
        } else {
            seq![x]
        }),
{
    let s = seq![x];
    let p = seq![c];
    assert(p.len() == 1);
    assert(s.skip(1) == Seq::<char>::empty());
    assert(s.drop_first() == Seq::<char>::empty());
    assert(replace_all(Seq::<char>::empty(), p, r) == Seq::<char>::empty());
    assert(s[0] == x);
    if x == c {
        assert(s.take(1) == p);
        assert(r + Seq::<char>::empty() == r);
    } else {
        assert(s.take(1)[0] != p[0]);
        assert(seq![x] + Seq::<char>::empty() == seq![x]);
    }
}

/// `t` with a backslash before every `*` and every `-`.
pub open spec fn escaped(t: Seq<char>) -> Seq<char>
    decreases t.len(),
{
    if t.len() == 0 {
        seq![]
    } else {
        escaped(t.drop_last()) + if t.last() == '*' {
            seq!['\\', '*']
        } else if t.last() == '-' {
            seq!['\\', '-']
        } else {
            seq![t.last()]
        }
    }
}

proof fn lemma_escape_passes(t: Seq<char>)
    ensures
        replace_all(replace_all(t, "*"@, "\\*"@), "-"@, "\\-"@) == escaped(t),
    decreases t.len(),
{
    reveal_strlit("*");
    reveal_strlit("-");
    reveal_strlit("\\*");
    reveal_strlit("\\-");
    assert("*"@ == seq!['*']);
    assert("-"@ == seq!['-']);
    assert("\\*"@ == seq!['\\', '*']);
    assert("\\-"@ == seq!['\\', '-']);
    if t.len() == 0 {
    } else {
        let h = t.drop_last();
        let x = t.last();
        assert(t == h + seq![x]);
        lemma_escape_passes(h);
        lemma_replace_char_append(h, seq![x], '*', "\\*"@);
        lemma_replace_char_single(x, '*', "\\*"@);
        let r1 = replace_all(seq![x], "*"@, "\\*"@);
        lemma_replace_char_append(replace_all(h, "*"@, "\\*"@), r1, '-', "\\-"@);
        if x == '*' {
            lemma_replace_absent(seq!['\\', '*'], '-', "\\-"@);
        } else {
            lemma_replace_char_single(x, '-', "\\-"@);
        }
    }
}

/// Each character of `t` takes at least one byte.
proof fn lemma_utf8_at_least_chars(t: Seq<char>)
    ensures
        encode_utf8(t).len() >= t.len(),
    decreases t.len(),
{
    if t.len() > 0 {
        lemma_utf8_at_least_chars(t.drop_first());
    }
}

/// The Markdown of a text node: a rule of three or more dashes and spaces is
/// kept as it is; any text with another character gets a backslash before
/// each `*` and each `-`, and is otherwise kept.
pub proof fn lemma_md_text_rules(t: Seq<char>)
    ensures
        t.len() >= 3 && (forall|i: int| 0 <= i < t.len() ==> t[i] == '-' || t[i] == ' ')
            ==> md_text(t) == t,
        (exists|i: int| 0 <= i < t.len() && t[i] != '-' && !is_white_space(t[i])) ==> md_text(t)
            == escaped(t),
{
    lemma_utf8_at_least_chars(t);
    lemma_escape_passes(t);
    if exists|i: int| 0 <= i < t.len() && t[i] != '-' && !is_white_space(t[i]) {
        let i = choose|i: int| 0 <= i < t.len() && t[i] != '-' && !is_white_space(t[i]);
        assert(!is_dash_or_space(t[i]));
    }
}

/// Text without a `****` is kept as it is by the removal of `****`: a chapter
/// whose Markdown has none is exactly that Markdown.
pub proof fn lemma_text_without_empty_bold_is_kept(s: Seq<char>)
    requires
        forall|i: int| !crate::text::occurs_at(s, "****"@, i),
    ensures
        replace_all(s, "****"@, Seq::empty()) == s,
    decreases s.len(),
{
    reveal_strlit("****");
    let p = "****"@;
    if s.len() > 0 {
        assert(!starts_with(s, p)) by {
            if starts_with(s, p) {
                assert(s.subrange(0, 4) == s.take(4));
                assert(crate::text::occurs_at(s, p, 0));
            }
        }
        let rest = s.drop_first();
        assert forall|i: int| !crate::text::occurs_at(rest, p, i) by {
            if crate::text::occurs_at(rest, p, i) {
                assert(s.subrange(i + 1, i + 5) == rest.subrange(i, i + 4));
                assert(crate::text::occurs_at(s, p, i + 1));
            }
        }
        lemma_text_without_empty_bold_is_kept(rest);
        assert(seq![s[0]] + rest == s);
    }
}

} // verus!
