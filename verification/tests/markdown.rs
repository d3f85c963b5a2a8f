use novelfire::markdown::{
    convert_element_to_markdown, convert_tag_to_markdown, extract_chapter_text, remove_junk, HtmlElement,
    HtmlNode,
};
use novelfire::model::SourceError;

fn text(t: &str) -> HtmlNode {
    HtmlNode::Text(t.into())
}

fn el(tag: &str, children: Vec<HtmlNode>) -> HtmlNode {
    HtmlNode::Element(HtmlElement { tag: tag.into(), children })
}

fn content(nodes: Vec<HtmlNode>) -> HtmlElement {
    HtmlElement { tag: "div".into(), children: nodes }
}

fn md(nodes: Vec<HtmlNode>) -> String {
    let mut out = Vec::new();
    convert_element_to_markdown(&content(nodes), &mut out);
    out.into_iter().collect()
}

#[test]
fn tags_become_markdown() {
    assert_eq!(md(vec![el("p", vec![text("Hello")])]), "Hello\n\n");
    assert_eq!(md(vec![el("br", vec![text("ignored")])]), "  \n");
    assert_eq!(md(vec![el("h1", vec![text("T")])]), "# T\n\n");
    assert_eq!(md(vec![el("h3", vec![text("T")])]), "### T\n\n");
    assert_eq!(md(vec![el("h6", vec![text("T")])]), "###### T\n\n");
    assert_eq!(md(vec![el("strong", vec![text("b")]), el("b", vec![text("c")])]), "**b****c**");
    assert_eq!(md(vec![el("em", vec![text("x")]), el("i", vec![text("y")])]), "*x**y*");
    assert_eq!(md(vec![el("u", vec![text("u")])]), "__u__");
    assert_eq!(md(vec![el("s", vec![text("a")]), el("strike", vec![text("b")]), el("del", vec![text("c")])]), "~~a~~~~b~~~~c~~");
    assert_eq!(md(vec![el("span", vec![text("plain")]), el("", vec![text("!")])]), "plain!");
    assert_eq!(md(vec![HtmlNode::Other, text("t")]), "t");
    assert_eq!(md(vec![el("p", vec![text("a "), el("em", vec![text("b")]), text(" c")])]), "a *b* c\n\n");
}

#[test]
fn text_is_escaped_unless_it_is_a_rule() {
    assert_eq!(md(vec![text("a*b-c")]), "a\\*b\\-c");
    assert_eq!(md(vec![text("---")]), "---");
    assert_eq!(md(vec![text(" - - ")]), " - - ");
    assert_eq!(md(vec![text("--")]), "\\-\\-");
    assert_eq!(md(vec![text("\u{2014}")]), "\u{2014}");
    assert_eq!(md(vec![text("-\u{3000}")]), "-\u{3000}");
    assert_eq!(md(vec![text("- ")]), "\\- ");
}

fn junk_page() -> Vec<HtmlNode> {
    vec![
        el("p", vec![text("one")]),
        el("div", vec![el("p", vec![text("ad")])]),
        el("script", vec![text("x()")]),
        el("p", vec![text("two"), el("iframe", vec![]), el("nav", vec![text("menu")])]),
        el("ul", vec![text("list")]),
        el("dialog", vec![text("d")]),
        el("style", vec![text("s")]),
    ]
}

#[test]
fn conversion_keeps_every_element() {
    assert_eq!(md(vec![el("div", vec![el("br", vec![])])]), "  \n");
    assert_eq!(md(vec![el("p", vec![el("div", vec![text("x")])])]), "x\n\n");
    assert_eq!(md(junk_page()), "one\n\nad\n\nx()twomenu\n\nlistds");
}

#[test]
fn junk_is_removed_at_every_depth() {
    let cleaned = remove_junk(&content(junk_page()));
    assert_eq!(cleaned.len(), 2);
    let mut out = Vec::new();
    convert_element_to_markdown(&content(cleaned), &mut out);
    assert_eq!(out.into_iter().collect::<String>(), "one\n\ntwo\n\n");
    assert_eq!(extract_chapter_text(&Some(content(junk_page()))).unwrap(), "one\n\ntwo\n\n");
    let kept = remove_junk(&content(vec![HtmlNode::Other, text("t"), el("span", vec![el("ul", vec![])])]));
    assert_eq!(kept.len(), 3);
    assert!(matches!(&kept[2], HtmlNode::Element(e) if e.tag == "span" && e.children.is_empty()));
}

#[test]
fn chapter_text_drops_empty_bold_and_needs_text() {
    let nodes = Some(content(vec![el("p", vec![text("Mordret "), el("strong", vec![]), text("smiled")])]));
    assert_eq!(extract_chapter_text(&nodes).unwrap(), "Mordret smiled\n\n");
    assert_eq!(extract_chapter_text(&None).unwrap_err(), SourceError::ChapterTextNotFound);
    let blank = Some(content(vec![el("p", vec![text("  ")]), el("div", vec![text("ad")])]));
    let e = extract_chapter_text(&blank).unwrap_err();
    assert_eq!(e, SourceError::ChapterTextNotFound);
    assert_eq!(e.message(), "chapter text not found");
    let stars = Some(content(vec![el("p", vec![el("b", vec![]), el("b", vec![]), text("x")])]));
    assert_eq!(extract_chapter_text(&stars).unwrap(), "x\n\n");
}

#[test]
fn a_tag_converts_itself() {
    let mut out = Vec::new();
    convert_tag_to_markdown(&HtmlElement { tag: "h2".into(), children: vec![text("Part *1*")] }, &mut out);
    assert_eq!(out.into_iter().collect::<String>(), "## Part \\*1\\*\n\n");
    let mut out = vec!['>'];
    convert_tag_to_markdown(&HtmlElement { tag: "script".into(), children: vec![text("x")] }, &mut out);
    assert_eq!(out, vec!['>', 'x']);
}
