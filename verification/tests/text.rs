use novelfire::text::{
    chars_of, decimal, split_any_on, split_on, trim_chars, trim_start_chars, white_space,
};

fn s(v: &[char]) -> String {
    v.iter().collect()
}

#[test]
fn chars_of_keeps_every_character() {
    assert_eq!(chars_of("a\u{e9}\u{1F600}z"), vec!['a', '\u{e9}', '\u{1F600}', 'z']);
    assert!(chars_of("").is_empty());
}

#[test]
fn white_space_agrees_with_std_for_every_char() {
    for u in 0u32..=0x10FFFF {
        if let Some(c) = char::from_u32(u) {
            assert_eq!(white_space(c), c.is_whitespace(), "U+{:04X}", u);
        }
    }
}

#[test]
fn trimming_agrees_with_std() {
    let samples = [
        "",
        "   ",
        "  a b  ",
        "\u{3000}x\u{a0}",
        "\t\n title \r\n",
        "no-space",
        "\u{85}\u{2028}mid\u{2029}\u{202f}",
    ];
    for t in samples {
        assert_eq!(s(&trim_chars(&chars_of(t))), t.trim());
        assert_eq!(s(&trim_start_chars(&chars_of(t))), t.trim_start());
    }
}

#[test]
fn split_on_agrees_with_std() {
    let samples = [
        ("https://novelfire.net/book/a/book/b", "/book/"),
        ("/book/", "/book/"),
        ("no separator", "/book/"),
        ("aaaa", "aa"),
        ("aaa", "aa"),
        ("", "x"),
    ];
    for (text, sep) in samples {
        let ours: Vec<String> = split_on(&chars_of(text), &chars_of(sep)).iter().map(|p| s(p)).collect();
        let std: Vec<String> = text.split(sep).map(|p| p.to_string()).collect();
        assert_eq!(ours, std, "{text:?} / {sep:?}");
    }
}

#[test]
fn split_any_on_agrees_with_std() {
    let stops = ['/', '?', '#'];
    let samples = ["a/b?c#d", "", "/", "plain", "x//y", "end?"];
    for text in samples {
        let ours: Vec<String> = split_any_on(&chars_of(text), &stops).iter().map(|p| s(p)).collect();
        let std: Vec<String> = text.split(stops).map(|p| p.to_string()).collect();
        assert_eq!(ours, std, "{text:?}");
    }
}

#[test]
fn decimal_agrees_with_display() {
    let samples = [0i64, 7, 9, 10, 42, 100, 2821, -1, -10, -2147483648, i64::MAX, i64::MIN];
    for n in samples {
        assert_eq!(s(&decimal(n)), n.to_string());
    }
}

#[test]
fn trimming_twice_is_trimming_once() {
    for t in ["  a  ", "\u{a0}\u{a0}", "x", " x y "] {
        let once = trim_chars(&chars_of(t));
        assert_eq!(trim_chars(&once), once);
    }
}
