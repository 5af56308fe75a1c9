use activity_digest::sanitize::{is_permitted, sanitize};

#[test]
fn sanitize_strips_markup_and_collapses_spaces() {
    assert_eq!(sanitize("Fix bug!! <script>"), "Fix bug script");
}

#[test]
fn sanitize_keeps_permitted_punctuation() {
    assert_eq!(sanitize("a/b (c): d; e.f & g+h-i"), "a/b (c): d; e.f & g+h-i");
}

#[test]
fn sanitize_collapses_runs_of_spaces() {
    assert_eq!(sanitize("a   b"), "a b");
    assert_eq!(sanitize("a ! b"), "a b");
    assert_eq!(sanitize("  lead"), " lead");
    assert_eq!(sanitize("trail  "), "trail ");
}

#[test]
fn sanitize_removes_other_whitespace() {
    assert_eq!(sanitize("a\nb"), "ab");
    assert_eq!(sanitize("a\tb"), "ab");
    assert_eq!(sanitize("a \n b"), "a b");
    assert_eq!(sanitize("a\u{a0}b"), "ab");
}

#[test]
fn sanitize_removes_markdown_and_non_ascii() {
    assert_eq!(sanitize("[link](url) _em_ *b* `c`"), "link(url) em b c");
    assert_eq!(sanitize("caf\u{e9} \u{1f528}"), "caf ");
    assert_eq!(sanitize(""), "");
}

#[test]
fn sanitize_is_idempotent_on_examples() {
    for title in ["Fix bug!! <script>", "a   b", " x  y ", "plain"] {
        let once = sanitize(title);
        assert_eq!(sanitize(&once), once);
    }
}

#[test]
fn permitted_characters() {
    for c in "azAZ09 /():;.&+-".chars() {
        assert!(is_permitted(c), "{c:?}");
    }
    for c in "!<>_*[]`#@,\n\t\"'\\{}=?%$^~|".chars() {
        assert!(!is_permitted(c), "{c:?}");
    }
}

#[test]
fn sanitize_agrees_with_the_two_patterns() {
    let unsafe_chars = regex::Regex::new(r#"[^0-9a-zA-Z /():;.&+-]"#).unwrap();
    let whitespace = regex::Regex::new(r#"\s+"#).unwrap();
    let titles = [
        "Fix bug!! <script>",
        "",
        " ",
        "   ",
        "a  b   c",
        "a\t\tb\n\nc",
        "tab\tand space \t mixed",
        "Bump serde from 1.0.1 to 1.0.2 (#123)",
        "feat(parser): support `async` blocks & closures; fixes #12",
        "\u{2000}en space\u{3000}ideographic",
        "emoji \u{1f528}\u{fe0f} title",
        "x - y + z / w : v",
        "!!  !!  !!",
        "end  ",
        "  start",
    ];
    for title in titles {
        let stripped = unsafe_chars.replace_all(title, "");
        let expected = whitespace.replace_all(&stripped, " ");
        assert_eq!(sanitize(title), expected, "{title:?}");
    }
}
