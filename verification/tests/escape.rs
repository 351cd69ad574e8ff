use rshtml_core::escape::{escape, escape_or_raw};

#[test]
fn escape_replaces_each_special_character() {
    assert_eq!(escape("&"), "&amp;");
    assert_eq!(escape("<"), "&lt;");
    assert_eq!(escape(">"), "&gt;");
    assert_eq!(escape("\""), "&quot;");
    assert_eq!(escape("'"), "&#39;");
    assert_eq!(escape("/"), "&#x2F;");
}

#[test]
fn escape_keeps_other_characters() {
    assert_eq!(escape(""), "");
    assert_eq!(escape("plain text 123"), "plain text 123");
    assert_eq!(escape("héllo wörld ✓"), "héllo wörld ✓");
}

#[test]
fn escape_works_left_to_right() {
    assert_eq!(escape("a<b>c"), "a&lt;b&gt;c");
    assert_eq!(
        escape("<a href=\"/x?y=1&z='2'\">"),
        "&lt;a href=&quot;&#x2F;x?y=1&amp;z=&#39;2&#39;&quot;&gt;"
    );
}

#[test]
fn escape_twice_differs_from_escape_once() {
    let once = escape("<b>");
    let twice = escape(&once);
    assert_eq!(once, "&lt;b&gt;");
    assert_eq!(twice, "&amp;lt;b&amp;gt;");
    assert_ne!(once, twice);
}

#[test]
fn escape_twice_of_plain_text_is_the_text() {
    let once = escape("nothing special");
    assert_eq!(escape(&once), once);
}

#[test]
fn escape_goes_through_concatenation() {
    let whole = escape("a&b<c");
    let parts = format!("{}{}", escape("a&"), escape("b<c"));
    assert_eq!(whole, parts);
}

#[test]
fn escape_or_raw_escapes_when_flagged() {
    assert_eq!(escape_or_raw("<i>x</i>", true), "&lt;i&gt;x&lt;&#x2F;i&gt;");
}

#[test]
fn escape_or_raw_passes_through_when_not_flagged() {
    assert_eq!(escape_or_raw("<i>x</i>", false), "<i>x</i>");
}
