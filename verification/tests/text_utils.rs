use hn::sanitize::{normalize_rendered_comment, sanitize_comment};
use hn::text::{format_points, parse_u64, truncate, u64_to_string, wrap_text, ParseIdError};

#[test]
fn truncate_returns_original_when_within_limit() {
    assert_eq!(truncate("short", 10), "short");
}

#[test]
fn truncate_appends_ellipsis_when_exceeding_limit() {
    assert_eq!(truncate("This is a longer line", 4), "This...");
}

#[test]
fn truncate_preserves_exact_length_strings() {
    assert_eq!(truncate("exact", 5), "exact");
}

#[test]
fn sanitize_comment_strips_tags_and_decodes_entities() {
    assert_eq!(
        sanitize_comment(
            "<p>Hello &amp; <i>goodbye</i></p>\n<ul><li>First</li><li>Second</li></ul>"
        ),
        "Hello & goodbye\n- First\n- Second"
    );
}

#[test]
fn sanitize_comment_collapses_whitespace() {
    assert_eq!(
        sanitize_comment("<div>Multiple   spaces<br/>and\tlines</div>"),
        "Multiple spaces\nand lines"
    );
}

#[test]
fn sanitize_comment_preserves_preformatted_blocks() {
    let input = r"
<p>we should aim to parse comments like this better, i believe some newlines got stripped?</p>
<pre><code>#define _(e...) ({e;})

#define x(a,e...) _(s x=a;e)

#define $(a,b) if(a)b;else

#define i(n,e) {int $n=n;int i=0;for(;i<$n;++i){e;}}
</code></pre>
<p>&gt;These are all pretty straight forward, with one subtle caveat I only realized from the annotated code. They're all macros to make common operations more compact: wrapping an expression in a block, defining a variable x and using it, conditional statements, and running an expression n times.</p>
<p>This is war crime territory</p>
    ";

    let expected = "we should aim to parse comments like this better, i believe some newlines got stripped?\n\n#define _(e...) ({e;})\n\n#define x(a,e...) _(s x=a;e)\n\n#define $(a,b) if(a)b;else\n\n#define i(n,e) {int $n=n;int i=0;for(;i<$n;++i){e;}}\n\n>These are all pretty straight forward, with one subtle caveat I only realized from the annotated code. They're all macros to make common operations more compact: wrapping an expression in a block, defining a variable x and using it, conditional statements, and running an expression n times.\n\nThis is war crime territory";

    assert_eq!(sanitize_comment(input), expected);
}

#[test]
fn sanitize_comment_decodes_numeric_entities() {
    assert_eq!(
        sanitize_comment("https:&#x2F;&#x2F;example.com&#47;path"),
        "https://example.com/path"
    );
}

#[test]
fn wrap_text_returns_empty_for_empty_input() {
    assert_eq!(wrap_text("", 10), Vec::<String>::new());
}

#[test]
fn wrap_text_keeps_whitespace_only_input() {
    assert_eq!(wrap_text("   ", 5), vec!["   ".to_string()]);
}

#[test]
fn wrap_text_wraps_longer_text() {
    assert_eq!(
        wrap_text("hello brave new world", 11),
        vec!["hello brave".to_string(), "new world".to_string()]
    );
}

#[test]
fn wrap_text_respects_explicit_newlines() {
    assert_eq!(
        wrap_text("first line\n\nsecond line", 20),
        vec!["first line".to_string(), String::new(), "second line".to_string()]
    );
}

#[test]
fn wrap_text_does_not_wrap_when_within_width() {
    assert_eq!(wrap_text("short text", 20), vec!["short text".to_string()]);
}

#[test]
fn format_points_handles_singular_and_plural() {
    assert_eq!(format_points(1), "1 point");
    assert_eq!(format_points(2), "2 points");
    assert_eq!(format_points(0), "0 points");
}

#[test]
fn normalize_rewrites_star_bullets_and_trims_tail() {
    assert_eq!(normalize_rendered_comment("a\n  * item\n\n\n"), "a\n  - item");
    assert_eq!(normalize_rendered_comment(""), "");
}

#[test]
fn decimal_rendering_matches_expected_digits() {
    assert_eq!(u64_to_string(0), "0");
    assert_eq!(u64_to_string(42), "42");
    assert_eq!(u64_to_string(18446744073709551615), "18446744073709551615");
}

#[test]
fn parse_rejects_each_malformed_input_differently() {
    assert_eq!(parse_u64("42"), Ok(42));
    assert_eq!(parse_u64("+42"), Ok(42));
    assert_eq!(parse_u64(""), Err(ParseIdError::Empty));
    assert_eq!(parse_u64("4x2"), Err(ParseIdError::InvalidDigit));
    assert_eq!(parse_u64("99999999999999999999"), Err(ParseIdError::Overflow));
    assert_eq!(
        parse_u64("x").unwrap_err().message(),
        "invalid digit found in string"
    );
}
