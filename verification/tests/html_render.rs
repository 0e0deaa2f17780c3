use meli::html_render::{
    filter_attribute, is_safe_url, render, sanitize, trim_invisible, trim_predicate, url_outcome_is_safe,
    RenderError,
};
use melib::text::TextProcessing;

/// `(input, expected)` pairs of the sanitizer; the numbered comment above
/// each tuple names the case it locks.
const CASES: &[(&str, &str)] = &[
    // 1. basic whitelist retention: whitelisted tags pass through unchanged.
    (
        r#"<p>hello <b>world</b></p>"#,
        r#"<p>hello <b>world</b></p>"#,
    ),
    // 2. non-whitelist tag stripped keeping children text.
    (r#"<div>text</div>"#, r#"text"#),
    // 3. script removed with its content, trailing text kept.
    (r#"<script>alert(1)</script>after"#, r#"after"#),
    // 4. style removed with its content, trailing text kept.
    (r#"<style>p{}</style>x"#, r#"x"#),
    // 5. javascript: URL scheme rejected (href dropped, anchor kept).
    (
        r#"<a href="javascript:alert(1)">x</a>"#,
        r#"<a rel="noopener noreferrer">x</a>"#,
    ),
    // 6. data: scheme rejected, mailto: kept in one input.
    (
        r#"<a href="data:text/html;base64,PHNjcmlwdD5hbGVydCgxKTwvc2NyaXB0Pg==">bad</a> <a href="mailto:x@y.z">good</a>"#,
        r#"<a rel="noopener noreferrer">bad</a> <a href="mailto:x@y.z" rel="noopener noreferrer">good</a>"#,
    ),
    // 7. relative URL passed through (url_relative=PassThrough).
    (
        r#"<a href="/path?q=1">x</a>"#,
        r#"<a href="/path?q=1" rel="noopener noreferrer">x</a>"#,
    ),
    // 8. a[href]/a[title] kept, name dropped, rel replaced by link_rel noopener noreferrer.
    (
        r#"<a href="https://e.example" title="t" name="n" rel="stylesheet">x</a>"#,
        r#"<a href="https://e.example" title="t" rel="noopener noreferrer">x</a>"#,
    ),
    // 9. generic attrs: lang/title kept via generic_attributes, class dropped.
    (
        r#"<p lang="en" title="t" class="c">x</p>"#,
        r#"<p lang="en" title="t">x</p>"#,
    ),
    // 10. HTML comment stripped (strip_comments).
    (r#"<!-- c --><p>x</p>"#, r#"<p>x</p>"#),
    // 11. template element vanishes entirely with its content.
    (r#"<template><p>t</p></template>after"#, r#"after"#),
    // 12. nested mismatched tags normalized by the HTML parser.
    (r#"<b><i>x</b></i>"#, r#"<b><i>x</i></b>"#),
    // 13. entities: named and numeric character references re-serialized.
    (
        r#"<p>&amp; &lt; &copy; &#x27; &#128169;</p>"#,
        r#"<p>&amp; &lt; © ' 💩</p>"#,
    ),
    // 14. td attributes cleared (tag_attributes full-replacement proof).
    (
        r#"<table><tr><td align="center">c</td></tr></table>"#,
        r#"<table><tr><td>c</td></tr></table>"#,
    ),
    // 15. SVG/MathML namespace script removed with content.
    (r#"<svg><script>alert(1)</script></svg>"#, r#""#),
    // 16a. ul whitelist regression lock: plain list.
    (
        r#"<ul><li>a</li><li>b</li></ul>"#,
        r#"<ul><li>a</li><li>b</li></ul>"#,
    ),
    // 16b. ul whitelist regression lock: nested inside ol.
    (
        r#"<ol><li>x<ul><li>y</li></ul></li></ol>"#,
        r#"<ol><li>x<ul><li>y</li></ul></li></ol>"#,
    ),
];

#[test]
fn golden_parity_with_python_nh3() {
    for (input, expected) in CASES {
        assert_eq!(sanitize(input), *expected, "input: {input}");
    }
}

#[test]
fn render_basic_html_to_text() {
    let text = render(b"<p>hello <b>world</b></p>", 40).unwrap();
    // `plain()` keeps the markdown-style emphasis decoration, so bold
    // text is wrapped in `**...**` instead of being flattened.
    assert_eq!(text, "hello **world**\n");
}

#[test]
fn render_list_to_text() {
    let text = render(b"<ul><li>a</li><li>b</li></ul>", 40).unwrap();
    assert_eq!(text, "* a\n* b\n");
}

#[test]
fn render_link_to_text() {
    let text = render(
        br#"<p>see <a href="https://example.com/x">docs</a></p>"#,
        40,
    )
    .unwrap();
    // `plain()` enables link footnotes: the anchor text carries a
    // numbered reference and the target URL is listed at the end of the
    // output, so the link destination stays visible to the reader
    // (phishing visibility). `rich()` would instead hide the URL inside
    // the `RichAnnotation` stream that `into_string()` discards.
    assert!(
        text.contains("see [docs][1]"),
        "unexpected render: {text:?}"
    );
    assert!(
        text.contains("[1]: https://example.com/x"),
        "unexpected render: {text:?}"
    );
}

#[test]
fn render_cjk_paragraph_wraps_by_display_width() {
    let html = "<p>这是一段比较长的中文段落，用来验证内置渲染器是否按照显示列宽进行折行处理，而不是按照字符个数来计算每行长度。</p>";
    let text = render(html.as_bytes(), 20).unwrap();
    for line in text.lines() {
        assert!(
            line.grapheme_width() <= 20,
            "line {line:?} is {} display columns wide, expected <= 20",
            line.grapheme_width()
        );
    }
}

#[test]
fn render_empty_input() {
    assert_eq!(render(&[], 20).unwrap(), "");
}

#[test]
fn render_malformed_html_does_not_panic() {
    let text = render(br#"<p>hello <b>world</i></div><span"#, 40)
        .expect("malformed html must not fail rendering");
    assert!(text.contains("world"), "unexpected render: {text:?}");
}

#[test]
fn render_large_input_does_not_panic() {
    let mut html = String::with_capacity(1 << 21);
    html.push_str("<p>");
    for _ in 0..40_000 {
        html.push_str("lorem ipsum dolor sit amet ");
    }
    html.push_str("</p>");
    assert!(
        html.len() >= 1_000_000,
        "test input must be at least 1MB, got {}",
        html.len()
    );
    let text = render(html.as_bytes(), 80).expect("large html must not fail rendering");
    assert!(text.contains("lorem"), "unexpected render head");
}

/// Trim covers ASCII whitespace, NBSP, zero-width spaces, BOM and ASCII
/// control chars on both the whole fragment and each attribute value.
#[test]
fn sanitize_trims_attribute_values_and_fragment_ends() {
    // attribute value padded with whitespace + invisible chars + BOM.
    let out = sanitize(r#"<p><a href="  https://x.example  ">go</a></p>"#);
    assert_eq!(
        out,
        r#"<p><a href="https://x.example" rel="noopener noreferrer">go</a></p>"#
    );

    // NBSP (U+00A0) and zero-width space (U+200B) trimmed from value.
    let out = sanitize("<p><a href=\"\u{00A0}\u{200B}https://y.example\u{00A0}\">x</a></p>");
    assert!(
        out.contains(r#"href="https://y.example""#),
        "NBSP/ZWSP not trimmed: {out:?}"
    );

    // Whole-fragment leading/trailing whitespace + tab + BOM removed.
    let out = sanitize("   \t\u{feff}<p>x</p>\n\n  ");
    assert_eq!(out, "<p>x</p>");

    // inner whitespace inside `<pre>` is preserved (we only trim fragment
    // ends, not intermediate text).
    let out = sanitize("<pre>  keep me  </pre>");
    assert_eq!(out, "<pre>  keep me  </pre>");

    // whitespace-only href: trim yields `""` so the attribute is dropped
    // (no phantom `href=""` link footnote in html2text output).
    let out = sanitize(r#"<a href="   ">x</a>"#);
    assert_eq!(out, r#"<a rel="noopener noreferrer">x</a>"#);
}

/// When ammonia drops the rejected `href` (here `javascript:`), the
/// default `rel` is still injected by `link_rel` afterward. The
/// `attribute_filter` must not delete `rel` when the injected value has
/// nothing to trim — regression guard for the
/// `Some(Cow::Borrowed)` vs `None` semantic in ammonia's contract.
#[test]
fn attribute_filter_keeps_injected_rel_unchanged() {
    let out = sanitize(r#"<a href="javascript:alert(1)">x</a>"#);
    assert_eq!(out, r#"<a rel="noopener noreferrer">x</a>"#);
}

/// Text inside `<pre>`/`<code>` is not affected by attribute trimming
/// (regression guard: callback must only touch Element attribute values).
#[test]
fn sanitize_does_not_touch_text_inside_pre_or_code() {
    let out = sanitize(r#"<pre>x = " y "</pre><code>q = " z "</code>"#);
    assert!(
        out.contains(r#"<pre>x = " y "</pre>"#),
        "pre text changed: {out:?}"
    );
    assert!(
        out.contains(r#"<code>q = " z "</code>"#),
        "code text changed: {out:?}"
    );
}

/// Regression: ammonia's URL scheme check runs on the *pre-trim* value
/// (where Cf padding hides the scheme from `Url::parse`, so the value
/// survives as a `RelativeUrlWithoutBase` under `PassThrough`). The
/// `attribute_filter` must re-validate after stripping Cf prefix — a
/// trimmed `javascript:` href would otherwise be reactivated.
#[test]
fn sanitize_drops_href_whose_cf_padding_hides_javascript_scheme() {
    // ZWSP-prefixed javascript: must drop href entirely (not trim it
    // into a live javascript:).
    let out = sanitize("<a href=\"\u{200B}javascript:alert(1)\">x</a>");
    assert!(
        !out.contains("href"),
        "ZWSP-padded javascript: href survived: {out:?}"
    );
    assert!(
        out.contains("rel=\"noopener noreferrer\""),
        "missing rel: {out:?}"
    );

    // NBSP-prefixed javascript: same.
    let out = sanitize("<a href=\"\u{00A0}javascript:alert(1)\">x</a>");
    assert!(
        !out.contains("href"),
        "NBSP-padded javascript: href survived: {out:?}"
    );

    // BOM-prefixed javascript: same.
    let out = sanitize("<a href=\"\u{FEFF}javascript:alert(1)\">x</a>");
    assert!(
        !out.contains("href"),
        "BOM-padded javascript: href survived: {out:?}"
    );

    // SAFE: ZWSP-prefixed https:// — re-validates to `https` (allowed).
    let out = sanitize("<a href=\"\u{200B}https://ok.example\">x</a>");
    assert!(
        out.contains(r#"href="https://ok.example""#),
        "safe https href was wrongly dropped: {out:?}"
    );

    // SAFE: relative URL stays relative after trim.
    let out = sanitize(r#"<a href="  /path?q=1  ">x</a>"#);
    assert!(
        out.contains(r#"href="/path?q=1""#),
        "relative href not trimmed: {out:?}"
    );
}

/// Regression: Cf-category invisibles (bidi controls U+202A–U+202E /
/// U+2066–U+2069, U+061C, U+180E, math invisibles) are spoof markers;
/// they must be trimmed like the other Format-category characters.
#[test]
fn sanitize_trims_bidi_controls_and_arabic_letter_mark() {
    for (label, c) in [
        ("LRE", '\u{202A}'),
        ("RLO", '\u{202E}'),
        ("LRI", '\u{2066}'),
        ("PDI", '\u{2069}'),
        ("ALM", '\u{061C}'),
        ("MVS", '\u{180E}'),
        ("INVISIBLE_TIMES", '\u{2062}'),
    ] {
        let fragment = format!("{c}<p>x</p>{c}");
        let out = sanitize(&fragment);
        assert_eq!(out, "<p>x</p>", "{label} ({c:?}) not trimmed: {out:?}");
    }
}

/// When every char in an attribute value is trimmable (whitespace, Cf,
/// etc.), trim yields `""`. html2text would otherwise emit a phantom
/// link footnote for `href=""`. Drop the attribute instead.
#[test]
fn sanitize_drops_attribute_when_trim_yields_empty() {
    // Whitespace-only href must drop (not become `href=""`).
    let out = sanitize(r#"<a href="   ">x</a>"#);
    assert!(
        !out.contains("href"),
        "whitespace-only href survived: {out:?}"
    );

    // ZWSP-only title must drop too.
    let out = sanitize("<p><a href=\"https://e.example\" title=\"\u{200B}\">x</a></p>");
    assert!(!out.contains("title"), "ZWSP-only title survived: {out:?}");
    assert!(
        out.contains(r#"href="https://e.example""#),
        "valid href should still pass through: {out:?}"
    );
}

#[test]
fn trim_predicate_classes() {
    for c in [' ', '\t', '\n', '\u{00A0}', '\u{200B}', '\u{FEFF}', '\u{00AD}', '\u{202E}', '\u{2066}', '\0'] {
        assert!(trim_predicate(c), "{c:?}");
    }
    for c in ['a', 'Z', '<', '\u{2065}', '\u{2070}', '中'] {
        assert!(!trim_predicate(c), "{c:?}");
    }
    assert_eq!(trim_invisible("\u{200B} a b \u{FEFF}"), "a b");
    assert_eq!(trim_invisible("   "), "");
    assert_eq!(trim_invisible("x"), "x");
}

#[test]
fn url_safety_after_trimming() {
    assert!(is_safe_url("https://x.example"));
    assert!(is_safe_url("MAILTO:a@b.c"));
    assert!(is_safe_url("/path?q=1"));
    assert!(!is_safe_url("javascript:alert(1)"));
    assert!(!is_safe_url("data:text/html,x"));
    assert!(!is_safe_url("http://[::1"));
    assert!(url_outcome_is_safe(&Ok("http".to_string())));
    assert!(!url_outcome_is_safe(&Ok("ftp".to_string())));
    assert!(url_outcome_is_safe(&Err(true)));
    assert!(!url_outcome_is_safe(&Err(false)));
}

#[test]
fn attribute_filter_decisions() {
    assert_eq!(filter_attribute("title", "x"), Some("x".to_string()));
    assert_eq!(filter_attribute("title", " x "), Some("x".to_string()));
    assert_eq!(filter_attribute("title", "   "), None);
    assert_eq!(filter_attribute("href", " /p "), Some("/p".to_string()));
    assert_eq!(filter_attribute("href", "\u{200B}javascript:x"), None);
    // An untouched value is kept even where the scheme is not allowed:
    // the cleaner checked it before.
    assert_eq!(filter_attribute("href", "javascript:x"), Some("javascript:x".to_string()));
}

#[test]
fn render_decodes_invalid_utf8_lossily() {
    let text = render(b"<p>a\xffb</p>", 20).unwrap();
    assert_eq!(text, "a\u{FFFD}b\n");
    assert_eq!(RenderError {}.summary(), "Could not render html to text");
}
