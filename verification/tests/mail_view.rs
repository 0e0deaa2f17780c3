//! Tests of the mail view's decisions.
use meli::mail_view::is_default_launchable_scheme;

/// Scheme classification: only `http`, `https` and `mailto` (any casing) are
/// launched without confirmation; everything else — other schemes, URLs with
/// no scheme, and malformed input — must be gated.
#[test]
fn test_is_default_launchable_scheme() {
    for url in [
        "http://example.example/",
        "https://example.example/a?b=c#d",
        "HTTP://EXAMPLE.EXAMPLE/",
        "HTTPS://example.example/",
        "MaIlTo:a@b.example",
        "mailto:",
    ] {
        assert!(
            is_default_launchable_scheme(url),
            "{url:?} must be launchable without confirmation"
        );
    }
    for url in [
        "file:///etc/passwd",
        "FILE:///etc/passwd",
        "gopher://gopher.example/0/menu",
        "irc://irc.example/%23meli",
        "xmpp:node@example.example",
        "ms-excel:\\\\evil.example\\book.xls",
        "web+ap:example/notes/1",
        "mailto-lookalike://x.example",
        "relative/path/garbage",
        "no scheme colon here",
        "",
        ":", // empty scheme
        "1http://x.example",
        "+http://x.example",
        "ma ilto:a@b.example",
    ] {
        assert!(
            !is_default_launchable_scheme(url),
            "{url:?} must require confirmation before launching"
        );
    }
}
