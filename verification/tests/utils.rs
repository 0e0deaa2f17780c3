//! Tests of middle truncation and of desktop-entry `Exec` expansion.
use std::borrow::Cow;

use meli::desktop::{desktop_exec_to_command, parse_desktop_exec_args};
use meli::utils::truncate_middle;

#[test]
fn test_desktop_exec() {
    assert_eq!(
        "ristretto /tmp/file".to_string(),
        desktop_exec_to_command("ristretto %F", "/tmp/file".to_string(), false)
    );
    assert_eq!(
        "/usr/lib/firefox-esr/firefox-esr file:///tmp/file".to_string(),
        desktop_exec_to_command(
            "/usr/lib/firefox-esr/firefox-esr %u",
            "/tmp/file".to_string(),
            false
        )
    );
    assert_eq!(
        "/usr/lib/firefox-esr/firefox-esr www.example.com".to_string(),
        desktop_exec_to_command(
            "/usr/lib/firefox-esr/firefox-esr %u",
            "www.example.com".to_string(),
            true
        )
    );
    assert_eq!(
        "/usr/bin/vlc --started-from-file www.example.com".to_string(),
        desktop_exec_to_command(
            "/usr/bin/vlc --started-from-file %U",
            "www.example.com".to_string(),
            true
        )
    );
    assert_eq!(
        "zathura --fork file:///tmp/file".to_string(),
        desktop_exec_to_command("zathura --fork %U", "file:///tmp/file".to_string(), true)
    );
}

#[test]
fn test_desktop_exec_unquoted_freeze() {
    // Unquoted Exec values give the command string that splitting at
    // whitespace gives.
    assert_eq!(
        "papers file:///tmp/doc.pdf".to_string(),
        desktop_exec_to_command("papers %U", "/tmp/doc.pdf".to_string(), false)
    );
    assert_eq!(
        "firefox https://example.org".to_string(),
        desktop_exec_to_command("firefox %u", "https://example.org".to_string(), true)
    );
    assert_eq!(
        "w3m -T text/html /tmp/a.html".to_string(),
        desktop_exec_to_command("w3m -T text/html", "/tmp/a.html".to_string(), false)
    );
    assert_eq!(
        "evince /tmp/x.pdf".to_string(),
        desktop_exec_to_command("evince %f", "/tmp/x.pdf".to_string(), false)
    );
    assert_eq!(
        "gimp /tmp/img\\ with\\ space.png".to_string(),
        desktop_exec_to_command("gimp %f", "/tmp/img with space.png".to_string(), false)
    );
}

#[test]
fn test_desktop_exec_quoted_arguments() {
    assert_eq!(
        "/home/user/My\\ Docs/viewer /tmp/file".to_string(),
        desktop_exec_to_command(
            "\"/home/user/My Docs/viewer\" %f",
            "/tmp/file".to_string(),
            false
        )
    );
    // Escaped double quote inside quotes.
    assert_eq!(
        "say\\ \\\"hi\\\" /tmp/file".to_string(),
        desktop_exec_to_command("\"say \\\"hi\\\"\" %f", "/tmp/file".to_string(), false)
    );
    // Escaped backslash inside quotes.
    assert_eq!(
        "a\\\\b /tmp/file".to_string(),
        desktop_exec_to_command("\"a\\\\b\" %f", "/tmp/file".to_string(), false)
    );
    // A backslash before a character that is not escapable per spec is
    // kept literally.
    assert_eq!(
        "a\\\\qb /tmp/file".to_string(),
        desktop_exec_to_command("\"a\\qb\" %f", "/tmp/file".to_string(), false)
    );
    // Escaped dollar sign inside quotes.
    assert_eq!(
        "\\$5 /tmp/file".to_string(),
        desktop_exec_to_command("\"\\$5\" %f", "/tmp/file".to_string(), false)
    );
    // Single quotes are not special per spec; they pass through
    // literally (escaped for the shell).
    assert_eq!(
        "it\\'s /tmp/file".to_string(),
        desktop_exec_to_command("it's %f", "/tmp/file".to_string(), false)
    );
    // An unterminated quote gracefully treats the rest of the string as
    // part of the current argument.
    assert_eq!(
        "foo bar\\ baz /tmp/file".to_string(),
        desktop_exec_to_command("foo \"bar baz", "/tmp/file".to_string(), false)
    );
    // An argument that expands to nothing (an explicitly empty argument
    // or a purged field code) is dropped.
    assert_eq!(
        "viewer /tmp/file".to_string(),
        desktop_exec_to_command("viewer \"\" %f", "/tmp/file".to_string(), false)
    );
}

#[test]
fn test_desktop_exec_shell_metacharacters_in_path() {
    assert_eq!(
        "viewer /tmp/x\\$\\(touch\\ pwned\\)y\\;z".to_string(),
        desktop_exec_to_command("viewer %f", "/tmp/x$(touch pwned)y;z".to_string(), false)
    );
    assert_eq!(
        "viewer /tmp/a\\`id\\`b".to_string(),
        desktop_exec_to_command("viewer %f", "/tmp/a`id`b".to_string(), false)
    );
    // A URL containing a space stays a single argument.
    assert_eq!(
        "browser http://example.com/a\\ b".to_string(),
        desktop_exec_to_command("browser %u", "http://example.com/a b".to_string(), true)
    );
}

#[test]
fn test_parse_desktop_exec_args() {
    assert!(parse_desktop_exec_args("").is_empty());
    assert_eq!(parse_desktop_exec_args("a b\tc"), ["a", "b", "c"]);
    assert_eq!(parse_desktop_exec_args("\"a b\" c"), ["a b", "c"]);
    // Quotes inside a token glue its pieces into a single argument.
    assert_eq!(parse_desktop_exec_args("a\"b c\"d"), ["ab cd"]);
    // An explicit empty quoted argument survives tokenization.
    assert_eq!(parse_desktop_exec_args("\"\" x"), ["", "x"]);
    assert_eq!(parse_desktop_exec_args("x \"y z"), ["x", "y z"]);
    assert_eq!(parse_desktop_exec_args("x\\"), ["x\\"]);
}

#[test]
fn test_desktop_exec_field_codes_preserved() {
    // %i, %c and %k expand to no argument at all.
    assert_eq!(
        "eog /tmp/file".to_string(),
        desktop_exec_to_command("eog %i %f", "/tmp/file".to_string(), false)
    );
    // The first field code in f, F, u, U priority order wins, and only
    // its first occurrence is expanded.
    assert_eq!(
        "foo %F /tmp/file".to_string(),
        desktop_exec_to_command("foo %F %f", "/tmp/file".to_string(), false)
    );
    assert_eq!(
        "foo /tmp/file %f".to_string(),
        desktop_exec_to_command("foo %f %f", "/tmp/file".to_string(), false)
    );
    // Field codes expand inside quoted arguments too (the desktop entry
    // format leaves this undefined).
    assert_eq!(
        "v /tmp/file".to_string(),
        desktop_exec_to_command("v \"%f\"", "/tmp/file".to_string(), false)
    );
}

#[test]
fn truncate_middle_short_borrowed() {
    assert!(matches!(truncate_middle("", 128, 240), Cow::Borrowed("")));
    assert_eq!(
        truncate_middle("short subject.txt", 128, 240),
        "short subject.txt"
    );
    assert!(matches!(
        truncate_middle("short subject.txt", 128, 240),
        Cow::Borrowed(_)
    ));
}

#[test]
fn truncate_middle_ascii_128_kept() {
    let input = "a".repeat(128);
    assert_eq!(truncate_middle(&input, 128, 240), input);
}

#[test]
fn truncate_middle_ascii_200() {
    let input = "a".repeat(200);
    let result = truncate_middle(&input, 128, 240);
    assert_eq!(result.chars().count(), 128);
    assert!(result.starts_with(&input[..62]));
    assert!(result.ends_with(&input[137..]));
    assert_eq!(result.find("..."), Some(62));
}

#[test]
fn truncate_middle_cjk_200() {
    let input = "请".repeat(200);
    let result = truncate_middle(&input, 128, 240);
    assert!(result.chars().count() <= 128);
    assert!(result.len() <= 240);
    assert!(result.contains("..."));
    assert!(result.starts_with('请'));
    assert!(result.ends_with('请'));
}

#[test]
fn truncate_middle_mixed_emoji_cjk() {
    let input = "😀甲请𝄞".repeat(50);
    let result = truncate_middle(&input, 128, 240);
    let Ok(_) = String::from_utf8(result.as_bytes().to_vec()) else {
        panic!("truncate_middle produced invalid UTF-8: {result:?}");
    };
    assert!(result.chars().count() <= 128);
    assert!(result.len() <= 240);
}

#[test]
fn truncate_middle_zero_budget() {
    // Degenerate budgets must not panic; the longest prefix fitting
    // zero chars is the empty string.
    assert!(truncate_middle("abc", 0, 0).is_empty());
}

#[test]
fn truncate_middle_byte_cap_only() {
    // 240 bytes / 80 chars: within both caps, returned untouched.
    let fits = "请".repeat(80);
    assert!(matches!(truncate_middle(&fits, 128, 240), Cow::Borrowed(_)));
    // 243 bytes but still 81 <= 128 chars: only the byte cap trips.
    let one_over = "请".repeat(81);
    let result = truncate_middle(&one_over, 128, 240);
    assert!(result.len() <= 240);
    assert!(result.contains("..."));
}
