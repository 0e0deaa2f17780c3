//! Tests of mailcap lookup and command assembly.
use meli::mailcap::{
    entry_plan, lookup_mailcap_entry, mailcap_records, plan_mailcap_command, quote_shell_word,
    render_mailcap_command, select_mailcap_entry, MailcapArg,
};

/// Flatten the lookup result to the tuple the tests compare against.
fn entry(content: &str, content_type: &str) -> Option<(String, bool)> {
    lookup_mailcap_entry(content, content_type).map(|e| (e.command, e.copiousoutput))
}

/// Malformed lines (no command field, truncated or non-ASCII
/// continuation) must be skipped instead of panicking.
#[test]
fn malformed_mailcap_lines_are_skipped() {
    for content in [
        "text/plain", // no `;`
        "\\",         // lone backslash
        "é\\",        // continuation after a multi-byte char
        "",           // empty file
    ] {
        assert!(
            entry(content, "application/pdf").is_none(),
            "{content:?} must yield no entry"
        );
    }

    // A trailing continuation backslash on the last line has no next line:
    // it is treated as a literal (removed) instead of panicking.
    assert_eq!(
        entry("application/pdf;cmd\\", "application/pdf"),
        Some(("cmd".to_string(), false))
    );

    // A malformed line before a valid one must not abort the scan.
    let content = "text/plain\napplication/pdf;pdfviewer %s;copiousoutput\n";
    assert_eq!(
        entry(content, "application/pdf"),
        Some(("pdfviewer %s".to_string(), true))
    );
}

/// Valid entries keep matching exactly as before the hardening.
#[test]
fn valid_mailcap_entries_still_match() {
    let content = "image/*;feh %s\napplication/pdf;zathura %s\n";
    assert_eq!(
        entry(content, "image/png"),
        Some(("feh %s".to_string(), false))
    );
    assert_eq!(
        entry(content, "application/pdf"),
        Some(("zathura %s".to_string(), false))
    );
    assert!(entry(content, "text/plain").is_none());
}

/// A continuation line joins with the following line.
#[test]
fn mailcap_continuation_joins_lines() {
    let content = "application/pdf;pdfviewer \\\n%s\n";
    assert_eq!(
        entry(content, "application/pdf"),
        Some(("pdfviewer %s".to_string(), false))
    );
}

#[test]
fn mailcap_command_plan_and_render() {
    let plan = plan_mailcap_command("pdfviewer %s %t %{charset} %{name} -x").unwrap();
    assert_eq!(plan.program, "pdfviewer");
    assert!(!plan.needs_stdin);
    assert_eq!(plan.args.len(), 5);
    assert!(matches!(plan.args[0], MailcapArg::TempFile));
    assert!(matches!(plan.args[1], MailcapArg::ContentType));
    assert!(matches!(&plan.args[2], MailcapArg::Parameter(n) if n == "charset"));
    assert!(matches!(&plan.args[4], MailcapArg::Literal(w) if w == "-x"));
    let params = vec![(b"name".to_vec(), "it's".to_string())];
    let line = render_mailcap_command(&plan, "application/pdf", &params, &vec!["/tmp/f".to_string()]);
    assert_eq!(line, "pdfviewer '/tmp/f' 'application/pdf' 'utf-8' 'it'\\''s' -x");
    assert!(plan_mailcap_command("   ").is_none());
    let plain = plan_mailcap_command("less").unwrap();
    assert!(plain.needs_stdin);
    assert_eq!(render_mailcap_command(&plain, "text/plain", &vec![], &vec![]), "less ");
}

#[test]
fn shell_quoting_and_record_selection() {
    assert_eq!(quote_shell_word("a b"), "'a b'");
    assert_eq!(quote_shell_word("it's"), "'it'\\''s'");
    assert_eq!(quote_shell_word(""), "''");
    let records = mailcap_records("text/plain;less;copiousoutput\nimage/*;feh %s\n# c\n");
    assert_eq!(records.len(), 2);
    assert_eq!(records[0].key, "text/plain");
    assert!(records[0].entry.copiousoutput);
    let picked = select_mailcap_entry(&records, "image/png", &vec![false, true]).unwrap();
    assert_eq!(picked.command, "feh %s");
    assert!(select_mailcap_entry(&records, "video/mp4", &vec![false, false]).is_none());
    let first = select_mailcap_entry(&records, "text/plain", &vec![false, true]).unwrap();
    assert_eq!(first.command, "less");
}

#[test]
fn glob_keys_match_the_content_type() {
    let content = "image/png;pngview %s\ntext/*;pager %s\n*;fallback %s\n";
    assert_eq!(entry(content, "text/html"), Some(("pager %s".to_string(), false)));
    assert_eq!(entry(content, "image/png"), Some(("pngview %s".to_string(), false)));
    assert_eq!(entry(content, "video/mp4"), Some(("fallback %s".to_string(), false)));
    // A leading dot is matched only explicitly.
    assert_eq!(entry("*;any %s\n", ".hidden"), None);
}

#[test]
fn entry_plan_errors() {
    assert_eq!(entry_plan(None, "text/html").err(), Some("Not found".to_string()));
    let blank = lookup_mailcap_entry("text/html;   \n", "text/html");
    assert_eq!(
        entry_plan(blank, "text/html").err(),
        Some("Malformed mailcap entry for `text/html`: command is empty".to_string())
    );
    let (plan, copious) = entry_plan(lookup_mailcap_entry("text/html;lynx -dump %s;copiousoutput\n", "text/html"), "text/html").unwrap();
    assert_eq!(plan.program, "lynx");
    assert!(copious);
}
