//! Tests of which keys the thread view claims.
use meli::keys::Key;
use meli::thread_keys::{is_command_key, is_thread_view_input, table_binds, thread_view_shortcuts};

fn table(entries: &[(&str, Key)]) -> Vec<(String, Key)> {
    entries.iter().map(|(n, k)| (n.to_string(), k.clone())).collect()
}

/// The thread-view table, with one key for each binding the view reads.
fn thread_view_table() -> Vec<(String, Key)> {
    table(&[
        ("scroll_up", Key::Char('k')),
        ("scroll_down", Key::Char('j')),
        ("prev_page", Key::PageUp),
        ("next_page", Key::PageDown),
        ("reverse_thread_order", Key::Ctrl('r')),
        ("toggle_mailview", Key::Char('p')),
        ("toggle_threadview", Key::Char('t')),
        ("toggle_layout", Key::Char(' ')),
        ("collapse_subtree", Key::Char('h')),
        ("focus_left", Key::Left),
        ("focus_right", Key::Right),
    ])
}

fn general_table() -> Vec<(String, Key)> {
    table(&[
        ("home_page", Key::Home),
        ("end_page", Key::End),
        ("open_entry", Key::Char('\n')),
        ("scroll_left", Key::Char('<')),
        ("scroll_right", Key::Char('>')),
        ("quit", Key::Char('q')),
    ])
}

#[test]
fn thread_view_is_thread_view_input_truth_table() {
    let thread_view = thread_view_table();
    let general = general_table();
    let no_commands: Option<Vec<Key>> = None;
    let shortcuts = thread_view_shortcuts(thread_view.clone(), &no_commands);
    let mut thread_keys: Vec<Key> = shortcuts
        .iter()
        .filter(|(name, _)| !matches!(name.as_str(), "focus_left" | "focus_right"))
        .map(|(_, key)| key.clone())
        .collect();
    for name in ["home_page", "end_page", "open_entry"] {
        if let Some((_, key)) = general.iter().find(|(n, _)| n == name) {
            thread_keys.push(key.clone());
        }
    }
    for key in &thread_keys {
        assert!(
            is_thread_view_input(&thread_view, &general, &no_commands, key),
            "thread-view key {key:?} must be detected"
        );
    }
    for name in ["focus_left", "focus_right"] {
        if let Some((_, key)) = shortcuts.iter().find(|(n, _)| n == name) {
            assert!(
                !is_thread_view_input(&thread_view, &general, &no_commands, key),
                "focus key {name:?} ({key:?}) must NOT be detected"
            );
        }
    }
    let pager = table(&[("scroll_up", Key::Char('k')), ("page_down", Key::Char('n'))]);
    let listing = table(&[("next_entry", Key::Down), ("prev_entry", Key::Up)]);
    for (section, label) in [(&pager, "pager"), (&listing, "listing"), (&general, "general")] {
        for (name, key) in section.iter() {
            if thread_keys.contains(key) {
                continue;
            }
            assert!(
                !is_thread_view_input(&thread_view, &general, &no_commands, key),
                "{label} key {name:?} ({key:?}) must not be detected as thread input"
            );
        }
    }
}

#[test]
fn command_keys_leave_the_table_but_stay_claimed() {
    let thread_view = thread_view_table();
    let commands = Some(vec![Key::Char('p'), Key::Char('z')]);
    let kept = thread_view_shortcuts(thread_view.clone(), &commands);
    assert_eq!(kept.len(), thread_view.len() - 1);
    assert!(kept.iter().all(|(n, _)| n != "toggle_mailview"));
    assert_eq!(kept[0].0, "scroll_up");
    assert_eq!(kept[5].0, "toggle_threadview");
    let general = general_table();
    assert!(is_thread_view_input(&thread_view, &general, &commands, &Key::Char('p')));
    assert!(is_thread_view_input(&thread_view, &general, &commands, &Key::Char('z')));
    assert!(!is_thread_view_input(&thread_view, &general, &None, &Key::Char('z')));
}

#[test]
fn command_key_lookup() {
    let commands = Some(vec![Key::Alt('a'), Key::F(3)]);
    assert!(is_command_key(&commands, &Key::F(3)));
    assert!(!is_command_key(&commands, &Key::F(4)));
    assert!(!is_command_key(&None, &Key::F(3)));
    assert!(!is_command_key(&Some(vec![]), &Key::F(3)));
}

#[test]
fn first_binding_of_a_name_wins() {
    let t = table(&[("home_page", Key::Home), ("home_page", Key::Char('g'))]);
    assert!(table_binds(&t, "home_page", &Key::Home));
    assert!(!table_binds(&t, "home_page", &Key::Char('g')));
    assert!(!table_binds(&t, "end_page", &Key::Home));
    // A focus key bound to a general page key is still claimed through it.
    let general = table(&[("end_page", Key::Left)]);
    assert!(is_thread_view_input(&thread_view_table(), &general, &None, &Key::Left));
}
