//! Tests of key bindings: hint forms, configuration forms both ways.
use meli::keys::{key_to_config_string, parse_key, Key, MouseButton, MouseEvent};
use meli::shortcut::{key_eq, ShortcutKeys};

fn keys_of(s: &ShortcutKeys) -> Vec<Key> {
    (0..s.len()).map(|i| s.get(i).clone()).collect()
}

fn config_of(k: &Key) -> String {
    key_to_config_string(k)
}

#[test]
fn test_hint_display() {
    assert_eq!(Key::Up.hint_display(), "<Up>");
    assert_eq!(Key::Down.hint_display(), "<Down>");
    assert_eq!(Key::Left.hint_display(), "<Left>");
    assert_eq!(Key::Right.hint_display(), "<Right>");
    assert_eq!(Key::Esc.hint_display(), "<Esc>");
    assert_eq!(Key::Home.hint_display(), "<Home>");
    assert_eq!(Key::End.hint_display(), "<End>");
    assert_eq!(Key::PageUp.hint_display(), "<PageUp>");
    assert_eq!(Key::PageDown.hint_display(), "<PageDown>");
    assert_eq!(Key::Backspace.hint_display(), "<Backspace>");
    assert_eq!(Key::Delete.hint_display(), "<Delete>");
    assert_eq!(Key::Insert.hint_display(), "<Insert>");
    assert_eq!(Key::F(5).hint_display(), "<F5>");
    assert_eq!(Key::Ctrl('c').hint_display(), "<C-c>");
    assert_eq!(Key::Alt('x').hint_display(), "<M-x>");
    // Whitespace control keys have word forms and count as placeholders.
    assert_eq!(Key::Char(' ').hint_display(), "<Space>");
    assert_eq!(Key::Char('\t').hint_display(), "<Tab>");
    assert_eq!(Key::Char('\n').hint_display(), "<Enter>");
    // Plain character keys stay bare.
    for c in ['j', 'k', 'h', 'l', 'q', '?', 'g'] {
        assert_eq!(Key::Char(c).hint_display(), c.to_string());
    }
    // Joined bindings keep the `/` separator.
    assert_eq!(
        ShortcutKeys::double(Key::Up, Key::Char('k')).hint_display(),
        "<Up>/k"
    );
    assert_eq!(
        ShortcutKeys::double(Key::Esc, Key::Char('q')).hint_display(),
        "<Esc>/q"
    );
    assert_eq!(ShortcutKeys::single(Key::Char('j')).hint_display(), "j");
}

#[test]
fn test_key_serde() {
    let round_trips: Vec<(Key, &str)> = vec![
        (Key::Backspace, "Backspace"),
        (Key::Left, "Left"),
        (Key::Right, "Right"),
        (Key::Up, "Up"),
        (Key::Down, "Down"),
        (Key::Home, "Home"),
        (Key::End, "End"),
        (Key::PageUp, "PageUp"),
        (Key::PageDown, "PageDown"),
        (Key::Delete, "Delete"),
        (Key::Insert, "Insert"),
        (Key::Char('\n'), "Enter"),
        (Key::Esc, "Esc"),
        (Key::Char('\t'), "Tab"),
        (Key::Ctrl('a'), "C-a"),
        (Key::Ctrl('1'), "C-1"),
        (Key::Alt('a'), "M-a"),
        (Key::F(1), "F1"),
        (Key::F(12), "F12"),
        (Key::Char('k'), "k"),
        (Key::Char('1'), "1"),
    ];
    for (key, text) in round_trips {
        assert_eq!(config_of(&key), text);
        assert_eq!(parse_key(text), Ok(key));
    }
    assert_eq!(
        parse_key("C-V"),
        Err("`V` should be a lowercase and alphanumeric character instead.".to_string())
    );
    assert_eq!(
        parse_key("M-V"),
        Err("`V` should be a lowercase and alphanumeric character instead.".to_string())
    );
    assert_eq!(
        parse_key("F13"),
        Err("`13` should be a number 1 <= n <= 12 instead.".to_string())
    );
    assert_eq!(
        parse_key("Fc"),
        Err("`c` should be a number 1 <= n <= 12 instead.".to_string())
    );
    assert_eq!(
        parse_key("adsfsf"),
        Err(
            "Cannot derive shortcut from `adsfsf`. Please consult the manual for valid key inputs."
                .to_string()
        )
    );
}

#[test]
fn test_shortcut_keys_serde() {
    // A comma-separated pair parses to a double binding and prints back to
    // the same form.
    let pair = ShortcutKeys::double(Key::Up, Key::Char('k'));
    assert_eq!(pair.to_config(), Ok("Up,k".to_string()));
    let read = ShortcutKeys::from_config("Up,k").unwrap();
    assert_eq!(keys_of(&read), vec![Key::Up, Key::Char('k')]);

    let pair = ShortcutKeys::double(Key::Esc, Key::Char('q'));
    assert_eq!(pair.to_config(), Ok("Esc,q".to_string()));
    let read = ShortcutKeys::from_config("Esc,q").unwrap();
    assert_eq!(keys_of(&read), vec![Key::Esc, Key::Char('q')]);

    // A bare single key stays a single binding.
    assert_eq!(ShortcutKeys::single(Key::Up).to_config(), Ok("Up".to_string()));
    assert_eq!(keys_of(&ShortcutKeys::from_config("Up").unwrap()), vec![Key::Up]);
    assert_eq!(keys_of(&ShortcutKeys::from_config("k").unwrap()), vec![Key::Char('k')]);

    // The space key goes through its literal character.
    assert_eq!(ShortcutKeys::single(Key::Char(' ')).to_config(), Ok(" ".to_string()));
    assert_eq!(keys_of(&ShortcutKeys::from_config(" ").unwrap()), vec![Key::Char(' ')]);
    assert_eq!(
        ShortcutKeys::double(Key::Up, Key::Char(' ')).to_config(),
        Ok("Up, ".to_string())
    );
    assert_eq!(
        keys_of(&ShortcutKeys::from_config("Up, ").unwrap()),
        vec![Key::Up, Key::Char(' ')]
    );

    // A comma is a key of its own.
    assert_eq!(ShortcutKeys::single(Key::Char(',')).to_config(), Ok(",".to_string()));
    assert_eq!(keys_of(&ShortcutKeys::from_config(",").unwrap()), vec![Key::Char(',')]);

    // A pair with a comma key has no configuration form.
    assert_eq!(
        ShortcutKeys::double(Key::Up, Key::Char(',')).to_config(),
        Err("a comma key cannot be serialized together with a second binding key".to_string())
    );
    // More than two keys are refused.
    assert_eq!(
        ShortcutKeys::from_config("Up,k,j").err(),
        Some("at most two comma-separated keys are allowed".to_string())
    );
    // A bad piece is reported as it is.
    assert_eq!(
        ShortcutKeys::from_config("Up,F13").err(),
        Some("`13` should be a number 1 <= n <= 12 instead.".to_string())
    );
}

#[test]
fn shortcut_contains_and_display() {
    let pair = ShortcutKeys::double(Key::Up, Key::Char('k'));
    assert!(pair.contains(&Key::Up));
    assert!(pair.contains(&Key::Char('k')));
    assert!(!pair.contains(&Key::Char('j')));
    assert!(!pair.contains(&Key::Down));
    assert_eq!(pair.to_string(), "Up/k");
    assert_eq!(ShortcutKeys::single(Key::Char(' ')).to_string(), "Space");
    assert_eq!(pair.len(), 2);
}

#[test]
fn key_eq_compares_fields() {
    assert!(key_eq(&Key::F(3), &Key::F(3)));
    assert!(!key_eq(&Key::F(3), &Key::F(4)));
    assert!(key_eq(&Key::Paste("ab".to_string()), &Key::Paste("ab".to_string())));
    assert!(!key_eq(&Key::Paste("ab".to_string()), &Key::Paste("b".to_string())));
    let m = Key::Mouse(MouseEvent::Press(MouseButton::Left, 1, 2));
    assert!(key_eq(&m, &m.clone()));
    assert!(!key_eq(&m, &Key::Mouse(MouseEvent::Release(1, 2))));
    assert!(!key_eq(&Key::Alt('a'), &Key::Ctrl('a')));
}

#[test]
fn a_single_character_of_any_width_is_a_key() {
    assert_eq!(parse_key("é"), Ok(Key::Char('é')));
    assert_eq!(parse_key("中"), Ok(Key::Char('中')));
    assert_eq!(parse_key("x"), Ok(Key::Char('x')));
    assert!(parse_key("éé").is_err());
}
