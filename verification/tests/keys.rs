//! Tests of key encoding and of the thread view's focus chain.
use meli::bridge::encode_key;
use meli::keys::{Key, MouseButton, MouseEvent};
use meli::mail_view::{FocusDirection, FocusStep, ThreadViewFocus};

#[test]
fn encode_key_byte_table() {
    let cases: Vec<(&str, Key, &[u8])> = vec![
        ("Backspace", Key::Backspace, &[0x7f]),
        ("Left", Key::Left, b"\x1b[D"),
        ("Right", Key::Right, b"\x1b[C"),
        ("Up", Key::Up, b"\x1b[A"),
        ("Down", Key::Down, b"\x1b[B"),
        ("Home", Key::Home, b"\x1b[H"),
        ("End", Key::End, b"\x1b[F"),
        ("PageUp", Key::PageUp, b"\x1b[5~"),
        ("PageDown", Key::PageDown, b"\x1b[6~"),
        ("Delete", Key::Delete, b"\x1b[3~"),
        ("Insert", Key::Insert, b"\x1b[2~"),
        ("F(1)", Key::F(1), b"\x1bOP"),
        ("F(2)", Key::F(2), b"\x1bOQ"),
        ("F(3)", Key::F(3), b"\x1bOR"),
        ("F(4)", Key::F(4), b"\x1bOS"),
        ("F(5)", Key::F(5), b"\x1b[15~"),
        ("F(6)", Key::F(6), b"\x1b[17~"),
        ("F(7)", Key::F(7), b"\x1b[18~"),
        ("F(8)", Key::F(8), b"\x1b[19~"),
        ("F(9)", Key::F(9), b"\x1b[20~"),
        ("F(10)", Key::F(10), b"\x1b[21~"),
        ("F(11)", Key::F(11), b"\x1b[23~"),
        ("F(12)", Key::F(12), b"\x1b[24~"),
        ("Enter(Char('\\n'))", Key::Char('\n'), b"\r"),
        ("Tab(Char('\\t'))", Key::Char('\t'), b"\t"),
        ("Char('a')", Key::Char('a'), b"a"),
        ("Char('Z')", Key::Char('Z'), b"Z"),
        ("Char('é')", Key::Char('é'), "é".as_bytes()),
        // A terminal's input decoding reads both `\r` and (outside raw
        // mode) `\n` as `Char('\n')`; `Char('\r')` therefore encodes as
        // `\r` too.
        ("Char('\\r')_aliases_Enter", Key::Char('\r'), b"\r"),
        ("Alt('x')", Key::Alt('x'), b"\x1bx"),
        ("Alt('Q')", Key::Alt('Q'), b"\x1bQ"),
        ("Alt('\\n')", Key::Alt('\n'), b"\x1b\n"),
        ("Alt('é')", Key::Alt('é'), b"\x1b\xc3\xa9"),
        // Control-byte families:
        // 0x01..=0x1A -> Ctrl('a'..='z'), 0x1C..=0x1F -> Ctrl('4'..='7').
        ("Ctrl('a')", Key::Ctrl('a'), &[0x01]),
        ("Ctrl('z')", Key::Ctrl('z'), &[0x1a]),
        ("Ctrl('4')", Key::Ctrl('4'), &[0x1c]),
        ("Ctrl('5')", Key::Ctrl('5'), &[0x1d]),
        ("Ctrl('6')", Key::Ctrl('6'), &[0x1e]),
        ("Ctrl('7')", Key::Ctrl('7'), &[0x1f]),
        // NUL ambiguity: input decoding reads 0x00 as `Key::Null`, so
        // these three collide on the wire (documented in `encode_key`).
        ("Null", Key::Null, &[0x00]),
        ("Ctrl('@')", Key::Ctrl('@'), &[0x00]),
        ("Ctrl(' ')", Key::Ctrl(' '), &[0x00]),
        ("Esc", Key::Esc, &[0x1b]),
        (
            "Mouse Press(Left)",
            Key::Mouse(MouseEvent::Press(MouseButton::Left, 5, 10)),
            b"\x1b[<0;5;10M",
        ),
        (
            "Mouse Press(Middle)",
            Key::Mouse(MouseEvent::Press(MouseButton::Middle, 1, 1)),
            b"\x1b[<1;1;1M",
        ),
        (
            "Mouse Press(Right)",
            Key::Mouse(MouseEvent::Press(MouseButton::Right, 223, 223)),
            b"\x1b[<2;223;223M",
        ),
        (
            "Mouse Press(WheelUp)",
            Key::Mouse(MouseEvent::Press(MouseButton::WheelUp, 80, 25)),
            b"\x1b[<64;80;25M",
        ),
        (
            "Mouse Press(WheelDown)",
            Key::Mouse(MouseEvent::Press(MouseButton::WheelDown, 80, 25)),
            b"\x1b[<65;80;25M",
        ),
        (
            "Mouse Release",
            Key::Mouse(MouseEvent::Release(9, 9)),
            b"\x1b[<0;9;9m",
        ),
        (
            "Mouse Hold",
            Key::Mouse(MouseEvent::Hold(3, 4)),
            b"\x1b[<32;3;4M",
        ),
        (
            "Paste",
            Key::Paste("hi\nthere".to_string()),
            b"\x1b[200~hi\nthere\x1b[201~",
        ),
        (
            "Paste_empty",
            Key::Paste(String::new()),
            b"\x1b[200~\x1b[201~",
        ),
    ];
    for (name, key, expected) in &cases {
        let got = encode_key(key);
        println!(
            "case encode_key_byte_table[{name}]: {key:?} -> {:02x?} (want {:02x?})",
            got, expected
        );
        assert_eq!(&got, expected, "case {name} failed for {key:?}");
    }
    // Whole control families.
    for (i, c) in ('a'..='z').enumerate() {
        let expected = vec![(i + 1) as u8];
        let got = encode_key(&Key::Ctrl(c));
        println!("case encode_key_byte_table[Ctrl('{c}')]: -> {got:02x?}");
        assert_eq!(got, expected, "Ctrl('{c}') must encode as 0x{:02x}", i + 1);
    }
    for (i, c) in ('4'..='7').enumerate() {
        let expected = vec![0x1c + i as u8];
        let got = encode_key(&Key::Ctrl(c));
        println!("case encode_key_byte_table[Ctrl('{c}')]: -> {got:02x?}");
        assert_eq!(got, expected, "Ctrl('{c}') must encode as 0x1c+{i}");
    }
    println!(
        "encode_key_byte_table: {} named cases + 30 family cases checked",
        cases.len()
    );
}

#[test]
fn thread_view_focus_step_transitions_exhaustive() {
    assert!(matches!(
        ThreadViewFocus::MailView.step(FocusDirection::Left),
        FocusStep::Focus(ThreadViewFocus::Unfocused)
    ));
    assert!(matches!(
        ThreadViewFocus::Unfocused.step(FocusDirection::Left),
        FocusStep::PassThrough
    ));
    assert!(matches!(
        ThreadViewFocus::Thread.step(FocusDirection::Left),
        FocusStep::PassThrough
    ));
    assert!(matches!(
        ThreadViewFocus::Thread.step(FocusDirection::Right),
        FocusStep::Focus(ThreadViewFocus::Unfocused)
    ));
    assert!(matches!(
        ThreadViewFocus::Unfocused.step(FocusDirection::Right),
        FocusStep::Focus(ThreadViewFocus::MailView)
    ));
    assert!(matches!(
        ThreadViewFocus::MailView.step(FocusDirection::Right),
        FocusStep::StayAndConsume
    ));
}
