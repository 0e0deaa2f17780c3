//! Tests of the mapping between cell colours/attributes and ratatui's.
use meli::cells::{
    Attr, Color, ATTR_BLINK, ATTR_BOLD, ATTR_DEFAULT, ATTR_DIM, ATTR_FORCE_TEXT, ATTR_HIDDEN,
    ATTR_ITALICS, ATTR_REVERSE, ATTR_UNDERCURL, ATTR_UNDERLINE,
};
use meli::tui::{
    attr_to_modifier, color_to_tui, modifier_to_attr, tui_to_color, TuiColor, TUI_BOLD,
    TUI_CROSSED_OUT, TUI_DIM, TUI_HIDDEN, TUI_ITALIC, TUI_RAPID_BLINK, TUI_REVERSED,
    TUI_SLOW_BLINK, TUI_UNDERLINED,
};
use ratatui::style::Modifier;

#[test]
fn color_conversion_matrix() {
    let cases: Vec<(&str, Color, TuiColor)> = vec![
        ("Default", Color::Default, TuiColor::Reset),
        ("Black", Color::Black, TuiColor::Black),
        ("Red", Color::Red, TuiColor::Red),
        ("Green", Color::Green, TuiColor::Green),
        ("Yellow", Color::Yellow, TuiColor::Yellow),
        ("Blue", Color::Blue, TuiColor::Blue),
        ("Magenta", Color::Magenta, TuiColor::Magenta),
        ("Cyan", Color::Cyan, TuiColor::Cyan),
        ("White", Color::White, TuiColor::Gray),
        ("Byte(0)", Color::Byte(0), TuiColor::Indexed(0)),
        ("Byte(255)", Color::Byte(255), TuiColor::Indexed(255)),
        ("Rgb", Color::Rgb(0xde, 0xad, 0xbe), TuiColor::Rgb(0xde, 0xad, 0xbe)),
    ];
    for (name, meli, rat) in &cases {
        let got = color_to_tui(*meli);
        assert_eq!(got, *rat, "case {name} failed");
        assert_eq!(tui_to_color(got), *meli, "round trip of {name} failed");
    }
    for b in 0..=u8::MAX {
        let meli = Color::Byte(b);
        assert_eq!(tui_to_color(color_to_tui(meli)), meli, "Byte({b}) round trip failed");
    }
}

#[test]
fn ratatui_color_reverse_matrix() {
    let cases: Vec<(&str, TuiColor, Color)> = vec![
        ("Reset", TuiColor::Reset, Color::Default),
        ("Black", TuiColor::Black, Color::Black),
        ("Red", TuiColor::Red, Color::Red),
        ("Green", TuiColor::Green, Color::Green),
        ("Yellow", TuiColor::Yellow, Color::Yellow),
        ("Blue", TuiColor::Blue, Color::Blue),
        ("Magenta", TuiColor::Magenta, Color::Magenta),
        ("Cyan", TuiColor::Cyan, Color::Cyan),
        ("Gray", TuiColor::Gray, Color::White),
        ("DarkGray", TuiColor::DarkGray, Color::Byte(8)),
        ("LightRed", TuiColor::LightRed, Color::Byte(9)),
        ("LightGreen", TuiColor::LightGreen, Color::Byte(10)),
        ("LightYellow", TuiColor::LightYellow, Color::Byte(11)),
        ("LightBlue", TuiColor::LightBlue, Color::Byte(12)),
        ("LightMagenta", TuiColor::LightMagenta, Color::Byte(13)),
        ("LightCyan", TuiColor::LightCyan, Color::Byte(14)),
        ("White", TuiColor::White, Color::Byte(15)),
        ("Indexed", TuiColor::Indexed(77), Color::Byte(77)),
        ("Rgb", TuiColor::Rgb(1, 2, 3), Color::Rgb(1, 2, 3)),
    ];
    for (name, rat, meli) in &cases {
        assert_eq!(tui_to_color(*rat), *meli, "case {name} failed");
    }
}

#[test]
fn attr_modifier_conversion_matrix() {
    let pairs = [
        ("BOLD", ATTR_BOLD, TUI_BOLD),
        ("DIM", ATTR_DIM, TUI_DIM),
        ("ITALICS", ATTR_ITALICS, TUI_ITALIC),
        ("UNDERLINE", ATTR_UNDERLINE, TUI_UNDERLINED),
        ("BLINK", ATTR_BLINK, TUI_SLOW_BLINK),
        ("REVERSE", ATTR_REVERSE, TUI_REVERSED),
        ("HIDDEN", ATTR_HIDDEN, TUI_HIDDEN),
    ];
    for (name, attr, modifier) in pairs {
        assert_eq!(attr_to_modifier(Attr(attr)), modifier, "case {name} failed");
        assert_eq!(modifier_to_attr(modifier), Attr(attr), "reverse of {name} failed");
    }
    let combo = Attr(ATTR_BOLD | ATTR_ITALICS | ATTR_REVERSE);
    let got = attr_to_modifier(combo);
    assert_eq!(got, TUI_BOLD | TUI_ITALIC | TUI_REVERSED, "combination");
    assert_eq!(modifier_to_attr(got), combo, "combination reverse");
    assert_eq!(attr_to_modifier(Attr(ATTR_UNDERCURL)), 0);
    assert_eq!(attr_to_modifier(Attr(ATTR_FORCE_TEXT)), 0);
    assert_eq!(attr_to_modifier(Attr(ATTR_UNDERCURL | ATTR_FORCE_TEXT | ATTR_BOLD)), TUI_BOLD);
    assert_eq!(modifier_to_attr(TUI_RAPID_BLINK), Attr(ATTR_DEFAULT));
    assert_eq!(modifier_to_attr(TUI_CROSSED_OUT), Attr(ATTR_DEFAULT));
    assert_eq!(modifier_to_attr(TUI_SLOW_BLINK | TUI_CROSSED_OUT), Attr(ATTR_BLINK));
}

#[test]
fn modifier_bits_are_ratatuis() {
    assert_eq!(Modifier::BOLD.bits(), TUI_BOLD);
    assert_eq!(Modifier::DIM.bits(), TUI_DIM);
    assert_eq!(Modifier::ITALIC.bits(), TUI_ITALIC);
    assert_eq!(Modifier::UNDERLINED.bits(), TUI_UNDERLINED);
    assert_eq!(Modifier::SLOW_BLINK.bits(), TUI_SLOW_BLINK);
    assert_eq!(Modifier::RAPID_BLINK.bits(), TUI_RAPID_BLINK);
    assert_eq!(Modifier::REVERSED.bits(), TUI_REVERSED);
    assert_eq!(Modifier::HIDDEN.bits(), TUI_HIDDEN);
    assert_eq!(Modifier::CROSSED_OUT.bits(), TUI_CROSSED_OUT);
}
