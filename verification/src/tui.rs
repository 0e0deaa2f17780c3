//! The colour and text-attribute vocabulary of ratatui, as plain values,
//! and the mapping between it and the cells' colours and attributes.
use vstd::prelude::*;
use crate::cells::{Attr, Color, ATTR_BLINK, ATTR_BOLD, ATTR_DIM, ATTR_HIDDEN, ATTR_ITALICS, ATTR_REVERSE, ATTR_UNDERLINE};

verus! {

/// A colour as ratatui names it (`ratatui::style::Color`): the terminal
/// default (`Reset`), the sixteen named colours (ratatui's `Gray` is ANSI
/// white, its `White` bright white), a palette index, or RGB.
#[derive(Clone, Copy, Debug, PartialEq, Eq, Structural)]
pub enum TuiColor {
    Reset,
    Black,
    Red,
    Green,
    Yellow,
    Blue,
    Magenta,
    Cyan,
    Gray,
    DarkGray,
    LightRed,
    LightGreen,
    LightYellow,
    LightBlue,
    LightMagenta,
    LightCyan,
    White,
    Rgb(u8, u8, u8),
    Indexed(u8),
}

/// The `BOLD` bit of ratatui's `Modifier`.
pub const TUI_BOLD: u16 = 0b0000_0000_0001;
/// The `DIM` bit of ratatui's `Modifier`.
pub const TUI_DIM: u16 = 0b0000_0000_0010;
/// The `ITALIC` bit of ratatui's `Modifier`.
pub const TUI_ITALIC: u16 = 0b0000_0000_0100;
/// The `UNDERLINED` bit of ratatui's `Modifier`.
pub const TUI_UNDERLINED: u16 = 0b0000_0000_1000;
/// The `SLOW_BLINK` bit of ratatui's `Modifier`.
pub const TUI_SLOW_BLINK: u16 = 0b0000_0001_0000;
/// The `RAPID_BLINK` bit of ratatui's `Modifier`.
pub const TUI_RAPID_BLINK: u16 = 0b0000_0010_0000;
/// The `REVERSED` bit of ratatui's `Modifier`.
pub const TUI_REVERSED: u16 = 0b0000_0100_0000;
/// The `HIDDEN` bit of ratatui's `Modifier`.
pub const TUI_HIDDEN: u16 = 0b0000_1000_0000;
/// The `CROSSED_OUT` bit of ratatui's `Modifier`.
pub const TUI_CROSSED_OUT: u16 = 0b0001_0000_0000;

/// A cell colour in ratatui's vocabulary: the default is `Reset`, the
/// eight named colours keep their names (white is ratatui's `Gray`), a
/// palette index is `Indexed`, RGB stays RGB.
pub open spec fn color_to_tui_spec(c: Color) -> TuiColor {
    match c {
        Color::Default => TuiColor::Reset,
        Color::Black => TuiColor::Black,
        Color::Red => TuiColor::Red,
        Color::Green => TuiColor::Green,
        Color::Yellow => TuiColor::Yellow,
        Color::Blue => TuiColor::Blue,
        Color::Magenta => TuiColor::Magenta,
        Color::Cyan => TuiColor::Cyan,
        Color::White => TuiColor::Gray,
        Color::Byte(b) => TuiColor::Indexed(b),
        Color::Rgb(r, g, b) => TuiColor::Rgb(r, g, b),
    }
}

/// A ratatui colour as a cell colour: the inverse of
/// [`color_to_tui_spec`], the eight bright colours becoming palette
/// indices `8` to `15`.
pub open spec fn tui_to_color_spec(t: TuiColor) -> Color {
    match t {
        TuiColor::Reset => Color::Default,
        TuiColor::Black => Color::Black,
        TuiColor::Red => Color::Red,
        TuiColor::Green => Color::Green,
        TuiColor::Yellow => Color::Yellow,
        TuiColor::Blue => Color::Blue,
        TuiColor::Magenta => Color::Magenta,
        TuiColor::Cyan => Color::Cyan,
        TuiColor::Gray => Color::White,
        TuiColor::DarkGray => Color::Byte(8),
        TuiColor::LightRed => Color::Byte(9),
        TuiColor::LightGreen => Color::Byte(10),
        TuiColor::LightYellow => Color::Byte(11),
        TuiColor::LightBlue => Color::Byte(12),
        TuiColor::LightMagenta => Color::Byte(13),
        TuiColor::LightCyan => Color::Byte(14),
        TuiColor::White => Color::Byte(15),
        TuiColor::Indexed(b) => Color::Byte(b),
        TuiColor::Rgb(r, g, b) => Color::Rgb(r, g, b),
    }
}

/// A cell colour in ratatui's vocabulary.
pub fn color_to_tui(c: Color) -> (r: TuiColor)
    ensures
        r == color_to_tui_spec(c),
{
    match c {
        Color::Default => TuiColor::Reset,
        Color::Black => TuiColor::Black,
        Color::Red => TuiColor::Red,
        Color::Green => TuiColor::Green,
        Color::Yellow => TuiColor::Yellow,
        Color::Blue => TuiColor::Blue,
        Color::Magenta => TuiColor::Magenta,
        Color::Cyan => TuiColor::Cyan,
        Color::White => TuiColor::Gray,
        Color::Byte(b) => TuiColor::Indexed(b),
        Color::Rgb(r, g, b) => TuiColor::Rgb(r, g, b),
    }
}

/// A ratatui colour as a cell colour.
pub fn tui_to_color(t: TuiColor) -> (r: Color)
    ensures
        r == tui_to_color_spec(t),
{
    match t {
        TuiColor::Reset => Color::Default,
        TuiColor::Black => Color::Black,
        TuiColor::Red => Color::Red,
        TuiColor::Green => Color::Green,
        TuiColor::Yellow => Color::Yellow,
        TuiColor::Blue => Color::Blue,
        TuiColor::Magenta => Color::Magenta,
        TuiColor::Cyan => Color::Cyan,
        TuiColor::Gray => Color::White,
        TuiColor::DarkGray => Color::Byte(8),
        TuiColor::LightRed => Color::Byte(9),
        TuiColor::LightGreen => Color::Byte(10),
        TuiColor::LightYellow => Color::Byte(11),
        TuiColor::LightBlue => Color::Byte(12),
        TuiColor::LightMagenta => Color::Byte(13),
        TuiColor::LightCyan => Color::Byte(14),
        TuiColor::White => Color::Byte(15),
        TuiColor::Indexed(b) => Color::Byte(b),
        TuiColor::Rgb(r, g, b) => Color::Rgb(r, g, b),
    }
}

/// Going to ratatui's colours and back gives every cell colour back.
pub proof fn law_color_round_trip(c: Color)
    ensures
        tui_to_color_spec(color_to_tui_spec(c)) == c,
{
}

/// `bit` when `a` has any bit of `mask`, else nothing.
pub open spec fn bit_if(a: u16, mask: u16, bit: u16) -> u16 {
    if a & mask != 0 {
        bit
    } else {
        0
    }
}

/// The ratatui modifiers of a set of attributes: bold, dim, italics,
/// underline, blink (as `SLOW_BLINK`), reverse and hidden; undercurl and
/// the forced presentations have no modifier and are dropped.
pub open spec fn attr_to_modifier_spec(a: u16) -> u16 {
    bit_if(a, ATTR_BOLD, TUI_BOLD) | bit_if(a, ATTR_DIM, TUI_DIM) | bit_if(a, ATTR_ITALICS, TUI_ITALIC)
        | bit_if(a, ATTR_UNDERLINE, TUI_UNDERLINED) | bit_if(a, ATTR_BLINK, TUI_SLOW_BLINK) | bit_if(
        a,
        ATTR_REVERSE,
        TUI_REVERSED,
    ) | bit_if(a, ATTR_HIDDEN, TUI_HIDDEN)
}

/// The attributes of a set of ratatui modifiers: the inverse of
/// [`attr_to_modifier_spec`]; rapid blink and crossed-out have no
/// attribute and are dropped.
pub open spec fn modifier_to_attr_spec(m: u16) -> u16 {
    bit_if(m, TUI_BOLD, ATTR_BOLD) | bit_if(m, TUI_DIM, ATTR_DIM) | bit_if(m, TUI_ITALIC, ATTR_ITALICS)
        | bit_if(m, TUI_UNDERLINED, ATTR_UNDERLINE) | bit_if(m, TUI_SLOW_BLINK, ATTR_BLINK) | bit_if(
        m,
        TUI_REVERSED,
        ATTR_REVERSE,
    ) | bit_if(m, TUI_HIDDEN, ATTR_HIDDEN)
}

/// `bit` when `a` has any bit of `mask`, else nothing.
fn pick_bit(a: u16, mask: u16, bit: u16) -> (r: u16)
    ensures
        r == bit_if(a, mask, bit),
{
    if a & mask != 0 {
        bit
    } else {
        0
    }
}

/// The ratatui modifiers of `a`, as [`attr_to_modifier_spec`] states it.
pub fn attr_to_modifier(a: Attr) -> (r: u16)
    ensures
        r == attr_to_modifier_spec(a.0),
{
    let x = a.0;
    pick_bit(x, ATTR_BOLD, TUI_BOLD) | pick_bit(x, ATTR_DIM, TUI_DIM) | pick_bit(x, ATTR_ITALICS, TUI_ITALIC)
        | pick_bit(x, ATTR_UNDERLINE, TUI_UNDERLINED) | pick_bit(x, ATTR_BLINK, TUI_SLOW_BLINK)
        | pick_bit(x, ATTR_REVERSE, TUI_REVERSED) | pick_bit(x, ATTR_HIDDEN, TUI_HIDDEN)
}

/// The attributes of modifiers `m`, as [`modifier_to_attr_spec`] states
/// it.
pub fn modifier_to_attr(m: u16) -> (r: Attr)
    ensures
        r.0 == modifier_to_attr_spec(m),
{
    Attr(
        pick_bit(m, TUI_BOLD, ATTR_BOLD) | pick_bit(m, TUI_DIM, ATTR_DIM) | pick_bit(m, TUI_ITALIC, ATTR_ITALICS)
            | pick_bit(m, TUI_UNDERLINED, ATTR_UNDERLINE) | pick_bit(m, TUI_SLOW_BLINK, ATTR_BLINK)
            | pick_bit(m, TUI_REVERSED, ATTR_REVERSE) | pick_bit(m, TUI_HIDDEN, ATTR_HIDDEN),
    )
}

/// Going to ratatui's modifiers and back keeps exactly the attributes
/// ratatui has (bold, dim, italics, underline, blink, reverse, hidden)
/// and drops the others.
pub proof fn law_attr_round_trip(a: u16)
    ensures
        modifier_to_attr_spec(attr_to_modifier_spec(a)) == a & 0xEF,
{
    assert(modifier_to_attr_spec(attr_to_modifier_spec(a)) == a & 0xEF) by (bit_vector);
}

} // verus!
