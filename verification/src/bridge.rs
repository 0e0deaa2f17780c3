//! Terminal input translated into the key vocabulary, keys re-encoded as
//! the bytes a terminal sends for them, and the border strips of a frame.
use vstd::prelude::*;
use vstd::string::*;
use vstd::utf8::encode_utf8;
use crate::area::Area;
use crate::keys::{Key, KeyView, MouseButton, MouseEvent};
use crate::text::push_char;

verus! {

broadcast use vstd::string::group_string_axioms;

/// The decimal numeral of `n` in ASCII bytes.
pub open spec fn dec_bytes(n: nat) -> Seq<u8>
    decreases n,
{
    if n < 10 {
        seq![(0x30 + n) as u8]
    } else {
        dec_bytes(n / 10).push((0x30 + n % 10) as u8)
    }
}

/// Appends the decimal numeral of `n`, in ASCII bytes, to `v`.
fn push_dec_bytes(v: &mut Vec<u8>, n: u16)
    ensures
        final(v)@ == old(v)@ + dec_bytes(n as nat),
    decreases n,
{
    if n < 10 {
        v.push(0x30 + n as u8);
    } else {
        push_dec_bytes(v, n / 10);
        v.push(0x30 + (n % 10) as u8);
    }
}

/// `ESC [` followed by `tail`.
pub open spec fn csi(tail: Seq<u8>) -> Seq<u8> {
    seq![0x1bu8, 0x5bu8] + tail
}

/// The raw control byte for `Ctrl(c)`: `NUL` for `@` and space, `0x01` to
/// `0x1A` for `a` to `z`, `0x1C` to `0x1F` for `4` to `7`, else the low
/// five bits of the character.
pub open spec fn ctrl_byte_spec(c: char) -> u8 {
    if c == '@' || c == ' ' {
        0
    } else if 'a' <= c && c <= 'z' {
        ((c as u32) - ('a' as u32) + 1) as u8
    } else if '4' <= c && c <= '7' {
        ((c as u32) - ('4' as u32) + 0x1c) as u8
    } else {
        ((c as u32) % 32) as u8
    }
}

/// The raw control byte for a `Ctrl(c)` key.
pub fn ctrl_byte(c: char) -> (r: u8)
    ensures
        r == ctrl_byte_spec(c),
{
    if c == '@' || c == ' ' {
        0
    } else if 'a' <= c && c <= 'z' {
        ((c as u32) - ('a' as u32) + 1) as u8
    } else if '4' <= c && c <= '7' {
        ((c as u32) - ('4' as u32) + 0x1c) as u8
    } else {
        ((c as u32) % 32) as u8
    }
}

/// The SGR button code of a pressed button.
pub open spec fn button_code(b: MouseButton) -> nat {
    match b {
        MouseButton::Left => 0,
        MouseButton::Middle => 1,
        MouseButton::Right => 2,
        MouseButton::WheelUp => 64,
        MouseButton::WheelDown => 65,
    }
}

/// The SGR form `ESC [ < code ; x ; y` and the final byte.
pub open spec fn sgr_mouse(code: nat, x: nat, y: nat, last: u8) -> Seq<u8> {
    csi(seq![0x3cu8]) + dec_bytes(code) + seq![0x3bu8] + dec_bytes(x) + seq![0x3bu8] + dec_bytes(y)
        + seq![last]
}

/// The SGR encoding of a mouse event: `M` ends a press or a hold, `m` a
/// release; a hold is code 32.
pub open spec fn mouse_bytes(ev: MouseEvent) -> Seq<u8> {
    match ev {
        MouseEvent::Press(b, x, y) => sgr_mouse(button_code(b), x as nat, y as nat, 0x4d),
        MouseEvent::Release(x, y) => sgr_mouse(0, x as nat, y as nat, 0x6d),
        MouseEvent::Hold(x, y) => sgr_mouse(32, x as nat, y as nat, 0x4d),
    }
}

/// Encodes a mouse event in SGR form (`ESC [ < Cb ; Cx ; Cy M|m`).
pub fn encode_mouse_event(ev: &MouseEvent) -> (r: Vec<u8>)
    ensures
        r@ == mouse_bytes(*ev),
{
    let (code, x, y, last): (u16, u16, u16, u8) = match ev {
        MouseEvent::Press(button, x, y) => {
            let cb: u16 = match button {
                MouseButton::Left => 0,
                MouseButton::Middle => 1,
                MouseButton::Right => 2,
                MouseButton::WheelUp => 64,
                MouseButton::WheelDown => 65,
            };
            (cb, *x, *y, 0x4d)
        },
        MouseEvent::Release(x, y) => (0, *x, *y, 0x6d),
        MouseEvent::Hold(x, y) => (32, *x, *y, 0x4d),
    };
    let mut v: Vec<u8> = vec![0x1b, 0x5b, 0x3c];
    push_dec_bytes(&mut v, code);
    v.push(0x3b);
    push_dec_bytes(&mut v, x);
    v.push(0x3b);
    push_dec_bytes(&mut v, y);
    v.push(last);
    proof {
        assert(v@ =~= mouse_bytes(*ev));
    }
    v
}

/// The bytes a terminal sends for a key: control keys as their control
/// bytes, `Alt(c)` as `ESC c`, arrows and editing keys as CSI sequences,
/// `F1` to `F4` in SS3 form and `F5` to `F12` as `CSI n ~`, mouse events in
/// SGR form, pastes between bracketed-paste markers.
pub open spec fn key_bytes(k: KeyView) -> Seq<u8> {
    match k {
        KeyView::Backspace => seq![0x7fu8],
        KeyView::Left => csi(seq![0x44u8]),
        KeyView::Right => csi(seq![0x43u8]),
        KeyView::Up => csi(seq![0x41u8]),
        KeyView::Down => csi(seq![0x42u8]),
        KeyView::Home => csi(seq![0x48u8]),
        KeyView::End => csi(seq![0x46u8]),
        KeyView::PageUp => csi(seq![0x35u8, 0x7eu8]),
        KeyView::PageDown => csi(seq![0x36u8, 0x7eu8]),
        KeyView::Delete => csi(seq![0x33u8, 0x7eu8]),
        KeyView::Insert => csi(seq![0x32u8, 0x7eu8]),
        KeyView::F(n) => if n == 1 {
            seq![0x1bu8, 0x4fu8, 0x50u8]
        } else if n == 2 {
            seq![0x1bu8, 0x4fu8, 0x51u8]
        } else if n == 3 {
            seq![0x1bu8, 0x4fu8, 0x52u8]
        } else if n == 4 {
            seq![0x1bu8, 0x4fu8, 0x53u8]
        } else if n == 5 {
            csi(seq![0x31u8, 0x35u8, 0x7eu8])
        } else if n == 6 {
            csi(seq![0x31u8, 0x37u8, 0x7eu8])
        } else if n == 7 {
            csi(seq![0x31u8, 0x38u8, 0x7eu8])
        } else if n == 8 {
            csi(seq![0x31u8, 0x39u8, 0x7eu8])
        } else if n == 9 {
            csi(seq![0x32u8, 0x30u8, 0x7eu8])
        } else if n == 10 {
            csi(seq![0x32u8, 0x31u8, 0x7eu8])
        } else if n == 11 {
            csi(seq![0x32u8, 0x33u8, 0x7eu8])
        } else if n == 12 {
            csi(seq![0x32u8, 0x34u8, 0x7eu8])
        } else {
            csi(dec_bytes(n as nat) + seq![0x7eu8])
        },
        KeyView::Char(c) => if c == '\n' || c == '\r' {
            seq![0x0du8]
        } else {
            encode_utf8(seq![c])
        },
        KeyView::Alt(c) => seq![0x1bu8] + encode_utf8(seq![c]),
        KeyView::Ctrl(c) => seq![ctrl_byte_spec(c)],
        KeyView::Null => seq![0x00u8],
        KeyView::Esc => seq![0x1bu8],
        KeyView::Mouse(ev) => mouse_bytes(ev),
        KeyView::Paste(s) => csi(seq![0x32u8, 0x30u8, 0x30u8, 0x7eu8]) + encode_utf8(s) + csi(
            seq![0x32u8, 0x30u8, 0x31u8, 0x7eu8],
        ),
    }
}

/// The UTF-8 bytes of one character.
pub(crate) fn char_bytes(c: char) -> (r: Vec<u8>)
    ensures
        r@ == encode_utf8(seq![c]),
{
    let mut s = String::new();
    push_char(&mut s, c);
    assert(s@ =~= seq![c]);
    s.as_str().as_bytes_vec()
}

/// Encodes a key as the raw bytes a terminal sends for it.
pub fn encode_key(key: &Key) -> (r: Vec<u8>)
    ensures
        r@ == key_bytes(key@),
{
    let v: Vec<u8> = match key {
        Key::Backspace => vec![0x7f],
        Key::Left => vec![0x1b, 0x5b, 0x44],
        Key::Right => vec![0x1b, 0x5b, 0x43],
        Key::Up => vec![0x1b, 0x5b, 0x41],
        Key::Down => vec![0x1b, 0x5b, 0x42],
        Key::Home => vec![0x1b, 0x5b, 0x48],
        Key::End => vec![0x1b, 0x5b, 0x46],
        Key::PageUp => vec![0x1b, 0x5b, 0x35, 0x7e],
        Key::PageDown => vec![0x1b, 0x5b, 0x36, 0x7e],
        Key::Delete => vec![0x1b, 0x5b, 0x33, 0x7e],
        Key::Insert => vec![0x1b, 0x5b, 0x32, 0x7e],
        Key::F(n) => {
            let n = *n;
            if n == 1 {
                vec![0x1b, 0x4f, 0x50]
            } else if n == 2 {
                vec![0x1b, 0x4f, 0x51]
            } else if n == 3 {
                vec![0x1b, 0x4f, 0x52]
            } else if n == 4 {
                vec![0x1b, 0x4f, 0x53]
            } else if n == 5 {
                vec![0x1b, 0x5b, 0x31, 0x35, 0x7e]
            } else if n == 6 {
                vec![0x1b, 0x5b, 0x31, 0x37, 0x7e]
            } else if n == 7 {
                vec![0x1b, 0x5b, 0x31, 0x38, 0x7e]
            } else if n == 8 {
                vec![0x1b, 0x5b, 0x31, 0x39, 0x7e]
            } else if n == 9 {
                vec![0x1b, 0x5b, 0x32, 0x30, 0x7e]
            } else if n == 10 {
                vec![0x1b, 0x5b, 0x32, 0x31, 0x7e]
            } else if n == 11 {
                vec![0x1b, 0x5b, 0x32, 0x33, 0x7e]
            } else if n == 12 {
                vec![0x1b, 0x5b, 0x32, 0x34, 0x7e]
            } else {
                let mut v: Vec<u8> = vec![0x1b, 0x5b];
                push_dec_bytes(&mut v, n as u16);
                v.push(0x7e);
                v
            }
        },
        Key::Char(c) => {
            if *c == '\n' || *c == '\r' {
                vec![0x0d]
            } else {
                char_bytes(*c)
            }
        },
        Key::Alt(c) => {
            let mut v: Vec<u8> = vec![0x1b];
            let mut b = char_bytes(*c);
            v.append(&mut b);
            v
        },
        Key::Ctrl(c) => vec![ctrl_byte(*c)],
        Key::Null => vec![0x00],
        Key::Esc => vec![0x1b],
        Key::Mouse(ev) => encode_mouse_event(ev),
        Key::Paste(buf) => {
            let mut v: Vec<u8> = vec![0x1b, 0x5b, 0x32, 0x30, 0x30, 0x7e];
            let mut b = buf.as_str().as_bytes_vec();
            v.append(&mut b);
            let mut end: Vec<u8> = vec![0x1b, 0x5b, 0x32, 0x30, 0x31, 0x7e];
            v.append(&mut end);
            v
        },
    };
    proof {
        assert(v@ =~= key_bytes(key@));
    }
    v
}

/// The four border strips of `area`: the top and bottom rows, the left
/// and right columns. On a degenerate area every strip stays inside it.
pub fn frame_ring_areas(area: Area) -> (r: [Area; 4])
    requires
        area@.nth_row_fits((if area@.height() > 0 {
            area@.height() - 1
        } else {
            0
        }) as nat),
        area@.nth_col_fits((if area@.width() > 0 {
            area@.width() - 1
        } else {
            0
        }) as nat),
    ensures
        r[0]@ == area@.nth_row(0),
        r[1]@ == area@.nth_row((if area@.height() > 0 {
            area@.height() - 1
        } else {
            0
        }) as nat),
        r[2]@ == area@.nth_col(0),
        r[3]@ == area@.nth_col((if area@.width() > 0 {
            area@.width() - 1
        } else {
            0
        }) as nat),
{
    let top = area.nth_row(0);
    let bottom = area.nth_row(area.height().saturating_sub(1));
    let left = area.nth_col(0);
    let right = area.nth_col(area.width().saturating_sub(1));
    [top, bottom, left, right]
}

/// A key code as the terminal reports it (crossterm's `KeyCode`), as far as
/// translation tells codes apart; lock, media, modifier and other keys
/// without a counterpart are `Unmapped`.
#[derive(Clone, Copy, Debug, PartialEq, Eq, Structural)]
pub enum KeyCodeInput {
    Backspace,
    Left,
    Right,
    Up,
    Down,
    Home,
    End,
    PageUp,
    PageDown,
    Delete,
    Insert,
    F(u8),
    Esc,
    Null,
    Enter,
    Tab,
    BackTab,
    Char(char),
    Unmapped,
}

/// The `SHIFT` bit of a modifier set (crossterm's `KeyModifiers` bits).
pub const MOD_SHIFT: u8 = 0b0000_0001;

/// The `CONTROL` bit of a modifier set.
pub const MOD_CONTROL: u8 = 0b0000_0010;

/// The `ALT` bit of a modifier set.
pub const MOD_ALT: u8 = 0b0000_0100;

/// `c` with an ASCII capital made small, as `char::to_ascii_lowercase`
/// gives it.
pub open spec fn ascii_lowercase(c: char) -> char {
    if 'A' <= c && c <= 'Z' {
        ((c as u32) + 32) as char
    } else {
        c
    }
}

/// A named key, which passes only without modifiers.
pub open spec fn named_spec(k: KeyView, modifiers: u8) -> Option<KeyView> {
    if modifiers == 0 {
        Some(k)
    } else {
        None
    }
}

/// A character key: with `CONTROL` the lowercased character under `Ctrl`,
/// else with `ALT` under `Alt`, else the character itself.
pub open spec fn modified_char_spec(c: char, modifiers: u8) -> Option<KeyView> {
    if modifiers & MOD_CONTROL != 0 {
        Some(KeyView::Ctrl(ascii_lowercase(c)))
    } else if modifiers & MOD_ALT != 0 {
        Some(KeyView::Alt(c))
    } else {
        Some(KeyView::Char(c))
    }
}

/// The key a keyboard event stands for; `None` for a release, for codes
/// without a counterpart, and for named keys with modifiers.
pub open spec fn translate_key_spec(code: KeyCodeInput, modifiers: u8, release: bool) -> Option<
    KeyView,
> {
    if release {
        None
    } else {
        match code {
            KeyCodeInput::Backspace => named_spec(KeyView::Backspace, modifiers),
            KeyCodeInput::Left => named_spec(KeyView::Left, modifiers),
            KeyCodeInput::Right => named_spec(KeyView::Right, modifiers),
            KeyCodeInput::Up => named_spec(KeyView::Up, modifiers),
            KeyCodeInput::Down => named_spec(KeyView::Down, modifiers),
            KeyCodeInput::Home => named_spec(KeyView::Home, modifiers),
            KeyCodeInput::End => named_spec(KeyView::End, modifiers),
            KeyCodeInput::PageUp => named_spec(KeyView::PageUp, modifiers),
            KeyCodeInput::PageDown => named_spec(KeyView::PageDown, modifiers),
            KeyCodeInput::Delete => named_spec(KeyView::Delete, modifiers),
            KeyCodeInput::Insert => named_spec(KeyView::Insert, modifiers),
            KeyCodeInput::F(n) => named_spec(KeyView::F(n), modifiers),
            KeyCodeInput::Esc => named_spec(KeyView::Esc, modifiers),
            KeyCodeInput::Null => Some(KeyView::Null),
            KeyCodeInput::Enter => modified_char_spec('\n', modifiers),
            KeyCodeInput::Tab => modified_char_spec('\t', modifiers),
            KeyCodeInput::BackTab => if modifiers == MOD_SHIFT {
                Some(KeyView::Char(' '))
            } else {
                None
            },
            KeyCodeInput::Char(c) => modified_char_spec(c, modifiers),
            KeyCodeInput::Unmapped => None,
        }
    }
}

/// A pressed character key keeps its character under `ALT` alone, is
/// lowercased under `CONTROL` (whatever else is held, `CONTROL` winning
/// over `ALT`), and comes through as itself with neither; `SHIFT` and the
/// other modifiers change nothing. A release gives no key.
pub proof fn law_character_keys(c: char, modifiers: u8)
    ensures
        modifiers & MOD_ALT != 0 && modifiers & MOD_CONTROL == 0 ==> translate_key_spec(
            KeyCodeInput::Char(c),
            modifiers,
            false,
        ) == Some(KeyView::Alt(c)),
        modifiers & MOD_CONTROL != 0 ==> translate_key_spec(KeyCodeInput::Char(c), modifiers, false)
            == Some(KeyView::Ctrl(if 'A' <= c <= 'Z' {
            ((c as u32) + 32) as char
        } else {
            c
        })),
        modifiers & MOD_ALT == 0 && modifiers & MOD_CONTROL == 0 ==> translate_key_spec(
            KeyCodeInput::Char(c),
            modifiers,
            false,
        ) == Some(KeyView::Char(c)),
        translate_key_spec(KeyCodeInput::Char(c), modifiers, true) is None,
{
}

/// The view of an optional key.
pub open spec fn key_opt_view(k: Option<Key>) -> Option<KeyView> {
    match k {
        Some(k) => Some(k@),
        None => None,
    }
}

fn ascii_lower(c: char) -> (r: char)
    ensures
        r == ascii_lowercase(c),
{
    if 'A' <= c && c <= 'Z' {
        ((c as u8) + 32) as char
    } else {
        c
    }
}

fn named(key: Key, modifiers: u8) -> (r: Option<Key>)
    ensures
        key_opt_view(r) == named_spec(key@, modifiers),
{
    if modifiers == 0 {
        Some(key)
    } else {
        None
    }
}

fn modified_char(c: char, modifiers: u8) -> (r: Option<Key>)
    ensures
        key_opt_view(r) == modified_char_spec(c, modifiers),
{
    if modifiers & MOD_CONTROL != 0 {
        Some(Key::Ctrl(ascii_lower(c)))
    } else if modifiers & MOD_ALT != 0 {
        Some(Key::Alt(c))
    } else {
        Some(Key::Char(c))
    }
}

/// Translates a keyboard event (its code, its modifier bits, whether it is
/// a release) into a key. Releases, codes without a counterpart and named
/// keys with modifiers give `None`; `Enter` is `Char('\n')` and `Tab`
/// `Char('\t')`; `CONTROL` gives `Ctrl` with the character lowercased, else
/// `ALT` gives `Alt`.
pub fn translate_key_event(code: KeyCodeInput, modifiers: u8, release: bool) -> (r: Option<Key>)
    ensures
        key_opt_view(r) == translate_key_spec(code, modifiers, release),
{
    if release {
        return None;
    }
    match code {
        KeyCodeInput::Backspace => named(Key::Backspace, modifiers),
        KeyCodeInput::Left => named(Key::Left, modifiers),
        KeyCodeInput::Right => named(Key::Right, modifiers),
        KeyCodeInput::Up => named(Key::Up, modifiers),
        KeyCodeInput::Down => named(Key::Down, modifiers),
        KeyCodeInput::Home => named(Key::Home, modifiers),
        KeyCodeInput::End => named(Key::End, modifiers),
        KeyCodeInput::PageUp => named(Key::PageUp, modifiers),
        KeyCodeInput::PageDown => named(Key::PageDown, modifiers),
        KeyCodeInput::Delete => named(Key::Delete, modifiers),
        KeyCodeInput::Insert => named(Key::Insert, modifiers),
        KeyCodeInput::F(n) => named(Key::F(n), modifiers),
        KeyCodeInput::Esc => named(Key::Esc, modifiers),
        KeyCodeInput::Null => Some(Key::Null),
        KeyCodeInput::Enter => modified_char('\n', modifiers),
        KeyCodeInput::Tab => modified_char('\t', modifiers),
        KeyCodeInput::BackTab => {
            if modifiers == MOD_SHIFT {
                Some(Key::Char(' '))
            } else {
                None
            }
        },
        KeyCodeInput::Char(c) => modified_char(c, modifiers),
        KeyCodeInput::Unmapped => None,
    }
}

/// What a mouse event reports (crossterm's `MouseEventKind`); the buttons
/// are those the terminal reports (left, right, middle).
#[derive(Clone, Copy, Debug, PartialEq, Eq, Structural)]
pub enum MouseKindInput {
    Down(MouseButton),
    Up,
    Drag,
    ScrollUp,
    ScrollDown,
    Moved,
    ScrollLeft,
    ScrollRight,
}

/// `v + 1`, or `v` at the top of the range.
pub open spec fn inc_sat(v: u16) -> u16 {
    if v < u16::MAX {
        (v + 1) as u16
    } else {
        v
    }
}

/// The mouse key a mouse event stands for, at one-based coordinates
/// (the terminal's are zero-based); bare motion and horizontal wheel give
/// `None`.
pub open spec fn translate_mouse_spec(kind: MouseKindInput, column: u16, row: u16) -> Option<KeyView> {
    let x = inc_sat(column);
    let y = inc_sat(row);
    match kind {
        MouseKindInput::Down(b) => Some(KeyView::Mouse(MouseEvent::Press(b, x, y))),
        MouseKindInput::Up => Some(KeyView::Mouse(MouseEvent::Release(x, y))),
        MouseKindInput::Drag => Some(KeyView::Mouse(MouseEvent::Hold(x, y))),
        MouseKindInput::ScrollUp => Some(KeyView::Mouse(MouseEvent::Press(MouseButton::WheelUp, x, y))),
        MouseKindInput::ScrollDown => Some(
            KeyView::Mouse(MouseEvent::Press(MouseButton::WheelDown, x, y)),
        ),
        _ => None,
    }
}

/// Translates a mouse event (its kind and zero-based column and row) into
/// a mouse key with one-based coordinates.
pub fn translate_mouse_event(kind: MouseKindInput, column: u16, row: u16) -> (r: Option<Key>)
    ensures
        key_opt_view(r) == translate_mouse_spec(kind, column, row),
{
    let x = if column < u16::MAX {
        column + 1
    } else {
        column
    };
    let y = if row < u16::MAX {
        row + 1
    } else {
        row
    };
    match kind {
        MouseKindInput::Down(b) => Some(Key::Mouse(MouseEvent::Press(b, x, y))),
        MouseKindInput::Up => Some(Key::Mouse(MouseEvent::Release(x, y))),
        MouseKindInput::Drag => Some(Key::Mouse(MouseEvent::Hold(x, y))),
        MouseKindInput::ScrollUp => Some(Key::Mouse(MouseEvent::Press(MouseButton::WheelUp, x, y))),
        MouseKindInput::ScrollDown => Some(
            Key::Mouse(MouseEvent::Press(MouseButton::WheelDown, x, y)),
        ),
        _ => None,
    }
}

/// A terminal event as the input loop receives it (crossterm's `Event`).
pub enum InputEvent {
    Key { code: KeyCodeInput, modifiers: u8, release: bool },
    Mouse { kind: MouseKindInput, column: u16, row: u16 },
    Paste(String),
    Resize(u16, u16),
    FocusGained,
    FocusLost,
}

/// A terminal event translated into the input vocabulary: a key (keyboard,
/// mouse or paste), a resize, or an event the input loop drops.
#[derive(Clone, Debug, PartialEq, Eq)]
pub enum BridgeEvent {
    /// A translated key, mouse or paste event.
    Key(Key),
    /// Terminal resize, to the new columns and rows.
    Resize(u16, u16),
    /// Dropped: releases, focus changes, events without a counterpart.
    Ignored,
}

/// A [`BridgeEvent`] over plain values.
pub enum BridgeEventView {
    Key(KeyView),
    Resize(u16, u16),
    Ignored,
}

impl View for BridgeEvent {
    type V = BridgeEventView;

    open spec fn view(&self) -> BridgeEventView {
        match self {
            BridgeEvent::Key(k) => BridgeEventView::Key(k@),
            BridgeEvent::Resize(c, r) => BridgeEventView::Resize(*c, *r),
            BridgeEvent::Ignored => BridgeEventView::Ignored,
        }
    }
}

/// A translated key, or `Ignored` where there is none.
pub open spec fn key_or_ignored(k: Option<KeyView>) -> BridgeEventView {
    match k {
        Some(k) => BridgeEventView::Key(k),
        None => BridgeEventView::Ignored,
    }
}

impl BridgeEvent {
    /// Translates a terminal event: keys and mouse events as
    /// [`translate_key_event`] and [`translate_mouse_event`] do, pastes as
    /// `Paste` keys, resizes as they are, focus changes dropped.
    pub fn from_input(ev: InputEvent) -> (r: BridgeEvent)
        ensures
            r@ == match ev {
                InputEvent::Key { code, modifiers, release } => key_or_ignored(
                    translate_key_spec(code, modifiers, release),
                ),
                InputEvent::Mouse { kind, column, row } => key_or_ignored(
                    translate_mouse_spec(kind, column, row),
                ),
                InputEvent::Paste(buf) => BridgeEventView::Key(KeyView::Paste(buf@)),
                InputEvent::Resize(c, r) => BridgeEventView::Resize(c, r),
                InputEvent::FocusGained => BridgeEventView::Ignored,
                InputEvent::FocusLost => BridgeEventView::Ignored,
            },
    {
        match ev {
            InputEvent::Key { code, modifiers, release } => match translate_key_event(
                code,
                modifiers,
                release,
            ) {
                Some(k) => BridgeEvent::Key(k),
                None => BridgeEvent::Ignored,
            },
            InputEvent::Mouse { kind, column, row } => match translate_mouse_event(
                kind,
                column,
                row,
            ) {
                Some(k) => BridgeEvent::Key(k),
                None => BridgeEvent::Ignored,
            },
            InputEvent::Paste(buf) => BridgeEvent::Key(Key::Paste(buf)),
            InputEvent::Resize(c, r) => BridgeEvent::Resize(c, r),
            InputEvent::FocusGained => BridgeEvent::Ignored,
            InputEvent::FocusLost => BridgeEvent::Ignored,
        }
    }
}

} // verus!
