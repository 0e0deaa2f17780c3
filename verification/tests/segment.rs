//! Tests of the bytes that draw a row segment: re-anchoring around wide
//! and ambiguous-width characters, checked by decoding the bytes the way a
//! terminal would.
use std::collections::BTreeMap;

use meli::cells::{Attr, Cell, Color, ThemeAttribute, ATTR_DEFAULT};
use meli::screen::{Screen, Virtual};
use meli::segment::draw_segment_bytes;
use melib::text::wcwidth;

const COLS: usize = 48;
const ROWS: usize = 12;

/// A fresh screen whose grid holds default cells.
fn plain_grid() -> Screen<Virtual> {
    let mut screen = Screen::<Virtual>::new(ThemeAttribute::default());
    assert!(screen.resize(COLS, ROWS));
    screen
}

fn styled(ch: char, fg: Color, bg: Color, attrs: Attr) -> Cell {
    Cell::new(ch, fg, bg, attrs)
}

/// Continuation cell after a wide char.
fn continuation(fg: Color, bg: Color, attrs: Attr) -> Cell {
    let mut c = Cell::new(' ', fg, bg, attrs);
    c.set_empty(true);
    c
}

fn set(screen: &mut Screen<Virtual>, x: usize, cell: Cell) {
    assert!(screen.grid_mut().set(x, 0, cell));
}

/// The bytes that draw `xs` of row `y`, with colors unless `no_color`.
fn emit(screen: &Screen<Virtual>, xs: std::ops::Range<usize>, y: usize, no_color: bool) -> Vec<u8> {
    draw_segment_bytes(screen.grid(), xs.start, xs.end, y, !no_color, true)
}

#[derive(Clone, Debug, PartialEq)]
enum DecColor {
    Default,
    Index(u8),
    Rgb(u8, u8, u8),
}

/// Per-cell terminal state decoded from an escape byte stream.
#[derive(Clone, Debug, PartialEq)]
struct DecCell {
    ch: char,
    fg: DecColor,
    bg: DecColor,
    bold: bool,
    dim: bool,
    italics: bool,
    underline: bool,
    undercurl: bool,
    blink: bool,
    reverse: bool,
    hidden: bool,
    force_text: bool,
    uri: Option<String>,
}

#[derive(Clone)]
struct VtState {
    col: usize,
    fg: DecColor,
    bg: DecColor,
    bold: bool,
    dim: bool,
    italics: bool,
    underline: bool,
    underline_curly: bool,
    blink: bool,
    reverse: bool,
    hidden: bool,
    uri: Option<String>,
}

impl VtState {
    fn new() -> Self {
        Self {
            col: 0,
            fg: DecColor::Default,
            bg: DecColor::Default,
            bold: false,
            dim: false,
            italics: false,
            underline: false,
            underline_curly: false,
            blink: false,
            reverse: false,
            hidden: false,
            uri: None,
        }
    }
}

/// Decode a single-row escape stream into ordered per-column cell state.
/// Columns not covered by a printed character (e.g. wide-char
/// continuation columns) are simply absent from the map.
fn decode(bytes: &[u8]) -> BTreeMap<usize, DecCell> {
    let mut st = VtState::new();
    let mut cells: BTreeMap<usize, DecCell> = BTreeMap::new();
    let mut last_col: Option<usize> = None;
    let mut i = 0;
    while i < bytes.len() {
        let b = bytes[i];
        if b == 0x1b {
            if i + 1 < bytes.len() && bytes[i + 1] == b'[' {
                // CSI sequence: scan to the final byte.
                let mut j = i + 2;
                while j < bytes.len() && !(0x40..=0x7e).contains(&bytes[j]) {
                    j += 1;
                }
                if j >= bytes.len() {
                    break;
                }
                let body = String::from_utf8_lossy(&bytes[i + 2..j]).into_owned();
                match bytes[j] {
                    b'H' => {
                        let mut parts = body.split(';');
                        let row: usize = parts.next().and_then(|p| p.parse().ok()).unwrap_or(1);
                        let col: usize = parts.next().and_then(|p| p.parse().ok()).unwrap_or(1);
                        assert!(row >= 1 && col >= 1, "CUP is 1-based");
                        st.col = col - 1;
                    }
                    b'G' => {
                        // CHA (cursor horizontal absolute): 1-based column.
                        let col: usize = body.parse().unwrap_or(1);
                        assert!(col >= 1, "CHA is 1-based");
                        st.col = col - 1;
                    }
                    b'm' => apply_sgr(&mut st, &body),
                    _ => {}
                }
                i = j + 1;
            } else if i + 1 < bytes.len() && bytes[i + 1] == b']' {
                // OSC: scan to BEL or ST.
                let mut j = i + 2;
                let mut st_terminated = false;
                while j < bytes.len() {
                    if bytes[j] == 0x07 {
                        break;
                    }
                    if bytes[j] == 0x1b && j + 1 < bytes.len() && bytes[j + 1] == b'\\' {
                        st_terminated = true;
                        break;
                    }
                    j += 1;
                }
                let body = String::from_utf8_lossy(&bytes[i + 2..j]).into_owned();
                if let Some(rest) = body.strip_prefix("8;") {
                    if let Some(pos) = rest.find(';') {
                        let uri = &rest[pos + 1..];
                        st.uri = if uri.is_empty() {
                            None
                        } else {
                            Some(uri.to_string())
                        };
                    }
                }
                i = j + if st_terminated { 2 } else { 1 };
            } else {
                // Other two-byte escape; skip.
                i += 2;
            }
        } else if b < 0x20 || b == 0x7f {
            // Control bytes are not printed.
            i += 1;
        } else {
            // Decode one UTF-8 scalar and print it at the cursor.
            let (ch, len) = next_char(&bytes[i..]);
            if ch == '\u{fe0e}' {
                if let Some(col) = last_col {
                    if let Some(cell) = cells.get_mut(&col) {
                        cell.force_text = true;
                    }
                }
            } else {
                let dc = DecCell {
                    ch,
                    fg: st.fg.clone(),
                    bg: st.bg.clone(),
                    bold: st.bold,
                    dim: st.dim,
                    italics: st.italics,
                    underline: st.underline,
                    undercurl: st.underline && st.underline_curly,
                    blink: st.blink,
                    reverse: st.reverse,
                    hidden: st.hidden,
                    force_text: false,
                    uri: st.uri.clone(),
                };
                cells.insert(st.col, dc);
                last_col = Some(st.col);
                let w = wcwidth(ch).filter(|w| *w > 0).unwrap_or(0);
                st.col += w;
            }
            i += len;
        }
    }
    cells
}

fn next_char(bytes: &[u8]) -> (char, usize) {
    let len = match bytes[0] {
        0x00..=0x7f => 1,
        0xc0..=0xdf => 2,
        0xe0..=0xef => 3,
        0xf0..=0xf7 => 4,
        _ => 1,
    };
    let len = len.min(bytes.len());
    let s = String::from_utf8_lossy(&bytes[..len]).into_owned();
    (s.chars().next().unwrap_or('\u{fffd}'), len)
}

fn apply_sgr(st: &mut VtState, body: &str) {
    let params: Vec<&str> = body.split(';').collect();
    let mut k = 0;
    while k < params.len() {
        let raw = params[k];
        let (main, sub) = match raw.split_once(':') {
            Some((m, s)) => (m.to_string(), Some(s.to_string())),
            None => (raw.to_string(), None),
        };
        let code: u16 = main.trim().parse().unwrap_or(0);
        match code {
            // SGR 0 resets rendition attributes and colors only; it does
            // NOT move the cursor and does NOT close an OSC 8 span.
            0 => {
                st.fg = DecColor::Default;
                st.bg = DecColor::Default;
                st.bold = false;
                st.dim = false;
                st.italics = false;
                st.underline = false;
                st.underline_curly = false;
                st.blink = false;
                st.reverse = false;
                st.hidden = false;
            }
            1 => st.bold = true,
            2 => st.dim = true,
            3 => st.italics = true,
            4 => match sub.as_deref() {
                Some("0") => {
                    st.underline = false;
                    st.underline_curly = false;
                }
                Some("3") => {
                    st.underline = true;
                    st.underline_curly = true;
                }
                Some(_) => {
                    st.underline = true;
                    st.underline_curly = false;
                }
                None => {
                    st.underline = true;
                    st.underline_curly = false;
                }
            },
            5 => st.blink = true,
            7 => st.reverse = true,
            8 => st.hidden = true,
            22 => {
                st.bold = false;
                st.dim = false;
            }
            23 => st.italics = false,
            24 => {
                st.underline = false;
                st.underline_curly = false;
            }
            25 => st.blink = false,
            27 => st.reverse = false,
            28 => st.hidden = false,
            39 => st.fg = DecColor::Default,
            49 => st.bg = DecColor::Default,
            38 | 48 => {
                let is_fg = code == 38;
                if let Some(color) = extended_color(&params, k) {
                    let consumed = match color {
                        DecColor::Index(_) => 2,
                        DecColor::Rgb(_, _, _) => 4,
                        DecColor::Default => 0,
                    };
                    if is_fg {
                        st.fg = color;
                    } else {
                        st.bg = color;
                    }
                    k += consumed;
                }
            }
            _ => {}
        }
        k += 1;
    }
}

fn extended_color(params: &[&str], k: usize) -> Option<DecColor> {
    let kind = *params.get(k + 1)?;
    match kind {
        "5" => params
            .get(k + 2)
            .and_then(|p| p.parse().ok())
            .map(DecColor::Index),
        "2" => {
            let r: u8 = params.get(k + 2).and_then(|p| p.parse().ok())?;
            let g: u8 = params.get(k + 3).and_then(|p| p.parse().ok())?;
            let b: u8 = params.get(k + 4).and_then(|p| p.parse().ok())?;
            Some(DecColor::Rgb(r, g, b))
        }
        _ => None,
    }
}

/// Decoder self-test on hand-crafted streams: proves the decoder actually
/// decodes (the pin comparison is not vacuous).
#[test]
fn test_flush_decoder_self_test() {
    // Plain text at the origin.
    let cells = decode(b"\x1b[1;1H\x1b[mABC");
    assert_eq!(cells.len(), 3);
    assert_eq!(cells[&0].ch, 'A');
    assert_eq!(cells[&0].fg, DecColor::Default);
    assert!(!cells[&2].bold);

    // CUP with explicit row/col (1-based) and default SGR reset.
    let cells = decode(b"\x1b[5;8H\x1b[mX");
    assert_eq!(cells[&7].ch, 'X');

    // Indexed and RGB colors, fg and bg.
    let cells = decode(b"\x1b[m\x1b[38;5;196mA\x1b[48;2;10;20;30mB\x1b[49mC");
    assert_eq!(cells[&0].fg, DecColor::Index(196));
    assert_eq!(cells[&0].bg, DecColor::Default);
    assert_eq!(cells[&1].fg, DecColor::Index(196));
    assert_eq!(cells[&1].bg, DecColor::Rgb(10, 20, 30));
    assert_eq!(cells[&2].bg, DecColor::Default);

    // Attribute transitions, bold off via 22, italic off via 23.
    let cells = decode(b"\x1b[m\x1b[1m\x1b[3mA\x1b[22m\x1b[23mB");
    assert!(cells[&0].bold && cells[&0].italics);
    assert!(!cells[&1].bold && !cells[&1].italics);

    // Underline styles: 4, 4:3, 4:0, 24.
    let cells = decode(b"\x1b[m\x1b[4mA\x1b[4:3mB\x1b[4:0mC\x1b[4:3m\x1b[24mD");
    assert!(cells[&0].underline && !cells[&0].undercurl);
    assert!(cells[&1].underline && cells[&1].undercurl);
    assert!(!cells[&2].underline && !cells[&2].undercurl);
    assert!(!cells[&3].underline && !cells[&3].undercurl);

    // OSC 8 spans, id form and close form.
    let cells = decode(b"\x1b[m\x1b]8;id=7;https://x/y\x07L\x1b]8;;\x07R");
    assert_eq!(cells[&0].uri.as_deref(), Some("https://x/y"));
    assert_eq!(cells[&1].uri, None);

    // U+FE0E marks the previous cell as force_text.
    let cells = decode("\x1b[mE\u{fe0e}F".as_bytes());
    assert!(cells[&0].force_text);
    assert!(!cells[&1].force_text);

    // Wide char advances the cursor by two columns.
    let cells = decode("\x1b[m\u{4e2d}z".as_bytes());
    assert_eq!(cells[&0].ch, '\u{4e2d}');
    assert!(!cells.contains_key(&1));
    assert_eq!(cells[&2].ch, 'z');
}

/// Regression (theme-picker left-edge bleed): an overlay paints a
/// non-empty cell (a dialog's left frame border) over what the
/// underlying grid had marked as a wide char's continuation cell. The
/// emitter must re-anchor the cursor before that cell - the preceding
/// wide char advances the terminal cursor by two, so without an
/// explicit `MoveTo` the border glyph lands one column right and the
/// wide char's right half stays visible at the dialog's edge.
#[test]
fn overlay_cell_after_wide_char_reanchors() {
    let mut grid = plain_grid();
    set(&mut grid, 0, styled('A', Color::Default, Color::Default, Attr(ATTR_DEFAULT)));
    set(&mut grid, 1, styled('\u{4e2d}', Color::Red, Color::Default, Attr(ATTR_DEFAULT)));
    // The dialog border painted over 中's continuation cell.
    set(&mut grid, 2, styled('|', Color::Green, Color::Default, Attr(ATTR_DEFAULT)));
    set(&mut grid, 3, styled('B', Color::Default, Color::Default, Attr(ATTR_DEFAULT)));

    for no_color in [false, true] {
        let bytes = emit(&grid, 0..4, 0, no_color);
        let cells = decode(&bytes);
        assert_eq!(cells[&0].ch, 'A');
        assert_eq!(cells[&1].ch, '\u{4e2d}');
        assert_eq!(
            cells[&2].ch, '|',
            "overlay cell must land on its grid column (no_color={no_color})"
        );
        assert_eq!(cells[&3].ch, 'B', "(no_color={no_color})");
    }
}

/// East-Asian Ambiguous characters (here `’`, U+2019) are laid out
/// two columns wide by `CellBuffer::write_string` (`width_cjk`) with
/// an `empty` continuation cell, but terminals render them as one OR
/// two columns. The emitter must pin every glyph following such a
/// cluster to its grid column: on a narrow-rendering terminal the
/// natural cursor advance comes up one short and the rest of the row -
/// dialog borders included - shifts one column left, which reads as
/// underlying text inserted into the dialog.
#[test]
fn glyph_after_ambiguous_cluster_reanchors() {
    let mut grid = plain_grid();
    set(&mut grid, 0, styled('A', Color::Default, Color::Default, Attr(ATTR_DEFAULT)));
    // `’` plus the continuation cell write_string would produce.
    set(&mut grid, 1, styled('\u{2019}', Color::Red, Color::Default, Attr(ATTR_DEFAULT)));
    set(&mut grid, 2, continuation(Color::Red, Color::Default, Attr(ATTR_DEFAULT)));
    set(&mut grid, 3, styled('r', Color::Default, Color::Default, Attr(ATTR_DEFAULT)));
    // The dialog border painted over the cluster's continuation.
    set(&mut grid, 4, styled('|', Color::Green, Color::Default, Attr(ATTR_DEFAULT)));

    for no_color in [false, true] {
        let bytes = emit(&grid, 0..5, 0, no_color);
        let cells = decode(&bytes);

        assert_eq!(cells[&0].ch, 'A');
        assert_eq!(cells[&1].ch, '\u{2019}');
        // The continuation column is explicitly covered with a space
        // (no stale glyph can persist there on narrow terminals).
        assert_eq!(cells[&2].ch, ' ', "(no_color={no_color})");
        // `r` and the border must sit on their grid columns even when
        // the terminal rendered `’` one column narrow.
        assert_eq!(cells[&3].ch, 'r', "(no_color={no_color})");
        assert_eq!(cells[&4].ch, '|', "(no_color={no_color})");
    }
}

/// Regression: a wide char whose continuation cell an overlay painted
/// over, with that overlay cell as the *last* cell of the segment. The
/// walk back does not cross any `empty` cell (`px == x - 1`), so the
/// emitter must only `MoveToColumn` to pin the overlay. Writing the
/// covering space would land one column *past* the segment, leaving a
/// space in the wide char's color over the neighbouring pane and eating
/// one of its columns.
#[test]
fn overlay_last_cell_after_wide_char_does_not_spill_past_segment() {
    let mut grid = plain_grid();
    set(&mut grid, 0, styled('A', Color::Default, Color::Default, Attr(ATTR_DEFAULT)));
    set(&mut grid, 1, styled('\u{4e2d}', Color::Red, Color::Default, Attr(ATTR_DEFAULT)));
    // The dialog border painted directly over 中's continuation cell.
    set(&mut grid, 2, styled('|', Color::Red, Color::Default, Attr(ATTR_DEFAULT)));

    for no_color in [false, true] {
        let bytes = emit(&grid, 0..3, 0, no_color);
        let cells = decode(&bytes);
        assert_eq!(cells[&0].ch, 'A', "(no_color={no_color})");
        assert_eq!(cells[&1].ch, '\u{4e2d}', "(no_color={no_color})");
        assert_eq!(cells[&2].ch, '|', "(no_color={no_color})");
        // The column just past the segment (the wide char's second half
        // as the terminal cursor sees it) must not receive a covering
        // space.
        assert!(
            !cells.contains_key(&3),
            "covering space spilled past the segment (no_color={no_color}): {cells:?}"
        );
    }
}

/// Regression guard for the covering space: when the walk back really does
/// cross a skipped `empty` continuation cell, the covering space must
/// still be written before the overlay border is pinned.
#[test]
fn overlay_after_skipped_continuation_still_covers() {
    let mut grid = plain_grid();
    set(&mut grid, 0, styled('A', Color::Default, Color::Default, Attr(ATTR_DEFAULT)));
    // East-Asian Ambiguous `’` plus the continuation cell
    // `write_string` would produce.
    set(&mut grid, 1, styled('\u{2019}', Color::Red, Color::Default, Attr(ATTR_DEFAULT)));
    set(&mut grid, 2, continuation(Color::Red, Color::Default, Attr(ATTR_DEFAULT)));
    // The dialog border painted after the skipped continuation.
    set(&mut grid, 3, styled('|', Color::Green, Color::Default, Attr(ATTR_DEFAULT)));
    set(&mut grid, 4, styled('B', Color::Default, Color::Default, Attr(ATTR_DEFAULT)));

    for no_color in [false, true] {
        let bytes = emit(&grid, 0..5, 0, no_color);
        let cells = decode(&bytes);
        assert_eq!(cells[&0].ch, 'A', "(no_color={no_color})");
        assert_eq!(cells[&1].ch, '\u{2019}', "(no_color={no_color})");
        // The skipped continuation column is explicitly covered.
        assert_eq!(cells[&2].ch, ' ', "(no_color={no_color})");
        assert_eq!(cells[&3].ch, '|', "(no_color={no_color})");
        assert_eq!(cells[&4].ch, 'B', "(no_color={no_color})");
    }
}

