//! The bytes that draw one row segment of a grid on a terminal: cursor
//! placement, SGR attribute and color transitions, and the glyphs, with the
//! cursor re-anchored after multi-byte glyphs so that each cell lands on its
//! grid column whether the terminal renders the glyph one or two columns
//! wide. Each terminal command is stated as the bytes crossterm's command
//! writes for it (`MoveTo`, `MoveToColumn`, `SetForegroundColor`,
//! `SetBackgroundColor`, `SetAttribute`), a few lines each, and the
//! emitter is proved against those statements.
use vstd::prelude::*;
use vstd::utf8::encode_utf8;
use crate::bridge::{char_bytes, dec_bytes};
use crate::cells::{
    color_byte, Attr, Cell, CellBuffer, CellBufferView, Color, ATTR_BLINK, ATTR_BOLD,
    ATTR_DEFAULT, ATTR_DIM, ATTR_FORCE_EMOJI, ATTR_FORCE_TEXT, ATTR_HIDDEN, ATTR_ITALICS,
    ATTR_REVERSE, ATTR_UNDERCURL, ATTR_UNDERLINE,
};
use crate::text::{char_width, len_utf8};

verus! {

/// `ESC [` `code` `m`: an SGR sequence, as crossterm writes its style
/// commands (`csi!("{}m")`).
pub open spec fn sgr(code: Seq<u8>) -> Seq<u8> {
    seq![0x1bu8, 0x5bu8] + code + seq![0x6du8]
}

/// What crossterm's `cursor::MoveTo(x, y)` writes: the cursor moved to
/// column `x`, row `y` (zero-based), `ESC [ y+1 ; x+1 H`.
pub open spec fn move_to_bytes(x: nat, y: nat) -> Seq<u8> {
    seq![0x1bu8, 0x5bu8] + dec_bytes(y + 1) + seq![0x3bu8] + dec_bytes(x + 1) + seq![0x48u8]
}

/// What crossterm's `cursor::MoveToColumn(x)` writes: the cursor moved to
/// column `x` (zero-based) of its row, `ESC [ x+1 G`.
pub open spec fn move_to_column_bytes(x: nat) -> Seq<u8> {
    seq![0x1bu8, 0x5bu8] + dec_bytes(x + 1) + seq![0x47u8]
}

/// The parameters crossterm's `SetForegroundColor` prints for a cell color
/// (the default as `Color::Reset`, RGB as `Color::Rgb`, every palette
/// color as `Color::AnsiValue(n)`): `39`, `38;2;r;g;b`, `38;5;n`.
pub open spec fn fg_code(c: Color) -> Seq<u8> {
    match c {
        Color::Default => seq![0x33u8, 0x39u8],
        Color::Rgb(r, g, b) => seq![0x33u8, 0x38u8, 0x3bu8, 0x32u8, 0x3bu8] + dec_bytes(r as nat)
            + seq![0x3bu8] + dec_bytes(g as nat) + seq![0x3bu8] + dec_bytes(b as nat),
        _ => seq![0x33u8, 0x38u8, 0x3bu8, 0x35u8, 0x3bu8] + dec_bytes(
            match color_byte(c) {
                Some(b) => b as nat,
                None => 0,
            },
        ),
    }
}

/// The parameters crossterm's `SetBackgroundColor` prints for a cell color,
/// mapped as for the foreground: `49`, `48;2;r;g;b`, `48;5;n`.
pub open spec fn bg_code(c: Color) -> Seq<u8> {
    match c {
        Color::Default => seq![0x34u8, 0x39u8],
        Color::Rgb(r, g, b) => seq![0x34u8, 0x38u8, 0x3bu8, 0x32u8, 0x3bu8] + dec_bytes(r as nat)
            + seq![0x3bu8] + dec_bytes(g as nat) + seq![0x3bu8] + dec_bytes(b as nat),
        _ => seq![0x34u8, 0x38u8, 0x3bu8, 0x35u8, 0x3bu8] + dec_bytes(
            match color_byte(c) {
                Some(b) => b as nat,
                None => 0,
            },
        ),
    }
}

/// A color command: the color's SGR sequence, or, where the environment
/// turned colors off (`NO_COLOR`), the bare `ESC [ m` (crossterm then
/// prints no parameters).
pub open spec fn color_bytes(code: Seq<u8>, colors_on: bool) -> Seq<u8> {
    if colors_on {
        sgr(code)
    } else {
        sgr(Seq::empty())
    }
}

/// Whether the attribute bit `bit` is set in `a`.
pub open spec fn has_attr(a: u16, bit: u16) -> bool {
    a & bit != 0
}

#[verifier::opaque]
/// One attribute's transition from `prev` to `next`: `on` when it is
/// switched on, `off` when it is switched off, nothing otherwise.
pub open spec fn transition(next: u16, prev: u16, bit: u16, on: Seq<u8>, off: Seq<u8>) -> Seq<u8> {
    if has_attr(next, bit) && !has_attr(prev, bit) {
        on
    } else if !has_attr(next, bit) && has_attr(prev, bit) {
        off
    } else {
        Seq::empty()
    }
}

/// The SGR transitions from attributes `prev` to `next`, in the fixed
/// order bold, dim, italics, underline, undercurl, blink, reverse, hidden.
/// Each is what crossterm's `SetAttribute` writes: `Bold` `1` and `Dim`
/// `2`, both reset by `NormalIntensity` `22`; `Italic` `3` / `NoItalic`
/// `23`; `Underlined` `4` / `NoUnderline` `24`; `Undercurled` `4:3`;
/// `SlowBlink` `5` / `NoBlink` `25`; `Reverse` `7` / `NoReverse` `27`;
/// `Hidden` `8` / `NoHidden` `28`. The undercurl reset `4:0` has no
/// crossterm attribute and is written as it is.
#[verifier::opaque]
pub open spec fn attr_delta_bytes(next: u16, prev: u16) -> Seq<u8> {
    transition(next, prev, ATTR_BOLD, sgr(seq![0x31u8]), sgr(seq![0x32u8, 0x32u8]))
        + transition(next, prev, ATTR_DIM, sgr(seq![0x32u8]), sgr(seq![0x32u8, 0x32u8]))
        + transition(next, prev, ATTR_ITALICS, sgr(seq![0x33u8]), sgr(seq![0x32u8, 0x33u8]))
        + transition(next, prev, ATTR_UNDERLINE, sgr(seq![0x34u8]), sgr(seq![0x32u8, 0x34u8]))
        + transition(
        next,
        prev,
        ATTR_UNDERCURL,
        sgr(seq![0x34u8, 0x3au8, 0x33u8]),
        sgr(seq![0x34u8, 0x3au8, 0x30u8]),
    ) + transition(next, prev, ATTR_BLINK, sgr(seq![0x35u8]), sgr(seq![0x32u8, 0x35u8]))
        + transition(next, prev, ATTR_REVERSE, sgr(seq![0x37u8]), sgr(seq![0x32u8, 0x37u8]))
        + transition(next, prev, ATTR_HIDDEN, sgr(seq![0x38u8]), sgr(seq![0x32u8, 0x38u8]))
}

/// What the emitter does before writing a cell so that it lands on its
/// grid column.
#[derive(Clone, Copy, Debug, PartialEq, Eq, Structural)]
pub enum Reanchor {
    /// The natural cursor advance is right; write the cell as it is.
    Keep,
    /// Pin the cursor to the cell's column.
    PinOnly,
    /// Cover the skipped continuation column with a space, then pin.
    PinAndCover,
}

/// Walking back from column `px` over continuation cells, down to
/// `xs_start`: the column of the glyph that last moved the cursor.
pub open spec fn walk_back(g: CellBufferView, px: int, y: nat, xs_start: int) -> int
    decreases px - xs_start,
{
    if px > xs_start && g.at(px as nat, y).empty {
        walk_back(g, px - 1, y, xs_start)
    } else {
        px
    }
}

/// How the cell at `(x, y)` must be re-anchored: never at the segment's
/// first cell nor on a continuation cell; otherwise, when the glyph that
/// last moved the cursor is multi-byte, pin (and cover the skipped column
/// when continuation cells lie between).
pub open spec fn reanchor_spec(g: CellBufferView, x: nat, y: nat, xs_start: nat) -> Reanchor {
    if x <= xs_start || g.at(x, y).empty {
        Reanchor::Keep
    } else {
        let px = walk_back(g, x - 1, y, xs_start as int);
        if g.at(px as nat, y).empty || char_width(g.at(px as nat, y).ch) <= 1 {
            Reanchor::Keep
        } else if px < x - 1 {
            Reanchor::PinAndCover
        } else {
            Reanchor::PinOnly
        }
    }
}

/// Classifies how the emitter fixes the cursor before writing the cell at
/// `(x, y)` of a segment that starts at `xs_start`.
pub fn segment_needs_reanchor(grid: &CellBuffer, x: usize, y: usize, xs_start: usize) -> (r: Reanchor)
    requires
        x < grid@.cols,
        y < grid@.rows,
    ensures
        r == reanchor_spec(grid@, x as nat, y as nat, xs_start as nat),
{
    let c = get_cell(grid, x, y);
    if x <= xs_start || c.empty() {
        return Reanchor::Keep;
    }
    let mut px = x - 1;
    while px > xs_start && get_cell(grid, px, y).empty()
        invariant
            xs_start <= px < x < grid@.cols,
            y < grid@.rows,
            walk_back(grid@, x - 1, y as nat, xs_start as int) == walk_back(
                grid@,
                px as int,
                y as nat,
                xs_start as int,
            ),
        decreases px,
    {
        px = px - 1;
    }
    let p = get_cell(grid, px, y);
    if p.empty() || len_utf8(p.ch()) <= 1 {
        return Reanchor::Keep;
    }
    if px < x - 1 {
        Reanchor::PinAndCover
    } else {
        Reanchor::PinOnly
    }
}

/// The cell at `(x, y)`, inside the grid.
fn get_cell(grid: &CellBuffer, x: usize, y: usize) -> (c: Cell)
    requires
        x < grid@.cols,
        y < grid@.rows,
    ensures
        c == grid@.at(x as nat, y as nat),
{
    match grid.get(x, y) {
        Some(c) => c,
        None => Cell::with_char(' '),
    }
}

/// The colors and attributes the terminal is at while a segment is drawn.
#[derive(Clone, Copy, Debug, PartialEq, Eq, Structural)]
pub struct SgrState {
    pub fg: Color,
    pub bg: Color,
    pub attrs: Attr,
}

/// The state a segment starts from (after `ESC [ m`).
pub open spec fn initial_state() -> SgrState {
    SgrState { fg: Color::Default, bg: Color::Default, attrs: Attr(ATTR_DEFAULT) }
}

/// The state after writing cell `c`.
pub open spec fn next_state(s: SgrState, c: Cell, colored: bool) -> SgrState {
    if colored {
        SgrState { fg: c.fg, bg: c.bg, attrs: c.attrs }
    } else {
        SgrState { attrs: c.attrs, ..s }
    }
}

/// The glyph of a cell (nothing for a continuation cell), followed by the
/// text or emoji presentation selector its attributes force.
pub open spec fn glyph_bytes(c: Cell) -> Seq<u8> {
    if c.empty {
        Seq::empty()
    } else {
        encode_utf8(seq![c.ch]) + (if has_attr(c.attrs.0, ATTR_FORCE_TEXT) {
            encode_utf8(seq!['\u{FE0E}'])
        } else {
            Seq::empty()
        }) + (if has_attr(c.attrs.0, ATTR_FORCE_EMOJI) {
            encode_utf8(seq!['\u{FE0F}'])
        } else {
            Seq::empty()
        })
    }
}

/// The bytes of the re-anchoring before cell `x`.
pub open spec fn reanchor_bytes(r: Reanchor, x: nat) -> Seq<u8> {
    match r {
        Reanchor::Keep => Seq::empty(),
        Reanchor::PinOnly => move_to_column_bytes(x),
        Reanchor::PinAndCover => seq![0x20u8] + move_to_column_bytes(x),
    }
}

/// The bytes that write cell `x` of row `y` from state `s`.
#[verifier::opaque]
pub open spec fn cell_bytes(
    g: CellBufferView,
    x: nat,
    y: nat,
    xs_start: nat,
    s: SgrState,
    colored: bool,
    colors_on: bool,
) -> Seq<u8> {
    let c = g.at(x, y);
    reanchor_bytes(reanchor_spec(g, x, y, xs_start), x) + (if c.attrs != s.attrs {
        attr_delta_bytes(c.attrs.0, s.attrs.0)
    } else {
        Seq::empty()
    }) + (if colored && c.bg != s.bg {
        color_bytes(bg_code(c.bg), colors_on)
    } else {
        Seq::empty()
    }) + (if colored && c.fg != s.fg {
        color_bytes(fg_code(c.fg), colors_on)
    } else {
        Seq::empty()
    }) + glyph_bytes(c)
}

/// The state once cells `xs_start` up to `x` (excluded) of row `y` are
/// written.
pub open spec fn state_at(g: CellBufferView, xs_start: nat, x: nat, y: nat, colored: bool) -> SgrState
    decreases x - xs_start,
{
    if x <= xs_start {
        initial_state()
    } else {
        next_state(state_at(g, xs_start, (x - 1) as nat, y, colored), g.at((x - 1) as nat, y), colored)
    }
}

/// The bytes of cells `xs_start` up to `x` (excluded) of row `y`.
pub open spec fn cells_bytes(
    g: CellBufferView,
    xs_start: nat,
    x: nat,
    y: nat,
    colored: bool,
    colors_on: bool,
) -> Seq<u8>
    decreases x - xs_start,
{
    if x <= xs_start {
        Seq::empty()
    } else {
        cells_bytes(g, xs_start, (x - 1) as nat, y, colored, colors_on) + cell_bytes(
            g,
            (x - 1) as nat,
            y,
            xs_start,
            state_at(g, xs_start, (x - 1) as nat, y, colored),
            colored,
            colors_on,
        )
    }
}

/// The bytes that draw cells `xs_start` up to `xs_end` (excluded) of row
/// `y`: the cursor placed at the segment's start, attributes reset, then
/// each cell.
pub open spec fn segment_bytes(
    g: CellBufferView,
    xs_start: nat,
    xs_end: nat,
    y: nat,
    colored: bool,
    colors_on: bool,
) -> Seq<u8> {
    move_to_bytes(xs_start, y) + sgr(Seq::empty()) + cells_bytes(
        g,
        xs_start,
        xs_end,
        y,
        colored,
        colors_on,
    )
}

/// Appends `more` to `out`.
fn extend(out: &mut Vec<u8>, more: Vec<u8>)
    ensures
        final(out)@ == old(out)@ + more@,
{
    let mut m = more;
    out.append(&mut m);
}

/// Appends the decimal numeral of `n` to `out`.
fn push_dec(out: &mut Vec<u8>, n: u16)
    ensures
        final(out)@ == old(out)@ + dec_bytes(n as nat),
    decreases n,
{
    if n < 10 {
        out.push(0x30 + n as u8);
    } else {
        push_dec(out, n / 10);
        out.push(0x30 + (n % 10) as u8);
    }
}

fn push_sgr(out: &mut Vec<u8>, code: Vec<u8>)
    ensures
        final(out)@ == old(out)@ + sgr(code@),
{
    out.push(0x1b);
    out.push(0x5b);
    extend(out, code);
    out.push(0x6d);
    assert(final(out)@ =~= old(out)@ + sgr(code@));
}

fn push_transition(out: &mut Vec<u8>, next: u16, prev: u16, bit: u16, on: Vec<u8>, off: Vec<u8>)
    ensures
        final(out)@ == old(out)@ + transition(next, prev, bit, sgr(on@), sgr(off@)),
{
    reveal(transition);
    let n = next & bit != 0;
    let p = prev & bit != 0;
    if n && !p {
        push_sgr(out, on);
    } else if !n && p {
        push_sgr(out, off);
    } else {
        assert(old(out)@ + Seq::<u8>::empty() =~= old(out)@);
    }
}

/// Appends the SGR transitions from attributes `prev` to `next`.
pub fn write_attr_delta(out: &mut Vec<u8>, next: Attr, prev: Attr)
    ensures
        final(out)@ == old(out)@ + attr_delta_bytes(next.0, prev.0),
{
    reveal(attr_delta_bytes);
    let (n, p) = (next.0, prev.0);
    let mut d: Vec<u8> = Vec::new();
    let ghost d0 = d@;
    let (on, off) = (vec![0x31u8], vec![0x32u8, 0x32u8]);
    assert(on@ =~= seq![0x31u8] && off@ =~= seq![0x32u8, 0x32u8]);
    push_transition(&mut d, n, p, ATTR_BOLD, on, off);
    assert(d@ =~= transition(n, p, ATTR_BOLD, sgr(seq![0x31u8]), sgr(seq![0x32u8, 0x32u8])));
    let (on, off) = (vec![0x32u8], vec![0x32u8, 0x32u8]);
    assert(on@ =~= seq![0x32u8] && off@ =~= seq![0x32u8, 0x32u8]);
    push_transition(&mut d, n, p, ATTR_DIM, on, off);
    let (on, off) = (vec![0x33u8], vec![0x32u8, 0x33u8]);
    assert(on@ =~= seq![0x33u8] && off@ =~= seq![0x32u8, 0x33u8]);
    push_transition(&mut d, n, p, ATTR_ITALICS, on, off);
    let (on, off) = (vec![0x34u8], vec![0x32u8, 0x34u8]);
    assert(on@ =~= seq![0x34u8] && off@ =~= seq![0x32u8, 0x34u8]);
    push_transition(&mut d, n, p, ATTR_UNDERLINE, on, off);
    let (on, off) = (vec![0x34u8, 0x3au8, 0x33u8], vec![0x34u8, 0x3au8, 0x30u8]);
    assert(on@ =~= seq![0x34u8, 0x3au8, 0x33u8] && off@ =~= seq![0x34u8, 0x3au8, 0x30u8]);
    push_transition(&mut d, n, p, ATTR_UNDERCURL, on, off);
    let (on, off) = (vec![0x35u8], vec![0x32u8, 0x35u8]);
    assert(on@ =~= seq![0x35u8] && off@ =~= seq![0x32u8, 0x35u8]);
    push_transition(&mut d, n, p, ATTR_BLINK, on, off);
    let (on, off) = (vec![0x37u8], vec![0x32u8, 0x37u8]);
    assert(on@ =~= seq![0x37u8] && off@ =~= seq![0x32u8, 0x37u8]);
    push_transition(&mut d, n, p, ATTR_REVERSE, on, off);
    let (on, off) = (vec![0x38u8], vec![0x32u8, 0x38u8]);
    assert(on@ =~= seq![0x38u8] && off@ =~= seq![0x32u8, 0x38u8]);
    push_transition(&mut d, n, p, ATTR_HIDDEN, on, off);
    extend(out, d);
}

fn palette_index(c: Color) -> (r: u16)
    ensures
        r == match color_byte(c) {
            Some(b) => b as nat,
            None => 0,
        },
{
    match c.as_byte() {
        Some(b) => b as u16,
        None => 0,
    }
}

/// Appends the SGR parameters of a color, foreground (`base` 3) or
/// background (`base` 4).
fn push_color_code(out: &mut Vec<u8>, c: Color, base: u8)
    requires
        base == 0x33 || base == 0x34,
    ensures
        final(out)@ == old(out)@ + (if base == 0x33 {
            fg_code(c)
        } else {
            bg_code(c)
        }),
{
    let ghost start = out@;
    match c {
        Color::Default => {
            out.push(base);
            out.push(0x39);
        },
        Color::Rgb(r, g, b) => {
            out.push(base);
            out.push(0x38);
            out.push(0x3b);
            out.push(0x32);
            out.push(0x3b);
            push_dec(out, r as u16);
            out.push(0x3b);
            push_dec(out, g as u16);
            out.push(0x3b);
            push_dec(out, b as u16);
        },
        _ => {
            out.push(base);
            out.push(0x38);
            out.push(0x3b);
            out.push(0x35);
            out.push(0x3b);
            push_dec(out, palette_index(c));
        },
    }
    assert(out@ =~= start + (if base == 0x33 {
        fg_code(c)
    } else {
        bg_code(c)
    }));
}

fn push_color(out: &mut Vec<u8>, c: Color, base: u8, colors_on: bool)
    requires
        base == 0x33 || base == 0x34,
    ensures
        final(out)@ == old(out)@ + color_bytes(
            if base == 0x33 {
                fg_code(c)
            } else {
                bg_code(c)
            },
            colors_on,
        ),
{
    let mut code: Vec<u8> = Vec::new();
    if colors_on {
        push_color_code(&mut code, c, base);
    }
    push_sgr(out, code);
}

/// Appends the UTF-8 bytes of `c`.
fn push_char_bytes(out: &mut Vec<u8>, c: char)
    ensures
        final(out)@ == old(out)@ + encode_utf8(seq![c]),
{
    let b = char_bytes(c);
    extend(out, b);
}

/// Appends the bytes that move the cursor to column `x` of its row.
fn push_move_to_column(out: &mut Vec<u8>, x: u16)
    requires
        x < u16::MAX,
    ensures
        final(out)@ == old(out)@ + move_to_column_bytes(x as nat),
{
    out.push(0x1b);
    out.push(0x5b);
    push_dec(out, x + 1);
    out.push(0x47);
    assert(final(out)@ =~= old(out)@ + move_to_column_bytes(x as nat));
}

/// Appends the bytes that move the cursor to column `x` of row `y`.
fn push_move_to(out: &mut Vec<u8>, x: u16, y: u16)
    requires
        x < u16::MAX,
        y < u16::MAX,
    ensures
        final(out)@ == old(out)@ + move_to_bytes(x as nat, y as nat),
{
    out.push(0x1b);
    out.push(0x5b);
    push_dec(out, y + 1);
    out.push(0x3b);
    push_dec(out, x + 1);
    out.push(0x48);
    assert(final(out)@ =~= old(out)@ + move_to_bytes(x as nat, y as nat));
}

/// Appends the bytes that write cell `x` of row `y` from state `s`, and
/// answers the state after it.
fn push_cell(
    out: &mut Vec<u8>,
    grid: &CellBuffer,
    x: usize,
    y: usize,
    xs_start: usize,
    s: SgrState,
    colored: bool,
    colors_on: bool,
) -> (r: SgrState)
    requires
        x < grid@.cols,
        y < grid@.rows,
        x < u16::MAX,
    ensures
        final(out)@ == old(out)@ + cell_bytes(grid@, x as nat, y as nat, xs_start as nat, s, colored, colors_on),
        r == next_state(s, grid@.at(x as nat, y as nat), colored),
{
    reveal(cell_bytes);
    let c = get_cell(grid, x, y);
    let mut d: Vec<u8> = Vec::new();
    match segment_needs_reanchor(grid, x, y, xs_start) {
        Reanchor::Keep => {},
        Reanchor::PinOnly => {
            push_move_to_column(&mut d, x as u16);
        },
        Reanchor::PinAndCover => {
            d.push(0x20);
            push_move_to_column(&mut d, x as u16);
        },
    }
    let ghost d1 = d@;
    assert(d1 =~= reanchor_bytes(reanchor_spec(grid@, x as nat, y as nat, xs_start as nat), x as nat));
    if c.attrs != s.attrs {
        write_attr_delta(&mut d, c.attrs, s.attrs);
    } else {
        assert(d@ =~= d1 + Seq::<u8>::empty());
    }
    let ghost d2 = d@;
    if colored && c.bg != s.bg {
        push_color(&mut d, c.bg, 0x34, colors_on);
    } else {
        assert(d@ =~= d2 + Seq::<u8>::empty());
    }
    let ghost d3 = d@;
    if colored && c.fg != s.fg {
        push_color(&mut d, c.fg, 0x33, colors_on);
    } else {
        assert(d@ =~= d3 + Seq::<u8>::empty());
    }
    let ghost d4 = d@;
    let mut gl: Vec<u8> = Vec::new();
    if !c.empty() {
        push_char_bytes(&mut gl, c.ch());
        let ghost g1 = gl@;
        if c.attrs.intersects(Attr(ATTR_FORCE_TEXT)) {
            push_char_bytes(&mut gl, '\u{FE0E}');
        } else {
            assert(gl@ =~= g1 + Seq::<u8>::empty());
        }
        let ghost g2 = gl@;
        if c.attrs.intersects(Attr(ATTR_FORCE_EMOJI)) {
            push_char_bytes(&mut gl, '\u{FE0F}');
        } else {
            assert(gl@ =~= g2 + Seq::<u8>::empty());
        }
    }
    assert(gl@ =~= glyph_bytes(c));
    extend(&mut d, gl);
    extend(out, d);
    if colored {
        SgrState { fg: c.fg, bg: c.bg, attrs: c.attrs }
    } else {
        SgrState { attrs: c.attrs, ..s }
    }
}

/// The bytes that draw cells `xs_start` up to `xs_end` (excluded) of row `y`
/// of `grid`, with colors (`colored`) or attributes only, colors being
/// written as themselves (`colors_on`) or as bare resets where the
/// environment turned colors off.
pub fn draw_segment_bytes(
    grid: &CellBuffer,
    xs_start: usize,
    xs_end: usize,
    y: usize,
    colored: bool,
    colors_on: bool,
) -> (r: Vec<u8>)
    requires
        xs_start < u16::MAX,
        xs_end < u16::MAX,
        y < u16::MAX,
        xs_start < xs_end ==> xs_end <= grid@.cols && y < grid@.rows,
    ensures
        r@ == segment_bytes(grid@, xs_start as nat, xs_end as nat, y as nat, colored, colors_on),
{
    let mut out: Vec<u8> = Vec::new();
    push_move_to(&mut out, xs_start as u16, y as u16);
    push_sgr(&mut out, Vec::new());
    let ghost head = out@;
    let mut fg = Color::Default;
    let mut bg = Color::Default;
    let mut attrs = Attr(ATTR_DEFAULT);
    let mut x = xs_start;
    while x < xs_end
        invariant
            xs_start <= x,
            x <= xs_end || x == xs_start,
            xs_end < u16::MAX,
            xs_start < xs_end ==> xs_end <= grid@.cols && y < grid@.rows,
            out@ == head + cells_bytes(grid@, xs_start as nat, x as nat, y as nat, colored, colors_on),
            (SgrState { fg, bg, attrs }) == state_at(grid@, xs_start as nat, x as nat, y as nat, colored),
        decreases xs_end - x,
    {
        let next = push_cell(&mut out, grid, x, y, xs_start, SgrState { fg, bg, attrs }, colored, colors_on);
        fg = next.fg;
        bg = next.bg;
        attrs = next.attrs;
        x = x + 1;
    }
    out
}

} // verus!
