//! Terminal cells, their colors and attributes, and the grid of cells that
//! a screen draws from.
use vstd::prelude::*;
use crate::area::{Area, AreaView};

verus! {

/// A terminal color: the terminal's default, one of the eight named
/// colors, an entry of the 256-color palette, or a direct RGB color.
#[derive(Clone, Copy, Debug, PartialEq, Eq, Hash, Structural)]
pub enum Color {
    Default,
    Black,
    Red,
    Green,
    Yellow,
    Blue,
    Magenta,
    Cyan,
    White,
    Byte(u8),
    Rgb(u8, u8, u8),
}

/// The 256-color palette index of a color, where it has one.
pub open spec fn color_byte(c: Color) -> Option<u8> {
    match c {
        Color::Black => Some(0u8),
        Color::Red => Some(1u8),
        Color::Green => Some(2u8),
        Color::Yellow => Some(3u8),
        Color::Blue => Some(4u8),
        Color::Magenta => Some(5u8),
        Color::Cyan => Some(6u8),
        Color::White => Some(7u8),
        Color::Byte(b) => Some(b),
        Color::Default => None,
        Color::Rgb(_, _, _) => None,
    }
}

impl Color {
    /// The 256-color palette index of the color: `0` to `7` for the named
    /// colors, the index itself for `Byte`; `None` for the default and RGB.
    pub fn as_byte(&self) -> (r: Option<u8>)
        ensures
            r == color_byte(*self),
    {
        match self {
            Color::Black => Some(0),
            Color::Red => Some(1),
            Color::Green => Some(2),
            Color::Yellow => Some(3),
            Color::Blue => Some(4),
            Color::Magenta => Some(5),
            Color::Cyan => Some(6),
            Color::White => Some(7),
            Color::Byte(b) => Some(*b),
            Color::Default => None,
            Color::Rgb(_, _, _) => None,
        }
    }
}

/// No attribute.
pub const ATTR_DEFAULT: u16 = 0x0;
/// Bold text.
pub const ATTR_BOLD: u16 = 0x1;
/// Dim text.
pub const ATTR_DIM: u16 = 0x2;
/// Italic text.
pub const ATTR_ITALICS: u16 = 0x4;
/// Underlined text.
pub const ATTR_UNDERLINE: u16 = 0x8;
/// Curly underline.
pub const ATTR_UNDERCURL: u16 = 0x10;
/// Blinking text.
pub const ATTR_BLINK: u16 = 0x20;
/// Foreground and background swapped.
pub const ATTR_REVERSE: u16 = 0x40;
/// Hidden text.
pub const ATTR_HIDDEN: u16 = 0x80;
/// Text presentation forced (a `U+FE0E` follows the character).
pub const ATTR_FORCE_TEXT: u16 = 0x100;
/// Emoji presentation forced (a `U+FE0F` follows the character).
pub const ATTR_FORCE_EMOJI: u16 = 0x200;

/// A set of text attributes, one bit each (the `ATTR_` constants).
#[derive(Clone, Copy, Debug, PartialEq, Eq, Hash, Structural)]
pub struct Attr(pub u16);

impl Attr {

    /// Whether the two sets share an attribute.
    pub open spec fn spec_intersects(self, other: Attr) -> bool {
        self.0 & other.0 != 0
    }

    /// Whether the two sets share an attribute.
    pub fn intersects(self, other: Attr) -> (r: bool)
        ensures
            r == self.spec_intersects(other),
    {
        self.0 & other.0 != 0
    }

    /// The attributes of both sets.
    pub fn union(self, other: Attr) -> (r: Attr)
        ensures
            r.0 == self.0 | other.0,
    {
        Attr(self.0 | other.0)
    }
}

/// One cell of the grid: a character, its colors and attributes, and
/// whether it is the empty continuation of a wide character before it.
#[derive(Clone, Copy, Debug, PartialEq, Eq, Structural)]
pub struct Cell {
    pub ch: char,
    pub fg: Color,
    pub bg: Color,
    pub attrs: Attr,
    pub empty: bool,
}

impl Cell {
    /// A cell holding `ch` with the given colors and attributes.
    pub fn new(ch: char, fg: Color, bg: Color, attrs: Attr) -> (r: Cell)
        ensures
            r == (Cell { ch, fg, bg, attrs, empty: false }),
    {
        Cell { ch, fg, bg, attrs, empty: false }
    }

    /// A cell holding `ch` in the default colors and attributes.
    pub fn with_char(ch: char) -> (r: Cell)
        ensures
            r == (Cell { ch, fg: Color::Default, bg: Color::Default, attrs: Attr(ATTR_DEFAULT), empty: false }),
    {
        Cell { ch, fg: Color::Default, bg: Color::Default, attrs: Attr(ATTR_DEFAULT), empty: false }
    }

    /// The cell's character.
    pub fn ch(&self) -> (r: char)
        ensures
            r == self.ch,
    {
        self.ch
    }

    /// The cell's foreground color.
    pub fn fg(&self) -> (r: Color)
        ensures
            r == self.fg,
    {
        self.fg
    }

    /// The cell's background color.
    pub fn bg(&self) -> (r: Color)
        ensures
            r == self.bg,
    {
        self.bg
    }

    /// The cell's attributes.
    pub fn attrs(&self) -> (r: Attr)
        ensures
            r == self.attrs,
    {
        self.attrs
    }

    /// Whether the cell continues a wide character.
    pub fn empty(&self) -> (r: bool)
        ensures
            r == self.empty,
    {
        self.empty
    }

    /// Marks the cell as the continuation of a wide character, or not.
    pub fn set_empty(&mut self, empty: bool)
        ensures
            *final(self) == (Cell { empty, ..*old(self) }),
    {
        self.empty = empty;
    }
}

/// Colors and attributes of a theme element.
#[derive(Clone, Copy, Debug, PartialEq, Eq, Structural)]
pub struct ThemeAttribute {
    pub fg: Color,
    pub bg: Color,
    pub attrs: Attr,
}

/// A blank cell in the theme `t`.
pub open spec fn theme_cell(t: ThemeAttribute) -> Cell {
    Cell { ch: ' ', fg: t.fg, bg: t.bg, attrs: t.attrs, empty: false }
}

impl Default for ThemeAttribute {
    /// The terminal's default colors, no attribute.
    fn default() -> (r: Self)
        ensures
            r == (ThemeAttribute { fg: Color::Default, bg: Color::Default, attrs: Attr(ATTR_DEFAULT) }),
    {
        ThemeAttribute { fg: Color::Default, bg: Color::Default, attrs: Attr(ATTR_DEFAULT) }
    }
}

impl ThemeAttribute {
    /// A blank cell in this theme.
    pub fn to_cell(self) -> (r: Cell)
        ensures
            r == theme_cell(self),
    {
        Cell { ch: ' ', fg: self.fg, bg: self.bg, attrs: self.attrs, empty: false }
    }
}

/// The largest number of cells a grid holds; a resize to more is refused.
pub const MAX_CELLS: usize = 1_000_000_000;

/// The mathematical content of a [`CellBuffer`]: its dimensions, its cells
/// row by row, the cell it is filled with, and the area it covers.
pub struct CellBufferView {
    pub cols: nat,
    pub rows: nat,
    pub cells: Seq<Cell>,
    pub default_cell: Cell,
    pub area: AreaView,
    pub ascii_drawing: bool,
}

impl CellBufferView {
    /// The cell at column `x` of row `y`.
    pub open spec fn at(self, x: nat, y: nat) -> Cell {
        self.cells[(y * self.cols + x) as int]
    }
}

/// A grid of cells, row by row.
pub struct CellBuffer {
    cols: usize,
    rows: usize,
    buf: Vec<Cell>,
    default_cell: Cell,
    area: Area,
    ascii_drawing: bool,
}

impl View for CellBuffer {
    type V = CellBufferView;

    closed spec fn view(&self) -> CellBufferView {
        CellBufferView {
            cols: self.cols as nat,
            rows: self.rows as nat,
            cells: self.buf@,
            default_cell: self.default_cell,
            area: self.area@,
            ascii_drawing: self.ascii_drawing,
        }
    }
}

/// Index of column `x` of row `y` in a grid `cols` wide.
pub open spec fn cell_index(cols: nat, x: nat, y: nat) -> nat {
    y * cols + x
}

proof fn lemma_cell_index(cols: nat, rows: nat, x: nat, y: nat)
    requires
        x < cols,
        y < rows,
    ensures
        y * cols + x < cols * rows,
{
    assert(y * cols + x < (y + 1) * cols) by (nonlinear_arith)
        requires
            x < cols,
    ;
    assert((y + 1) * cols <= rows * cols) by (nonlinear_arith)
        requires
            y < rows,
    ;
    assert(rows * cols == cols * rows) by (nonlinear_arith);
}

/// Distinct positions of a grid have distinct cells.
proof fn lemma_cell_index_injective(cols: nat, x: nat, y: nat, x2: nat, y2: nat)
    requires
        x < cols,
        x2 < cols,
        cell_index(cols, x, y) == cell_index(cols, x2, y2),
    ensures
        x == x2 && y == y2,
{
    if y < y2 {
        assert(y * cols + x < (y + 1) * cols) by (nonlinear_arith)
            requires
                x < cols,
        ;
        assert((y + 1) * cols <= y2 * cols) by (nonlinear_arith)
            requires
                y < y2,
        ;
    } else if y2 < y {
        assert(y2 * cols + x2 < (y2 + 1) * cols) by (nonlinear_arith)
            requires
                x2 < cols,
        ;
        assert((y2 + 1) * cols <= y * cols) by (nonlinear_arith)
            requires
                y2 < y,
        ;
    }
}

/// A cell put at a position of the grid is read back there, and every
/// other position keeps the cell it had.
pub proof fn law_read_after_write(b: CellBufferView, x: nat, y: nat, c: Cell, x2: nat, y2: nat)
    requires
        b.cells.len() == b.cols * b.rows,
        x < b.cols,
        y < b.rows,
        x2 < b.cols,
        y2 < b.rows,
    ensures
        ({
            let after = CellBufferView { cells: b.cells.update(cell_index(b.cols, x, y) as int, c), ..b };
            &&& after.at(x, y) == c
            &&& (x2 != x || y2 != y) ==> after.at(x2, y2) == b.at(x2, y2)
        }),
{
    lemma_cell_index(b.cols, b.rows, x, y);
    lemma_cell_index(b.cols, b.rows, x2, y2);
    if x2 != x || y2 != y {
        if cell_index(b.cols, x, y) == cell_index(b.cols, x2, y2) {
            lemma_cell_index_injective(b.cols, x, y, x2, y2);
        }
    }
}

impl CellBuffer {
    /// The grid holds exactly `cols * rows` cells.
    #[verifier::type_invariant]
    closed spec fn inv(self) -> bool {
        self.buf@.len() == self.cols * self.rows
    }

    /// A grid over `area`, of its width and height, filled with
    /// `default_cell`.
    pub fn new(default_cell: Cell, area: Area) -> (r: CellBuffer)
        requires
            area@.width() * area@.height() <= usize::MAX,
        ensures
            r@.cols == area@.width(),
            r@.rows == area@.height(),
            r@.cells == Seq::new(area@.width() * area@.height(), |i: int| default_cell),
            r@.default_cell == default_cell,
            r@.area == area@,
            !r@.ascii_drawing,
    {
        let cols = area.width();
        let rows = area.height();
        let n = cols * rows;
        let buf = vec![default_cell; n];
        proof {
            assert(buf@ =~= Seq::new(area@.width() * area@.height(), |i: int| default_cell));
        }
        CellBuffer { cols, rows, buf, default_cell, area, ascii_drawing: false }
    }

    /// An empty grid over `area`.
    pub fn nil(area: Area) -> (r: CellBuffer)
        ensures
            r@.cols == 0,
            r@.rows == 0,
            r@.cells == Seq::<Cell>::empty(),
            r@.default_cell == Cell::spec_default(),
            r@.area == area@,
            !r@.ascii_drawing,
    {
        CellBuffer {
            cols: 0,
            rows: 0,
            buf: Vec::new(),
            default_cell: Cell::with_char(' '),
            area,
            ascii_drawing: false,
        }
    }

    /// Number of columns.
    pub fn cols(&self) -> (r: usize)
        ensures
            r == self@.cols,
    {
        self.cols
    }

    /// Number of rows.
    pub fn rows(&self) -> (r: usize)
        ensures
            r == self@.rows,
    {
        self.rows
    }

    /// The area the grid covers.
    pub fn area(&self) -> (r: Area)
        ensures
            r@ == self@.area,
    {
        self.area
    }

    /// Sets the area the grid covers.
    pub fn set_area(&mut self, area: Area)
        ensures
            final(self)@ == (CellBufferView { area: area@, ..old(self)@ }),
    {
        proof {
            use_type_invariant(&*self);
        }
        let mut old = CellBuffer::nil(area);
        std::mem::swap(&mut old, self);
        proof {
            use_type_invariant(&old);
        }
        let CellBuffer { cols, rows, buf, default_cell, area: _, ascii_drawing } = old;
        *self = CellBuffer { cols, rows, buf, default_cell, area, ascii_drawing };
    }

    /// The cell that fills the grid.
    pub fn default_cell(&self) -> (r: Cell)
        ensures
            r == self@.default_cell,
    {
        self.default_cell
    }

    /// Sets the cell that fills the grid.
    pub fn set_default_cell(&mut self, cell: Cell)
        ensures
            final(self)@ == (CellBufferView { default_cell: cell, ..old(self)@ }),
    {
        let mut old = CellBuffer::nil(self.area);
        std::mem::swap(&mut old, self);
        proof {
            use_type_invariant(&old);
        }
        let CellBuffer { cols, rows, buf, default_cell: _, area, ascii_drawing } = old;
        *self = CellBuffer { cols, rows, buf, default_cell: cell, area, ascii_drawing };
    }

    /// Whether borders are drawn with ASCII characters only.
    pub fn ascii_drawing(&self) -> (r: bool)
        ensures
            r == self@.ascii_drawing,
    {
        self.ascii_drawing
    }

    /// The cell at column `x` of row `y`, or `None` outside the grid.
    pub fn get(&self, x: usize, y: usize) -> (r: Option<Cell>)
        ensures
            r == (if x < self@.cols && y < self@.rows {
                Some(self@.at(x as nat, y as nat))
            } else {
                None
            }),
    {
        proof {
            use_type_invariant(self);
        }
        if x < self.cols && y < self.rows {
            let n = self.buf.len();
            proof {
                lemma_cell_index(self.cols as nat, self.rows as nat, x as nat, y as nat);
                assert(y * self.cols <= y * self.cols + x);
            }
            Some(self.buf[y * self.cols + x])
        } else {
            None
        }
    }

    /// Puts `cell` at column `x` of row `y`; outside the grid nothing
    /// changes. Says whether it was put.
    pub fn set(&mut self, x: usize, y: usize, cell: Cell) -> (r: bool)
        ensures
            r == (x < old(self)@.cols && y < old(self)@.rows),
            final(self)@ == (if r {
                CellBufferView {
                    cells: old(self)@.cells.update(cell_index(old(self)@.cols, x as nat, y as nat) as int, cell),
                    ..old(self)@
                }
            } else {
                old(self)@
            }),
    {
        proof {
            use_type_invariant(&*self);
        }
        if x < self.cols && y < self.rows {
            let n = self.buf.len();
            proof {
                lemma_cell_index(self.cols as nat, self.rows as nat, x as nat, y as nat);
                assert(y * self.cols <= y * self.cols + x);
            }
            let i = y * self.cols + x;
            let mut old = CellBuffer::nil(self.area);
            std::mem::swap(&mut old, self);
            proof {
                use_type_invariant(&old);
            }
            let CellBuffer { cols, rows, mut buf, default_cell, area, ascii_drawing } = old;
            buf.set(i, cell);
            *self = CellBuffer { cols, rows, buf, default_cell, area, ascii_drawing };
            true
        } else {
            false
        }
    }
}

impl Cell {
    /// A space in the default colors and attributes.
    pub open spec fn spec_default() -> Cell {
        Cell { ch: ' ', fg: Color::Default, bg: Color::Default, attrs: Attr(ATTR_DEFAULT), empty: false }
    }
}

/// The cell at column `x` of row `y` after a resize of `old`: the old cell
/// where there was one, else `blank`.
pub open spec fn resized_cell(old: CellBufferView, x: nat, y: nat, blank: Cell) -> Cell {
    if x < old.cols && y < old.rows {
        old.at(x, y)
    } else {
        blank
    }
}

/// What a resize of `old` to `cols` by `rows`, filling new cells with
/// `blank`, makes of it.
pub open spec fn resized(old: CellBufferView, cols: nat, rows: nat, blank: Cell, new: CellBufferView) -> bool {
    &&& new.cols == cols
    &&& new.rows == rows
    &&& new.cells.len() == cols * rows
    &&& forall|x: nat, y: nat|
        x < cols && y < rows ==> #[trigger] new.at(x, y) == resized_cell(old, x, y, blank)
    &&& new.default_cell == old.default_cell
    &&& new.area == old.area
    &&& new.ascii_drawing == old.ascii_drawing
}

proof fn lemma_row_index(xx: nat, yy: nat, cols: nat, y: nat)
    requires
        xx < cols,
        yy < y,
    ensures
        yy * cols + xx < y * cols,
{
    assert(yy * cols + xx < (yy + 1) * cols) by (nonlinear_arith)
        requires
            xx < cols,
    ;
    assert((yy + 1) * cols <= y * cols) by (nonlinear_arith)
        requires
            yy < y,
    ;
}

proof fn lemma_next_row(y: nat, cols: nat)
    ensures
        (y + 1) * cols == y * cols + cols,
{
    assert((y + 1) * cols == y * cols + cols) by (nonlinear_arith);
}

impl CellBuffer {
    /// Resizes the grid to `cols` by `rows`, keeping each cell where it is
    /// and filling new cells with `blank` (the grid's own filling when
    /// `None`). A grid of [`MAX_CELLS`] cells or more is refused: the grid
    /// stays as it is and the answer is `false`.
    pub fn resize(&mut self, cols: usize, rows: usize, blank: Option<Cell>) -> (r: bool)
        ensures
            r == (cols * rows < MAX_CELLS),
            !r ==> final(self)@ == old(self)@,
            r && cols == old(self)@.cols && rows == old(self)@.rows ==> final(self)@ == old(self)@,
            r ==> resized(
                old(self)@,
                cols as nat,
                rows as nat,
                match blank {
                    Some(b) => b,
                    None => old(self)@.default_cell,
                },
                final(self)@,
            ),
    {
        proof {
            use_type_invariant(&*self);
        }
        let fits = match cols.checked_mul(rows) {
            Some(n) => n < MAX_CELLS,
            None => false,
        };
        if !fits {
            return false;
        }
        if cols == self.cols && rows == self.rows {
            proof {
                assert forall|x: nat, y: nat| x < cols && y < rows implies #[trigger] self@.at(x, y)
                    == resized_cell(self@, x, y, match blank {
                    Some(b) => b,
                    None => self@.default_cell,
                }) by {}
            }
            return true;
        }
        let fill = match blank {
            Some(b) => b,
            None => self.default_cell,
        };
        let ghost old_view = self@;
        let mut newbuf: Vec<Cell> = Vec::new();
        let mut y: usize = 0;
        while y < rows
            invariant
                cols * rows < MAX_CELLS,
                y <= rows,
                old_view == self@,
                newbuf@.len() == y * cols,
                forall|xx: nat, yy: nat|
                    xx < cols && yy < y ==> #[trigger] newbuf@[(yy * cols + xx) as int]
                        == resized_cell(old_view, xx, yy, fill),
            decreases rows - y,
        {
            let mut x: usize = 0;
            proof {
                lemma_next_row(y as nat, cols as nat);
                assert((y + 1) * cols <= rows * cols) by (nonlinear_arith)
                    requires
                        y < rows,
                ;
                assert(rows * cols == cols * rows) by (nonlinear_arith);
            }
            while x < cols
                invariant
                    cols * rows < MAX_CELLS,
                    y < rows,
                    x <= cols,
                    (y + 1) * cols == y * cols + cols,
                    (y + 1) * cols <= cols * rows,
                    old_view == self@,
                    newbuf@.len() == y * cols + x,
                    forall|xx: nat, yy: nat|
                        xx < cols && yy < y ==> #[trigger] newbuf@[(yy * cols + xx) as int]
                            == resized_cell(old_view, xx, yy, fill),
                    forall|xx: nat|
                        xx < x ==> #[trigger] newbuf@[(y * cols + xx) as int] == resized_cell(
                            old_view,
                            xx,
                            y as nat,
                            fill,
                        ),
                decreases cols - x,
            {
                let c = match self.get(x, y) {
                    Some(c) => c,
                    None => fill,
                };
                let ghost prev = newbuf@;
                newbuf.push(c);
                proof {
                    assert forall|xx: nat, yy: nat| xx < cols && yy < y implies #[trigger] newbuf@[(
                    yy * cols + xx) as int] == resized_cell(old_view, xx, yy, fill) by {
                        lemma_row_index(xx, yy, cols as nat, y as nat);
                        assert(prev[(yy * cols + xx) as int] == resized_cell(old_view, xx, yy, fill));
                    }
                    assert forall|xx: nat| xx < x + 1 implies #[trigger] newbuf@[(y * cols + xx) as int]
                        == resized_cell(old_view, xx, y as nat, fill) by {
                        if xx < x {
                            assert(prev[(y * cols + xx) as int] == resized_cell(old_view, xx, y as nat, fill));
                        }
                    }
                }
                x = x + 1;
            }
            y = y + 1;
        }
        let mut old = CellBuffer::nil(self.area);
        std::mem::swap(&mut old, self);
        proof {
            use_type_invariant(&old);
        }
        let CellBuffer { cols: _, rows: _, buf: _, default_cell, area, ascii_drawing } = old;
        proof {
            assert(y * cols == cols * rows) by (nonlinear_arith)
                requires
                    y == rows,
            ;
        }
        *self = CellBuffer { cols, rows, buf: newbuf, default_cell, area, ascii_drawing };
        true
    }
}

} // verus!
