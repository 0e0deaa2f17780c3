//! The screen: a grid and an overlay grid of cells over a canvas of a given
//! size, drawn either nowhere (a virtual screen) or to a terminal, whose
//! bytes it queues for the caller to write.
use vstd::prelude::*;
use crate::area::{sat_sub, Area, AreaView, ScreenGeneration};
use crate::cells::{resized, Cell, CellBuffer, CellBufferView, Color, ThemeAttribute, MAX_CELLS};
use crate::sealed::Sealed;
use crate::segment::{draw_segment_bytes, segment_bytes};

verus! {

/// A screen that is drawn nowhere.
#[derive(Clone, Copy, Debug)]
pub struct Virtual;

/// How a terminal screen draws a row segment: with colors, or with
/// attributes only.
#[derive(Clone, Copy, Debug, PartialEq, Eq, Structural)]
pub enum SegmentStyle {
    Colored,
    Plain,
}

/// A screen drawn to a terminal: the bytes queued for it while it is
/// attached (in the alternate screen), the background color it reported,
/// whether mouse capture is on, and how row segments are drawn.
pub struct Tty {
    output: Option<Vec<u8>>,
    background_query: Option<Color>,
    mouse: bool,
    style: SegmentStyle,
}

/// The content of a [`Tty`].
pub struct TtyView {
    pub output: Option<Seq<u8>>,
    pub background_query: Option<Color>,
    pub mouse: bool,
    pub style: SegmentStyle,
}

impl View for Tty {
    type V = TtyView;

    closed spec fn view(&self) -> TtyView {
        TtyView {
            output: match self.output {
                Some(v) => Some(v@),
                None => None,
            },
            background_query: self.background_query,
            mouse: self.mouse,
            style: self.style,
        }
    }
}

impl Tty {
    /// Whether mouse capture is on.
    pub fn mouse(&self) -> (r: bool)
        ensures
            r == self@.mouse,
    {
        self.mouse
    }

    /// Records whether mouse capture is on.
    pub fn set_mouse_flag(&mut self, mouse: bool)
        ensures
            final(self)@ == (TtyView { mouse, ..old(self)@ }),
    {
        self.mouse = mouse;
    }

    /// Chooses how row segments are drawn.
    pub fn set_draw_fn(&mut self, style: SegmentStyle)
        ensures
            final(self)@ == (TtyView { style, ..old(self)@ }),
    {
        self.style = style;
    }

    /// How row segments are drawn.
    pub fn draw_style(&self) -> (r: SegmentStyle)
        ensures
            r == self@.style,
    {
        self.style
    }

    /// Whether the terminal is attached (bytes are queued for it).
    pub fn is_attached(&self) -> (r: bool)
        ensures
            r == self@.output is Some,
    {
        self.output.is_some()
    }

    /// Attaches the terminal, with nothing queued yet.
    pub fn attach(&mut self)
        ensures
            final(self)@ == (TtyView { output: Some(Seq::empty()), ..old(self)@ }),
    {
        self.output = Some(Vec::new());
    }

    /// Detaches the terminal and hands back what was still queued.
    pub fn detach(&mut self) -> (r: Vec<u8>)
        ensures
            r@ == match old(self)@.output {
                Some(v) => v,
                None => Seq::empty(),
            },
            final(self)@ == (TtyView { output: None, ..old(self)@ }),
    {
        let out = match self.output.take() {
            Some(v) => v,
            None => Vec::new(),
        };
        out
    }

    /// Queues `bytes` for the terminal; nothing happens while detached.
    pub fn queue(&mut self, bytes: &[u8])
        ensures
            final(self)@ == (TtyView {
                output: match old(self)@.output {
                    Some(v) => Some(v + bytes@),
                    None => None,
                },
                ..old(self)@
            }),
    {
        match self.output.take() {
            Some(mut v) => {
                let mut k: usize = 0;
                let ghost start = v@;
                while k < bytes.len()
                    invariant
                        k <= bytes@.len(),
                        v@ == start + bytes@.take(k as int),
                    decreases bytes@.len() - k,
                {
                    v.push(bytes[k]);
                    assert(bytes@.take(k + 1) =~= bytes@.take(k as int).push(bytes@[k as int]));
                    k = k + 1;
                }
                assert(bytes@.take(k as int) =~= bytes@);
                self.output = Some(v);
            },
            None => {},
        }
    }

    /// Takes what is queued, leaving the terminal attached with nothing
    /// queued; detached, there is nothing to take.
    pub fn take_pending(&mut self) -> (r: Vec<u8>)
        ensures
            r@ == match old(self)@.output {
                Some(v) => v,
                None => Seq::empty(),
            },
            final(self)@ == (TtyView {
                output: match old(self)@.output {
                    Some(_) => Some(Seq::empty()),
                    None => None,
                },
                ..old(self)@
            }),
    {
        match self.output.take() {
            Some(v) => {
                self.output = Some(Vec::new());
                v
            },
            None => Vec::new(),
        }
    }
}

impl Sealed for Virtual {

}

impl Sealed for Tty {

}

/// The content of a [`Screen`] besides its display.
pub struct ScreenView {
    pub cols: nat,
    pub rows: nat,
    pub grid: CellBufferView,
    pub overlay_grid: CellBufferView,
    pub generation: ScreenGeneration,
}

/// A screen of `cols` by `rows` cells: a grid, an overlay grid drawn over
/// it, the display it is drawn to, and the generation of its canvas (it
/// changes with every size change, so areas of an older canvas can be
/// told apart).
pub struct Screen<D: Sealed> {
    cols: usize,
    rows: usize,
    grid: CellBuffer,
    overlay_grid: CellBuffer,
    display: D,
    generation: ScreenGeneration,
}

/// The empty area a screen starts with.
pub open spec fn empty_canvas() -> AreaView {
    AreaView {
        offset: (0nat, 0nat),
        upper_left: (0nat, 0nat),
        bottom_right: (0nat, 0nat),
        empty: true,
        canvas_cols: 0,
        canvas_rows: 0,
        generation: ScreenGeneration::spec_nil(),
    }
}

/// How many cells a grid over the canvas of a `cols` by `rows` screen has.
pub open spec fn canvas_cells(cols: nat, rows: nat) -> nat {
    canvas_area(cols, rows, ScreenGeneration::spec_nil()).width() * canvas_area(
        cols,
        rows,
        ScreenGeneration::spec_nil(),
    ).height()
}

/// The area of a `cols` by `rows` canvas of generation `g`.
pub open spec fn canvas_area(cols: nat, rows: nat, g: ScreenGeneration) -> AreaView {
    AreaView {
        offset: (0nat, 0nat),
        upper_left: (0nat, 0nat),
        bottom_right: (sat_sub(cols, 1), sat_sub(rows, 1)),
        empty: cols == 0 && rows == 0,
        canvas_cols: cols,
        canvas_rows: rows,
        generation: g,
    }
}

/// Whether a generation carries the marks of a random (version 4, RFC
/// variant) UUID: the version nibble of its high half is `4` and the two
/// top bits of its low half are `10`.
pub open spec fn is_random_uuid(g: ScreenGeneration) -> bool {
    &&& g.0.0 & 0xF000u64 == 0x4000u64
    &&& g.0.1 & 0xC000_0000_0000_0000u64 == 0x8000_0000_0000_0000u64
}

/// A fresh generation: a random version 4 UUID (`uuid::Uuid::new_v4`),
/// as its pair of `u64` halves (`Uuid::as_u64_pair`). Claimed: only what
/// `new_v4` fixes of every outcome, the version and variant bits it masks
/// in; the other bits are random and nothing is stated of them.
#[verifier::external_body]
fn fresh_generation() -> (r: ScreenGeneration)
    ensures
        is_random_uuid(r),
{
    ScreenGeneration(uuid::Uuid::new_v4().as_u64_pair())
}

impl ScreenGeneration {
    /// A fresh, random generation: a random version 4 UUID, so never the
    /// generation of a canvas that was never laid out. Its random bits
    /// are not stated.
    pub fn next(self) -> (r: ScreenGeneration)
        ensures
            is_random_uuid(r),
            r != ScreenGeneration::spec_nil(),
    {
        let g = fresh_generation();
        proof {
            let h = g.0.0;
            assert(h & 0xF000u64 == 0x4000u64 ==> h != 0u64) by (bit_vector);
        }
        g
    }
}

impl<D: Sealed> View for Screen<D> {
    type V = ScreenView;

    closed spec fn view(&self) -> ScreenView {
        ScreenView {
            cols: self.cols as nat,
            rows: self.rows as nat,
            grid: self.grid@,
            overlay_grid: self.overlay_grid@,
            generation: self.generation,
        }
    }
}

impl<D: Sealed> Screen<D> {
    /// The display the screen draws to.
    pub closed spec fn display_spec(&self) -> D {
        self.display
    }

    /// An empty screen over `display`, its grids filled with blank cells
    /// in the theme's default colors.
    pub fn init(display: D, theme_default: ThemeAttribute) -> (r: Self)
        ensures
            r@.cols == 0,
            r@.rows == 0,
            r@.generation == ScreenGeneration::spec_nil(),
            r@.grid.cols == 0 && r@.grid.rows == 0,
            r@.overlay_grid.cols == 0 && r@.overlay_grid.rows == 0,
            r@.grid.default_cell == crate::cells::theme_cell(theme_default),
            r@.overlay_grid.default_cell == crate::cells::theme_cell(theme_default),
            r@.grid.area == empty_canvas(),
            r@.overlay_grid.area == empty_canvas(),
            r@.grid.cells == Seq::<Cell>::empty() && !r@.grid.ascii_drawing,
            r@.overlay_grid.cells == Seq::<Cell>::empty() && !r@.overlay_grid.ascii_drawing,
            r.display_spec() == display,
    {
        let area = Area::new_empty(ScreenGeneration::nil());
        let mut grid = CellBuffer::nil(area);
        let mut overlay_grid = CellBuffer::nil(area);
        grid.set_default_cell(theme_default.to_cell());
        overlay_grid.set_default_cell(theme_default.to_cell());
        Screen { cols: 0, rows: 0, grid, overlay_grid, display, generation: ScreenGeneration::nil() }
    }

    /// The screen resized to `cols` by `rows`, with a fresh generation and
    /// grids of blank cells over its new area.
    pub fn with_cols_and_rows(self, cols: usize, rows: usize) -> (r: Self)
        requires
            canvas_cells(cols as nat, rows as nat) <= usize::MAX,
        ensures
            r@.cols == cols,
            r@.rows == rows,
            r@.grid.area == canvas_area(cols as nat, rows as nat, r@.generation),
            r@.overlay_grid.area == canvas_area(cols as nat, rows as nat, r@.generation),
            r@.grid.cols == r@.grid.area.width() && r@.grid.rows == r@.grid.area.height(),
            r@.overlay_grid.cols == r@.grid.area.width() && r@.overlay_grid.rows
                == r@.grid.area.height(),
            r@.grid.cells == Seq::new(canvas_cells(cols as nat, rows as nat), |i: int| Cell::spec_default()),
            r@.overlay_grid.cells == Seq::new(
                canvas_cells(cols as nat, rows as nat),
                |i: int| Cell::spec_default(),
            ),
            r@.grid.default_cell == Cell::spec_default() && !r@.grid.ascii_drawing,
            r@.overlay_grid.default_cell == Cell::spec_default() && !r@.overlay_grid.ascii_drawing,
            r.display_spec() == self.display_spec(),
            is_random_uuid(r@.generation),
            r@.generation != ScreenGeneration::spec_nil(),
    {
        let generation = self.generation.next();
        let Screen { cols: _, rows: _, grid: _, overlay_grid: _, display, generation: _ } = self;
        let area = Area::canvas(cols, rows, generation);
        let grid = CellBuffer::new(Cell::with_char(' '), area);
        let overlay_grid = CellBuffer::new(Cell::with_char(' '), area);
        Screen { cols, rows, grid, overlay_grid, display, generation }
    }

    /// The whole canvas.
    pub fn area(&self) -> (r: Area)
        ensures
            r@ == canvas_area(self@.cols, self@.rows, self@.generation),
    {
        Area::canvas(self.cols, self.rows, self.generation)
    }

    /// The grid.
    pub fn grid(&self) -> (r: &CellBuffer)
        ensures
            r@ == self@.grid,
    {
        &self.grid
    }

    /// The grid, to draw on.
    pub fn grid_mut(&mut self) -> (r: &mut CellBuffer)
        ensures
            r@ == old(self)@.grid,
            final(self)@ == (ScreenView { grid: final(r)@, ..old(self)@ }),
            final(self).display_spec() == old(self).display_spec(),
    {
        &mut self.grid
    }

    /// The overlay grid.
    pub fn overlay_grid(&self) -> (r: &CellBuffer)
        ensures
            r@ == self@.overlay_grid,
    {
        &self.overlay_grid
    }

    /// The overlay grid, to draw on.
    pub fn overlay_grid_mut(&mut self) -> (r: &mut CellBuffer)
        ensures
            r@ == old(self)@.overlay_grid,
            final(self)@ == (ScreenView { overlay_grid: final(r)@, ..old(self)@ }),
            final(self).display_spec() == old(self).display_spec(),
    {
        &mut self.overlay_grid
    }

    /// Both grids, to draw on.
    pub fn grid_and_overlay_grid_mut(&mut self) -> (r: (&mut CellBuffer, &mut CellBuffer))
        ensures
            r.0@ == old(self)@.grid,
            r.1@ == old(self)@.overlay_grid,
            final(self)@ == (ScreenView {
                grid: final(r.0)@,
                overlay_grid: final(r.1)@,
                ..old(self)@
            }),
            final(self).display_spec() == old(self).display_spec(),
    {
        (&mut self.grid, &mut self.overlay_grid)
    }

    /// The generation of the canvas.
    pub fn generation(&self) -> (r: ScreenGeneration)
        ensures
            r == self@.generation,
    {
        self.generation
    }

    /// Number of columns.
    pub fn cols(&self) -> (r: usize)
        ensures
            r == self@.cols,
    {
        self.cols
    }

    /// Number of rows.
    pub fn rows(&self) -> (r: usize)
        ensures
            r == self@.rows,
    {
        self.rows
    }
}

impl Screen<Virtual> {
    /// An empty virtual screen.
    pub fn new(theme_default: ThemeAttribute) -> (r: Self)
        ensures
            r@.cols == 0,
            r@.rows == 0,
            r@.generation == ScreenGeneration::spec_nil(),
            r@.grid.cols == 0 && r@.grid.rows == 0,
            r@.overlay_grid.cols == 0 && r@.overlay_grid.rows == 0,
            r@.grid.default_cell == crate::cells::theme_cell(theme_default),
            r@.overlay_grid.default_cell == crate::cells::theme_cell(theme_default),
    {
        Self::init(Virtual, theme_default)
    }

    /// Resizes both grids to `cols` by `rows` (new cells blank in each
    /// grid's filling). Unchanged dimensions succeed with nothing done;
    /// a size of [`MAX_CELLS`] cells or more is refused, and the screen
    /// stays as it was. On a change the canvas gets a fresh generation and
    /// both grids cover the new canvas.
    pub fn resize(&mut self, cols: usize, rows: usize) -> (r: bool)
        ensures
            ({
                let same = cols == old(self)@.grid.cols && rows == old(self)@.grid.rows && cols
                    == old(self)@.overlay_grid.cols && rows == old(self)@.overlay_grid.rows;
                &&& same ==> r && final(self)@ == old(self)@
                &&& !same && cols * rows >= MAX_CELLS ==> !r && final(self)@ == old(self)@
                &&& !same && cols * rows < MAX_CELLS ==> {
                    &&& r
                    &&& final(self)@.cols == cols
                    &&& final(self)@.rows == rows
                    &&& resized(
                        old(self)@.grid,
                        cols as nat,
                        rows as nat,
                        old(self)@.grid.default_cell,
                        CellBufferView { area: old(self)@.grid.area, ..final(self)@.grid },
                    )
                    &&& resized(
                        old(self)@.overlay_grid,
                        cols as nat,
                        rows as nat,
                        old(self)@.overlay_grid.default_cell,
                        CellBufferView {
                            area: old(self)@.overlay_grid.area,
                            ..final(self)@.overlay_grid
                        },
                    )
                    &&& final(self)@.grid.area == canvas_area(
                        cols as nat,
                        rows as nat,
                        final(self)@.generation,
                    )
                    &&& final(self)@.overlay_grid.area == canvas_area(
                        cols as nat,
                        rows as nat,
                        final(self)@.generation,
                    )
                    &&& is_random_uuid(final(self)@.generation)
                    &&& final(self)@.generation != ScreenGeneration::spec_nil()
                }
            }),
    {
        if cols == self.grid.cols() && rows == self.grid.rows() && cols == self.overlay_grid.cols()
            && rows == self.overlay_grid.rows() {
            return true;
        }
        if self.grid.resize(cols, rows, None) && self.overlay_grid.resize(cols, rows, None) {
            let generation = self.generation.next();
            self.generation = generation;
            self.cols = cols;
            self.rows = rows;
            let area = Area::canvas(cols, rows, generation);
            self.grid.set_area(area);
            self.overlay_grid.set_area(area);
            return true;
        }
        false
    }
}

impl Screen<Tty> {
    /// Fits the screen to the terminal's reported size, `72` columns and
    /// `120` rows standing in for a size the terminal did not report. Both
    /// grids are resized even to the same size (new cells blank in each
    /// grid's filling) and the canvas gets a fresh generation; a size of
    /// [`MAX_CELLS`] cells or more is refused and the screen stays as it
    /// was.
    pub fn update_size_to(&mut self, term_cols: Option<u16>, term_rows: Option<u16>) -> (r: bool)
        ensures
            ({
                let cols: usize = match term_cols {
                    Some(c) => c as usize,
                    None => 72,
                };
                let rows: usize = match term_rows {
                    Some(c) => c as usize,
                    None => 120,
                };
                &&& cols * rows >= MAX_CELLS ==> !r && final(self)@ == old(self)@
                &&& cols * rows < MAX_CELLS ==> {
                    &&& r
                    &&& final(self)@.cols == cols
                    &&& final(self)@.rows == rows
                    &&& resized(
                        old(self)@.grid,
                        cols as nat,
                        rows as nat,
                        old(self)@.grid.default_cell,
                        CellBufferView { area: old(self)@.grid.area, ..final(self)@.grid },
                    )
                    &&& resized(
                        old(self)@.overlay_grid,
                        cols as nat,
                        rows as nat,
                        old(self)@.overlay_grid.default_cell,
                        CellBufferView {
                            area: old(self)@.overlay_grid.area,
                            ..final(self)@.overlay_grid
                        },
                    )
                    &&& final(self)@.grid.area == canvas_area(
                        cols as nat,
                        rows as nat,
                        final(self)@.generation,
                    )
                    &&& final(self)@.overlay_grid.area == canvas_area(
                        cols as nat,
                        rows as nat,
                        final(self)@.generation,
                    )
                    &&& is_random_uuid(final(self)@.generation)
                    &&& final(self)@.generation != ScreenGeneration::spec_nil()
                }
            }),
            final(self).display_spec()@ == old(self).display_spec()@,
    {
        let cols: usize = match term_cols {
            Some(c) => c as usize,
            None => 72,
        };
        let rows: usize = match term_rows {
            Some(c) => c as usize,
            None => 120,
        };
        if self.grid.resize(cols, rows, None) && self.overlay_grid.resize(cols, rows, None) {
            let generation = self.generation.next();
            self.generation = generation;
            self.cols = cols;
            self.rows = rows;
            let area = Area::canvas(cols, rows, generation);
            self.grid.set_area(area);
            self.overlay_grid.set_area(area);
            return true;
        }
        false
    }

    /// An empty terminal screen, detached, without mouse capture, drawing
    /// with colors.
    pub fn new(theme_default: ThemeAttribute) -> (r: Self)
        ensures
            r@.cols == 0,
            r@.rows == 0,
            r@.generation == ScreenGeneration::spec_nil(),
            r@.grid.default_cell == crate::cells::theme_cell(theme_default),
            r@.overlay_grid.default_cell == crate::cells::theme_cell(theme_default),
            r.display_spec()@ == (TtyView {
                output: None,
                background_query: None,
                mouse: false,
                style: SegmentStyle::Colored,
            }),
    {
        Self::init(
            Tty { output: None, background_query: None, mouse: false, style: SegmentStyle::Colored },
            theme_default,
        )
    }

    /// The terminal.
    pub fn tty(&self) -> (r: &Tty)
        ensures
            *r == self.display_spec(),
    {
        &self.display
    }

    /// The terminal, to change.
    pub fn tty_mut(&mut self) -> (r: &mut Tty)
        ensures
            *r == old(self).display_spec(),
            final(self).display_spec() == *final(r),
            final(self)@ == old(self)@,
    {
        &mut self.display
    }

    /// Takes the bytes queued for the terminal, for the caller to write;
    /// nothing while detached.
    pub fn flush(&mut self) -> (r: Vec<u8>)
        ensures
            r@ == match old(self).display_spec()@.output {
                Some(v) => v,
                None => Seq::empty(),
            },
            final(self).display_spec()@ == (TtyView {
                output: match old(self).display_spec()@.output {
                    Some(_) => Some(Seq::empty()),
                    None => None,
                },
                ..old(self).display_spec()@
            }),
            final(self)@ == old(self)@,
    {
        self.display.take_pending()
    }

    /// The default background color the terminal reported, if it did.
    pub fn background_query(&self) -> (r: Option<Color>)
        ensures
            r == self.display_spec()@.background_query,
    {
        self.display.background_query
    }

    /// Records the default background color the terminal reported.
    pub fn set_background_query(&mut self, color: Option<Color>)
        ensures
            final(self).display_spec()@ == (TtyView {
                background_query: color,
                ..old(self).display_spec()@
            }),
            final(self)@ == old(self)@,
    {
        self.display.background_query = color;
    }
}

/// `Colored::ansi_color_disabled_memoized` of crossterm: whether the
/// environment of the process turned ANSI colors off (`NO_COLOR` set and
/// not empty), read once per process. Nothing is stated of the answer: it
/// comes from the environment.
#[verifier::external_body]
fn ansi_colors_disabled() -> (r: bool) {
    crossterm::style::Colored::ansi_color_disabled_memoized()
}

/// Whether segments are drawn with colors.
pub open spec fn is_colored(style: SegmentStyle) -> bool {
    style == SegmentStyle::Colored
}

/// Whether drawing cells `xs` of row `y` of `grid` stays inside it and on
/// coordinates the terminal commands can carry.
pub open spec fn drawable(grid: CellBufferView, xs_start: nat, xs_end: nat, y: nat) -> bool {
    &&& xs_start < u16::MAX
    &&& xs_end < u16::MAX
    &&& y < u16::MAX
    &&& xs_start < xs_end ==> xs_end <= grid.cols && y < grid.rows
}

impl Screen<Tty> {
    /// Queues the bytes that draw cells `xs` of row `y` of the grid; nothing
    /// while detached.
    pub fn draw(&mut self, xs: std::ops::Range<usize>, y: usize)
        requires
            old(self).display_spec()@.output is Some ==> drawable(
                old(self)@.grid,
                xs.start as nat,
                xs.end as nat,
                y as nat,
            ),
        ensures
            final(self)@ == old(self)@,
            old(self).display_spec()@.output is None ==> final(self).display_spec()@ == old(
                self,
            ).display_spec()@,
            old(self).display_spec()@.output matches Some(v) ==> exists|colors_on: bool|
                final(self).display_spec()@ == (TtyView {
                    output: Some(
                        v + #[trigger] segment_bytes(
                            old(self)@.grid,
                            xs.start as nat,
                            xs.end as nat,
                            y as nat,
                            is_colored(old(self).display_spec()@.style),
                            colors_on,
                        ),
                    ),
                    ..old(self).display_spec()@
                }),
    {
        if !self.display.is_attached() {
            return;
        }
        let colors_on = !ansi_colors_disabled();
        let colored = match self.display.draw_style() {
            SegmentStyle::Colored => true,
            SegmentStyle::Plain => false,
        };
        let ghost before = self.display@;
        let bytes = draw_segment_bytes(&self.grid, xs.start, xs.end, y, colored, colors_on);
        assert(colored == is_colored(before.style));
        self.display.queue(bytes.as_slice());
        proof {
            let seg = segment_bytes(
                self@.grid,
                xs.start as nat,
                xs.end as nat,
                y as nat,
                is_colored(before.style),
                colors_on,
            );
            assert(bytes@ == seg);
        }
    }

    /// Queues the bytes that draw cells `xs` of row `y` of the overlay
    /// grid; nothing while detached.
    pub fn draw_overlay(&mut self, xs: std::ops::Range<usize>, y: usize)
        requires
            old(self).display_spec()@.output is Some ==> drawable(
                old(self)@.overlay_grid,
                xs.start as nat,
                xs.end as nat,
                y as nat,
            ),
        ensures
            final(self)@ == old(self)@,
            old(self).display_spec()@.output is None ==> final(self).display_spec()@ == old(
                self,
            ).display_spec()@,
            old(self).display_spec()@.output matches Some(v) ==> exists|colors_on: bool|
                final(self).display_spec()@ == (TtyView {
                    output: Some(
                        v + #[trigger] segment_bytes(
                            old(self)@.overlay_grid,
                            xs.start as nat,
                            xs.end as nat,
                            y as nat,
                            is_colored(old(self).display_spec()@.style),
                            colors_on,
                        ),
                    ),
                    ..old(self).display_spec()@
                }),
    {
        if !self.display.is_attached() {
            return;
        }
        let colors_on = !ansi_colors_disabled();
        let colored = match self.display.draw_style() {
            SegmentStyle::Colored => true,
            SegmentStyle::Plain => false,
        };
        let ghost before = self.display@;
        let bytes = draw_segment_bytes(&self.overlay_grid, xs.start, xs.end, y, colored, colors_on);
        assert(colored == is_colored(before.style));
        self.display.queue(bytes.as_slice());
        proof {
            let seg = segment_bytes(
                self@.overlay_grid,
                xs.start as nat,
                xs.end as nat,
                y as nat,
                is_colored(before.style),
                colors_on,
            );
            assert(bytes@ == seg);
        }
    }
}

} // verus!
