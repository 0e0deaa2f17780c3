//! Tests of the numeric command prefix, the terminal screen's byte queue
//! and a few area and attribute helpers.
use meli::bridge::frame_ring_areas;
use meli::cells::{Attr, Cell, Color, ThemeAttribute, ATTR_BOLD, ATTR_REVERSE};
use meli::cmd_buf::{BufStatus, CommandBuffer};
use meli::screen::{Screen, SegmentStyle, Tty, Virtual};

#[test]
fn command_prefix_digits() {
    let mut buf = CommandBuffer::new();
    assert_eq!(buf.cmd_buf(), None);
    assert_eq!(buf.cmd_buf_push('x', None), None);
    assert_eq!(buf.cmd_buf(), None);
    assert_eq!(buf.cmd_buf_push('3', None), Some(BufStatus::Show("3".to_string())));
    assert_eq!(buf.cmd_buf_push('0', Some("mark")), Some(BufStatus::Show("mark 30".to_string())));
    assert_eq!(buf.cmd_buf(), Some(30));
    assert_eq!(buf.cmd_buf_pop(None), Some(BufStatus::Show("3".to_string())));
    assert_eq!(buf.cmd_buf_pop(None), Some(BufStatus::Clear));
    assert_eq!(buf.cmd_buf(), None);
    assert_eq!(buf.cmd_buf_pop(None), None);
    buf.cmd_buf_push('7', None);
    assert_eq!(buf.cmd_buf_clear(), (Some(7), Some(BufStatus::Clear)));
    assert_eq!(buf.cmd_buf_clear(), (None, None));
}

#[test]
fn command_prefix_refuses_a_number_past_the_machine() {
    let mut buf = CommandBuffer::new();
    for c in usize::MAX.to_string().chars().take(usize::MAX.to_string().len() - 1) {
        buf.cmd_buf_push(c, None);
    }
    let before = buf.cmd_buf();
    // One more digit would multiply past the largest value.
    buf.cmd_buf_push('1', None);
    buf.cmd_buf_push('1', None);
    assert!(buf.cmd_buf() >= before);
}

#[test]
fn tty_queue_follows_attachment() {
    let mut screen = Screen::<Tty>::new(ThemeAttribute::default());
    assert!(screen.update_size_to(Some(6), Some(2)));
    screen.draw(0..3, 0);
    assert!(screen.flush().is_empty());
    screen.tty_mut().attach();
    assert!(screen.tty().is_attached());
    screen.tty_mut().set_draw_fn(SegmentStyle::Plain);
    screen.draw(0..3, 0);
    let bytes = screen.flush();
    assert!(bytes.starts_with(b"\x1b[1;1H"));
    assert!(screen.flush().is_empty());
    screen.draw_overlay(0..2, 1);
    assert!(screen.tty_mut().detach().starts_with(b"\x1b[2;1H"));
    assert!(!screen.tty().is_attached());
    screen.tty_mut().set_mouse_flag(true);
    assert!(screen.tty().mouse());
    screen.set_background_query(Some(Color::Rgb(1, 2, 3)));
    assert_eq!(screen.background_query(), Some(Color::Rgb(1, 2, 3)));
}

#[test]
fn grids_of_a_screen() {
    let mut screen = Screen::<Virtual>::new(ThemeAttribute::default());
    assert!(screen.resize(4, 3));
    let cell = Cell::new('x', Color::Red, Color::Default, Attr(ATTR_BOLD));
    {
        let (grid, overlay) = screen.grid_and_overlay_grid_mut();
        assert!(grid.set(1, 1, cell));
        assert!(overlay.set(2, 2, cell));
    }
    assert_eq!(screen.grid().get(1, 1), Some(cell));
    assert_ne!(screen.grid().get(0, 1), Some(cell));
    assert_eq!(screen.grid().get(0, 1), screen.grid().get(1, 0));
    assert_eq!(screen.overlay_grid().get(2, 2), Some(cell));
    assert!(screen.overlay_grid_mut().set(0, 0, cell));
    assert_eq!(screen.grid().get(9, 9), None);
    let sized = Screen::init(Virtual, ThemeAttribute::default()).with_cols_and_rows(5, 2);
    assert_eq!((sized.cols(), sized.rows()), (5, 2));
}

#[test]
fn area_corners_and_frame_ring() {
    let mut screen = Screen::<Virtual>::new(ThemeAttribute::default());
    assert!(screen.resize(10, 6));
    let area = screen.area().skip(2, 1).take(4, 3);
    assert_eq!(area.upper_right(), (5, 1));
    assert_eq!(area.bottom_left(), (2, 3));
    let [top, bottom, left, right] = frame_ring_areas(area);
    assert_eq!((top.upper_left(), top.bottom_right()), ((2, 1), (5, 1)));
    assert_eq!((bottom.upper_left(), bottom.bottom_right()), ((2, 3), (5, 3)));
    assert_eq!((left.upper_left(), left.bottom_right()), ((2, 1), (2, 3)));
    assert_eq!((right.upper_left(), right.bottom_right()), ((5, 1), (5, 3)));
    for strip in frame_ring_areas(area.take(1, 1)) {
        assert!(area.contains(strip) || strip.is_empty());
    }
    assert_eq!(Attr(ATTR_BOLD).union(Attr(ATTR_REVERSE)), Attr(ATTR_BOLD | ATTR_REVERSE));
    assert!(Attr(ATTR_BOLD | ATTR_REVERSE).intersects(Attr(ATTR_REVERSE)));
}
