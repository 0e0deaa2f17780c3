//! Tests of where the thread view puts its list and mail panes.
use meli::area::Area;
use meli::mail_view::ThreadViewFocus;
use meli::panes::PanePlan;
use meli::screen::{Screen, Virtual};
use meli::thread_nav::{EntryShape, ThreadLayout, ThreadNav};

fn root_of(cols: usize, rows: usize) -> Area {
    let mut screen = Screen::<Virtual>::new(Default::default());
    assert!(screen.resize(cols, rows));
    screen.area()
}

fn nav(entries: usize, focus: ThreadViewFocus, layout: ThreadLayout, content_width: usize) -> ThreadNav {
    let shapes = vec![EntryShape { hidden: false, indentation: 0, dirty: true }; entries];
    let mut n = ThreadNav::new(shapes, (0, 0), Some(focus), layout, content_width);
    n.focus = focus;
    n
}

#[test]
fn side_by_side_split_leaves_a_separator_column() {
    let area = root_of(120, 40);
    let n = nav(3, ThreadViewFocus::Unfocused, ThreadLayout::Vertical, 200);
    match n.panes(&area, 10) {
        PanePlan::Split { list, mail, body } => {
            assert_eq!(body, area.skip_rows(2));
            // mid = min(200, 60) = 60: the list takes 59 columns, the mail starts at 61.
            assert_eq!(list.width(), 59);
            assert_eq!(list.height(), 38);
            assert_eq!(list.upper_left(), (0, 2));
            assert_eq!(mail.upper_left(), (61, 2));
            assert_eq!(mail.bottom_right(), (119, 39));
        }
        other => panic!("unexpected plan {other:?}"),
    }
}

#[test]
fn stacked_split_leaves_a_separator_row() {
    let area = root_of(80, 30);
    let n = nav(3, ThreadViewFocus::Unfocused, ThreadLayout::Horizontal, 12);
    match n.panes(&area, 10) {
        PanePlan::Split { list, mail, body } => {
            assert_eq!(body, area.skip_rows(2));
            // mid = min(12, 15) = 12 rows of list, then one blank row.
            assert_eq!(list.upper_left(), (0, 2));
            assert_eq!(list.bottom_right(), (79, 13));
            assert_eq!(mail.upper_left(), (0, 15));
            assert_eq!(mail.bottom_right(), (79, 29));
        }
        other => panic!("unexpected plan {other:?}"),
    }
}

#[test]
fn focused_panes_fill_the_body() {
    let area = root_of(100, 20);
    let list = nav(4, ThreadViewFocus::Thread, ThreadLayout::Vertical, 30);
    match list.panes(&area, 5) {
        PanePlan::ListOnly { list: l, cleared, body } => {
            assert_eq!(l, body);
            assert_eq!(cleared, Some(body.skip_cols(31)));
        }
        other => panic!("unexpected plan {other:?}"),
    }
    let stacked = nav(4, ThreadViewFocus::Thread, ThreadLayout::Horizontal, 30);
    assert!(matches!(stacked.panes(&area, 5), PanePlan::ListOnly { cleared: None, .. }));
    let mail = nav(4, ThreadViewFocus::MailView, ThreadLayout::Vertical, 30);
    match mail.panes(&area, 5) {
        PanePlan::MailOnly { mail: m, body } => assert_eq!(m, body),
        other => panic!("unexpected plan {other:?}"),
    }
}

#[test]
fn empty_list_draws_only_the_header() {
    let area = root_of(100, 20);
    let n = nav(4, ThreadViewFocus::Unfocused, ThreadLayout::Vertical, 30);
    assert!(matches!(n.panes(&area, 0), PanePlan::Header));
    let narrow = nav(4, ThreadViewFocus::Unfocused, ThreadLayout::Vertical, 0);
    assert!(matches!(narrow.panes(&area, 5), PanePlan::Header));
    // Stacked: a list exactly as long as the drawn cursor row shows no panes.
    let mut stacked = nav(4, ThreadViewFocus::Unfocused, ThreadLayout::Horizontal, 30);
    stacked.cursor_pos = 5;
    assert!(matches!(stacked.panes(&area, 5), PanePlan::Header));
}

#[test]
fn auto_layout_stacks_when_narrow() {
    let area = root_of(100, 20);
    let mut n = nav(4, ThreadViewFocus::Unfocused, ThreadLayout::Auto, 80);
    assert!(!n.is_stacked());
    n.last_width = 100;
    // min(80, 50) = 50 is not wide enough for side by side.
    assert!(n.is_stacked());
    n.last_width = 200;
    assert!(!n.is_stacked());
}

#[test]
fn begin_draw_states() {
    let area = root_of(60, 20);
    let mut empty = nav(0, ThreadViewFocus::Unfocused, ThreadLayout::Auto, 10);
    assert!(matches!(empty.begin_draw(&area, 3, true), PanePlan::Nothing));
    assert!(!empty.dirty);

    let mut single = nav(1, ThreadViewFocus::MailView, ThreadLayout::Auto, 10);
    single.new_expanded_pos = 0;
    single.expanded_pos = 5;
    match single.begin_draw(&area, 3, false) {
        PanePlan::Single { mail } => assert_eq!(mail, area),
        other => panic!("unexpected plan {other:?}"),
    }
    assert_eq!(single.last_width, 60);
    assert_eq!(single.expanded_pos, 0);

    let mut clean = nav(3, ThreadViewFocus::Thread, ThreadLayout::Vertical, 10);
    clean.dirty = false;
    assert!(matches!(clean.begin_draw(&area, 3, true), PanePlan::Nothing));
    assert_eq!(clean.last_width, 0);

    // The open mail being dirty is enough when the list lacks the focus.
    let mut mail_dirty = nav(3, ThreadViewFocus::Unfocused, ThreadLayout::Vertical, 10);
    mail_dirty.dirty = false;
    assert!(matches!(mail_dirty.begin_draw(&area, 3, true), PanePlan::Split { .. }));

    // A stacked list with the focus is drawn whole.
    let mut stacked = nav(3, ThreadViewFocus::Thread, ThreadLayout::Horizontal, 10);
    stacked.dirty = false;
    stacked.cursor_pos = 0;
    assert!(matches!(stacked.begin_draw(&area, 3, false), PanePlan::Nothing));
    let mut stacked = nav(3, ThreadViewFocus::Thread, ThreadLayout::Horizontal, 10);
    stacked.cursor_pos = 0;
    assert!(matches!(stacked.begin_draw(&area, 3, false), PanePlan::ListOnly { .. }));
    assert!(stacked.dirty);
}

/// The single-mail drawing frames the whole area whatever the focus left
/// by the visibility keys.
#[test]
fn thread_view_single_mail_frame_at_focus_none() {
    let area = root_of(80, 24);
    let mut view = nav(1, ThreadViewFocus::Unfocused, ThreadLayout::Auto, 80);
    view.dirty = true;
    match view.begin_draw(&area, 1, false) {
        PanePlan::Single { mail } => {
            assert_eq!(mail, area);
            assert_eq!(mail.upper_left(), (0, 0), "top-left corner of the frame");
            assert_eq!(mail.bottom_right(), (79, 23), "bottom-right corner of the frame");
        }
        other => panic!("unexpected plan {other:?}"),
    }
}
