//! Tests of the redraw decisions and the main loop's event texts.
use meli::events::{exit_status_message, notice_message, notification_text, refresh_batch_target};
use meli::redraw::{message_box_dirty, overlay_dirty_rows, row_segments, sort_by_left_edge};

#[test]
fn dirty_areas_sorted_by_left_edge_keep_their_order_on_ties() {
    let areas = vec![((5, 0), (6, 1)), ((1, 0), (2, 0)), ((5, 2), (7, 3))];
    let sorted = sort_by_left_edge(&areas);
    assert_eq!(sorted, vec![((1, 0), (2, 0)), ((5, 0), (6, 1)), ((5, 2), (7, 3))]);
    assert_eq!(sort_by_left_edge(&vec![]), vec![]);
}

#[test]
fn row_segments_follow_the_areas_reaching_the_row() {
    let areas = vec![((1, 0), (2, 0)), ((5, 0), (6, 1)), ((5, 2), (7, 3))];
    assert_eq!(row_segments(&areas, 0), vec![(1, 2), (5, 6)]);
    assert_eq!(row_segments(&areas, 1), vec![(5, 6)]);
    assert_eq!(row_segments(&areas, 2), vec![(5, 7)]);
    assert_eq!(row_segments(&areas, 5), Vec::<(usize, usize)>::new());
}

#[test]
fn message_box_is_dirty_when_an_area_touches_it() {
    let displ = ((4, 1), (8, 2));
    assert!(message_box_dirty(displ, &vec![((5, 0), (6, 1))], false));
    assert!(!message_box_dirty(displ, &vec![((0, 0), (1, 0))], false));
    assert!(!message_box_dirty(displ, &vec![((9, 1), (10, 2))], false));
    assert!(message_box_dirty(displ, &vec![], true));
}

#[test]
fn overlay_rows_are_sorted_and_unique() {
    let areas = vec![((1, 0), (2, 1)), ((5, 0), (6, 0)), ((5, 2), (7, 3))];
    assert_eq!(overlay_dirty_rows(&areas, 3, false), vec![0, 1, 2]);
    assert_eq!(overlay_dirty_rows(&areas, 10, false), vec![0, 1, 2, 3]);
    assert_eq!(overlay_dirty_rows(&vec![], 4, true), vec![0, 1, 2, 3]);
    assert_eq!(overlay_dirty_rows(&vec![], 4, false), Vec::<usize>::new());
}

#[test]
fn refresh_batches_for_one_mailbox_only() {
    assert_eq!(refresh_batch_target(&vec![(1, 2), (1, 2)]), Some((1, 2)));
    assert_eq!(refresh_batch_target(&vec![(1, 2), (1, 3)]), None);
    assert_eq!(refresh_batch_target(&vec![]), None);
}

#[test]
fn event_messages() {
    assert_eq!(notice_message(Some("acc"), "desc", Some("x")), "acc: desc: x");
    assert_eq!(notice_message(None, "d", None), "unknown account: d");
    assert_eq!(notification_text(Some("T"), "b"), "T b");
    assert_eq!(notification_text(None, "b"), "b");
    assert_eq!(exit_status_message(Some(3)), "Process exited with status code: 3");
    assert_eq!(exit_status_message(Some(-2)), "Process exited with status code: -2");
    assert_eq!(exit_status_message(Some(127)), "Process exited with status code: 127");
    assert_eq!(exit_status_message(None), "Process terminated by signal");
}

#[test]
fn sort_keeps_the_order_of_equal_left_edges() {
    let areas = vec![
        ((5, 0), (9, 1)),
        ((2, 7), (3, 8)),
        ((5, 4), (6, 4)),
        ((2, 1), (4, 2)),
        ((0, 3), (1, 3)),
    ];
    assert_eq!(
        sort_by_left_edge(&areas),
        vec![((0, 3), (1, 3)), ((2, 7), (3, 8)), ((2, 1), (4, 2)), ((5, 0), (9, 1)), ((5, 4), (6, 4))]
    );
}
