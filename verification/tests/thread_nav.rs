//! Tests of thread-view navigation: visibility, cursor, focus and layout.
use meli::mail_view::{FocusDirection, ThreadViewFocus};
use meli::thread_nav::{
    envelope_seen_update, export_report, mail_sees_event, mail_swallows_scroll, thread_list_first,
    view_is_dirty, ExportReport, expanded_positions, flatten_visible, nth_visible, recalc_visible_entries,
    search_old_cursor_pos, visible_count, EntryKey, EntryMeta, EntryShape, ListPlan,
    PageMovement, ThreadLayout, ThreadNav, KeyRoute,
};
use meli::keys::Key;
use meli::thread_keys::{is_thread_view_input, table_binds};

fn shape(indentation: usize, hidden: bool) -> EntryShape {
    EntryShape { hidden, indentation, dirty: true }
}

fn nav_of(entries: Vec<EntryShape>, expanded: usize) -> ThreadNav {
    ThreadNav::new(entries, (expanded, expanded + 1), None, ThreadLayout::Auto, 80)
}

#[test]
fn recalc_skips_collapsed_subtree() {
    let entries = vec![
        shape(0, false),
        shape(1, true),
        shape(2, false),
        shape(1, false),
        shape(0, false),
    ];
    let groups = recalc_visible_entries(&entries, vec![vec![0, 1, 2, 3, 4]], false);
    assert_eq!(groups, vec![vec![0, 1], vec![3, 4]]);
    let reversed = recalc_visible_entries(&entries, vec![], true);
    assert_eq!(reversed, vec![vec![3, 4], vec![0, 1]]);
    assert_eq!(flatten_visible(&groups), vec![0, 1, 3, 4]);
    assert_eq!(visible_count(&groups), 4);
    assert_eq!(nth_visible(&groups, 2), Some(3));
    assert_eq!(nth_visible(&groups, 4), None);
}

#[test]
fn recalc_keeps_groups_when_nothing_changed() {
    let entries = vec![EntryShape { hidden: false, indentation: 0, dirty: false }];
    let groups = recalc_visible_entries(&entries, vec![vec![7]], false);
    assert_eq!(groups, vec![vec![7]]);
    let empty: Vec<EntryShape> = vec![];
    assert_eq!(recalc_visible_entries(&empty, vec![vec![1]], true), vec![vec![1]]);
}

#[test]
fn binary_search_of_the_cursor() {
    let v = vec![0, 2, 5, 7];
    assert_eq!(search_old_cursor_pos(&v, 5), 2);
    assert_eq!(search_old_cursor_pos(&v, 3), 2);
    assert_eq!(search_old_cursor_pos(&v, 9), 4);
    assert_eq!(search_old_cursor_pos(&v, 0), 0);
    assert_eq!(search_old_cursor_pos(&vec![3, 4], 4), 1);
}

#[test]
fn new_nav_shows_every_entry() {
    let nav = nav_of(vec![shape(0, false), shape(1, false), shape(1, false)], 2);
    assert_eq!(nav.visible_entries, vec![vec![0, 1, 2]]);
    assert_eq!(nav.new_cursor_pos, 2);
    assert_eq!(nav.cursor_pos, 1);
    assert_eq!(nav.focus, ThreadViewFocus::Unfocused);
    assert_eq!(nav.current_pos(), Some(2));
    let single = nav_of(vec![shape(0, false)], 0);
    assert_eq!(single.focus, ThreadViewFocus::MailView);
}

#[test]
fn scroll_keys_move_the_cursor_and_open_the_entry() {
    let mut nav = nav_of(vec![shape(0, false), shape(1, false), shape(1, false)], 0);
    nav.dirty = false;
    nav.scroll_down();
    assert_eq!(nav.new_cursor_pos, 1);
    assert_eq!(nav.new_expanded_pos, 1);
    assert_eq!(nav.expanded_pos, 1);
    assert!(nav.dirty);
    nav.scroll_down();
    nav.scroll_down();
    assert_eq!(nav.new_cursor_pos, 2);
    nav.cursor_pos = 2;
    nav.scroll_up();
    assert_eq!(nav.new_cursor_pos, 1);
    nav.cursor_pos = 0;
    nav.scroll_up();
    assert_eq!(nav.new_cursor_pos, 1);
}

#[test]
fn layout_key_cycles_through_layouts() {
    let mut nav = nav_of(vec![shape(0, false), shape(1, false)], 0);
    nav.thread_layout = ThreadLayout::Vertical;
    assert_eq!(nav.toggle_layout(), Some(ThreadLayout::Horizontal));
    assert_eq!(nav.toggle_layout(), Some(ThreadLayout::Auto));
    // Never drawn: Auto counts as vertical.
    assert_eq!(nav.toggle_layout(), Some(ThreadLayout::Horizontal));
    nav.thread_layout = ThreadLayout::Auto;
    nav.last_width = 100;
    nav.content_width = 80;
    assert!(!nav.calculate_auto_thread_layout_is_vertical());
    assert_eq!(nav.toggle_layout(), Some(ThreadLayout::Vertical));
    nav.thread_layout = ThreadLayout::Auto;
    nav.last_width = 200;
    assert!(nav.calculate_auto_thread_layout_is_vertical());
    let mut one = nav_of(vec![shape(0, false)], 0);
    assert_eq!(one.toggle_layout(), None);
}

#[test]
fn focus_keys_follow_the_pane_chain() {
    let mut nav = nav_of(vec![shape(0, false), shape(1, false)], 0);
    nav.new_cursor_pos = 1;
    assert!(nav.focus_key(FocusDirection::Right));
    assert_eq!(nav.focus, ThreadViewFocus::MailView);
    assert_eq!(nav.new_expanded_pos, 1);
    assert!(nav.focus_key(FocusDirection::Right));
    assert_eq!(nav.focus, ThreadViewFocus::MailView);
    assert!(nav.focus_key(FocusDirection::Left));
    assert_eq!(nav.focus, ThreadViewFocus::Unfocused);
    assert!(!nav.focus_key(FocusDirection::Left));
    let mut single = nav_of(vec![shape(0, false)], 0);
    assert!(!single.focus_key(FocusDirection::Left));
    assert_eq!(single.focus, ThreadViewFocus::MailView);
}

#[test]
fn toggle_keys_move_the_focus() {
    let mut nav = nav_of(vec![shape(0, false), shape(1, false)], 0);
    nav.toggle_mailview();
    assert_eq!(nav.focus, ThreadViewFocus::Thread);
    nav.toggle_mailview();
    assert_eq!(nav.focus, ThreadViewFocus::Unfocused);
    nav.toggle_threadview();
    assert_eq!(nav.focus, ThreadViewFocus::MailView);
    nav.toggle_threadview();
    assert_eq!(nav.focus, ThreadViewFocus::Unfocused);
    nav.focus = ThreadViewFocus::Thread;
    nav.new_cursor_pos = 1;
    nav.open_entry();
    assert_eq!(nav.focus, ThreadViewFocus::Unfocused);
    assert_eq!(nav.expanded_pos, 1);
}

#[test]
fn collapse_hides_the_subtree_under_the_cursor() {
    let mut nav = nav_of(vec![shape(0, false), shape(1, false), shape(1, false)], 1);
    nav.cursor_pos = 1;
    nav.collapse_subtree();
    assert!(nav.entries[1].hidden);
    assert_eq!(nav.visible_entries, vec![vec![0, 1], vec![2]]);
    assert_eq!(nav.cursor_pos, 1);
    assert_eq!(nav.new_cursor_pos, 1);
}

#[test]
fn page_movements_are_applied_when_drawing() {
    let entries: Vec<EntryShape> = (0..10).map(|_| shape(0, false)).collect();
    let mut nav = nav_of(entries, 2);
    nav.set_movement(PageMovement::PageDown(1));
    nav.apply_movement(10, 3);
    assert_eq!(nav.new_cursor_pos, 5);
    assert_eq!(nav.expanded_pos, 5);
    assert_eq!(nav.movement, None);
    nav.set_movement(PageMovement::End);
    nav.apply_movement(10, 3);
    assert_eq!(nav.new_cursor_pos, 9);
    nav.set_movement(PageMovement::Down(100));
    nav.apply_movement(10, 3);
    assert_eq!(nav.new_cursor_pos, 9);
    nav.set_movement(PageMovement::Home);
    nav.apply_movement(10, 3);
    assert_eq!(nav.new_cursor_pos, 0);
    nav.new_cursor_pos = 7;
    nav.cursor_pos = 0;
    nav.dirty = false;
    assert_eq!(nav.settle_cursor(3), ListPlan { redraw_all: true, top_idx: 6 });
    assert_eq!(nav.cursor_pos, 7);
}

#[test]
fn opening_position_of_a_thread() {
    let metas = vec![
        EntryMeta { msg_hash: 10, timestamp: 100, seen: true },
        EntryMeta { msg_hash: 11, timestamp: 300, seen: false },
        EntryMeta { msg_hash: 12, timestamp: 200, seen: false },
    ];
    assert_eq!(expanded_positions(&metas, None, false, (0, 0)), (1, 2));
    assert_eq!(expanded_positions(&metas, None, true, (0, 0)), (2, 3));
    assert_eq!(expanded_positions(&metas, Some(10), false, (0, 0)), (0, 1));
    assert_eq!(expanded_positions(&metas, Some(99), false, (4, 5)), (4, 5));
    let ties = vec![
        EntryMeta { msg_hash: 1, timestamp: 5, seen: true },
        EntryMeta { msg_hash: 2, timestamp: 5, seen: true },
    ];
    assert_eq!(expanded_positions(&ties, None, true, (0, 0)), (1, 2));
}

#[test]
fn refresh_carries_collapsed_flags() {
    let key = |h: u64, i: usize, heading: &str| EntryKey {
        msg_hash: h,
        index: (i, h, i),
        heading: heading.to_string(),
    };
    let old_keys = vec![key(1, 0, "a"), key(2, 1, "b")];
    let old_entries = vec![shape(0, true), shape(1, false)];
    let new_keys = vec![key(9, 5, "x"), key(1, 6, "y")];
    let mut nav = nav_of(vec![shape(0, false), shape(1, false)], 0);
    nav.carry_hidden(&old_keys, &old_entries, &new_keys);
    assert!(!nav.entries[0].hidden);
    assert!(nav.entries[1].hidden);
    assert!(nav.dirty);
}

#[test]
fn event_routing_between_list_and_mail() {
    assert!(thread_list_first(ThreadViewFocus::Unfocused, 2, false, true));
    assert!(!thread_list_first(ThreadViewFocus::Unfocused, 2, true, true));
    assert!(!thread_list_first(ThreadViewFocus::Unfocused, 1, false, true));
    assert!(!thread_list_first(ThreadViewFocus::Thread, 2, false, true));
    assert!(mail_sees_event(ThreadViewFocus::MailView, 1));
    assert!(!mail_sees_event(ThreadViewFocus::Thread, 1));
    assert!(!mail_sees_event(ThreadViewFocus::Unfocused, 0));
    assert!(mail_swallows_scroll(ThreadViewFocus::MailView, 1, true, true));
    assert!(!mail_swallows_scroll(ThreadViewFocus::MailView, 1, false, true));
    assert!(view_is_dirty(false, ThreadViewFocus::Unfocused, 1, true));
    assert!(!view_is_dirty(false, ThreadViewFocus::Thread, 1, true));
}

#[test]
fn export_reports() {
    assert_eq!(export_report(&vec![]), ExportReport::CouldNotExport);
    assert_eq!(export_report(&vec![true, true]), ExportReport::CouldNotExport);
    assert_eq!(
        export_report(&vec![true, false, false]),
        ExportReport::Partial { counted: 1, total: 3 }
    );
    assert_eq!(export_report(&vec![false, false]), ExportReport::Saved { total: 2 });
}

#[test]
fn envelope_updates_find_their_entry() {
    let hashes = vec![4, 7, 7];
    let seen = vec![false, false, true];
    assert_eq!(envelope_seen_update(&hashes, &seen, 7, true), Some((1, true)));
    assert_eq!(envelope_seen_update(&hashes, &seen, 4, false), Some((0, false)));
    assert_eq!(envelope_seen_update(&hashes, &seen, 9, true), None);
}

/// A thread of a root mail and its reply, opened at the newest (the reply)
/// with the given focus.
fn two_mail_nav(focus: ThreadViewFocus) -> ThreadNav {
    ThreadNav::new(vec![shape(0, false), shape(1, false)], (1, 2), Some(focus), ThreadLayout::Auto, 80)
}

/// A thread of one mail opened with the given focus.
fn single_mail_nav(focus: ThreadViewFocus) -> ThreadNav {
    ThreadNav::new(vec![shape(0, false)], (0, 1), Some(focus), ThreadLayout::Auto, 80)
}

#[test]
fn thread_view_focus_left_at_thread_state_passes_through_to_listing() {
    let mut nav = two_mail_nav(ThreadViewFocus::Thread);
    nav.new_cursor_pos = 0;
    assert!(!nav.focus_key(FocusDirection::Left));
    assert_eq!(nav.focus, ThreadViewFocus::Thread);
    assert_eq!(nav.new_cursor_pos, 0);
}

#[test]
fn thread_view_focus_left_at_none_passes_through_to_listing() {
    let mut nav = two_mail_nav(ThreadViewFocus::Unfocused);
    nav.new_cursor_pos = 0;
    assert!(!nav.focus_key(FocusDirection::Left));
    assert_eq!(nav.focus, ThreadViewFocus::Unfocused);
    assert_eq!(nav.new_cursor_pos, 0);
}

#[test]
fn thread_view_focus_left_at_mailview_single_mail_passes_through() {
    let mut nav = single_mail_nav(ThreadViewFocus::MailView);
    assert!(!nav.focus_key(FocusDirection::Left));
    assert_eq!(nav.focus, ThreadViewFocus::MailView);
}

#[test]
fn thread_view_focus_left_at_mailview_multi_mail_falls_back_to_split() {
    let mut nav = two_mail_nav(ThreadViewFocus::MailView);
    assert!(nav.focus_key(FocusDirection::Left));
    assert_eq!(nav.focus, ThreadViewFocus::Unfocused);
}

#[test]
fn thread_view_focus_right_at_mailview_stays_consumed() {
    let mut nav = two_mail_nav(ThreadViewFocus::MailView);
    assert!(nav.focus_key(FocusDirection::Right));
    assert_eq!(nav.focus, ThreadViewFocus::MailView);
}

#[test]
fn thread_view_focus_right_at_none_opens_cursor_selected_mail() {
    let mut nav = two_mail_nav(ThreadViewFocus::Unfocused);
    assert_eq!(nav.new_cursor_pos, nav.new_expanded_pos);
    nav.scroll_up();
    assert_eq!(nav.new_cursor_pos, 0);
    assert!(nav.focus_key(FocusDirection::Right));
    assert_eq!(nav.focus, ThreadViewFocus::MailView);
    assert_eq!(nav.new_expanded_pos, 0);
    assert_eq!(nav.expanded_pos, 0);
}

#[test]
fn thread_view_focus_right_at_thread_opens_cursor_selected_mail() {
    let mut nav = two_mail_nav(ThreadViewFocus::Thread);
    nav.scroll_up();
    assert_eq!(nav.new_cursor_pos, 0);
    assert!(nav.focus_key(FocusDirection::Right));
    assert_eq!(nav.focus, ThreadViewFocus::Unfocused);
    assert_eq!(nav.new_expanded_pos, 0);
    assert_eq!(nav.expanded_pos, 0);
}

#[test]
fn thread_view_single_mail_starts_focused_on_mail_view() {
    let nav = single_mail_nav(ThreadViewFocus::Unfocused);
    assert_eq!(nav.focus, ThreadViewFocus::MailView);
}

/// The order key reverses the thread and opens it again at the message
/// it showed: the open entry still holds that message.
#[test]
fn thread_view_reverse_keeps_expanded_anchor() {
    let root = EntryMeta { msg_hash: 11, timestamp: 1_767_225_600, seen: true };
    let reply = EntryMeta { msg_hash: 22, timestamp: 1_767_225_660, seen: true };
    // Opened without a message asked for: the newest, the reply, opens.
    let forward = vec![root, reply];
    let (expanded, _) = expanded_positions(&forward, None, false, (0, 1));
    assert_eq!(expanded, 1);
    let expanded_hash = forward[expanded].msg_hash;
    // Reversed, the entries come in the other order and the view reopens
    // at the message it showed.
    let reversed = vec![reply, root];
    let (new_expanded, next) = expanded_positions(&reversed, Some(expanded_hash), false, (expanded, expanded + 1));
    assert_eq!(
        reversed[new_expanded].msg_hash, expanded_hash,
        "reverse must keep the expanded mail anchored"
    );
    assert_eq!((new_expanded, next), (0, 1));
}

// ---------------------------------------------------------------------
// Key routing in the thread view. The open mail is a component outside
// the library: its answer to a key (consumed or not) and whether its
// body has loaded are written as inputs of each case.
// ---------------------------------------------------------------------

/// The thread-view table with the given scroll keys.
fn thread_table(scroll_down: Key, scroll_up: Key, collapse: Key) -> Vec<(String, Key)> {
    vec![
        ("scroll_up".to_string(), scroll_up),
        ("scroll_down".to_string(), scroll_down),
        ("prev_page".to_string(), Key::PageUp),
        ("next_page".to_string(), Key::PageDown),
        ("collapse_subtree".to_string(), collapse),
        ("focus_left".to_string(), Key::Left),
        ("focus_right".to_string(), Key::Right),
    ]
}

/// What the open mail does with a key.
struct MailAnswer {
    consumes: bool,
    has_active_modal: bool,
    is_loaded: bool,
}

/// One key press through the thread view: the focus chain and the routing
/// of [`ThreadNav::route_key`], the mail's answer, the swallowing of
/// declined scroll keys, then the thread list's own arms.
fn press(nav: &mut ThreadNav, table: &Vec<(String, Key)>, key: &Key, mail: &MailAnswer) -> bool {
    press_with(nav, table, &vec![], key, mail)
}

/// [`press`] with a general table too (its page keys).
fn press_with(
    nav: &mut ThreadNav,
    table: &Vec<(String, Key)>,
    general: &Vec<(String, Key)>,
    key: &Key,
    mail: &MailAnswer,
) -> bool {
    let direction = if table_binds(table, "focus_left", key) {
        Some(FocusDirection::Left)
    } else if table_binds(table, "focus_right", key) {
        Some(FocusDirection::Right)
    } else {
        None
    };
    let tv_input = is_thread_view_input(table, general, &None, key);
    let rest = |nav: &mut ThreadNav| -> bool {
        if table_binds(table, "scroll_down", key) {
            nav.scroll_down();
            true
        } else if table_binds(table, "scroll_up", key) {
            nav.scroll_up();
            true
        } else if table_binds(table, "prev_page", key) {
            nav.set_movement(PageMovement::PageUp(1));
            true
        } else if table_binds(table, "next_page", key) {
            nav.set_movement(PageMovement::PageDown(1));
            true
        } else if table_binds(general, "home_page", key) {
            nav.set_movement(PageMovement::Home);
            true
        } else if table_binds(general, "end_page", key) {
            nav.set_movement(PageMovement::End);
            true
        } else if table_binds(table, "collapse_subtree", key) {
            nav.collapse_subtree();
            true
        } else {
            false
        }
    };
    match nav.route_key(direction, mail.has_active_modal, tv_input) {
        KeyRoute::Consumed => true,
        KeyRoute::ThreadList | KeyRoute::Rest => rest(nav),
        KeyRoute::Mail => {
            if mail.consumes {
                return true;
            }
            let scroll = table_binds(table, "scroll_up", key) || table_binds(table, "scroll_down", key);
            if mail_swallows_scroll(nav.focus, nav.entries.len(), mail.is_loaded, scroll) {
                return true;
            }
            rest(nav)
        }
    }
}

fn two_mail_view(focus: ThreadViewFocus) -> ThreadNav {
    let mut n = ThreadNav::new(vec![shape(0, false), shape(1, false)], (1, 2), Some(focus), ThreadLayout::Auto, 80);
    n.focus = focus;
    n
}

const LOADED_MAIL_DECLINES: MailAnswer = MailAnswer { consumes: false, has_active_modal: false, is_loaded: true };

#[test]
fn thread_view_input_down_at_focus_none_moves_thread_cursor() {
    let table = thread_table(Key::Down, Key::Up, Key::Char('h'));
    let mut view = two_mail_view(ThreadViewFocus::Unfocused);
    view.new_cursor_pos = 0;
    // The loaded mail would swallow Down through its headers walk.
    let mail = MailAnswer { consumes: true, has_active_modal: false, is_loaded: true };
    let consumed = press(&mut view, &table, &Key::Down, &mail);
    assert!(consumed, "Down must be consumed");
    assert_eq!(view.new_cursor_pos, 1, "thread list cursor must advance at focus None");
}

#[test]
fn thread_view_input_up_at_focus_none_moves_thread_cursor() {
    let table = thread_table(Key::Down, Key::Up, Key::Char('h'));
    let mut view = two_mail_view(ThreadViewFocus::Unfocused);
    view.new_cursor_pos = 1;
    let mail = MailAnswer { consumes: true, has_active_modal: false, is_loaded: true };
    let consumed = press(&mut view, &table, &Key::Up, &mail);
    assert!(consumed, "Up must be consumed");
    assert_eq!(view.new_cursor_pos, 0, "thread list cursor must move up at focus None");
}

#[test]
fn thread_view_input_yields_to_active_modal() {
    let table = thread_table(Key::Char('j'), Key::Up, Key::Char('h'));
    let mut view = two_mail_view(ThreadViewFocus::Unfocused);
    view.new_cursor_pos = 0;
    // The open dialog takes 'j'.
    let mail = MailAnswer { consumes: true, has_active_modal: true, is_loaded: true };
    let consumed = press(&mut view, &table, &Key::Char('j'), &mail);
    assert!(consumed, "the modal must consume 'j'");
    assert_eq!(
        view.new_cursor_pos, 0,
        "'j' must reach the modal, not the thread list, while a modal is open"
    );
}

#[test]
fn thread_view_input_down_at_focus_mailview_keeps_status_quo() {
    let table = thread_table(Key::Down, Key::Up, Key::Char('h'));
    let mut view = two_mail_view(ThreadViewFocus::MailView);
    view.new_cursor_pos = 0;
    let mail = MailAnswer { consumes: true, has_active_modal: false, is_loaded: true };
    let consumed = press(&mut view, &table, &Key::Down, &mail);
    assert!(consumed, "the embedded mail view consumes Down (headers-walk)");
    assert_eq!(view.new_cursor_pos, 0, "thread cursor must not move at focus MailView");
}

#[test]
fn thread_view_input_down_at_mailview_body_end_stops_no_mail_switch() {
    let table = thread_table(Key::Down, Key::Up, Key::Char('h'));
    let mut view = two_mail_view(ThreadViewFocus::MailView);
    view.new_cursor_pos = 0;
    // Five headers-walk steps, then the body bottom declines the key.
    for step in 0..6 {
        let mail = if step < 5 {
            MailAnswer { consumes: true, has_active_modal: false, is_loaded: true }
        } else {
            LOADED_MAIL_DECLINES
        };
        assert!(press(&mut view, &table, &Key::Down, &mail), "Down must stay consumed at every step");
    }
    assert_eq!(view.new_cursor_pos, 0, "Down at the body bottom must not switch to the next message");
}

#[test]
fn thread_view_input_up_at_mailview_body_top_stops_no_mail_switch() {
    let table = thread_table(Key::Down, Key::Up, Key::Char('h'));
    let mut view = two_mail_view(ThreadViewFocus::MailView);
    view.new_cursor_pos = 1;
    view.cursor_pos = 1;
    let consumed = press(&mut view, &table, &Key::Up, &LOADED_MAIL_DECLINES);
    assert!(consumed, "Up must be consumed");
    assert_eq!(view.new_cursor_pos, 1, "Up at the body top must not switch to the previous message");
}

#[test]
fn thread_view_input_down_while_body_loading_moves_thread_cursor() {
    let table = thread_table(Key::Down, Key::Up, Key::Char('h'));
    let mut view = two_mail_view(ThreadViewFocus::MailView);
    view.new_cursor_pos = 0;
    let mail = MailAnswer { consumes: false, has_active_modal: false, is_loaded: false };
    let consumed = press(&mut view, &table, &Key::Down, &mail);
    assert!(consumed, "Down must be consumed by the thread list");
    assert_eq!(view.new_cursor_pos, 1, "Down must keep moving the thread cursor while the body is loading");
}

#[test]
fn thread_view_input_down_at_thread_focus_moves_cursor() {
    let table = thread_table(Key::Down, Key::Up, Key::Char('h'));
    let mut view = two_mail_view(ThreadViewFocus::Thread);
    view.new_cursor_pos = 0;
    let consumed = press(&mut view, &table, &Key::Down, &LOADED_MAIL_DECLINES);
    assert!(consumed, "Down must be consumed");
    assert_eq!(view.new_cursor_pos, 1, "thread list cursor must advance at focus Thread");
}

#[test]
fn thread_view_input_up_at_thread_focus_moves_cursor() {
    let table = thread_table(Key::Down, Key::Up, Key::Char('h'));
    let mut view = two_mail_view(ThreadViewFocus::Thread);
    view.cursor_pos = 1;
    view.new_cursor_pos = 1;
    let consumed = press(&mut view, &table, &Key::Up, &LOADED_MAIL_DECLINES);
    assert!(consumed, "Up must be consumed");
    assert_eq!(view.new_cursor_pos, 0, "thread list cursor must move up at focus Thread");
}

#[test]
fn thread_view_non_vertical_key_collapse_subtree_not_intercepted_at_mailview() {
    let table = thread_table(Key::Down, Key::Up, Key::Char('x'));
    let mut view = two_mail_view(ThreadViewFocus::MailView);
    let consumed = press(&mut view, &table, &Key::Char('x'), &LOADED_MAIL_DECLINES);
    assert!(consumed, "'x' must be consumed");
    assert!(
        view.entries[view.new_expanded_pos].hidden,
        "collapse_subtree must still toggle the entry at focus MailView"
    );
}

#[test]
fn thread_view_single_mail_input_no_mail_switch() {
    let table = thread_table(Key::Down, Key::Up, Key::Char('h'));
    let mut view = ThreadNav::new(vec![shape(0, false)], (0, 1), Some(ThreadViewFocus::MailView), ThreadLayout::Auto, 80);
    view.new_cursor_pos = 0;
    for step in 0..6 {
        let mail = if step < 5 {
            MailAnswer { consumes: true, has_active_modal: false, is_loaded: true }
        } else {
            LOADED_MAIL_DECLINES
        };
        assert!(press(&mut view, &table, &Key::Down, &mail), "Down must stay consumed in a single-mail thread");
    }
    let mail = MailAnswer { consumes: true, has_active_modal: false, is_loaded: true };
    assert!(press(&mut view, &table, &Key::Up, &mail), "Up must be consumed in a single-mail thread");
    assert_eq!(view.new_cursor_pos, 0, "single-mail thread cursor must never move");
}

#[test]
fn thread_view_unbound_key_still_reaches_expanded_mailview() {
    let table = thread_table(Key::Down, Key::Up, Key::Char('h'));
    let mut view = two_mail_view(ThreadViewFocus::Unfocused);
    view.new_cursor_pos = 0;
    assert_eq!(view.route_key(None, false, false), KeyRoute::Mail, "'c' must be offered to the expanded mail view");
    // The mail opens its contact selector on 'c'.
    let mail = MailAnswer { consumes: true, has_active_modal: false, is_loaded: true };
    let consumed = press(&mut view, &table, &Key::Char('c'), &mail);
    assert!(consumed, "'c' must be consumed by the expanded mail view");
    assert_eq!(view.new_cursor_pos, 0, "thread cursor must not move for 'c'");
}

#[test]
fn focus_keys_route_through_the_chain() {
    let table = thread_table(Key::Down, Key::Up, Key::Char('h'));
    let mut view = two_mail_view(ThreadViewFocus::Unfocused);
    view.new_cursor_pos = 0;
    // Right at the split opens the mail under the cursor and focuses it.
    assert!(press(&mut view, &table, &Key::Right, &LOADED_MAIL_DECLINES));
    assert_eq!(view.focus, ThreadViewFocus::MailView);
    assert_eq!(view.new_expanded_pos, 0);
    // Left at the mail falls back to the split.
    assert!(press(&mut view, &table, &Key::Left, &LOADED_MAIL_DECLINES));
    assert_eq!(view.focus, ThreadViewFocus::Unfocused);
    // A key with no route in the list and a mail that declines is not consumed.
    assert!(!press(&mut view, &table, &Key::Char('q'), &LOADED_MAIL_DECLINES));
}

fn general_pages() -> Vec<(String, Key)> {
    vec![
        ("home_page".to_string(), Key::Home),
        ("end_page".to_string(), Key::End),
    ]
}

fn single_mail_view(focus: ThreadViewFocus) -> ThreadNav {
    ThreadNav::new(vec![shape(0, false)], (0, 1), Some(focus), ThreadLayout::Auto, 80)
}

#[test]
fn thread_view_single_mail_pages_mail_without_extra_focus_step() {
    let table = thread_table(Key::Down, Key::Up, Key::Char('h'));
    let mut view = single_mail_view(ThreadViewFocus::Unfocused);
    // The mail pages on PageDown.
    let mail = MailAnswer { consumes: true, has_active_modal: false, is_loaded: true };
    let consumed = press_with(&mut view, &table, &general_pages(), &Key::PageDown, &mail);
    assert!(consumed, "PageDown must be consumed");
    assert!(view.movement.is_none(), "PageDown must page the mail content, not the invisible thread list");
}

#[test]
fn thread_view_single_mail_at_none_routes_paging_to_mail() {
    let table = thread_table(Key::Down, Key::Up, Key::Char('h'));
    let mut view = single_mail_view(ThreadViewFocus::Unfocused);
    view.focus = ThreadViewFocus::Unfocused;
    let mail = MailAnswer { consumes: true, has_active_modal: false, is_loaded: true };
    let consumed = press_with(&mut view, &table, &general_pages(), &Key::PageDown, &mail);
    assert!(consumed, "PageDown must be consumed");
    assert!(
        view.movement.is_none(),
        "PageDown must reach the mail view even at focus None over a single mail"
    );
}

#[test]
fn thread_view_scroll_switches_mail_content_live() {
    let table = thread_table(Key::Down, Key::Up, Key::Char('h'));
    let mut view = two_mail_view(ThreadViewFocus::Unfocused);
    assert_eq!(view.new_cursor_pos, 1, "sanity: cursor starts on the reply");
    assert!(press(&mut view, &table, &Key::Up, &LOADED_MAIL_DECLINES));
    assert_eq!(view.new_cursor_pos, 0, "cursor moved to the root");
    assert_eq!(view.new_expanded_pos, 0, "the mail pane must follow the selection immediately (no Enter)");
    assert_eq!(view.expanded_pos, 0);
}

#[test]
fn thread_view_page_movement_switches_mail_content_live() {
    let table = thread_table(Key::Down, Key::Up, Key::Char('h'));
    let mut view = two_mail_view(ThreadViewFocus::Unfocused);
    assert_eq!(view.new_cursor_pos, 1, "sanity: cursor starts on the reply");
    assert!(press_with(&mut view, &table, &general_pages(), &Key::Home, &LOADED_MAIL_DECLINES));
    // Drawing the list of two rows in a 24-row pane applies the movement.
    view.apply_movement(2, 24);
    assert_eq!(view.new_cursor_pos, 0, "Home moved the cursor");
    assert_eq!(view.new_expanded_pos, 0, "the mail pane must follow the page-moved selection");
}
