use pyonji::geometry::{PaneGeometry, SplitDirection};
use pyonji::keys::KeyCode;
use pyonji::workspace::{detached_key, DetachedAction, Workspace, TAB_COUNT};
use pyonji::SessionId;

fn s(n: u64) -> SessionId {
    SessionId(n)
}

fn names() -> Vec<String> {
    (0..TAB_COUNT).map(|i| format!("prog{}", i)).collect()
}

/// A window of 24 rows by 80 columns with session 1 in the first tab.
fn started() -> Workspace {
    let mut w = Workspace::new(24, 80);
    assert_eq!(w.new_tab_size(0), Some((23, 80)));
    assert!(w.switch_tab(0, Some(s(1))));
    w
}

#[test]
fn new_workspace_has_nine_empty_slots() {
    let w = Workspace::new(24, 80);
    assert_eq!(w.current_tab(), 0);
    assert_eq!(w.tab_count(), 0);
    for i in 0..TAB_COUNT {
        assert!(!w.has_tab(i));
    }
    assert_eq!(w.active_session(), None);
    assert!(w.tab_layouts().is_empty());
}

#[test]
fn terminal_rows_leave_room_for_the_status_bar() {
    let mut w = Workspace::new(24, 80);
    assert_eq!(w.terminal_rows(), 23);
    w.toggle_status_bar();
    assert!(w.status_bar_hidden());
    assert_eq!(w.terminal_rows(), 24);
    w.show_status_bar();
    assert_eq!(w.terminal_rows(), 23);
    w.set_size(1, 80);
    assert_eq!(w.terminal_rows(), 1);
    assert_eq!(w.area(), PaneGeometry { x: 0, y: 0, cols: 80, rows: 1 });
}

#[test]
fn next_and_previous_tab_wrap_around() {
    let mut w = started();
    assert_eq!(w.next_tab_index(), 1);
    assert_eq!(w.previous_tab_index(), 8);
    assert!(w.switch_tab(8, Some(s(2))));
    assert_eq!(w.next_tab_index(), 0);
    assert_eq!(w.previous_tab_index(), 7);
}

#[test]
fn switching_to_an_empty_slot_needs_a_session() {
    let mut w = started();
    assert!(!w.switch_tab(3, None));
    assert_eq!(w.current_tab(), 0);
    assert!(!w.has_tab(3));
    assert_eq!(w.new_tab_size(0), None);
    assert!(w.switch_tab(0, None));
}

#[test]
fn split_plan_halves_the_focused_pane() {
    let mut w = started();
    assert_eq!(w.split_plan(SplitDirection::Vertical), Some((23, 40)));
    assert_eq!(w.split_plan(SplitDirection::Horizontal), Some((11, 80)));
    assert!(w.split_current_tab(SplitDirection::Vertical, s(2)));
    assert_eq!(w.active_session(), Some(s(2)));
    assert_eq!(
        w.tab_layouts(),
        vec![
            (s(1), PaneGeometry { x: 0, y: 0, cols: 40, rows: 23 }),
            (s(2), PaneGeometry { x: 40, y: 0, cols: 40, rows: 23 }),
        ]
    );
    w.set_size(2, 1);
    assert_eq!(w.split_plan(SplitDirection::Vertical), None);
}

#[test]
fn pane_hit_test_finds_the_pane_under_a_cell() {
    let mut w = started();
    w.split_current_tab(SplitDirection::Vertical, s(2));
    assert_eq!(w.pane_hit_test(1, 1), Some((s(1), 1, 1)));
    assert_eq!(w.pane_hit_test(41, 3), Some((s(2), 1, 3)));
    assert_eq!(w.pane_hit_test(81, 3), None);
    assert_eq!(w.pane_hit_test(10, 24), None);
}

#[test]
fn focus_and_resize_the_current_tab() {
    let mut w = started();
    w.split_current_tab(SplitDirection::Vertical, s(2));
    assert_eq!(w.focus_next_pane(), Some(s(1)));
    assert!(w.set_active_session(s(2)));
    assert!(!w.set_active_session(s(5)));
    assert!(w.resize_active_pane(SplitDirection::Vertical, -10));
    assert_eq!(w.tab_layouts()[0].1.cols, 30);
    assert!(!w.resize_active_pane(SplitDirection::Horizontal, 1));
    assert!(w.resize_dragged_divider(&[], SplitDirection::Vertical, 60));
    assert_eq!(w.tab_layouts()[0].1.cols, 60);
    let d = w.tab_dividers();
    assert_eq!(d.len(), 1);
    assert_eq!(d[0].x, 60);
}

#[test]
fn detach_then_reattach() {
    let mut w = started();
    w.split_current_tab(SplitDirection::Vertical, s(2));
    assert!(w.detach_active_session());
    assert_eq!(w.detached_sessions().clone(), vec![s(2)]);
    assert_eq!(w.tab_sessions(0), vec![s(1)]);
    assert_eq!(w.active_session(), Some(s(1)));
    assert!(w.reattach_session(s(2), 4));
    assert_eq!(w.current_tab(), 4);
    assert_eq!(w.active_session(), Some(s(2)));
    assert!(w.detached_sessions().is_empty());
    assert!(!w.reattach_session(s(2), 4));
    assert!(!w.reattach_session(s(2), 12));
}

#[test]
fn detaching_the_last_pane_closes_the_tab() {
    let mut w = started();
    assert!(w.switch_tab(3, Some(s(2))));
    assert!(w.detach_active_session());
    assert!(!w.has_tab(3));
    assert_eq!(w.current_tab(), 0);
    assert_eq!(w.detached_sessions().clone(), vec![s(2)]);
}

#[test]
fn move_session_to_another_tab() {
    let mut w = started();
    w.split_current_tab(SplitDirection::Vertical, s(2));
    assert!(!w.move_session_to_tab(s(2), 0));
    assert!(w.move_session_to_tab(s(2), 5));
    assert_eq!(w.current_tab(), 5);
    assert_eq!(w.tab_sessions(5), vec![s(2)]);
    assert_eq!(w.tab_sessions(0), vec![s(1)]);
    assert!(!w.move_session_to_tab(s(9), 0));
    assert!(!w.move_session_to_tab(s(1), 5));
    assert!(w.switch_tab(0, None));
    assert!(w.move_session_to_tab(s(1), 5));
    assert_eq!(w.tab_sessions(5), vec![s(2), s(1)]);
    assert!(w.has_tab(0));
    assert!(w.tab_sessions(0).is_empty());
}

#[test]
fn closing_sessions_closes_their_tabs() {
    let mut w = started();
    assert!(w.switch_tab(2, Some(s(2))));
    assert!(w.switch_tab(5, Some(s(3))));
    assert!(w.close_session(s(3)));
    assert!(!w.has_tab(5));
    assert_eq!(w.current_tab(), 2);
    assert!(!w.close_session(s(1)));
    assert!(!w.has_tab(0));
    assert_eq!(w.current_tab(), 2);
    assert!(w.close_session(s(2)));
    assert_eq!(w.tab_count(), 0);
    assert_eq!(w.current_tab(), 2);
}

#[test]
fn closed_session_leaves_the_detached_list() {
    let mut w = started();
    w.split_current_tab(SplitDirection::Vertical, s(2));
    w.detach_active_session();
    assert!(!w.close_session(s(2)));
    assert!(w.detached_sessions().is_empty());
    assert_eq!(w.live_detached_sessions(&vec![s(2)]), Vec::<SessionId>::new());
}

#[test]
fn live_detached_sessions_keep_their_order() {
    let mut w = started();
    w.split_current_tab(SplitDirection::Vertical, s(2));
    w.split_current_tab(SplitDirection::Vertical, s(3));
    w.detach_active_session();
    w.set_active_session(s(2));
    w.detach_active_session();
    assert_eq!(w.detached_sessions().clone(), vec![s(3), s(2)]);
    assert_eq!(w.live_detached_sessions(&vec![s(2), s(3)]), vec![s(3), s(2)]);
    assert_eq!(w.live_detached_sessions(&vec![s(2)]), vec![s(2)]);
}

#[test]
fn all_sessions_and_focus_session() {
    let mut w = started();
    w.split_current_tab(SplitDirection::Vertical, s(2));
    assert!(w.switch_tab(4, Some(s(3))));
    assert_eq!(w.all_sessions(), vec![s(1), s(2), s(3)]);
    assert!(w.focus_session(s(1)));
    assert_eq!(w.current_tab(), 0);
    assert_eq!(w.active_session(), Some(s(1)));
    assert!(!w.focus_session(s(8)));
}

#[test]
fn status_tabs_number_the_slots() {
    let mut w = started();
    assert!(w.switch_tab(2, Some(s(2))));
    let tabs = w.status_tabs(&names()).unwrap();
    assert_eq!(tabs.len(), 2);
    assert_eq!(tabs[0].label, "1 prog0");
    assert!(!tabs[0].is_active);
    assert_eq!(tabs[1].label, "3 prog2");
    assert!(tabs[1].is_active);
    w.toggle_status_bar();
    assert!(w.status_tabs(&names()).is_none());
}

#[test]
fn new_sessions_go_to_a_free_slot_or_split() {
    let mut w = started();
    assert_eq!(w.new_session_size(), Some((23, 80)));
    w.place_new_session(s(2));
    assert_eq!(w.current_tab(), 1);
    for i in 2..TAB_COUNT {
        assert!(w.switch_tab(i, Some(s(10 + i as u64))));
    }
    assert!(w.switch_tab(0, None));
    w.place_new_session(s(50));
    assert_eq!(w.current_tab(), 0);
    assert_eq!(w.tab_sessions(0), vec![s(1), s(50)]);
}

#[test]
fn detached_list_keys() {
    let live = vec![s(4), s(6)];
    assert_eq!(detached_key(KeyCode::ArrowDown, None, &live, 0), DetachedAction::SelectNext);
    assert_eq!(detached_key(KeyCode::ArrowUp, None, &live, 0), DetachedAction::SelectPrevious);
    assert_eq!(detached_key(KeyCode::KeyR, Some(1), &live, 0), DetachedAction::SetRenameTarget(Some(s(6))));
    assert_eq!(detached_key(KeyCode::KeyR, Some(5), &live, 0), DetachedAction::SetRenameTarget(None));
    assert_eq!(detached_key(KeyCode::Enter, Some(0), &live, 3), DetachedAction::Reattach(s(4), 3));
    assert_eq!(detached_key(KeyCode::Digit9, Some(1), &live, 3), DetachedAction::Reattach(s(6), 8));
    assert_eq!(detached_key(KeyCode::Enter, None, &live, 3), DetachedAction::Nothing);
    assert_eq!(detached_key(KeyCode::KeyX, Some(0), &live, 3), DetachedAction::Nothing);
}

#[test]
fn session_sizes_follow_the_layout() {
    let mut w = started();
    w.split_current_tab(SplitDirection::Horizontal, s(2));
    assert_eq!(w.session_sizes(0), vec![(s(1), 12, 80), (s(2), 11, 80)]);
    assert!(w.session_sizes(3).is_empty());
    w.set_size(2, 0);
    assert_eq!(w.session_sizes(0), vec![(s(1), 1, 1), (s(2), 1, 1)]);
}
