use thrum::app::{App, KillState, SelectionState};
use thrum::input::{MouseButton, MouseEventKind};
use thrum::tab::{Tab, TabOrientation};

fn left_click(app: &mut App, col: u16, row: u16) {
    app.handle_mouse(col, row, MouseEventKind::Down(MouseButton::Left));
}

#[test]
fn mouse_click_sidebar_switches_tab() {
    let mut app = App::new();
    assert_eq!(app.active_tab, Tab::Dash);
    left_click(&mut app, 5, 2);
    assert_eq!(app.active_tab, Tab::Proc);
    left_click(&mut app, 5, 9);
    assert_eq!(app.active_tab, Tab::Mem);
    left_click(&mut app, 5, 1);
    assert_eq!(app.active_tab, Tab::Dash);
}

#[test]
fn mouse_click_outside_sidebar_ignored() {
    let mut app = App::new();
    left_click(&mut app, 10, 2);
    assert_eq!(app.active_tab, Tab::Dash);
    left_click(&mut app, 5, 0);
    assert_eq!(app.active_tab, Tab::Dash);
    left_click(&mut app, 5, 10);
    assert_eq!(app.active_tab, Tab::Dash);
}

#[test]
fn mouse_click_sidebar_hidden_ignored() {
    let mut app = App::new();
    app.sidebar_visible = false;
    left_click(&mut app, 5, 2);
    assert_eq!(app.active_tab, Tab::Dash);
}

#[test]
fn kill_state_dismissed_on_proc_click() {
    let mut app = App::new();
    app.active_tab = Tab::Proc;
    app.kill_state = Some(KillState::Confirm);
    left_click(&mut app, 20, 5);
    assert!(app.kill_state.is_none(), "Proc click clears kill_state");
}

#[test]
fn kill_state_dismissed_on_tab_switch_click() {
    let mut app = App::new();
    app.kill_state = Some(KillState::Confirm);
    left_click(&mut app, 1, 3);
    assert_eq!(app.active_tab, Tab::Net, "click switches to Net tab");
    assert!(app.kill_state.is_none(), "tab switch click clears kill_state");
}

#[test]
fn selected_pid_cleared_on_scroll() {
    let mut app = App::new();
    app.active_tab = Tab::Proc;
    app.selected = Some(SelectionState {
        pid: 42,
        name: "bash".to_owned(),
    });
    app.kill_state = Some(KillState::Confirm);
    app.handle_mouse(0, 0, MouseEventKind::ScrollDown);
    assert!(app.selected.is_none(), "scroll clears selected");
    assert!(app.selected.is_none(), "scroll clears selected");
    assert!(app.kill_state.is_none(), "scroll clears kill_state");
}

#[test]
fn mouse_scroll_up_on_proc_moves_selection_up() {
    let mut app = App::new();
    app.active_tab = Tab::Proc;
    app.proc_state.selection = 5;
    app.handle_mouse(0, 0, MouseEventKind::ScrollUp);
    assert_eq!(app.proc_state.selection, 2);
}

#[test]
fn mouse_scroll_down_on_proc_moves_selection_down() {
    let mut app = App::new();
    app.active_tab = Tab::Proc;
    app.proc_state.selection = 5;
    app.handle_mouse(0, 0, MouseEventKind::ScrollDown);
    assert_eq!(app.proc_state.selection, 8);
}

#[test]
fn mouse_scroll_wraps_at_zero() {
    let mut app = App::new();
    app.active_tab = Tab::Proc;
    app.proc_state.selection = 1;
    app.handle_mouse(0, 0, MouseEventKind::ScrollUp);
    assert_eq!(app.proc_state.selection, 0);
    app.handle_mouse(0, 0, MouseEventKind::ScrollUp);
    assert_eq!(app.proc_state.selection, 0);
}

#[test]
fn mouse_scroll_noop_on_non_proc() {
    let mut app = App::new();
    app.active_tab = Tab::Dash;
    app.proc_state.selection = 5;
    app.handle_mouse(0, 0, MouseEventKind::ScrollDown);
    assert_eq!(app.proc_state.selection, 5);
    app.handle_mouse(0, 0, MouseEventKind::ScrollUp);
    assert_eq!(app.proc_state.selection, 5);
}

#[test]
fn kill_state_dismissed_on_scroll_up() {
    let mut app = App::new();
    app.active_tab = Tab::Proc;
    app.kill_state = Some(KillState::Confirm);
    app.handle_mouse(0, 0, MouseEventKind::ScrollUp);
    assert!(app.kill_state.is_none(), "ScrollUp clears kill_state");
}

#[test]
fn kill_state_dismissed_on_scroll_down() {
    let mut app = App::new();
    app.active_tab = Tab::Proc;
    app.kill_state = Some(KillState::Confirm);
    app.handle_mouse(0, 0, MouseEventKind::ScrollDown);
    assert!(app.kill_state.is_none(), "ScrollDown clears kill_state");
}

#[test]
fn net_files_mouse_scroll() {
    let mut app = App::new();

    app.active_tab = Tab::Net;
    app.net_state.selection = 5;
    app.handle_mouse(0, 0, MouseEventKind::ScrollUp);
    assert_eq!(app.net_state.selection, 2, "Net scroll up by default step 3");
    app.handle_mouse(0, 0, MouseEventKind::ScrollDown);
    assert_eq!(app.net_state.selection, 5, "Net scroll down by default step 3");

    app.active_tab = Tab::Files;
    app.files_state.selection = 5;
    app.handle_mouse(0, 0, MouseEventKind::ScrollUp);
    assert_eq!(app.files_state.selection, 2, "Files scroll up by default step 3");
    app.handle_mouse(0, 0, MouseEventKind::ScrollDown);
    assert_eq!(app.files_state.selection, 5, "Files scroll down by default step 3");
}

#[test]
fn net_files_mouse_scroll_wraps_at_zero() {
    let mut app = App::new();

    app.active_tab = Tab::Net;
    app.net_state.selection = 1;
    app.handle_mouse(0, 0, MouseEventKind::ScrollUp);
    assert_eq!(app.net_state.selection, 0);
    app.handle_mouse(0, 0, MouseEventKind::ScrollUp);
    assert_eq!(app.net_state.selection, 0);

    app.active_tab = Tab::Files;
    app.files_state.selection = 1;
    app.handle_mouse(0, 0, MouseEventKind::ScrollUp);
    assert_eq!(app.files_state.selection, 0);
    app.handle_mouse(0, 0, MouseEventKind::ScrollUp);
    assert_eq!(app.files_state.selection, 0);
}

#[test]
fn net_files_mouse_scroll_noop_on_non_scrollable_tabs() {
    let mut app = App::new();
    app.net_state.selection = 3;
    app.files_state.selection = 7;
    app.active_tab = Tab::Dash;
    app.handle_mouse(0, 0, MouseEventKind::ScrollDown);
    assert_eq!(app.net_state.selection, 3, "Net unchanged on Dash");
    assert_eq!(app.files_state.selection, 7, "Files unchanged on Dash");
    app.handle_mouse(0, 0, MouseEventKind::ScrollUp);
    assert_eq!(app.net_state.selection, 3, "Net unchanged on Dash");
    assert_eq!(app.files_state.selection, 7, "Files unchanged on Dash");
}

#[test]
fn mouse_click_horizontal_switches_tab() {
    let mut app = App::new();
    app.tab_orientation = TabOrientation::Horizontal;
    app.tab_bar_visible = true;
    app.term_width = 80;
    left_click(&mut app, 10, 1);
    assert_eq!(app.active_tab, Tab::Proc);
    left_click(&mut app, 5, 1);
    assert_eq!(app.active_tab, Tab::Dash);
}

#[test]
fn mouse_click_horizontal_tab_bar_hidden_ignored() {
    let mut app = App::new();
    app.tab_orientation = TabOrientation::Horizontal;
    app.tab_bar_visible = false;
    app.term_width = 80;
    left_click(&mut app, 10, 1);
    assert_eq!(app.active_tab, Tab::Dash);
}

#[test]
fn mouse_click_horizontal_wrong_row_ignored() {
    let mut app = App::new();
    app.tab_orientation = TabOrientation::Horizontal;
    app.tab_bar_visible = true;
    app.term_width = 80;
    left_click(&mut app, 10, 2);
    assert_eq!(app.active_tab, Tab::Dash);
}

#[test]
fn mouse_click_footer_switches_tab() {
    let mut app = App::new();
    app.tab_orientation = TabOrientation::HorizontalFooter;
    app.tab_bar_visible = true;
    app.term_width = 80;
    app.term_height = 24;
    left_click(&mut app, 70, 21);
    assert_eq!(app.active_tab, Tab::Mem);
}

#[test]
fn tab_bar_mouse_wheel_switches_tabs() {
    let mut app = App::new();
    assert_eq!(app.active_tab, Tab::Dash);
    app.handle_mouse(5, 1, MouseEventKind::ScrollUp);
    assert_eq!(app.active_tab, Tab::Mem, "sidebar scroll up wraps to last");
    app.handle_mouse(5, 1, MouseEventKind::ScrollDown);
    assert_eq!(app.active_tab, Tab::Dash, "sidebar scroll down to first");

    app.tab_orientation = TabOrientation::Horizontal;
    app.tab_bar_visible = true;
    app.term_width = 80;
    app.active_tab = Tab::Dash;
    app.handle_mouse(10, 1, MouseEventKind::ScrollDown);
    assert_eq!(app.active_tab, Tab::Proc, "horizontal scroll down");
    app.handle_mouse(10, 1, MouseEventKind::ScrollUp);
    assert_eq!(app.active_tab, Tab::Dash, "horizontal scroll up");

    app.tab_orientation = TabOrientation::HorizontalFooter;
    app.term_height = 24;
    app.active_tab = Tab::Dash;
    app.handle_mouse(10, 21, MouseEventKind::ScrollDown);
    assert_eq!(app.active_tab, Tab::Proc, "footer scroll down");
    app.handle_mouse(10, 21, MouseEventKind::ScrollUp);
    assert_eq!(app.active_tab, Tab::Dash, "footer scroll up");
}

#[test]
fn tab_bar_mouse_wheel_outside_tab_bar_ignored() {
    let mut app = App::new();
    app.active_tab = Tab::Dash;
    app.handle_mouse(0, 2, MouseEventKind::ScrollDown);
    assert_eq!(app.active_tab, Tab::Dash, "col 0 not on sidebar");

    app.tab_orientation = TabOrientation::Horizontal;
    app.tab_bar_visible = true;
    app.term_width = 80;
    app.handle_mouse(10, 2, MouseEventKind::ScrollDown);
    assert_eq!(app.active_tab, Tab::Dash, "not on horizontal tab bar row");
}

// ── More cases ──────────────────────────────────────────────────────────

#[test]
fn data_click_selects_row_below_scroll() {
    let mut app = App::new();
    app.active_tab = Tab::Proc;
    app.proc_state.scroll = 4;
    app.proc_state.focused = true;
    app.selected = Some(SelectionState {
        pid: 9,
        name: "init".to_owned(),
    });
    // Sidebar layout, no query but focused: the table starts at 1 + 3 + 2.
    left_click(&mut app, 30, 8);
    assert_eq!(app.proc_state.selection, 6);
    assert!(!app.proc_state.focused);
    assert!(app.selected.is_none());
}

#[test]
fn data_click_above_table_does_nothing() {
    let mut app = App::new();
    app.active_tab = Tab::Net;
    app.net_state.selection = 2;
    left_click(&mut app, 30, 2);
    assert_eq!(app.net_state.selection, 2);
}

#[test]
fn wheel_down_then_up_restores_selection() {
    let mut app = App::new();
    app.active_tab = Tab::Files;
    app.files_state.selection = 11;
    app.handle_mouse(40, 12, MouseEventKind::ScrollDown);
    app.handle_mouse(40, 12, MouseEventKind::ScrollUp);
    assert_eq!(app.files_state.selection, 11);
}

#[test]
fn other_mouse_events_do_nothing() {
    let mut app = App::new();
    app.active_tab = Tab::Proc;
    app.proc_state.selection = 3;
    app.handle_mouse(5, 2, MouseEventKind::Moved);
    app.handle_mouse(5, 2, MouseEventKind::Up(MouseButton::Left));
    app.handle_mouse(5, 2, MouseEventKind::Down(MouseButton::Right));
    assert_eq!(app.active_tab, Tab::Proc);
    assert_eq!(app.proc_state.selection, 3);
}
