use thrum::app::{App, KillSignal, KillState, SelectionState, PAGE_SIZE};
use thrum::input::{KeyCode, KeyEvent, KeyModifiers};
use thrum::tab::{ProcSortField, Tab, TabOrientation};

fn press(app: &mut App, code: KeyCode, modifiers: KeyModifiers) {
    app.handle_key(KeyEvent::new(code, modifiers));
}

fn select_42(app: &mut App, name: &str) {
    app.selected = Some(SelectionState {
        pid: 42,
        name: name.to_owned(),
    });
}

#[test]
fn key_q_quits() {
    let mut app = App::new();
    press(&mut app, KeyCode::Char('q'), KeyModifiers::none());
    assert!(app.should_quit);
}

#[test]
fn key_ctrl_c_quits() {
    let mut app = App::new();
    press(&mut app, KeyCode::Char('c'), KeyModifiers::control());
    assert!(app.should_quit);
}

#[test]
fn key_plain_c_does_not_quit() {
    let mut app = App::new();
    press(&mut app, KeyCode::Char('c'), KeyModifiers::none());
    assert!(!app.should_quit);
}

#[test]
fn key_tab_cycles_forward() {
    let mut app = App::new();
    assert_eq!(app.active_tab, Tab::Dash);
    for expected in [
        Tab::Proc,
        Tab::Net,
        Tab::Files,
        Tab::Time,
        Tab::Temp,
        Tab::Cores,
        Tab::Disk,
        Tab::Mem,
        Tab::Dash,
    ] {
        press(&mut app, KeyCode::Tab, KeyModifiers::none());
        assert_eq!(app.active_tab, expected);
    }
}

#[test]
fn key_backtab_cycles_backward() {
    let mut app = App::new();
    press(&mut app, KeyCode::Char('8'), KeyModifiers::none());
    assert_eq!(app.active_tab, Tab::Disk);
    for expected in [
        Tab::Cores,
        Tab::Temp,
        Tab::Time,
        Tab::Files,
        Tab::Net,
        Tab::Proc,
        Tab::Dash,
        Tab::Mem,
        Tab::Disk,
    ] {
        press(&mut app, KeyCode::BackTab, KeyModifiers::none());
        assert_eq!(app.active_tab, expected);
    }
}

#[test]
fn key_numbers_jump_to_tab() {
    for (i, tab) in Tab::ALL.iter().enumerate() {
        let key_char = (b'1' + i as u8) as char;
        let mut app = App::new();
        press(&mut app, KeyCode::Char(key_char), KeyModifiers::none());
        assert_eq!(app.active_tab, *tab, "key '{key_char}' should jump to {tab:?}");
    }
}

#[test]
fn key_ctrl_1_does_not_jump_tab() {
    let mut app = App::new();
    press(&mut app, KeyCode::Char('1'), KeyModifiers::control());
    assert_eq!(app.active_tab, Tab::Dash, "Ctrl+1 should not change tab");
}

#[test]
fn key_alt_question_does_not_toggle_help() {
    let mut app = App::new();
    press(&mut app, KeyCode::Char('?'), KeyModifiers::alt());
    assert!(!app.help_visible, "Alt+? should not toggle help");
}

#[test]
fn key_ctrl_s_toggles_sidebar() {
    let mut app = App::new();
    assert!(app.sidebar_visible);
    press(&mut app, KeyCode::Char('s'), KeyModifiers::control());
    assert!(!app.sidebar_visible);
    press(&mut app, KeyCode::Char('s'), KeyModifiers::control());
    assert!(app.sidebar_visible);
}

#[test]
fn key_plain_s_does_not_toggle() {
    let mut app = App::new();
    assert!(app.sidebar_visible);
    press(&mut app, KeyCode::Char('s'), KeyModifiers::none());
    assert!(app.sidebar_visible);
}

#[test]
fn selection_moves_down() {
    let mut app = App::new();
    press(&mut app, KeyCode::Char('2'), KeyModifiers::none());
    assert_eq!(app.proc_state.selection, 0);
    press(&mut app, KeyCode::Down, KeyModifiers::none());
    assert_eq!(app.proc_state.selection, 1);
    press(&mut app, KeyCode::Down, KeyModifiers::none());
    assert_eq!(app.proc_state.selection, 2);
}

#[test]
fn selected_pid_cleared_on_down() {
    let mut app = App::new();
    select_42(&mut app, "bash");
    press(&mut app, KeyCode::Char('2'), KeyModifiers::none());
    press(&mut app, KeyCode::Down, KeyModifiers::none());
    assert!(app.selected.is_none());
}

#[test]
fn selected_pid_cleared_on_up() {
    let mut app = App::new();
    select_42(&mut app, "bash");
    press(&mut app, KeyCode::Char('2'), KeyModifiers::none());
    press(&mut app, KeyCode::Up, KeyModifiers::none());
    assert!(app.selected.is_none());
}

#[test]
fn selection_moves_up() {
    let mut app = App::new();
    press(&mut app, KeyCode::Char('2'), KeyModifiers::none());
    press(&mut app, KeyCode::Down, KeyModifiers::none());
    press(&mut app, KeyCode::Down, KeyModifiers::none());
    assert_eq!(app.proc_state.selection, 2);
    press(&mut app, KeyCode::Up, KeyModifiers::none());
    assert_eq!(app.proc_state.selection, 1);
    press(&mut app, KeyCode::Up, KeyModifiers::none());
    assert_eq!(app.proc_state.selection, 0);
    press(&mut app, KeyCode::Up, KeyModifiers::none());
    assert_eq!(app.proc_state.selection, 0);
}

#[test]
fn selection_page_down() {
    let mut app = App::new();
    press(&mut app, KeyCode::Char('2'), KeyModifiers::none());
    assert_eq!(app.proc_state.selection, 0);
    press(&mut app, KeyCode::PageDown, KeyModifiers::none());
    assert_eq!(app.proc_state.selection, PAGE_SIZE);
    press(&mut app, KeyCode::PageDown, KeyModifiers::none());
    assert_eq!(app.proc_state.selection, PAGE_SIZE * 2);
}

#[test]
fn selected_pid_cleared_on_page_down() {
    let mut app = App::new();
    select_42(&mut app, "bash");
    press(&mut app, KeyCode::Char('2'), KeyModifiers::none());
    press(&mut app, KeyCode::PageDown, KeyModifiers::none());
    assert!(app.selected.is_none());
}

#[test]
fn selection_page_up() {
    let mut app = App::new();
    press(&mut app, KeyCode::Char('2'), KeyModifiers::none());
    press(&mut app, KeyCode::PageDown, KeyModifiers::none());
    assert_eq!(app.proc_state.selection, PAGE_SIZE);
    press(&mut app, KeyCode::PageUp, KeyModifiers::none());
    assert_eq!(app.proc_state.selection, 0);
    press(&mut app, KeyCode::PageUp, KeyModifiers::none());
    assert_eq!(app.proc_state.selection, 0);
}

#[test]
fn selected_pid_cleared_on_page_up() {
    let mut app = App::new();
    select_42(&mut app, "bash");
    press(&mut app, KeyCode::Char('2'), KeyModifiers::none());
    press(&mut app, KeyCode::PageDown, KeyModifiers::none());
    press(&mut app, KeyCode::PageUp, KeyModifiers::none());
    assert!(app.selected.is_none());
}

#[test]
fn selection_noop_on_non_proc() {
    let mut app = App::new();
    assert_eq!(app.active_tab, Tab::Dash);
    press(&mut app, KeyCode::Down, KeyModifiers::none());
    assert_eq!(app.proc_state.selection, 0);
    press(&mut app, KeyCode::Delete, KeyModifiers::none());
    assert!(app.kill_state.is_none());
}

#[test]
fn net_files_keyboard_navigation() {
    let mut app = App::new();

    app.active_tab = Tab::Net;
    press(&mut app, KeyCode::Down, KeyModifiers::none());
    assert_eq!(app.net_state.selection, 1);
    press(&mut app, KeyCode::Down, KeyModifiers::none());
    assert_eq!(app.net_state.selection, 2);
    press(&mut app, KeyCode::Up, KeyModifiers::none());
    assert_eq!(app.net_state.selection, 1);
    press(&mut app, KeyCode::Up, KeyModifiers::none());
    assert_eq!(app.net_state.selection, 0);
    press(&mut app, KeyCode::Up, KeyModifiers::none());
    assert_eq!(app.net_state.selection, 0);

    press(&mut app, KeyCode::PageDown, KeyModifiers::none());
    assert_eq!(app.net_state.selection, PAGE_SIZE);
    press(&mut app, KeyCode::PageUp, KeyModifiers::none());
    assert_eq!(app.net_state.selection, 0);

    app.active_tab = Tab::Files;
    press(&mut app, KeyCode::Down, KeyModifiers::none());
    assert_eq!(app.files_state.selection, 1);
    press(&mut app, KeyCode::Down, KeyModifiers::none());
    assert_eq!(app.files_state.selection, 2);
    press(&mut app, KeyCode::Up, KeyModifiers::none());
    assert_eq!(app.files_state.selection, 1);
    press(&mut app, KeyCode::Up, KeyModifiers::none());
    assert_eq!(app.files_state.selection, 0);
    press(&mut app, KeyCode::Up, KeyModifiers::none());
    assert_eq!(app.files_state.selection, 0);

    press(&mut app, KeyCode::PageDown, KeyModifiers::none());
    assert_eq!(app.files_state.selection, PAGE_SIZE);
    press(&mut app, KeyCode::PageUp, KeyModifiers::none());
    assert_eq!(app.files_state.selection, 0);
}

#[test]
fn net_files_keyboard_noop_on_non_scrollable_tabs() {
    let mut app = App::new();
    app.net_state.selection = 3;
    app.files_state.selection = 5;
    app.active_tab = Tab::Dash;
    press(&mut app, KeyCode::Down, KeyModifiers::none());
    assert_eq!(app.net_state.selection, 3, "Net unchanged on Dash");
    assert_eq!(app.files_state.selection, 5, "Files unchanged on Dash");
    press(&mut app, KeyCode::Up, KeyModifiers::none());
    assert_eq!(app.net_state.selection, 3, "Net unchanged on Dash");
    assert_eq!(app.files_state.selection, 5, "Files unchanged on Dash");
}

#[test]
fn delete_sets_kill_pending_on_proc() {
    let mut app = App::new();
    press(&mut app, KeyCode::Char('2'), KeyModifiers::none());
    select_42(&mut app, "");
    assert!(app.kill_state.is_none());
    press(&mut app, KeyCode::Delete, KeyModifiers::none());
    assert_eq!(app.kill_state, Some(KillState::Confirm));
}

#[test]
fn ctrl_k_sets_immediate_kill() {
    let mut app = App::new();
    press(&mut app, KeyCode::Char('2'), KeyModifiers::none());
    select_42(&mut app, "");
    press(&mut app, KeyCode::Char('k'), KeyModifiers::control());
    assert_eq!(app.kill_state, Some(KillState::Dispatch(KillSignal::Kill)));
}

#[test]
fn kill_pending_dismissed_by_any_key() {
    let mut app = App::new();
    press(&mut app, KeyCode::Char('2'), KeyModifiers::none());
    select_42(&mut app, "");
    press(&mut app, KeyCode::Delete, KeyModifiers::none());
    assert_eq!(app.kill_state, Some(KillState::Confirm));
    press(&mut app, KeyCode::Char('n'), KeyModifiers::none());
    assert!(app.kill_state.is_none());
}

#[test]
fn kill_pending_confirmed_by_one() {
    let mut app = App::new();
    press(&mut app, KeyCode::Char('2'), KeyModifiers::none());
    select_42(&mut app, "");
    press(&mut app, KeyCode::Delete, KeyModifiers::none());
    assert_eq!(app.kill_state, Some(KillState::Confirm));
    press(&mut app, KeyCode::Char('1'), KeyModifiers::none());
    assert_eq!(app.kill_state, Some(KillState::Dispatch(KillSignal::Term)));
}

#[test]
fn kill_pending_sends_all_signals() {
    for expected in KillSignal::ALL {
        let key = expected.key();
        let mut app = App::new();
        press(&mut app, KeyCode::Char('2'), KeyModifiers::none());
        select_42(&mut app, "");
        press(&mut app, KeyCode::Delete, KeyModifiers::none());
        press(&mut app, KeyCode::Char(key), KeyModifiers::none());
        assert_eq!(
            app.kill_state,
            Some(KillState::Dispatch(expected)),
            "key '{key}' should dispatch {expected:?}"
        );
    }
}

#[test]
fn ctrl_k_exits_search_and_kills_in_one_press() {
    let mut app = App::new();
    app.active_tab = Tab::Proc;
    app.proc_state.focused = true;
    select_42(&mut app, "");
    press(&mut app, KeyCode::Char('k'), KeyModifiers::control());
    assert!(!app.proc_state.focused, "Ctrl+K should exit search");
    assert_eq!(app.kill_state, Some(KillState::Dispatch(KillSignal::Kill)));
    assert_eq!(app.selected.as_ref().map(|s| s.pid), Some(42));
}

#[test]
fn delete_exits_search_then_kill_on_second_press() {
    let mut app = App::new();
    press(&mut app, KeyCode::Char('2'), KeyModifiers::none());
    select_42(&mut app, "");
    press(&mut app, KeyCode::Char('/'), KeyModifiers::none());
    assert!(app.proc_state.focused);
    press(&mut app, KeyCode::Delete, KeyModifiers::none());
    assert!(!app.proc_state.focused);
    assert!(app.kill_state.is_none(), "key consumed by search exit");
    press(&mut app, KeyCode::Delete, KeyModifiers::none());
    assert_eq!(app.kill_state, Some(KillState::Confirm));
}

#[test]
fn key_slash_enters_search_only_on_proc() {
    let mut app = App::new();
    assert_eq!(app.active_tab, Tab::Dash);
    press(&mut app, KeyCode::Char('/'), KeyModifiers::none());
    assert!(!app.proc_state.focused);

    press(&mut app, KeyCode::Char('2'), KeyModifiers::none());
    assert_eq!(app.active_tab, Tab::Proc);
    assert!(!app.proc_state.focused);

    press(&mut app, KeyCode::Char('/'), KeyModifiers::none());
    assert!(app.proc_state.focused);
}

#[test]
fn search_typing_appends_query() {
    let mut app = App::new();
    press(&mut app, KeyCode::Char('2'), KeyModifiers::none());
    press(&mut app, KeyCode::Char('/'), KeyModifiers::none());
    assert!(app.proc_state.focused);
    assert_eq!(app.active_tab, Tab::Proc);

    press(&mut app, KeyCode::Char('f'), KeyModifiers::none());
    press(&mut app, KeyCode::Char('i'), KeyModifiers::none());
    press(&mut app, KeyCode::Char('r'), KeyModifiers::none());
    assert_eq!(app.proc_state.query, "fir");
    assert_eq!(app.active_tab, Tab::Proc);
}

#[test]
fn search_backspace_pops() {
    let mut app = App::new();
    press(&mut app, KeyCode::Char('2'), KeyModifiers::none());
    press(&mut app, KeyCode::Char('/'), KeyModifiers::none());
    press(&mut app, KeyCode::Char('a'), KeyModifiers::none());
    press(&mut app, KeyCode::Char('b'), KeyModifiers::none());
    assert_eq!(app.proc_state.query, "ab");

    press(&mut app, KeyCode::Backspace, KeyModifiers::none());
    assert_eq!(app.proc_state.query, "a");
    assert!(app.proc_state.focused);
}

#[test]
fn search_backspace_empty_exits() {
    let mut app = App::new();
    press(&mut app, KeyCode::Char('2'), KeyModifiers::none());
    press(&mut app, KeyCode::Char('/'), KeyModifiers::none());
    press(&mut app, KeyCode::Backspace, KeyModifiers::none());
    assert!(app.proc_state.query.is_empty());
    assert!(!app.proc_state.focused);
}

#[test]
fn search_esc_clears_and_exits() {
    let mut app = App::new();
    press(&mut app, KeyCode::Char('2'), KeyModifiers::none());
    press(&mut app, KeyCode::Char('/'), KeyModifiers::none());
    press(&mut app, KeyCode::Char('x'), KeyModifiers::none());
    assert_eq!(app.proc_state.query, "x");

    press(&mut app, KeyCode::Esc, KeyModifiers::none());
    assert!(app.proc_state.query.is_empty());
    assert!(!app.proc_state.focused);
}

#[test]
fn search_enter_exits_keeps_query() {
    let mut app = App::new();
    press(&mut app, KeyCode::Char('2'), KeyModifiers::none());
    press(&mut app, KeyCode::Char('/'), KeyModifiers::none());
    press(&mut app, KeyCode::Char('f'), KeyModifiers::none());

    press(&mut app, KeyCode::Enter, KeyModifiers::none());
    assert!(!app.proc_state.focused);
    assert_eq!(app.proc_state.query, "f");
}

#[test]
fn search_arrows_exit_and_move_selection() {
    let mut app = App::new();
    press(&mut app, KeyCode::Char('2'), KeyModifiers::none());
    press(&mut app, KeyCode::Char('/'), KeyModifiers::none());
    assert!(app.proc_state.focused);
    assert_eq!(app.proc_state.selection, 0);
    press(&mut app, KeyCode::Down, KeyModifiers::none());
    assert!(!app.proc_state.focused, "Down exits search");
    assert_eq!(app.proc_state.selection, 1, "Down moves selection after exiting search");
}

#[test]
fn search_tab_exits_then_tab_cycles_on_second_press() {
    let mut app = App::new();
    press(&mut app, KeyCode::Char('2'), KeyModifiers::none());
    press(&mut app, KeyCode::Char('/'), KeyModifiers::none());
    assert!(app.proc_state.focused);
    press(&mut app, KeyCode::Tab, KeyModifiers::none());
    assert!(!app.proc_state.focused);
    assert_eq!(app.active_tab, Tab::Proc, "Tab key consumed by search exit");
    press(&mut app, KeyCode::Tab, KeyModifiers::none());
    assert_eq!(app.active_tab, Tab::Net);
}

#[test]
fn search_f_key_does_not_exit() {
    let mut app = App::new();
    press(&mut app, KeyCode::Char('2'), KeyModifiers::none());
    press(&mut app, KeyCode::Char('/'), KeyModifiers::none());
    app.proc_state.query = "test".to_owned();
    assert!(app.proc_state.focused);
    press(&mut app, KeyCode::F(1), KeyModifiers::none());
    assert!(app.proc_state.focused, "F1 should not exit search");
    assert_eq!(app.proc_state.query, "test", "F1 should not clear query");
}

#[test]
fn key_slash_enters_search_on_net_and_files() {
    for tab_key in ['3', '4'] {
        let mut app = App::new();
        press(&mut app, KeyCode::Char(tab_key), KeyModifiers::none());
        assert!(!app.net_state.focused);
        assert!(!app.files_state.focused);
        press(&mut app, KeyCode::Char('/'), KeyModifiers::none());
        if tab_key == '3' {
            assert!(app.net_state.focused, "/ on Net should focus net search");
            assert!(!app.files_state.focused, "files search should remain off");
        } else {
            assert!(app.files_state.focused, "/ on Files should focus files search");
            assert!(!app.net_state.focused, "net search should remain off");
        }
    }
}

#[test]
fn key_slash_noop_on_dash() {
    let mut app = App::new();
    press(&mut app, KeyCode::Char('/'), KeyModifiers::none());
    assert!(!app.proc_state.focused);
    assert!(!app.net_state.focused);
    assert!(!app.files_state.focused);
}

#[test]
fn net_and_files_search_esc_clears() {
    for (tab_key, query_val) in [('3', 'e'), ('4', 'm')] {
        let mut app = App::new();
        press(&mut app, KeyCode::Char(tab_key), KeyModifiers::none());
        press(&mut app, KeyCode::Char('/'), KeyModifiers::none());
        press(&mut app, KeyCode::Char(query_val), KeyModifiers::none());
        if tab_key == '3' {
            assert_eq!(app.net_state.query, "e", "net query should be set");
        } else {
            assert_eq!(app.files_state.query, "m", "files query should be set");
        }
        press(&mut app, KeyCode::Esc, KeyModifiers::none());
        assert!(app.net_state.query.is_empty(), "net query cleared");
        assert!(app.files_state.query.is_empty(), "files query cleared");
        assert!(!app.net_state.focused, "net search unfocused");
        assert!(!app.files_state.focused, "files search unfocused");
    }
}

#[test]
fn sort_keys_change_sort_field() {
    let mut app = App::new();
    press(&mut app, KeyCode::Char('2'), KeyModifiers::none());
    assert_eq!(app.active_tab, Tab::Proc);
    assert_eq!(app.proc_sort_field, ProcSortField::Cpu);
    assert!(!app.proc_sort_asc);

    press(&mut app, KeyCode::Char('n'), KeyModifiers::none());
    assert_eq!(app.proc_sort_field, ProcSortField::Name);
    assert!(app.proc_sort_asc);

    press(&mut app, KeyCode::Char('r'), KeyModifiers::none());
    assert!(!app.proc_sort_asc);

    press(&mut app, KeyCode::Char('m'), KeyModifiers::none());
    assert_eq!(app.proc_sort_field, ProcSortField::Memory);
    assert!(!app.proc_sort_asc);
}

#[test]
fn key_unknown_does_nothing() {
    let mut app = App::new();
    press(&mut app, KeyCode::Char('x'), KeyModifiers::none());
    assert!(!app.should_quit);
    assert_eq!(app.active_tab, Tab::Dash);
    assert!(app.sidebar_visible);
}

#[test]
fn help_toggle_opens_and_closes() {
    let mut app = App::new();
    assert!(!app.help_visible);
    press(&mut app, KeyCode::Char('?'), KeyModifiers::none());
    assert!(app.help_visible);
    press(&mut app, KeyCode::Char('?'), KeyModifiers::none());
    assert!(!app.help_visible);
}

#[test]
fn help_closes_on_any_key() {
    let mut app = App::new();
    press(&mut app, KeyCode::Char('?'), KeyModifiers::none());
    assert!(app.help_visible);
    press(&mut app, KeyCode::Tab, KeyModifiers::none());
    assert!(!app.help_visible);
    assert_eq!(app.active_tab, Tab::Proc);
}

#[test]
fn sort_keys_all_fields() {
    let keys: [(KeyCode, ProcSortField, bool); 7] = [
        (KeyCode::Char('n'), ProcSortField::Name, true),
        (KeyCode::Char('p'), ProcSortField::Pid, true),
        (KeyCode::Char('c'), ProcSortField::Cpu, false),
        (KeyCode::Char('m'), ProcSortField::Memory, false),
        (KeyCode::Char('v'), ProcSortField::VirtualMemory, false),
        (KeyCode::Char('t'), ProcSortField::RunTime, false),
        (KeyCode::Char('s'), ProcSortField::Status, true),
    ];
    for (key, expected_field, expected_asc) in &keys {
        let mut app = App::new();
        press(&mut app, KeyCode::Char('2'), KeyModifiers::none());
        press(&mut app, *key, KeyModifiers::none());
        assert_eq!(
            app.proc_sort_field, *expected_field,
            "key '{key:?}' should set sort field to {expected_field:?}",
        );
        assert_eq!(
            app.proc_sort_asc, *expected_asc,
            "key '{key:?}' should set sort_asc to {expected_asc}",
        );
    }
}

#[test]
fn ctrl_t_toggles_tab_orientation() {
    let mut app = App::new();
    assert_eq!(app.tab_orientation, TabOrientation::Sidebar);
    press(&mut app, KeyCode::Char('t'), KeyModifiers::control());
    assert_eq!(app.tab_orientation, TabOrientation::Horizontal);
    press(&mut app, KeyCode::Char('t'), KeyModifiers::control());
    assert_eq!(app.tab_orientation, TabOrientation::HorizontalFooter);
    press(&mut app, KeyCode::Char('t'), KeyModifiers::control());
    assert_eq!(app.tab_orientation, TabOrientation::Sidebar);
}

#[test]
fn ctrl_s_in_horizontal_footer_toggles_tab_bar() {
    let mut app = App::new();
    app.tab_orientation = TabOrientation::HorizontalFooter;
    assert!(app.tab_bar_visible);
    press(&mut app, KeyCode::Char('s'), KeyModifiers::control());
    assert!(!app.tab_bar_visible);
    press(&mut app, KeyCode::Char('s'), KeyModifiers::control());
    assert!(app.tab_bar_visible);
}

#[test]
fn ctrl_s_in_horizontal_toggles_tab_bar() {
    let mut app = App::new();
    assert!(app.tab_bar_visible);
    press(&mut app, KeyCode::Char('t'), KeyModifiers::control());
    assert_eq!(app.tab_orientation, TabOrientation::Horizontal);
    assert!(app.sidebar_visible);
    press(&mut app, KeyCode::Char('s'), KeyModifiers::control());
    assert!(!app.tab_bar_visible);
    press(&mut app, KeyCode::Char('s'), KeyModifiers::control());
    assert!(app.tab_bar_visible);
}

#[test]
fn ctrl_s_in_sidebar_toggles_sidebar() {
    let mut app = App::new();
    assert_eq!(app.tab_orientation, TabOrientation::Sidebar);
    assert!(app.sidebar_visible);
    press(&mut app, KeyCode::Char('s'), KeyModifiers::control());
    assert!(!app.sidebar_visible);
}

#[test]
fn left_right_arrows_navigate_tabs_in_horizontal() {
    let mut app = App::new();
    app.tab_orientation = TabOrientation::Horizontal;
    assert_eq!(app.active_tab, Tab::Dash);
    press(&mut app, KeyCode::Right, KeyModifiers::none());
    assert_eq!(app.active_tab, Tab::Proc);
    press(&mut app, KeyCode::Left, KeyModifiers::none());
    assert_eq!(app.active_tab, Tab::Dash);
}

#[test]
fn left_right_arrows_navigate_tabs_in_footer() {
    let mut app = App::new();
    app.tab_orientation = TabOrientation::HorizontalFooter;
    assert_eq!(app.active_tab, Tab::Dash);
    press(&mut app, KeyCode::Right, KeyModifiers::none());
    assert_eq!(app.active_tab, Tab::Proc);
    press(&mut app, KeyCode::Left, KeyModifiers::none());
    assert_eq!(app.active_tab, Tab::Dash);
}

#[test]
fn left_right_arrows_noop_in_sidebar() {
    let mut app = App::new();
    assert_eq!(app.tab_orientation, TabOrientation::Sidebar);
    press(&mut app, KeyCode::Right, KeyModifiers::none());
    assert_eq!(app.active_tab, Tab::Dash);
    press(&mut app, KeyCode::Left, KeyModifiers::none());
    assert_eq!(app.active_tab, Tab::Dash);
}

#[test]
fn space_toggles_paused() {
    let mut app = App::new();
    assert!(!app.paused);
    press(&mut app, KeyCode::Char(' '), KeyModifiers::none());
    assert!(app.paused);
    press(&mut app, KeyCode::Char(' '), KeyModifiers::none());
    assert!(!app.paused);
}

#[test]
fn space_works_on_any_tab() {
    let mut app = App::new();
    app.active_tab = Tab::Proc;
    press(&mut app, KeyCode::Char(' '), KeyModifiers::none());
    assert!(app.paused);
    app.active_tab = Tab::Net;
    press(&mut app, KeyCode::Char(' '), KeyModifiers::none());
    assert!(!app.paused);
}

// ── Laws on concrete values ─────────────────────────────────────────────

#[test]
fn ctrl_c_quits_from_any_state() {
    let mut app = App::new();
    app.active_tab = Tab::Proc;
    app.proc_state.focused = true;
    app.help_visible = true;
    app.kill_state = Some(KillState::Confirm);
    press(&mut app, KeyCode::Char('c'), KeyModifiers::control());
    assert!(app.should_quit);
}

#[test]
fn search_query_stops_growing_at_its_bound() {
    let mut app = App::new();
    press(&mut app, KeyCode::Char('2'), KeyModifiers::none());
    press(&mut app, KeyCode::Char('/'), KeyModifiers::none());
    for _ in 0..300 {
        press(&mut app, KeyCode::Char('x'), KeyModifiers::none());
    }
    assert_eq!(app.proc_state.query.len(), thrum::app::MAX_QUERY_LEN);
    let mut app = App::new();
    press(&mut app, KeyCode::Char('2'), KeyModifiers::none());
    press(&mut app, KeyCode::Char('/'), KeyModifiers::none());
    for _ in 0..300 {
        press(&mut app, KeyCode::Char('\u{1F600}'), KeyModifiers::none());
    }
    assert_eq!(app.proc_state.query.len(), thrum::app::MAX_QUERY_LEN);
    assert!(app.proc_state.query.len() <= thrum::app::MAX_QUERY_LEN + 3);
}

#[test]
fn kill_needs_dialog_or_ctrl_k() {
    let mut app = App::new();
    press(&mut app, KeyCode::Char('2'), KeyModifiers::none());
    press(&mut app, KeyCode::Char('1'), KeyModifiers::none());
    assert!(app.kill_state.is_none(), "a digit alone does not kill");
    let mut app = App::new();
    press(&mut app, KeyCode::Char('2'), KeyModifiers::none());
    press(&mut app, KeyCode::Char('k'), KeyModifiers::control());
    assert!(app.kill_state.is_none(), "Ctrl+K without a selection does nothing");
    app.active_tab = Tab::Net;
    select_42(&mut app, "bash");
    press(&mut app, KeyCode::Char('k'), KeyModifiers::control());
    assert!(app.kill_state.is_none(), "Ctrl+K off the process tab does nothing");
}

#[test]
fn tab_then_backtab_returns() {
    for tab in Tab::ALL {
        let mut app = App::new();
        app.active_tab = tab;
        press(&mut app, KeyCode::Tab, KeyModifiers::none());
        press(&mut app, KeyCode::BackTab, KeyModifiers::shift());
        assert_eq!(app.active_tab, tab);
    }
}

#[test]
fn keys_leave_histories_alone() {
    let mut app = App::new();
    app.cpu_history.push_back(7);
    app.history_window = 5;
    for code in [KeyCode::Tab, KeyCode::Down, KeyCode::Char('q'), KeyCode::Char('?')] {
        press(&mut app, code, KeyModifiers::none());
    }
    assert_eq!(app.cpu_history.len(), 1);
    assert_eq!(app.history_window, 5);
}
