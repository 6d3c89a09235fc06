//! The application state and how keyboard and mouse events change it.

use std::collections::VecDeque;

use vstd::prelude::*;

use crate::cli::{Config, ConfigView};
use crate::input::{KeyCode, KeyEvent, KeyModifiers, MouseButton, MouseEventKind};
use crate::tab::{
    next_tab, prev_tab, tab_at, tab_index, ProcSortField, Tab, TabOrientation, TAB_COUNT,
};
use crate::text::{clear_string, pop_char, push_char};
use vstd::utf8::encode_utf8;

verus! {

/// How far PageUp and PageDown move the selection.
pub const PAGE_SIZE: usize = 10;

/// The default number of samples kept in each history.
pub const WINDOW: usize = 60;

/// A search query is extended only while it is shorter than this many bytes.
pub const MAX_QUERY_LEN: usize = 256;

/// A click below the last visible row moves the selection at most this far.
pub const MAX_CLICK_OFFSET: usize = 1000;

// ── Kill signals ────────────────────────────────────────────────────────

/// A signal that can be sent to the selected process.
#[derive(Clone, Copy, Debug, PartialEq, Eq, Structural)]
pub enum KillSignal {
    Term,
    Kill,
    Interrupt,
    Hangup,
    Stop,
    Continue,
}

/// The key that picks `s` in the kill dialog.
pub open spec fn signal_key(s: KillSignal) -> char {
    match s {
        KillSignal::Term => '1',
        KillSignal::Kill => '2',
        KillSignal::Interrupt => '3',
        KillSignal::Hangup => '4',
        KillSignal::Stop => '5',
        KillSignal::Continue => '6',
    }
}

/// The name shown for `s`.
pub open spec fn signal_name(s: KillSignal) -> Seq<char> {
    match s {
        KillSignal::Term => "SIGTERM"@,
        KillSignal::Kill => "SIGKILL"@,
        KillSignal::Interrupt => "SIGINT"@,
        KillSignal::Hangup => "SIGHUP"@,
        KillSignal::Stop => "SIGSTOP"@,
        KillSignal::Continue => "SIGCONT"@,
    }
}

/// The signal that key `c` picks in the kill dialog, if any.
pub open spec fn signal_for_key_spec(c: char) -> Option<KillSignal> {
    if c == '1' {
        Some(KillSignal::Term)
    } else if c == '2' {
        Some(KillSignal::Kill)
    } else if c == '3' {
        Some(KillSignal::Interrupt)
    } else if c == '4' {
        Some(KillSignal::Hangup)
    } else if c == '5' {
        Some(KillSignal::Stop)
    } else if c == '6' {
        Some(KillSignal::Continue)
    } else {
        None
    }
}

impl KillSignal {
    /// Every signal, in the order of their keys.
    pub const ALL: [KillSignal; 6] = [
        KillSignal::Term,
        KillSignal::Kill,
        KillSignal::Interrupt,
        KillSignal::Hangup,
        KillSignal::Stop,
        KillSignal::Continue,
    ];

    /// The key that picks this signal in the kill dialog.
    pub fn key(self) -> (r: char)
        ensures
            r == signal_key(self),
    {
        match self {
            KillSignal::Term => '1',
            KillSignal::Kill => '2',
            KillSignal::Interrupt => '3',
            KillSignal::Hangup => '4',
            KillSignal::Stop => '5',
            KillSignal::Continue => '6',
        }
    }

    /// The name shown for this signal.
    pub fn name(self) -> (r: &'static str)
        ensures
            r@ == signal_name(self),
    {
        match self {
            KillSignal::Term => "SIGTERM",
            KillSignal::Kill => "SIGKILL",
            KillSignal::Interrupt => "SIGINT",
            KillSignal::Hangup => "SIGHUP",
            KillSignal::Stop => "SIGSTOP",
            KillSignal::Continue => "SIGCONT",
        }
    }

    /// The signal that key `c` picks in the kill dialog, if any.
    pub fn for_key(c: char) -> (r: Option<KillSignal>)
        ensures
            r == signal_for_key_spec(c),
    {
        if c == '1' {
            Some(KillSignal::Term)
        } else if c == '2' {
            Some(KillSignal::Kill)
        } else if c == '3' {
            Some(KillSignal::Interrupt)
        } else if c == '4' {
            Some(KillSignal::Hangup)
        } else if c == '5' {
            Some(KillSignal::Stop)
        } else if c == '6' {
            Some(KillSignal::Continue)
        } else {
            None
        }
    }
}

/// Every signal has a key, and that key picks it.
pub proof fn lemma_signal_key_roundtrip(s: KillSignal)
    ensures
        signal_for_key_spec(signal_key(s)) == Some(s),
{
}

/// The kill dialog: asking which signal to send, or a signal ready to go.
#[derive(Clone, Copy, Debug, PartialEq, Eq, Structural)]
pub enum KillState {
    Confirm,
    Dispatch(KillSignal),
}

// ── Per-tab state ───────────────────────────────────────────────────────

/// Search query, scroll position and selection of a searchable tab.
#[derive(Clone, Debug)]
pub struct TabState {
    pub query: String,
    pub focused: bool,
    pub scroll: usize,
    pub selection: usize,
}

/// The model of a `TabState`.
#[verifier::ext_equal]
pub struct TabStateView {
    pub query: Seq<char>,
    pub focused: bool,
    pub scroll: usize,
    pub selection: usize,
}

impl View for TabState {
    type V = TabStateView;

    open spec fn view(&self) -> TabStateView {
        TabStateView {
            query: self.query@,
            focused: self.focused,
            scroll: self.scroll,
            selection: self.selection,
        }
    }
}

impl Default for TabState {
    fn default() -> (r: Self)
        ensures
            r@ == (TabStateView { query: Seq::empty(), focused: false, scroll: 0, selection: 0 }),
    {
        TabState { query: String::new(), focused: false, scroll: 0, selection: 0 }
    }
}

/// The cursor position `sel` kept on one of `count` rows: past the last row
/// it moves to the last, and to 0 when there are no rows.
pub open spec fn clamped_selection(sel: usize, count: usize) -> usize {
    if count == 0 {
        0
    } else if sel < count {
        sel
    } else {
        (count - 1) as usize
    }
}

/// Keeps the cursor of `st` on one of `count` rows: past the last row it
/// moves to the last, and to 0 when there are no rows.
pub fn clamp_selection(st: &mut TabState, count: usize)
    ensures
        final(st)@ == (TabStateView { selection: clamped_selection(old(st).selection, count), ..old(st)@ }),
{
    let last = if count == 0 {
        0
    } else {
        count - 1
    };
    if st.selection > last {
        st.selection = last;
    }
}

/// The process under the cursor in the process table.
#[derive(Clone, Debug)]
pub struct SelectionState {
    pub pid: u32,
    pub name: String,
}

/// The model of a `SelectionState`.
#[verifier::ext_equal]
pub struct SelectionView {
    pub pid: u32,
    pub name: Seq<char>,
}

impl View for SelectionState {
    type V = SelectionView;

    open spec fn view(&self) -> SelectionView {
        SelectionView { pid: self.pid, name: self.name@ }
    }
}

/// The model of an optional string.
pub open spec fn opt_text(o: Option<String>) -> Option<Seq<char>> {
    match o {
        Some(s) => Some(s@),
        None => None,
    }
}

/// The model of an optional selection.
pub open spec fn opt_selection(o: Option<SelectionState>) -> Option<SelectionView> {
    match o {
        Some(s) => Some(s@),
        None => None,
    }
}

// ── The application ─────────────────────────────────────────────────────

/// One sample's worth of history values, already scaled to integers:
/// CPU percent, memory percent, byte rates, tenths of a degree, tenths of a
/// percent of disk usage, swap percent.
#[derive(Clone, Copy, Debug, PartialEq, Eq, Structural)]
pub struct HistoryPoint {
    pub cpu: u64,
    pub mem: u64,
    pub net_rx: u64,
    pub net_tx: u64,
    pub disk_read: u64,
    pub disk_write: u64,
    pub temp: u64,
    pub disk_usage: u64,
    pub swap: u64,
}

/// The whole interface state.
pub struct App {
    pub active_tab: Tab,
    pub sidebar_visible: bool,
    pub tab_orientation: TabOrientation,
    pub tab_bar_visible: bool,
    pub cpu_history: VecDeque<u64>,
    pub mem_history: VecDeque<u64>,
    pub net_rx_history: VecDeque<u64>,
    pub net_tx_history: VecDeque<u64>,
    pub disk_read_history: VecDeque<u64>,
    pub disk_write_history: VecDeque<u64>,
    pub temp_history: VecDeque<u64>,
    pub disk_usage_history: VecDeque<u64>,
    pub swap_history: VecDeque<u64>,
    pub proc_state: TabState,
    pub net_state: TabState,
    pub files_state: TabState,
    pub selected: Option<SelectionState>,
    pub kill_state: Option<KillState>,
    pub scroll_step: usize,
    pub proc_sort_field: ProcSortField,
    pub proc_sort_asc: bool,
    pub should_quit: bool,
    pub help_visible: bool,
    pub kill_feedback: Option<String>,
    pub paused: bool,
    pub history_window: usize,
    pub term_width: u16,
    pub term_height: u16,
    pub error_msg: Option<String>,
}

/// The model of an `App`.
#[verifier::ext_equal]
pub struct AppView {
    pub active_tab: Tab,
    pub sidebar_visible: bool,
    pub tab_orientation: TabOrientation,
    pub tab_bar_visible: bool,
    pub cpu_history: Seq<u64>,
    pub mem_history: Seq<u64>,
    pub net_rx_history: Seq<u64>,
    pub net_tx_history: Seq<u64>,
    pub disk_read_history: Seq<u64>,
    pub disk_write_history: Seq<u64>,
    pub temp_history: Seq<u64>,
    pub disk_usage_history: Seq<u64>,
    pub swap_history: Seq<u64>,
    pub proc_state: TabStateView,
    pub net_state: TabStateView,
    pub files_state: TabStateView,
    pub selected: Option<SelectionView>,
    pub kill_state: Option<KillState>,
    pub scroll_step: usize,
    pub proc_sort_field: ProcSortField,
    pub proc_sort_asc: bool,
    pub should_quit: bool,
    pub help_visible: bool,
    pub kill_feedback: Option<Seq<char>>,
    pub paused: bool,
    pub history_window: usize,
    pub term_width: u16,
    pub term_height: u16,
    pub error_msg: Option<Seq<char>>,
}

impl View for App {
    type V = AppView;

    open spec fn view(&self) -> AppView {
        AppView {
            active_tab: self.active_tab,
            sidebar_visible: self.sidebar_visible,
            tab_orientation: self.tab_orientation,
            tab_bar_visible: self.tab_bar_visible,
            cpu_history: self.cpu_history@,
            mem_history: self.mem_history@,
            net_rx_history: self.net_rx_history@,
            net_tx_history: self.net_tx_history@,
            disk_read_history: self.disk_read_history@,
            disk_write_history: self.disk_write_history@,
            temp_history: self.temp_history@,
            disk_usage_history: self.disk_usage_history@,
            swap_history: self.swap_history@,
            proc_state: self.proc_state@,
            net_state: self.net_state@,
            files_state: self.files_state@,
            selected: opt_selection(self.selected),
            kill_state: self.kill_state,
            scroll_step: self.scroll_step,
            proc_sort_field: self.proc_sort_field,
            proc_sort_asc: self.proc_sort_asc,
            should_quit: self.should_quit,
            help_visible: self.help_visible,
            kill_feedback: opt_text(self.kill_feedback),
            paused: self.paused,
            history_window: self.history_window,
            term_width: self.term_width,
            term_height: self.term_height,
            error_msg: opt_text(self.error_msg),
        }
    }
}

/// The state of a fresh application.
pub open spec fn initial_app() -> AppView {
    let empty_state = TabStateView { query: Seq::empty(), focused: false, scroll: 0, selection: 0 };
    AppView {
        active_tab: Tab::Dash,
        sidebar_visible: true,
        tab_orientation: TabOrientation::Sidebar,
        tab_bar_visible: true,
        cpu_history: Seq::empty(),
        mem_history: Seq::empty(),
        net_rx_history: Seq::empty(),
        net_tx_history: Seq::empty(),
        disk_read_history: Seq::empty(),
        disk_write_history: Seq::empty(),
        temp_history: Seq::empty(),
        disk_usage_history: Seq::empty(),
        swap_history: Seq::empty(),
        proc_state: empty_state,
        net_state: empty_state,
        files_state: empty_state,
        selected: None,
        kill_state: None,
        scroll_step: 3,
        proc_sort_field: ProcSortField::Cpu,
        proc_sort_asc: false,
        should_quit: false,
        help_visible: false,
        kill_feedback: None,
        paused: false,
        history_window: WINDOW,
        term_width: 80,
        term_height: 24,
        error_msg: None,
    }
}

/// `s` with `v` appended, after dropping the oldest value when `s` already
/// holds `max` values or more.
pub open spec fn bounded_push<T>(s: Seq<T>, v: T, max: nat) -> Seq<T> {
    if s.len() >= max && s.len() > 0 {
        s.drop_first().push(v)
    } else {
        s.push(v)
    }
}

/// Appends `value` to `deque`, first dropping the oldest value when the
/// deque already holds `max` values or more.
pub fn push_bounded<T>(deque: &mut VecDeque<T>, value: T, max: usize)
    ensures
        final(deque)@ == bounded_push(old(deque)@, value, max as nat),
{
    if deque.len() >= max {
        let _ = deque.pop_front();
    }
    deque.push_back(value);
}

/// A bounded history never grows past its bound (or past one value when
/// the bound is zero), and always ends with the newest value.
pub proof fn lemma_bounded_push_window<T>(s: Seq<T>, v: T, max: nat)
    requires
        s.len() <= if max == 0 { 1 } else { max },
    ensures
        bounded_push(s, v, max).len() <= if max == 0 { 1 } else { max },
        bounded_push(s, v, max).last() == v,
        bounded_push(s, v, max).drop_last() =~= s.subrange(
            s.len() - bounded_push(s, v, max).drop_last().len(),
            s.len() as int,
        ),
{
}

/// `a` with every history extended by the matching value of `p`.
pub open spec fn push_history_spec(a: AppView, p: HistoryPoint) -> AppView {
    let w = a.history_window as nat;
    AppView {
        cpu_history: bounded_push(a.cpu_history, p.cpu, w),
        mem_history: bounded_push(a.mem_history, p.mem, w),
        net_rx_history: bounded_push(a.net_rx_history, p.net_rx, w),
        net_tx_history: bounded_push(a.net_tx_history, p.net_tx, w),
        disk_read_history: bounded_push(a.disk_read_history, p.disk_read, w),
        disk_write_history: bounded_push(a.disk_write_history, p.disk_write, w),
        temp_history: bounded_push(a.temp_history, p.temp, w),
        disk_usage_history: bounded_push(a.disk_usage_history, p.disk_usage, w),
        swap_history: bounded_push(a.swap_history, p.swap, w),
        ..a
    }
}

/// `v` limited to the range `lo ..= hi`.
pub open spec fn clamp_spec(v: nat, lo: nat, hi: nat) -> nat {
    if v < lo {
        lo
    } else if v > hi {
        hi
    } else {
        v
    }
}

impl App {
    /// A fresh application: Dash tab, sidebar shown, empty histories.
    pub fn new() -> (r: App)
        ensures
            r@ == initial_app(),
    {
        App {
            active_tab: Tab::Dash,
            sidebar_visible: true,
            tab_orientation: TabOrientation::Sidebar,
            tab_bar_visible: true,
            cpu_history: VecDeque::with_capacity(WINDOW),
            mem_history: VecDeque::with_capacity(WINDOW),
            net_rx_history: VecDeque::with_capacity(WINDOW),
            net_tx_history: VecDeque::with_capacity(WINDOW),
            disk_read_history: VecDeque::with_capacity(WINDOW),
            disk_write_history: VecDeque::with_capacity(WINDOW),
            temp_history: VecDeque::with_capacity(WINDOW),
            disk_usage_history: VecDeque::with_capacity(WINDOW),
            swap_history: VecDeque::with_capacity(WINDOW),
            proc_state: TabState::default(),
            net_state: TabState::default(),
            files_state: TabState::default(),
            selected: None,
            kill_state: None,
            scroll_step: 3,
            proc_sort_field: ProcSortField::Cpu,
            proc_sort_asc: false,
            should_quit: false,
            help_visible: false,
            kill_feedback: None,
            paused: false,
            history_window: WINDOW,
            term_width: 80,
            term_height: 24,
            error_msg: None,
        }
    }

    /// Appends one sample to every history, keeping at most
    /// `history_window` values in each.
    pub fn push_history(&mut self, p: HistoryPoint)
        ensures
            final(self)@ == push_history_spec(old(self)@, p),
    {
        let w = self.history_window;
        push_bounded(&mut self.cpu_history, p.cpu, w);
        push_bounded(&mut self.mem_history, p.mem, w);
        push_bounded(&mut self.net_rx_history, p.net_rx, w);
        push_bounded(&mut self.net_tx_history, p.net_tx, w);
        push_bounded(&mut self.disk_read_history, p.disk_read, w);
        push_bounded(&mut self.disk_write_history, p.disk_write, w);
        push_bounded(&mut self.temp_history, p.temp, w);
        push_bounded(&mut self.disk_usage_history, p.disk_usage, w);
        push_bounded(&mut self.swap_history, p.swap, w);
        assert(self@ =~= push_history_spec(old(self)@, p));
    }

    /// Keeps the process cursor on one of the `shown` rows (name and PID, in
    /// the order the table shows them) and makes the row under it the
    /// selected process, the one a kill is sent to; nothing is selected
    /// when no rows are shown.
    pub fn select_row(&mut self, shown: &[(String, u32)])
        ensures
            ({
                let sel = clamped_selection(old(self).proc_state.selection, shown.len());
                final(self)@ == (AppView {
                    proc_state: TabStateView { selection: sel, ..old(self)@.proc_state },
                    selected: if sel < shown.len() {
                        Some(SelectionView { pid: shown@[sel as int].1, name: shown@[sel as int].0@ })
                    } else {
                        None
                    },
                    ..old(self)@
                })
            }),
    {
        clamp_selection(&mut self.proc_state, shown.len());
        let sel = self.proc_state.selection;
        if sel < shown.len() {
            let name = shown[sel].0.clone();
            self.selected = Some(SelectionState { pid: shown[sel].1, name });
        } else {
            self.selected = None;
        }
        assert(self@.proc_state =~= TabStateView {
            selection: clamped_selection(old(self).proc_state.selection, shown.len()),
            ..old(self)@.proc_state
        });
    }

    /// The PID of the selected process, or 0.
    pub fn selected_pid(&self) -> (r: u32)
        ensures
            r == match self.selected {
                Some(s) => s.pid,
                None => 0,
            },
    {
        match &self.selected {
            Some(s) => s.pid,
            None => 0,
        }
    }

    /// The name of the selected process, or `"?"`.
    pub fn selected_name(&self) -> (r: &str)
        ensures
            r@ == match self.selected {
                Some(s) => s.name@,
                None => "?"@,
            },
    {
        match &self.selected {
            Some(s) => s.name.as_str(),
            None => "?",
        }
    }

    /// The search state of the active tab, if it has one, to change.
    pub fn tab_state_mut(&mut self) -> (r: Option<&mut TabState>)
        ensures
            match old(self).active_tab {
                Tab::Proc => r is Some && *r->0 == old(self).proc_state && *final(self) == (App {
                    proc_state: *final(r->0),
                    ..*old(self)
                }),
                Tab::Net => r is Some && *r->0 == old(self).net_state && *final(self) == (App {
                    net_state: *final(r->0),
                    ..*old(self)
                }),
                Tab::Files => r is Some && *r->0 == old(self).files_state && *final(self) == (App {
                    files_state: *final(r->0),
                    ..*old(self)
                }),
                _ => r is None && *final(self) == *old(self),
            },
    {
        match self.active_tab {
            Tab::Proc => Some(&mut self.proc_state),
            Tab::Net => Some(&mut self.net_state),
            Tab::Files => Some(&mut self.files_state),
            _ => None,
        }
    }

    /// The search state of the active tab, if it has one.
    pub fn tab_state(&self) -> (r: Option<&TabState>)
        ensures
            r == match self.active_tab {
                Tab::Proc => Some(&self.proc_state),
                Tab::Net => Some(&self.net_state),
                Tab::Files => Some(&self.files_state),
                _ => None,
            },
    {
        match self.active_tab {
            Tab::Proc => Some(&self.proc_state),
            Tab::Net => Some(&self.net_state),
            Tab::Files => Some(&self.files_state),
            _ => None,
        }
    }
}

// ── Keyboard ────────────────────────────────────────────────────────────

/// The search state of the active tab, if it has one.
pub open spec fn active_state(a: AppView) -> Option<TabStateView> {
    match a.active_tab {
        Tab::Proc => Some(a.proc_state),
        Tab::Net => Some(a.net_state),
        Tab::Files => Some(a.files_state),
        _ => None,
    }
}

/// `a` with the search state of the active tab replaced by `st` (no change
/// on a tab without one).
pub open spec fn with_active_state(a: AppView, st: TabStateView) -> AppView {
    match a.active_tab {
        Tab::Proc => AppView { proc_state: st, ..a },
        Tab::Net => AppView { net_state: st, ..a },
        Tab::Files => AppView { files_state: st, ..a },
        _ => a,
    }
}

/// On the process tab, forgets the selected process and closes the kill
/// dialog; elsewhere changes nothing.
pub open spec fn clear_selection_and_kill_spec(a: AppView) -> AppView {
    if a.active_tab == Tab::Proc {
        AppView { selected: None, kill_state: None, ..a }
    } else {
        a
    }
}

/// A key typed into a focused search box: the new query, whether the box
/// stays focused, and whether the key was used up.
pub open spec fn search_input_spec(q: Seq<char>, focused: bool, key: KeyEvent) -> (
    Seq<char>,
    bool,
    bool,
) {
    match key.code {
        KeyCode::Char(c) => if key.modifiers.none_held() {
            (if (encode_utf8(q).len() as usize) < MAX_QUERY_LEN { q.push(c) } else { q }, focused, true)
        } else {
            (q, false, true)
        },
        KeyCode::Backspace => {
            let q2 = if q.len() > 0 { q.drop_last() } else { q };
            (q2, if q2.len() == 0 { false } else { focused }, true)
        },
        KeyCode::Esc => (Seq::empty(), false, true),
        KeyCode::Up | KeyCode::Down | KeyCode::PageUp | KeyCode::PageDown => (q, false, false),
        KeyCode::F(_) | KeyCode::Insert | KeyCode::Home | KeyCode::End | KeyCode::Null => (
            q,
            focused,
            true,
        ),
        _ => (q, false, true),
    }
}

/// Whether `key` is Ctrl+K.
pub open spec fn is_ctrl_k(key: KeyEvent) -> bool {
    key.code == KeyCode::Char('k') && key.modifiers.control
}

/// A key offered to the focused search box of the active tab: the new state
/// and whether the key goes no further.
pub open spec fn search_step(a: AppView, key: KeyEvent) -> (AppView, bool) {
    match active_state(a) {
        Some(st) => if st.focused {
            let r = search_input_spec(st.query, st.focused, key);
            (
                with_active_state(a, TabStateView { query: r.0, focused: r.1, ..st }),
                r.2 && !is_ctrl_k(key),
            )
        } else {
            (a, false)
        },
        None => (a, false),
    }
}

/// What a key does in the kill dialog: picks a signal, or closes the dialog.
pub open spec fn kill_confirm_spec(key: KeyEvent) -> Option<KillState> {
    match key.code {
        KeyCode::Char(c) => match signal_for_key_spec(c) {
            Some(s) => Some(KillState::Dispatch(s)),
            None => None,
        },
        _ => None,
    }
}

/// The sort field and direction that key `c` picks on the process tab.
pub open spec fn sort_key_for(c: char) -> Option<(ProcSortField, bool)> {
    if c == 'n' {
        Some((ProcSortField::Name, true))
    } else if c == 'p' {
        Some((ProcSortField::Pid, true))
    } else if c == 'c' {
        Some((ProcSortField::Cpu, false))
    } else if c == 'm' {
        Some((ProcSortField::Memory, false))
    } else if c == 'v' {
        Some((ProcSortField::VirtualMemory, false))
    } else if c == 't' {
        Some((ProcSortField::RunTime, false))
    } else if c == 's' {
        Some((ProcSortField::Status, true))
    } else {
        None
    }
}

/// A sort key on the process tab: the new state, or `None` when `key` is
/// not one.
pub open spec fn sort_key_step(a: AppView, key: KeyEvent) -> Option<AppView> {
    if a.active_tab != Tab::Proc || !key.modifiers.none_held() {
        None
    } else {
        match key.code {
            KeyCode::Char(c) => if c == 'r' {
                Some(AppView { proc_sort_asc: !a.proc_sort_asc, ..a })
            } else {
                match sort_key_for(c) {
                    Some(fa) => Some(AppView { proc_sort_field: fa.0, proc_sort_asc: fa.1, ..a }),
                    None => None,
                }
            },
            _ => None,
        }
    }
}

/// The orientation after `o` in the Ctrl+T cycle.
pub open spec fn next_orientation(o: TabOrientation) -> TabOrientation {
    match o {
        TabOrientation::Sidebar => TabOrientation::Horizontal,
        TabOrientation::Horizontal => TabOrientation::HorizontalFooter,
        TabOrientation::HorizontalFooter => TabOrientation::Sidebar,
    }
}

/// Ctrl+S: hides or shows the tab bar in a horizontal layout, the sidebar
/// otherwise.
pub open spec fn toggle_sidebar_or_bar_spec(a: AppView) -> AppView {
    if a.tab_orientation != TabOrientation::Sidebar {
        AppView { tab_bar_visible: !a.tab_bar_visible, ..a }
    } else {
        AppView { sidebar_visible: !a.sidebar_visible, ..a }
    }
}

/// The selection after navigation key `code`.
pub open spec fn move_selection_spec(code: KeyCode, sel: usize) -> usize {
    match code {
        KeyCode::Up => sel.saturating_sub(1),
        KeyCode::Down => sel.saturating_add(1),
        KeyCode::PageUp => sel.saturating_sub(PAGE_SIZE as usize),
        KeyCode::PageDown => sel.saturating_add(PAGE_SIZE as usize),
        _ => sel,
    }
}

/// A navigation key: moves the selection of the active tab (and, on the
/// process tab, forgets the selected process and closes the kill dialog).
pub open spec fn nav_spec(a: AppView, code: KeyCode) -> AppView {
    match active_state(a) {
        Some(st) => clear_selection_and_kill_spec(
            with_active_state(a, TabStateView { selection: move_selection_spec(code, st.selection), ..st }),
        ),
        None => a,
    }
}

/// The remaining keys: quit, help, tab changes, search, layout, selection
/// and the kill dialog.
pub open spec fn dispatch_spec(a: AppView, key: KeyEvent) -> AppView {
    let m = key.modifiers;
    match key.code {
        KeyCode::Char(c) => if c == 'q' && m.none_held() {
            AppView { should_quit: true, ..a }
        } else if c == '?' && m.none_held() {
            AppView { help_visible: !a.help_visible, ..a }
        } else if m.none_held() && '1' <= c && c <= '9' {
            AppView { active_tab: tab_at(c as int - 49), ..a }
        } else if c == '/' && m.none_held() {
            match active_state(a) {
                Some(st) => with_active_state(a, TabStateView { focused: true, ..st }),
                None => a,
            }
        } else if c == 't' && m.control {
            AppView { tab_orientation: next_orientation(a.tab_orientation), ..a }
        } else if c == 's' && m.control {
            toggle_sidebar_or_bar_spec(a)
        } else if c == 'k' && m.control && a.active_tab == Tab::Proc && a.selected is Some {
            AppView { kill_state: Some(KillState::Dispatch(KillSignal::Kill)), ..a }
        } else {
            a
        },
        KeyCode::Tab => AppView { active_tab: next_tab(a.active_tab), ..a },
        KeyCode::BackTab => AppView { active_tab: prev_tab(a.active_tab), ..a },
        KeyCode::Up | KeyCode::Down | KeyCode::PageUp | KeyCode::PageDown => nav_spec(a, key.code),
        KeyCode::Right => if a.tab_orientation != TabOrientation::Sidebar {
            AppView { active_tab: next_tab(a.active_tab), ..a }
        } else {
            a
        },
        KeyCode::Left => if a.tab_orientation != TabOrientation::Sidebar {
            AppView { active_tab: prev_tab(a.active_tab), ..a }
        } else {
            a
        },
        KeyCode::Delete => if a.active_tab == Tab::Proc && a.selected is Some {
            AppView { kill_state: Some(KillState::Confirm), ..a }
        } else {
            a
        },
        _ => a,
    }
}

/// What one key press does to the application.
///
/// Ctrl+C quits. Otherwise a focused search box sees the key first; if it
/// does not use it up, an open help overlay closes (and `?` stops there),
/// the kill dialog takes the key, Space pauses or resumes, sort keys apply
/// on the process tab, and the remaining keys are dispatched.
pub open spec fn key_step(a: AppView, key: KeyEvent) -> AppView {
    if key.code == KeyCode::Char('c') && key.modifiers.control {
        AppView { should_quit: true, ..a }
    } else {
        let s = search_step(a, key);
        let a1 = s.0;
        if s.1 {
            a1
        } else {
            let a2 = if a1.help_visible { AppView { help_visible: false, ..a1 } } else { a1 };
            if a1.help_visible && key.code == KeyCode::Char('?') {
                a2
            } else if a2.kill_state == Some(KillState::Confirm) {
                AppView { kill_state: kill_confirm_spec(key), ..a2 }
            } else if key.code == KeyCode::Char(' ') && key.modifiers.none_held() {
                AppView { paused: !a2.paused, ..a2 }
            } else {
                match sort_key_step(a2, key) {
                    Some(a3) => a3,
                    None => dispatch_spec(a2, key),
                }
            }
        }
    }
}

impl TabState {
    /// Feeds one key to this (focused) search box; returns whether the key
    /// was used up.
    pub fn search_input(&mut self, key: KeyEvent) -> (r: bool)
        ensures
            final(self).query@ == search_input_spec(old(self).query@, old(self).focused, key).0,
            final(self).focused == search_input_spec(old(self).query@, old(self).focused, key).1,
            r == search_input_spec(old(self).query@, old(self).focused, key).2,
            final(self).scroll == old(self).scroll,
            final(self).selection == old(self).selection,
    {
        match key.code {
            KeyCode::Char(c) => {
                if key.modifiers.is_empty() {
                    if self.query.as_str().len() < MAX_QUERY_LEN {
                        push_char(&mut self.query, c);
                    }
                } else {
                    self.focused = false;
                }
                true
            },
            KeyCode::Backspace => {
                let _ = pop_char(&mut self.query);
                if self.query.as_str().is_empty() {
                    self.focused = false;
                }
                true
            },
            KeyCode::Esc => {
                clear_string(&mut self.query);
                self.focused = false;
                true
            },
            KeyCode::Up | KeyCode::Down | KeyCode::PageUp | KeyCode::PageDown => {
                self.focused = false;
                false
            },
            KeyCode::F(_) | KeyCode::Insert | KeyCode::Home | KeyCode::End | KeyCode::Null => true,
            _ => {
                self.focused = false;
                true
            },
        }
    }

    /// Moves the selection for a navigation key; returns whether `code` is one.
    pub fn move_selection(&mut self, code: KeyCode) -> (r: bool)
        ensures
            final(self).selection == move_selection_spec(code, old(self).selection),
            final(self).query@ == old(self).query@,
            final(self).focused == old(self).focused,
            final(self).scroll == old(self).scroll,
            r == (code == KeyCode::Up || code == KeyCode::Down || code == KeyCode::PageUp
                || code == KeyCode::PageDown),
    {
        match code {
            KeyCode::Up => {
                self.selection = self.selection.saturating_sub(1);
            },
            KeyCode::Down => {
                self.selection = self.selection.saturating_add(1);
            },
            KeyCode::PageUp => {
                self.selection = self.selection.saturating_sub(PAGE_SIZE);
            },
            KeyCode::PageDown => {
                self.selection = self.selection.saturating_add(PAGE_SIZE);
            },
            _ => {
                return false;
            },
        }
        true
    }
}

impl App {
    /// Feeds `key` to the focused search box of the active tab, if any;
    /// returns whether the key goes no further.
    fn handle_search_mode(&mut self, key: KeyEvent) -> (r: bool)
        ensures
            final(self)@ == search_step(old(self)@, key).0,
            r == search_step(old(self)@, key).1,
    {
        let is_ctrl_k = key.code == KeyCode::Char('k') && key.modifiers.contains_control();
        let consumed = match self.active_tab {
            Tab::Proc => {
                if !self.proc_state.focused {
                    return false;
                }
                self.proc_state.search_input(key)
            },
            Tab::Net => {
                if !self.net_state.focused {
                    return false;
                }
                self.net_state.search_input(key)
            },
            Tab::Files => {
                if !self.files_state.focused {
                    return false;
                }
                self.files_state.search_input(key)
            },
            _ => {
                return false;
            },
        };
        assert(self@ =~= search_step(old(self)@, key).0);
        consumed && !is_ctrl_k
    }

    /// In the kill dialog, picks the signal for `key` or closes the dialog;
    /// returns whether the dialog was open.
    fn handle_kill_confirm_mode(&mut self, key: KeyEvent) -> (r: bool)
        ensures
            r == (old(self).kill_state == Some(KillState::Confirm)),
            r ==> final(self)@ == (AppView { kill_state: kill_confirm_spec(key), ..old(self)@ }),
            !r ==> final(self)@ == old(self)@,
    {
        if self.kill_state != Some(KillState::Confirm) {
            return false;
        }
        self.kill_state = match key.code {
            KeyCode::Char(c) => match KillSignal::for_key(c) {
                Some(s) => Some(KillState::Dispatch(s)),
                None => None,
            },
            _ => None,
        };
        assert(self@ =~= AppView { kill_state: kill_confirm_spec(key), ..old(self)@ });
        true
    }

    /// Applies a sort key on the process tab; returns whether `key` was one.
    fn handle_proc_sort_key(&mut self, key: KeyEvent) -> (r: bool)
        ensures
            r == sort_key_step(old(self)@, key) is Some,
            r ==> final(self)@ == sort_key_step(old(self)@, key)->0,
            !r ==> final(self)@ == old(self)@,
    {
        if !self.active_tab.is_proc() || !key.modifiers.is_empty() {
            return false;
        }
        if let KeyCode::Char(c) = key.code {
            if c == 'r' {
                self.proc_sort_asc = !self.proc_sort_asc;
                assert(self@ =~= sort_key_step(old(self)@, key)->0);
                return true;
            }
            let pick: Option<(ProcSortField, bool)> = if c == 'n' {
                Some((ProcSortField::Name, true))
            } else if c == 'p' {
                Some((ProcSortField::Pid, true))
            } else if c == 'c' {
                Some((ProcSortField::Cpu, false))
            } else if c == 'm' {
                Some((ProcSortField::Memory, false))
            } else if c == 'v' {
                Some((ProcSortField::VirtualMemory, false))
            } else if c == 't' {
                Some((ProcSortField::RunTime, false))
            } else if c == 's' {
                Some((ProcSortField::Status, true))
            } else {
                None
            };
            if let Some((field, asc)) = pick {
                self.proc_sort_field = field;
                self.proc_sort_asc = asc;
                assert(self@ =~= sort_key_step(old(self)@, key)->0);
                return true;
            }
        }
        false
    }

    /// On the process tab, forgets the selected process and closes the kill
    /// dialog.
    fn clear_selection_and_kill(&mut self)
        ensures
            final(self)@ == clear_selection_and_kill_spec(old(self)@),
    {
        if self.active_tab.is_proc() {
            self.selected = None;
            self.kill_state = None;
        }
        assert(self@ =~= clear_selection_and_kill_spec(old(self)@));
    }

    /// Moves the selection of the active tab for a navigation key.
    fn move_active_selection(&mut self, code: KeyCode)
        ensures
            final(self)@ == match active_state(old(self)@) {
                Some(st) => with_active_state(
                    old(self)@,
                    TabStateView { selection: move_selection_spec(code, st.selection), ..st },
                ),
                None => old(self)@,
            },
    {
        match self.active_tab {
            Tab::Proc => {
                self.proc_state.move_selection(code);
            },
            Tab::Net => {
                self.net_state.move_selection(code);
            },
            Tab::Files => {
                self.files_state.move_selection(code);
            },
            _ => {},
        }
        assert(self@ =~= match active_state(old(self)@) {
            Some(st) => with_active_state(
                old(self)@,
                TabStateView { selection: move_selection_spec(code, st.selection), ..st },
            ),
            None => old(self)@,
        });
    }

    /// Moves the selection of the active tab for a navigation key and, on
    /// the process tab, forgets the selected process.
    fn handle_nav_key(&mut self, code: KeyCode)
        ensures
            final(self)@ == nav_spec(old(self)@, code),
    {
        if self.active_tab.has_searchable_state() {
            self.move_active_selection(code);
            self.clear_selection_and_kill();
        }
    }

    /// Focuses the search box of the active tab, if it has one.
    fn focus_search(&mut self)
        ensures
            final(self)@ == match active_state(old(self)@) {
                Some(st) => with_active_state(old(self)@, TabStateView { focused: true, ..st }),
                None => old(self)@,
            },
    {
        match self.active_tab {
            Tab::Proc => {
                self.proc_state.focused = true;
            },
            Tab::Net => {
                self.net_state.focused = true;
            },
            Tab::Files => {
                self.files_state.focused = true;
            },
            _ => {},
        }
        assert(self@ =~= match active_state(old(self)@) {
            Some(st) => with_active_state(old(self)@, TabStateView { focused: true, ..st }),
            None => old(self)@,
        });
    }

    /// Moves to the next (`forward`) or previous tab.
    pub fn cycle_tab(&mut self, forward: bool)
        ensures
            final(self)@ == (AppView {
                active_tab: if forward {
                    next_tab(old(self).active_tab)
                } else {
                    prev_tab(old(self).active_tab)
                },
                ..old(self)@
            }),
    {
        self.active_tab = self.active_tab.cycled(forward);
        assert(self@ =~= AppView {
            active_tab: if forward {
                next_tab(old(self).active_tab)
            } else {
                prev_tab(old(self).active_tab)
            },
            ..old(self)@
        });
    }

    /// Ctrl+T: Sidebar, then Horizontal, then HorizontalFooter, then Sidebar.
    fn cycle_orientation(&mut self)
        ensures
            final(self)@ == (AppView {
                tab_orientation: next_orientation(old(self).tab_orientation),
                ..old(self)@
            }),
    {
        self.tab_orientation = match self.tab_orientation {
            TabOrientation::Sidebar => TabOrientation::Horizontal,
            TabOrientation::Horizontal => TabOrientation::HorizontalFooter,
            TabOrientation::HorizontalFooter => TabOrientation::Sidebar,
        };
        assert(self@ =~= AppView {
            tab_orientation: next_orientation(old(self).tab_orientation),
            ..old(self)@
        });
    }

    /// Ctrl+S: hides or shows the tab bar (horizontal layouts) or the sidebar.
    fn toggle_sidebar_or_bar(&mut self)
        ensures
            final(self)@ == toggle_sidebar_or_bar_spec(old(self)@),
    {
        if self.tab_orientation.is_horizontal() {
            self.tab_bar_visible = !self.tab_bar_visible;
        } else {
            self.sidebar_visible = !self.sidebar_visible;
        }
        assert(self@ =~= toggle_sidebar_or_bar_spec(old(self)@));
    }

    /// The keys that reach no earlier stage.
    fn dispatch_key(&mut self, key: KeyEvent)
        ensures
            final(self)@ == dispatch_spec(old(self)@, key),
    {
        let empty = key.modifiers.is_empty();
        let ctrl = key.modifiers.contains_control();
        match key.code {
            KeyCode::Char(c) => {
                if c == 'q' && empty {
                    self.should_quit = true;
                } else if c == '?' && empty {
                    self.help_visible = !self.help_visible;
                } else if empty && '1' <= c && c <= '9' {
                    let idx: usize = (c as u32 - 49) as usize;
                    if let Some(t) = Tab::from_index(idx) {
                        self.active_tab = t;
                    }
                } else if c == '/' && empty {
                    self.focus_search();
                    return;
                } else if c == 't' && ctrl {
                    self.cycle_orientation();
                    return;
                } else if c == 's' && ctrl {
                    self.toggle_sidebar_or_bar();
                    return;
                } else if c == 'k' && ctrl && self.active_tab.is_proc() && self.selected.is_some() {
                    self.kill_state = Some(KillState::Dispatch(KillSignal::Kill));
                }
            },
            KeyCode::Tab => {
                self.cycle_tab(true);
                return;
            },
            KeyCode::BackTab => {
                self.cycle_tab(false);
                return;
            },
            KeyCode::Up | KeyCode::Down | KeyCode::PageUp | KeyCode::PageDown => {
                self.handle_nav_key(key.code);
                return;
            },
            KeyCode::Right => {
                if self.tab_orientation.is_horizontal() {
                    self.cycle_tab(true);
                    return;
                }
            },
            KeyCode::Left => {
                if self.tab_orientation.is_horizontal() {
                    self.cycle_tab(false);
                    return;
                }
            },
            KeyCode::Delete => {
                if self.active_tab.is_proc() && self.selected.is_some() {
                    self.kill_state = Some(KillState::Confirm);
                }
            },
            _ => {},
        }
        assert(self@ =~= dispatch_spec(old(self)@, key));
    }

    /// Applies one key press (see `key_step`).
    pub fn handle_key(&mut self, key: KeyEvent)
        ensures
            final(self)@ == key_step(old(self)@, key),
    {
        if key.code == KeyCode::Char('c') && key.modifiers.contains_control() {
            self.should_quit = true;
            assert(self@ =~= key_step(old(self)@, key));
            return;
        }
        if self.handle_search_mode(key) {
            return;
        }
        let ghost a1 = self@;
        if self.help_visible {
            self.help_visible = false;
            if key.code == KeyCode::Char('?') {
                assert(self@ =~= key_step(old(self)@, key));
                return;
            }
        }
        let ghost a2 = self@;
        assert(a2 =~= (if a1.help_visible { AppView { help_visible: false, ..a1 } } else { a1 }));
        if self.handle_kill_confirm_mode(key) {
            return;
        }
        if key.code == KeyCode::Char(' ') && key.modifiers.is_empty() {
            self.paused = !self.paused;
            assert(self@ =~= key_step(old(self)@, key));
            return;
        }
        if self.handle_proc_sort_key(key) {
            return;
        }
        self.dispatch_key(key);
    }
}

// ── Mouse ───────────────────────────────────────────────────────────────

/// The tab under column `col` of a horizontal tab bar, for a terminal
/// `term_width` columns wide: the bar's inner width is split evenly between
/// the nine tabs (at least one column each).
pub open spec fn tab_from_click_spec(term_width: u16, col: u16) -> Option<nat> {
    let w0 = term_width.saturating_sub(2) / 9;
    let tab_width: u16 = if w0 >= 1 { w0 } else { 1 };
    let idx = col.saturating_sub(1) / tab_width;
    if idx < 9 {
        Some(idx as nat)
    } else {
        None
    }
}

/// A left click on the sidebar: the new state, or `None` when the click is
/// not on a sidebar entry.
pub open spec fn sidebar_click_spec(a: AppView, col: u16, row: u16) -> Option<AppView> {
    if a.tab_orientation == TabOrientation::Sidebar && a.sidebar_visible && 1 <= col && col <= 9
        && row >= 1 && row - 1 < 9 {
        Some(AppView { active_tab: tab_at(row - 1), kill_state: None, ..a })
    } else {
        None
    }
}

/// Whether `row` is the row of the horizontal tab bar.
pub open spec fn tab_bar_row(a: AppView, row: u16) -> bool {
    match a.tab_orientation {
        TabOrientation::Horizontal => row == 1,
        TabOrientation::HorizontalFooter => row == a.term_height.saturating_sub(3),
        TabOrientation::Sidebar => false,
    }
}

/// A left click on the horizontal tab bar: the new state, or `None` when
/// the click is not on a tab.
pub open spec fn tab_bar_click_spec(a: AppView, col: u16, row: u16) -> Option<AppView> {
    if a.tab_bar_visible && tab_bar_row(a, row) {
        match tab_from_click_spec(a.term_width, col) {
            Some(i) => Some(AppView { active_tab: tab_at(i as int), kill_state: None, ..a }),
            None => None,
        }
    } else {
        None
    }
}

/// The first screen row of the data table of the active searchable tab.
pub open spec fn data_start_row(a: AppView, st: TabStateView) -> int {
    let tab_y = if a.tab_orientation == TabOrientation::Horizontal && a.tab_bar_visible {
        2int
    } else {
        1int
    };
    let search_h = if st.query.len() > 0 || st.focused {
        3int
    } else {
        0int
    };
    tab_y + search_h + 2
}

/// A left click in the data area of a searchable tab: unfocuses the search
/// box and selects the clicked row (at most `MAX_CLICK_OFFSET` rows below
/// the scroll position).
pub open spec fn data_click_spec(a: AppView, row: u16) -> AppView {
    match active_state(a) {
        Some(st) => {
            let start = data_start_row(a, st);
            if row >= start {
                let offset = row - start;
                let step = if offset <= MAX_CLICK_OFFSET {
                    offset
                } else {
                    MAX_CLICK_OFFSET as int
                };
                clear_selection_and_kill_spec(
                    with_active_state(
                        a,
                        TabStateView {
                            focused: false,
                            selection: st.scroll.saturating_add(step as usize),
                            ..st
                        },
                    ),
                )
            } else {
                a
            }
        },
        None => a,
    }
}

/// A left click.
pub open spec fn click_spec(a: AppView, col: u16, row: u16) -> AppView {
    match sidebar_click_spec(a, col, row) {
        Some(b) => b,
        None => match tab_bar_click_spec(a, col, row) {
            Some(b) => b,
            None => data_click_spec(a, row),
        },
    }
}

/// Whether (`col`, `row`) is on the visible tab list.
pub open spec fn on_tab_bar_spec(a: AppView, col: u16, row: u16) -> bool {
    match a.tab_orientation {
        TabOrientation::Sidebar => a.sidebar_visible && 1 <= col && col <= 9 && row >= 1 && row
            - 1 < 9,
        TabOrientation::Horizontal => a.tab_bar_visible && row == 1,
        TabOrientation::HorizontalFooter => a.tab_bar_visible && row == a.term_height.saturating_sub(
            3,
        ),
    }
}

/// The mouse wheel over the data: moves the selection of the active tab by
/// `scroll_step` rows (and, on the process tab, forgets the selected process).
pub open spec fn scroll_spec(a: AppView, up: bool) -> AppView {
    match active_state(a) {
        Some(st) => clear_selection_and_kill_spec(
            with_active_state(
                a,
                TabStateView {
                    selection: if up {
                        st.selection.saturating_sub(a.scroll_step)
                    } else {
                        st.selection.saturating_add(a.scroll_step)
                    },
                    ..st
                },
            ),
        ),
        None => a,
    }
}

/// What one mouse event at (`col`, `row`) does to the application: a left
/// click switches tabs or selects a row; the wheel switches tabs over the
/// tab list and moves the selection elsewhere.
pub open spec fn mouse_step(a: AppView, col: u16, row: u16, kind: MouseEventKind) -> AppView {
    match kind {
        MouseEventKind::Down(MouseButton::Left) => click_spec(a, col, row),
        MouseEventKind::ScrollUp => if on_tab_bar_spec(a, col, row) {
            AppView { active_tab: prev_tab(a.active_tab), ..a }
        } else {
            scroll_spec(a, true)
        },
        MouseEventKind::ScrollDown => if on_tab_bar_spec(a, col, row) {
            AppView { active_tab: next_tab(a.active_tab), ..a }
        } else {
            scroll_spec(a, false)
        },
        _ => a,
    }
}

impl App {
    /// The tab under column `col` of the horizontal tab bar, if any.
    pub fn tab_from_horizontal_click(&self, col: u16) -> (r: Option<usize>)
        ensures
            r == match tab_from_click_spec(self.term_width, col) {
                Some(i) => Some(i as usize),
                None => None,
            },
    {
        let w0 = self.term_width.saturating_sub(2) / 9;
        let tab_width: u16 = if w0 >= 1 {
            w0
        } else {
            1
        };
        let idx = col.saturating_sub(1) / tab_width;
        if (idx as usize) < TAB_COUNT {
            Some(idx as usize)
        } else {
            None
        }
    }

    fn handle_sidebar_click(&mut self, col: u16, row: u16) -> (r: bool)
        ensures
            r == sidebar_click_spec(old(self)@, col, row) is Some,
            r ==> final(self)@ == sidebar_click_spec(old(self)@, col, row)->0,
            !r ==> final(self)@ == old(self)@,
    {
        if self.tab_orientation == TabOrientation::Sidebar && self.sidebar_visible && 1 <= col
            && col <= 9 && row >= 1 {
            let idx = (row - 1) as usize;
            if let Some(t) = Tab::from_index(idx) {
                self.active_tab = t;
                self.kill_state = None;
                assert(self@ =~= sidebar_click_spec(old(self)@, col, row)->0);
                return true;
            }
        }
        false
    }

    fn handle_tab_bar_click(&mut self, col: u16, row: u16) -> (r: bool)
        ensures
            r == tab_bar_click_spec(old(self)@, col, row) is Some,
            r ==> final(self)@ == tab_bar_click_spec(old(self)@, col, row)->0,
            !r ==> final(self)@ == old(self)@,
    {
        let on_row = match self.tab_orientation {
            TabOrientation::Horizontal => row == 1,
            TabOrientation::HorizontalFooter => row == self.term_height.saturating_sub(3),
            TabOrientation::Sidebar => false,
        };
        if self.tab_bar_visible && on_row {
            if let Some(idx) = self.tab_from_horizontal_click(col) {
                if let Some(t) = Tab::from_index(idx) {
                    self.active_tab = t;
                    self.kill_state = None;
                    assert(self@ =~= tab_bar_click_spec(old(self)@, col, row)->0);
                    return true;
                }
            }
        }
        false
    }

    /// Sets the focus and selection of the active tab's search state.
    fn select_in_active(&mut self, selection: usize)
        ensures
            final(self)@ == match active_state(old(self)@) {
                Some(st) => with_active_state(
                    old(self)@,
                    TabStateView { focused: false, selection: selection, ..st },
                ),
                None => old(self)@,
            },
    {
        match self.active_tab {
            Tab::Proc => {
                self.proc_state.focused = false;
                self.proc_state.selection = selection;
            },
            Tab::Net => {
                self.net_state.focused = false;
                self.net_state.selection = selection;
            },
            Tab::Files => {
                self.files_state.focused = false;
                self.files_state.selection = selection;
            },
            _ => {},
        }
        assert(self@ =~= match active_state(old(self)@) {
            Some(st) => with_active_state(
                old(self)@,
                TabStateView { focused: false, selection: selection, ..st },
            ),
            None => old(self)@,
        });
    }

    fn handle_searchable_data_click(&mut self, row: u16)
        ensures
            final(self)@ == data_click_spec(old(self)@, row),
    {
        let (scroll, has_query, focused) = match self.tab_state() {
            Some(st) => (st.scroll, !st.query.as_str().is_empty(), st.focused),
            None => {
                return;
            },
        };
        let ghost st = active_state(old(self)@)->0;
        assert(st.scroll == scroll && (st.query.len() > 0) == has_query && st.focused == focused);
        let tab_y: u16 = if self.tab_orientation == TabOrientation::Horizontal
            && self.tab_bar_visible {
            2
        } else {
            1
        };
        let search_h: u16 = if has_query || focused {
            3
        } else {
            0
        };
        let data_start = tab_y + search_h + 2;
        assert(data_start == data_start_row(old(self)@, st));
        if row >= data_start {
            let offset = (row - data_start) as usize;
            let step = if offset <= MAX_CLICK_OFFSET {
                offset
            } else {
                MAX_CLICK_OFFSET
            };
            let selection = scroll.saturating_add(step);
            self.select_in_active(selection);
            let ghost mid = self@;
            assert(mid == with_active_state(
                old(self)@,
                TabStateView { focused: false, selection: selection, ..st },
            ));
            self.clear_selection_and_kill();
        }
    }

    fn handle_click(&mut self, col: u16, row: u16)
        ensures
            final(self)@ == click_spec(old(self)@, col, row),
    {
        if self.handle_sidebar_click(col, row) {
            return;
        }
        if self.handle_tab_bar_click(col, row) {
            return;
        }
        self.handle_searchable_data_click(row);
    }

    /// Whether (`col`, `row`) is on the visible tab list.
    pub fn is_on_tab_bar(&self, col: u16, row: u16) -> (r: bool)
        ensures
            r == on_tab_bar_spec(self@, col, row),
    {
        match self.tab_orientation {
            TabOrientation::Sidebar => self.sidebar_visible && 1 <= col && col <= 9 && row >= 1 && (
            row - 1) < 9,
            TabOrientation::Horizontal => self.tab_bar_visible && row == 1,
            TabOrientation::HorizontalFooter => self.tab_bar_visible && row
                == self.term_height.saturating_sub(3),
        }
    }

    /// Sets the selection of the active tab's search state.
    fn set_active_selection(&mut self, selection: usize)
        ensures
            final(self)@ == match active_state(old(self)@) {
                Some(st) => with_active_state(
                    old(self)@,
                    TabStateView { selection: selection, ..st },
                ),
                None => old(self)@,
            },
    {
        match self.active_tab {
            Tab::Proc => {
                self.proc_state.selection = selection;
            },
            Tab::Net => {
                self.net_state.selection = selection;
            },
            Tab::Files => {
                self.files_state.selection = selection;
            },
            _ => {},
        }
        assert(self@ =~= match active_state(old(self)@) {
            Some(st) => with_active_state(old(self)@, TabStateView { selection: selection, ..st }),
            None => old(self)@,
        });
    }

    fn apply_scroll(&mut self, up: bool)
        ensures
            final(self)@ == scroll_spec(old(self)@, up),
    {
        let step = self.scroll_step;
        let sel = match self.tab_state() {
            Some(st) => st.selection,
            None => {
                return;
            },
        };
        let selection = if up {
            sel.saturating_sub(step)
        } else {
            sel.saturating_add(step)
        };
        self.set_active_selection(selection);
        self.clear_selection_and_kill();
    }

    /// Applies one mouse event at (`col`, `row`) (see `mouse_step`).
    pub fn handle_mouse(&mut self, col: u16, row: u16, kind: MouseEventKind)
        ensures
            final(self)@ == mouse_step(old(self)@, col, row, kind),
    {
        match kind {
            MouseEventKind::Down(MouseButton::Left) => self.handle_click(col, row),
            MouseEventKind::ScrollUp => {
                if self.is_on_tab_bar(col, row) {
                    self.cycle_tab(false);
                } else {
                    self.apply_scroll(true);
                }
            },
            MouseEventKind::ScrollDown => {
                if self.is_on_tab_bar(col, row) {
                    self.cycle_tab(true);
                } else {
                    self.apply_scroll(false);
                }
            },
            _ => {},
        }
    }
}

// ── Configuration and the kill dialog ───────────────────────────────────

/// `a` after applying the configuration `c`: start tab, sidebar, layout,
/// process sort order; the history window limited to 1 ..= 3600 and the
/// mouse scroll step to 1 ..= 100.
pub open spec fn apply_config_spec(a: AppView, c: ConfigView) -> AppView {
    AppView {
        active_tab: c.default_tab,
        sidebar_visible: !c.hide_sidebar,
        tab_orientation: c.tab_orientation,
        proc_sort_field: c.proc_sort_default,
        proc_sort_asc: c.proc_sort_asc_default,
        history_window: clamp_spec(c.history_window as nat, 1, 3600) as usize,
        scroll_step: clamp_spec(c.scroll_step as nat, 1, 100) as usize,
        ..a
    }
}

/// Taking the signal that the kill dialog picked: the new state and the
/// process and signal to send, if any. The dialog closes; without a
/// selected process, the feedback says so instead.
pub open spec fn take_kill_spec(a: AppView) -> (AppView, Option<(u32, KillSignal)>) {
    match a.kill_state {
        Some(KillState::Dispatch(s)) => match a.selected {
            Some(sel) => (AppView { kill_state: None, ..a }, Some((sel.pid, s))),
            None => (
                AppView { kill_state: None, kill_feedback: Some("No process selected"@), ..a },
                None,
            ),
        },
        _ => (AppView { kill_state: None, ..a }, None),
    }
}

/// `v` limited to `lo ..= hi` (`lo <= hi`).
fn clamp_usize(v: usize, lo: usize, hi: usize) -> (r: usize)
    requires
        lo <= hi,
    ensures
        r == clamp_spec(v as nat, lo as nat, hi as nat),
{
    if v < lo {
        lo
    } else if v > hi {
        hi
    } else {
        v
    }
}

impl Default for App {
    fn default() -> (r: Self)
        ensures
            r@ == initial_app(),
    {
        App::new()
    }
}

impl App {
    /// Applies the configuration: start tab, sidebar, layout, sort order,
    /// history window (1 ..= 3600) and scroll step (1 ..= 100).
    pub fn apply_config(&mut self, cfg: &Config)
        ensures
            final(self)@ == apply_config_spec(old(self)@, cfg@),
    {
        self.active_tab = cfg.default_tab;
        self.sidebar_visible = !cfg.hide_sidebar;
        self.tab_orientation = cfg.tab_orientation;
        self.proc_sort_field = cfg.proc_sort_default;
        self.proc_sort_asc = cfg.proc_sort_asc_default;
        self.history_window = clamp_usize(cfg.history_window, 1, 3600);
        self.scroll_step = clamp_usize(cfg.scroll_step, 1, 100);
        assert(self@ =~= apply_config_spec(old(self)@, cfg@));
    }

    /// Closes the kill dialog and returns the process and signal it picked,
    /// if any (see `take_kill_spec`).
    pub fn take_kill_dispatch(&mut self) -> (r: Option<(u32, KillSignal)>)
        ensures
            final(self)@ == take_kill_spec(old(self)@).0,
            r == take_kill_spec(old(self)@).1,
    {
        let k = self.kill_state;
        self.kill_state = None;
        let r = match k {
            Some(KillState::Dispatch(s)) => match &self.selected {
                Some(sel) => Some((sel.pid, s)),
                None => {
                    self.kill_feedback = Some("No process selected".to_owned());
                    None
                },
            },
            _ => None,
        };
        assert(self@ =~= take_kill_spec(old(self)@).0);
        r
    }
}

// ── Laws of the event handling ──────────────────────────────────────────

/// The number of bytes of the UTF-8 encoding of `q`.
pub open spec fn query_bytes(q: Seq<char>) -> nat {
    encode_utf8(q).len()
}

/// Whether every search query is within its bound: a query is extended
/// only while it is shorter than `MAX_QUERY_LEN` bytes, and one character
/// takes at most four.
pub open spec fn queries_bounded(a: AppView) -> bool {
    &&& query_bytes(a.proc_state.query) <= MAX_QUERY_LEN + 3
    &&& query_bytes(a.net_state.query) <= MAX_QUERY_LEN + 3
    &&& query_bytes(a.files_state.query) <= MAX_QUERY_LEN + 3
}

/// The encoding of a concatenation is the concatenation of the encodings.
proof fn lemma_encode_utf8_concat(s: Seq<char>, t: Seq<char>)
    ensures
        encode_utf8(s + t) == encode_utf8(s) + encode_utf8(t),
    decreases s.len(),
{
    if s.len() == 0 {
        assert(s + t =~= t);
        assert(encode_utf8(s) + encode_utf8(t) =~= encode_utf8(t));
    } else {
        assert((s + t).drop_first() =~= s.drop_first() + t);
        assert((s + t)[0] == s[0]);
        lemma_encode_utf8_concat(s.drop_first(), t);
        assert(encode_utf8(s + t) =~= encode_utf8(s) + encode_utf8(t));
    }
}

/// Adding one character adds one to four bytes; removing the last one
/// takes some away.
proof fn lemma_query_bytes_step(q: Seq<char>, c: char)
    ensures
        query_bytes(q) + 1 <= query_bytes(q.push(c)) <= query_bytes(q) + 4,
        q.len() > 0 ==> query_bytes(q.drop_last()) <= query_bytes(q),
{
    lemma_encode_utf8_concat(q, seq![c]);
    assert(q.push(c) =~= q + seq![c]);
    assert(seq![c].drop_first() =~= Seq::<char>::empty());
    assert(encode_utf8(Seq::<char>::empty()) =~= Seq::<u8>::empty());
    assert(encode_utf8(seq![c]) =~= vstd::utf8::encode_scalar(c as u32));
    assert(1 <= vstd::utf8::encode_scalar(c as u32).len() <= 4);
    if q.len() > 0 {
        lemma_encode_utf8_concat(q.drop_last(), seq![q.last()]);
        assert(q.drop_last() + seq![q.last()] =~= q);
    }
}

/// A key typed into a search box keeps its query within the bound.
proof fn lemma_search_input_bounded(q: Seq<char>, focused: bool, key: KeyEvent)
    requires
        query_bytes(q) <= MAX_QUERY_LEN + 3,
    ensures
        query_bytes(search_input_spec(q, focused, key).0) <= MAX_QUERY_LEN + 3,
{
    match key.code {
        KeyCode::Char(c) => {
            lemma_query_bytes_step(q, c);
        },
        KeyCode::Backspace => {
            if q.len() > 0 {
                lemma_query_bytes_step(q, 'a');
            }
        },
        _ => {},
    }
}

/// No key press lets a search query grow past its bound.
pub proof fn lemma_key_keeps_queries_bounded(a: AppView, key: KeyEvent)
    requires
        queries_bounded(a),
    ensures
        queries_bounded(key_step(a, key)),
{
    match active_state(a) {
        Some(st) => {
            lemma_search_input_bounded(st.query, st.focused, key);
        },
        None => {},
    }
}

/// No mouse event changes a search query.
pub proof fn lemma_mouse_keeps_queries(a: AppView, col: u16, row: u16, kind: MouseEventKind)
    ensures
        mouse_step(a, col, row, kind).proc_state.query == a.proc_state.query,
        mouse_step(a, col, row, kind).net_state.query == a.net_state.query,
        mouse_step(a, col, row, kind).files_state.query == a.files_state.query,
{
}

/// Ctrl+C quits, whatever the state.
pub proof fn lemma_ctrl_c_quits(a: AppView, modifiers: KeyModifiers)
    requires
        modifiers.control,
    ensures
        key_step(a, KeyEvent { code: KeyCode::Char('c'), modifiers }).should_quit,
{
}

/// Whether `b` has the histories, history window, scroll step and
/// terminal size of `a`.
pub open spec fn same_histories(a: AppView, b: AppView) -> bool {
    &&& b.cpu_history == a.cpu_history
    &&& b.mem_history == a.mem_history
    &&& b.net_rx_history == a.net_rx_history
    &&& b.net_tx_history == a.net_tx_history
    &&& b.disk_read_history == a.disk_read_history
    &&& b.disk_write_history == a.disk_write_history
    &&& b.temp_history == a.temp_history
    &&& b.disk_usage_history == a.disk_usage_history
    &&& b.swap_history == a.swap_history
    &&& b.history_window == a.history_window
    &&& b.scroll_step == a.scroll_step
    &&& b.term_width == a.term_width
    &&& b.term_height == a.term_height
}

proof fn lemma_search_step_keeps_histories(a: AppView, key: KeyEvent)
    ensures
        same_histories(a, search_step(a, key).0),
{
}

proof fn lemma_sort_key_keeps_histories(a: AppView, key: KeyEvent)
    ensures
        sort_key_step(a, key) is Some ==> same_histories(a, sort_key_step(a, key)->0),
{
}

proof fn lemma_dispatch_keeps_histories(a: AppView, key: KeyEvent)
    ensures
        same_histories(a, dispatch_spec(a, key)),
{
}

/// Key presses leave the histories, the history window, the scroll step
/// and the terminal size alone.
pub proof fn lemma_keys_keep_histories(a: AppView, key: KeyEvent)
    ensures
        same_histories(a, key_step(a, key)),
{
    let a1 = search_step(a, key).0;
    lemma_search_step_keeps_histories(a, key);
    let a2 = if a1.help_visible {
        AppView { help_visible: false, ..a1 }
    } else {
        a1
    };
    lemma_sort_key_keeps_histories(a2, key);
    lemma_dispatch_keeps_histories(a2, key);
}

/// Mouse events leave the histories, the history window, the scroll step
/// and the terminal size alone.
pub proof fn lemma_mouse_keeps_histories(a: AppView, col: u16, row: u16, kind: MouseEventKind)
    ensures
        same_histories(a, mouse_step(a, col, row, kind)),
{
}

/// A signal is only ever made ready to send in two ways: by its key in the
/// open kill dialog, or as SIGKILL by Ctrl+K on the process tab with a
/// process selected.
pub proof fn lemma_kill_needs_confirmation(a: AppView, key: KeyEvent, s: KillSignal)
    requires
        key_step(a, key).kill_state == Some(KillState::Dispatch(s)),
        a.kill_state != Some(KillState::Dispatch(s)),
    ensures
        (a.kill_state == Some(KillState::Confirm) && key.code == KeyCode::Char(signal_key(s)))
            || (is_ctrl_k(key) && a.active_tab == Tab::Proc && a.selected is Some && s
            == KillSignal::Kill),
{
}

/// Whether no tab's search box has the focus.
pub open spec fn no_search_focused(a: AppView) -> bool {
    !a.proc_state.focused && !a.net_state.focused && !a.files_state.focused
}

/// With no search box focused and the kill dialog closed, Tab and then
/// BackTab come back to the same tab.
pub proof fn lemma_tab_then_backtab(a: AppView)
    requires
        no_search_focused(a),
        a.kill_state != Some(KillState::Confirm),
    ensures
        key_step(
            key_step(a, KeyEvent { code: KeyCode::Tab, modifiers: KeyModifiers { shift: false, control: false, alt: false, other: false } }),
            KeyEvent { code: KeyCode::BackTab, modifiers: KeyModifiers { shift: true, control: false, alt: false, other: false } },
        ).active_tab == a.active_tab,
{
    crate::tab::lemma_cycle_inverse(a.active_tab);
}

/// Away from the tab list, turning the wheel down and then up brings the
/// selection of the active tab back, unless it ran into the top end.
pub proof fn lemma_wheel_down_then_up(a: AppView, col: u16, row: u16)
    requires
        !on_tab_bar_spec(a, col, row),
        active_state(a) is Some,
        active_state(a)->0.selection + a.scroll_step <= usize::MAX,
    ensures
        active_state(
            mouse_step(
                mouse_step(a, col, row, MouseEventKind::ScrollDown),
                col,
                row,
                MouseEventKind::ScrollUp,
            ),
        )->0.selection == active_state(a)->0.selection,
{
}

/// Over the tab list, turning the wheel down and then up comes back to the
/// same tab.
pub proof fn lemma_wheel_on_tabs_round_trip(a: AppView, col: u16, row: u16)
    requires
        on_tab_bar_spec(a, col, row),
    ensures
        mouse_step(
            mouse_step(a, col, row, MouseEventKind::ScrollDown),
            col,
            row,
            MouseEventKind::ScrollUp,
        ).active_tab == a.active_tab,
{
    crate::tab::lemma_cycle_inverse(a.active_tab);
}

/// After applying any configuration, the history window is within
/// 1 ..= 3600 and the scroll step within 1 ..= 100.
pub proof fn lemma_apply_config_bounds(a: AppView, c: ConfigView)
    ensures
        1 <= apply_config_spec(a, c).history_window <= 3600,
        1 <= apply_config_spec(a, c).scroll_step <= 100,
{
}

/// The largest number of values a history keeps with window `w`.
pub open spec fn history_cap(w: usize) -> nat {
    if w == 0 {
        1
    } else {
        w as nat
    }
}

/// Whether every history holds at most `history_cap` values.
pub open spec fn histories_bounded(a: AppView) -> bool {
    let cap = history_cap(a.history_window);
    &&& a.cpu_history.len() <= cap
    &&& a.mem_history.len() <= cap
    &&& a.net_rx_history.len() <= cap
    &&& a.net_tx_history.len() <= cap
    &&& a.disk_read_history.len() <= cap
    &&& a.disk_write_history.len() <= cap
    &&& a.temp_history.len() <= cap
    &&& a.disk_usage_history.len() <= cap
    &&& a.swap_history.len() <= cap
}

/// Recording a sample keeps every history within its window, and each
/// history then ends with the new value.
pub proof fn lemma_push_history_bounded(a: AppView, p: HistoryPoint)
    requires
        histories_bounded(a),
    ensures
        histories_bounded(push_history_spec(a, p)),
        push_history_spec(a, p).cpu_history.last() == p.cpu,
        push_history_spec(a, p).mem_history.last() == p.mem,
        push_history_spec(a, p).swap_history.last() == p.swap,
{
}

/// `h` is `old` with `v` appended, the oldest value dropped at most.
pub open spec fn extended_by(h: Seq<u64>, old: Seq<u64>, v: u64) -> bool {
    h.len() > 0 && h.last() == v && (h.drop_last() == old || h.drop_last() == old.drop_first())
}

/// Recording a sample appends each of its values to its own history (the
/// CPU value to the CPU history, the disk usage to the disk usage history,
/// and so on), keeping every earlier value but possibly the oldest, and
/// changes nothing else.
pub proof fn lemma_push_history_records_point(a: AppView, p: HistoryPoint)
    ensures
        ({
            let b = push_history_spec(a, p);
            &&& extended_by(b.cpu_history, a.cpu_history, p.cpu)
            &&& extended_by(b.mem_history, a.mem_history, p.mem)
            &&& extended_by(b.net_rx_history, a.net_rx_history, p.net_rx)
            &&& extended_by(b.net_tx_history, a.net_tx_history, p.net_tx)
            &&& extended_by(b.disk_read_history, a.disk_read_history, p.disk_read)
            &&& extended_by(b.disk_write_history, a.disk_write_history, p.disk_write)
            &&& extended_by(b.temp_history, a.temp_history, p.temp)
            &&& extended_by(b.disk_usage_history, a.disk_usage_history, p.disk_usage)
            &&& extended_by(b.swap_history, a.swap_history, p.swap)
            &&& (AppView {
                cpu_history: a.cpu_history,
                mem_history: a.mem_history,
                net_rx_history: a.net_rx_history,
                net_tx_history: a.net_tx_history,
                disk_read_history: a.disk_read_history,
                disk_write_history: a.disk_write_history,
                temp_history: a.temp_history,
                disk_usage_history: a.disk_usage_history,
                swap_history: a.swap_history,
                ..b
            }) == a
        }),
{
    let b = push_history_spec(a, p);
    assert(b.cpu_history.drop_last() == a.cpu_history || b.cpu_history.drop_last()
        == a.cpu_history.drop_first());
    assert(b.mem_history.drop_last() == a.mem_history || b.mem_history.drop_last()
        == a.mem_history.drop_first());
    assert(b.net_rx_history.drop_last() == a.net_rx_history || b.net_rx_history.drop_last()
        == a.net_rx_history.drop_first());
    assert(b.net_tx_history.drop_last() == a.net_tx_history || b.net_tx_history.drop_last()
        == a.net_tx_history.drop_first());
    assert(b.disk_read_history.drop_last() == a.disk_read_history || b.disk_read_history.drop_last()
        == a.disk_read_history.drop_first());
    assert(b.disk_write_history.drop_last() == a.disk_write_history
        || b.disk_write_history.drop_last() == a.disk_write_history.drop_first());
    assert(b.temp_history.drop_last() == a.temp_history || b.temp_history.drop_last()
        == a.temp_history.drop_first());
    assert(b.disk_usage_history.drop_last() == a.disk_usage_history
        || b.disk_usage_history.drop_last() == a.disk_usage_history.drop_first());
    assert(b.swap_history.drop_last() == a.swap_history || b.swap_history.drop_last()
        == a.swap_history.drop_first());
}

/// Applying a configuration takes the start tab, the sidebar setting, the
/// tab layout and the process sort order from it as they are; the history
/// window and scroll step as they are when within 1 ..= 3600 and 1 ..= 100
/// (the nearest bound otherwise); and changes nothing else.
pub proof fn lemma_apply_config_takes_config(a: AppView, c: ConfigView)
    ensures
        ({
            let b = apply_config_spec(a, c);
            &&& b.active_tab == c.default_tab
            &&& b.sidebar_visible == !c.hide_sidebar
            &&& b.tab_orientation == c.tab_orientation
            &&& b.proc_sort_field == c.proc_sort_default
            &&& b.proc_sort_asc == c.proc_sort_asc_default
            &&& 1 <= c.history_window <= 3600 ==> b.history_window == c.history_window
            &&& c.history_window < 1 ==> b.history_window == 1
            &&& c.history_window > 3600 ==> b.history_window == 3600
            &&& 1 <= c.scroll_step <= 100 ==> b.scroll_step == c.scroll_step
            &&& c.scroll_step < 1 ==> b.scroll_step == 1
            &&& c.scroll_step > 100 ==> b.scroll_step == 100
            &&& (AppView {
                active_tab: a.active_tab,
                sidebar_visible: a.sidebar_visible,
                tab_orientation: a.tab_orientation,
                proc_sort_field: a.proc_sort_field,
                proc_sort_asc: a.proc_sort_asc,
                history_window: a.history_window,
                scroll_step: a.scroll_step,
                ..b
            }) == a
        }),
{
}

/// A focused search box takes every plain character typed into it, `q`
/// and the other command keys included: the character is appended to the
/// active tab's query while that query is under `MAX_QUERY_LEN` bytes (and
/// dropped after), and nothing else changes; in particular the program
/// does not quit.
pub proof fn lemma_search_box_takes_chars(a: AppView, key: KeyEvent, c: char)
    requires
        active_state(a) matches Some(st) && st.focused,
        key.code == KeyCode::Char(c),
        key.modifiers.none_held(),
    ensures
        ({
            let st = active_state(a)->0;
            let b = key_step(a, key);
            &&& b.should_quit == a.should_quit
            &&& b.active_tab == a.active_tab
            &&& query_bytes(st.query) < MAX_QUERY_LEN ==> active_state(b) == Some(
                TabStateView { query: st.query.push(c), ..st },
            )
            &&& query_bytes(st.query) < MAX_QUERY_LEN ==> b == with_active_state(
                a,
                TabStateView { query: st.query.push(c), ..st },
            )
            &&& MAX_QUERY_LEN <= query_bytes(st.query) <= usize::MAX ==> b == a
        }),
{
    let st = active_state(a)->0;
    if MAX_QUERY_LEN <= query_bytes(st.query) <= usize::MAX {
        assert(TabStateView { query: st.query, focused: st.focused, ..st } == st);
        assert(with_active_state(a, st) == a);
    }
}

/// A left click below the tabs on a searchable tab, away from the tab
/// list: the data rows start below the tab bar (one row, two when a
/// horizontal bar is on top), the search bar (three rows, shown while the
/// box is focused or holds a query) and the table header (two rows). A
/// click `d` rows into the data selects the row `d` below the scroll
/// position (at most `MAX_CLICK_OFFSET` below), unfocuses the search box
/// and, on the process tab, forgets the selected process and closes the
/// kill dialog; a click above the data changes nothing.
pub proof fn lemma_data_click_selects_row(a: AppView, col: u16, row: u16)
    requires
        active_state(a) is Some,
        !on_tab_bar_spec(a, col, row),
    ensures
        ({
            let st = active_state(a)->0;
            let tab_y: int = if a.tab_orientation == TabOrientation::Horizontal
                && a.tab_bar_visible {
                2
            } else {
                1
            };
            let bar: int = if st.query.len() > 0 || st.focused {
                3
            } else {
                0
            };
            let first = tab_y + bar + 2;
            let b = mouse_step(a, col, row, MouseEventKind::Down(MouseButton::Left));
            &&& row < first ==> b == a
            &&& row >= first ==> {
                &&& active_state(b) == Some(
                    TabStateView {
                        focused: false,
                        selection: st.scroll.saturating_add(
                            if row - first <= MAX_CLICK_OFFSET {
                                (row - first) as usize
                            } else {
                                MAX_CLICK_OFFSET
                            },
                        ),
                        ..st
                    },
                )
                &&& b.active_tab == a.active_tab
                &&& a.active_tab == Tab::Proc ==> b.selected is None && b.kill_state is None
                &&& b.should_quit == a.should_quit
            }
        }),
{
}

} // verus!
