//! The tabs of the interface, their orientation, and the process sort fields.

use vstd::prelude::*;

verus! {

/// How the tab list is laid out.
#[derive(Clone, Copy, Debug, PartialEq, Eq, Structural)]
pub enum TabOrientation {
    Sidebar,
    Horizontal,
    HorizontalFooter,
}

impl Default for TabOrientation {
    fn default() -> (r: Self)
        ensures
            r == TabOrientation::Sidebar,
    {
        TabOrientation::Sidebar
    }
}

impl TabOrientation {
    /// Whether the tabs are drawn as a horizontal bar (top or footer).
    pub fn is_horizontal(self) -> (r: bool)
        ensures
            r == (self != TabOrientation::Sidebar),
    {
        match self {
            TabOrientation::Horizontal | TabOrientation::HorizontalFooter => true,
            TabOrientation::Sidebar => false,
        }
    }
}

/// One tab of the interface.
#[derive(Clone, Copy, Debug, PartialEq, Eq, Structural)]
pub enum Tab {
    Dash,
    Proc,
    Net,
    Files,
    Time,
    Temp,
    Cores,
    Disk,
    Mem,
}

/// The number of tabs.
pub const TAB_COUNT: usize = 9;

/// The position of `t` in the tab order.
pub open spec fn tab_index(t: Tab) -> nat {
    match t {
        Tab::Dash => 0,
        Tab::Proc => 1,
        Tab::Net => 2,
        Tab::Files => 3,
        Tab::Time => 4,
        Tab::Temp => 5,
        Tab::Cores => 6,
        Tab::Disk => 7,
        Tab::Mem => 8,
    }
}

/// The tab at position `i` of the tab order (`i < 9`).
pub open spec fn tab_at(i: int) -> Tab {
    if i <= 0 {
        Tab::Dash
    } else if i == 1 {
        Tab::Proc
    } else if i == 2 {
        Tab::Net
    } else if i == 3 {
        Tab::Files
    } else if i == 4 {
        Tab::Time
    } else if i == 5 {
        Tab::Temp
    } else if i == 6 {
        Tab::Cores
    } else if i == 7 {
        Tab::Disk
    } else {
        Tab::Mem
    }
}

/// The label shown for `t`.
pub open spec fn tab_label(t: Tab) -> Seq<char> {
    match t {
        Tab::Dash => "Dash"@,
        Tab::Proc => "Proc"@,
        Tab::Net => "Net"@,
        Tab::Files => "Files"@,
        Tab::Time => "Time"@,
        Tab::Temp => "Temp"@,
        Tab::Cores => "Cores"@,
        Tab::Disk => "Disk"@,
        Tab::Mem => "Mem"@,
    }
}

/// The tab after `t`, wrapping from the last to the first.
pub open spec fn next_tab(t: Tab) -> Tab {
    tab_at(((tab_index(t) + 1) % 9) as int)
}

/// The tab before `t`, wrapping from the first to the last.
pub open spec fn prev_tab(t: Tab) -> Tab {
    tab_at(((tab_index(t) + 8) % 9) as int)
}

impl Default for Tab {
    fn default() -> (r: Self)
        ensures
            r == Tab::Dash,
    {
        Tab::Dash
    }
}

impl Tab {
    /// Every tab, in tab order.
    pub const ALL: [Tab; 9] = [
        Tab::Dash,
        Tab::Proc,
        Tab::Net,
        Tab::Files,
        Tab::Time,
        Tab::Temp,
        Tab::Cores,
        Tab::Disk,
        Tab::Mem,
    ];

    /// The position of this tab in the tab order.
    pub fn index(self) -> (r: usize)
        ensures
            r == tab_index(self),
            r < TAB_COUNT,
    {
        match self {
            Tab::Dash => 0,
            Tab::Proc => 1,
            Tab::Net => 2,
            Tab::Files => 3,
            Tab::Time => 4,
            Tab::Temp => 5,
            Tab::Cores => 6,
            Tab::Disk => 7,
            Tab::Mem => 8,
        }
    }

    /// The tab at position `i` of the tab order, if there is one.
    pub fn from_index(i: usize) -> (r: Option<Tab>)
        ensures
            i < TAB_COUNT ==> r == Some(tab_at(i as int)),
            i >= TAB_COUNT ==> r is None,
    {
        if i == 0 {
            Some(Tab::Dash)
        } else if i == 1 {
            Some(Tab::Proc)
        } else if i == 2 {
            Some(Tab::Net)
        } else if i == 3 {
            Some(Tab::Files)
        } else if i == 4 {
            Some(Tab::Time)
        } else if i == 5 {
            Some(Tab::Temp)
        } else if i == 6 {
            Some(Tab::Cores)
        } else if i == 7 {
            Some(Tab::Disk)
        } else if i == 8 {
            Some(Tab::Mem)
        } else {
            None
        }
    }

    /// The label shown for this tab.
    pub fn label(self) -> (r: &'static str)
        ensures
            r@ == tab_label(self),
    {
        match self {
            Tab::Dash => "Dash",
            Tab::Proc => "Proc",
            Tab::Net => "Net",
            Tab::Files => "Files",
            Tab::Time => "Time",
            Tab::Temp => "Temp",
            Tab::Cores => "Cores",
            Tab::Disk => "Disk",
            Tab::Mem => "Mem",
        }
    }

    /// Whether this is the process tab.
    pub fn is_proc(self) -> (r: bool)
        ensures
            r == (self == Tab::Proc),
    {
        match self {
            Tab::Proc => true,
            _ => false,
        }
    }

    /// Whether this tab has a search query, a scroll position and a selection.
    pub fn has_searchable_state(self) -> (r: bool)
        ensures
            r == (self == Tab::Proc || self == Tab::Net || self == Tab::Files),
    {
        match self {
            Tab::Proc | Tab::Net | Tab::Files => true,
            _ => false,
        }
    }

    /// The tab after this one (`forward`) or before it, wrapping around.
    pub fn cycled(self, forward: bool) -> (r: Tab)
        ensures
            r == (if forward { next_tab(self) } else { prev_tab(self) }),
    {
        let idx = self.index();
        let step: usize = if forward { 1 } else { TAB_COUNT - 1 };
        match Tab::from_index((idx + step) % TAB_COUNT) {
            Some(t) => t,
            None => self,
        }
    }
}

/// The position of a tab determines it: `tab_at` undoes `tab_index`.
pub proof fn lemma_tab_index_roundtrip(t: Tab)
    ensures
        tab_at(tab_index(t) as int) == t,
        tab_index(t) < 9,
{
}

/// Distinct tabs have distinct positions, and every position below nine
/// holds the tab that `tab_at` names.
pub proof fn lemma_tab_at_roundtrip(i: int)
    requires
        0 <= i < 9,
    ensures
        tab_index(tab_at(i)) == i,
{
}

/// Moving to the next tab and then to the previous one comes back, and
/// the other way round too.
pub proof fn lemma_cycle_inverse(t: Tab)
    ensures
        prev_tab(next_tab(t)) == t,
        next_tab(prev_tab(t)) == t,
{
}

/// Moving forward nine times visits every tab once and comes back.
pub proof fn lemma_cycle_period(t: Tab)
    ensures
        next_tab(next_tab(next_tab(next_tab(next_tab(next_tab(next_tab(next_tab(next_tab(t)))))))))
            == t,
{
}

/// The field by which the process table is sorted.
#[derive(Clone, Copy, Debug, PartialEq, Eq, Structural)]
pub enum ProcSortField {
    Name,
    Pid,
    Cpu,
    Memory,
    VirtualMemory,
    RunTime,
    Status,
}

/// The text shown for a sort field.
pub open spec fn sort_field_label(f: ProcSortField) -> Seq<char> {
    match f {
        ProcSortField::Name => "Name"@,
        ProcSortField::Pid => "PID"@,
        ProcSortField::Cpu => "CPU"@,
        ProcSortField::Memory => "Memory"@,
        ProcSortField::VirtualMemory => "Virt Mem"@,
        ProcSortField::RunTime => "Run Time"@,
        ProcSortField::Status => "Status"@,
    }
}

impl ProcSortField {
    /// The text shown for this sort field (what it displays as).
    pub fn label(self) -> (r: &'static str)
        ensures
            r@ == sort_field_label(self),
    {
        match self {
            ProcSortField::Name => "Name",
            ProcSortField::Pid => "PID",
            ProcSortField::Cpu => "CPU",
            ProcSortField::Memory => "Memory",
            ProcSortField::VirtualMemory => "Virt Mem",
            ProcSortField::RunTime => "Run Time",
            ProcSortField::Status => "Status",
        }
    }
}

} // verus!
