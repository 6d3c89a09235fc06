use thrum::tab::{ProcSortField, Tab, TabOrientation, TAB_COUNT};

#[test]
fn tab_has_nine_variants() {
    assert_eq!(Tab::ALL.len(), 9);
}

#[test]
fn tab_label_matches() {
    assert_eq!(Tab::Dash.label(), "Dash");
    assert_eq!(Tab::Proc.label(), "Proc");
    assert_eq!(Tab::Net.label(), "Net");
    assert_eq!(Tab::Files.label(), "Files");
    assert_eq!(Tab::Time.label(), "Time");
    assert_eq!(Tab::Temp.label(), "Temp");
    assert_eq!(Tab::Cores.label(), "Cores");
    assert_eq!(Tab::Disk.label(), "Disk");
    assert_eq!(Tab::Mem.label(), "Mem");
}

#[test]
fn tab_index_matches_all() {
    for (i, tab) in Tab::ALL.iter().enumerate() {
        assert_eq!(tab.index(), i, "{tab:?} index should be {i}");
    }
}

#[test]
fn tab_orientation_default_sidebar() {
    assert_eq!(TabOrientation::default(), TabOrientation::Sidebar);
    let app = thrum::app::App::new();
    assert_eq!(app.tab_orientation, TabOrientation::Sidebar);
}

#[test]
fn tab_from_index_round_trips() {
    for (i, tab) in Tab::ALL.iter().enumerate() {
        assert_eq!(Tab::from_index(i), Some(*tab));
        assert_eq!(Tab::from_index(tab.index()), Some(*tab));
    }
    assert_eq!(Tab::from_index(TAB_COUNT), None);
    assert_eq!(Tab::from_index(usize::MAX), None);
}

#[test]
fn tab_cycled_is_undone_by_cycling_back() {
    for tab in Tab::ALL {
        assert_eq!(tab.cycled(true).cycled(false), tab);
        assert_eq!(tab.cycled(false).cycled(true), tab);
        let mut t = tab;
        for _ in 0..TAB_COUNT {
            t = t.cycled(true);
        }
        assert_eq!(t, tab, "nine steps forward come back");
    }
    assert_eq!(Tab::Mem.cycled(true), Tab::Dash);
    assert_eq!(Tab::Dash.cycled(false), Tab::Mem);
}

#[test]
fn tab_kinds() {
    for tab in Tab::ALL {
        assert_eq!(tab.is_proc(), tab == Tab::Proc);
        assert_eq!(
            tab.has_searchable_state(),
            matches!(tab, Tab::Proc | Tab::Net | Tab::Files)
        );
    }
}

#[test]
fn orientation_is_horizontal() {
    assert!(!TabOrientation::Sidebar.is_horizontal());
    assert!(TabOrientation::Horizontal.is_horizontal());
    assert!(TabOrientation::HorizontalFooter.is_horizontal());
}

#[test]
fn sort_field_labels() {
    assert_eq!(ProcSortField::Name.label(), "Name");
    assert_eq!(ProcSortField::Pid.label(), "PID");
    assert_eq!(ProcSortField::Cpu.label(), "CPU");
    assert_eq!(ProcSortField::Memory.label(), "Memory");
    assert_eq!(ProcSortField::VirtualMemory.label(), "Virt Mem");
    assert_eq!(ProcSortField::RunTime.label(), "Run Time");
    assert_eq!(ProcSortField::Status.label(), "Status");
}
