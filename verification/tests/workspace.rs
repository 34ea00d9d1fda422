use tde::{WorkspaceManager, MAX_WORKSPACES, SplitDir};

#[test]
fn new_manager_has_one_workspace() {
    let wm = WorkspaceManager::new();
    assert_eq!(wm.count(), 1);
    assert_eq!(wm.current, 0);
}

#[test]
fn switch_to_creates_missing_workspaces() {
    let mut wm = WorkspaceManager::new();
    wm.switch_to(3);
    assert_eq!(wm.current, 3);
    assert_eq!(wm.count(), 4);
    wm.switch_to(1);
    assert_eq!(wm.current, 1);
    assert_eq!(wm.count(), 4);
}

#[test]
fn switch_to_is_capped_at_nine_workspaces() {
    let mut wm = WorkspaceManager::new();
    wm.switch_to(20);
    assert_eq!(wm.current, MAX_WORKSPACES - 1);
    assert_eq!(wm.count(), MAX_WORKSPACES);
}

#[test]
fn switching_keeps_each_workspace_layout() {
    let mut wm = WorkspaceManager::new();
    wm.current_layout().split_pane(SplitDir::Vertical);
    wm.switch_to(2);
    assert_eq!(wm.current_layout().panes.len(), 1);
    wm.switch_to(0);
    assert_eq!(wm.current_layout().panes.len(), 2);
    assert_eq!(wm.current_layout().split, SplitDir::Vertical);
}

#[test]
fn next_from_single_workspace_creates_second() {
    let mut wm = WorkspaceManager::new();
    wm.next();
    assert_eq!(wm.current, 1);
    assert_eq!(wm.count(), 2);
    wm.next();
    assert_eq!(wm.current, 0);
    assert_eq!(wm.count(), 2);
}

#[test]
fn next_wraps_after_the_last_workspace() {
    let mut wm = WorkspaceManager::new();
    wm.switch_to(8);
    wm.next();
    assert_eq!(wm.current, 0);
    assert_eq!(wm.count(), 9);
}

#[test]
fn prev_from_first_goes_to_last() {
    let mut wm = WorkspaceManager::new();
    wm.switch_to(4);
    wm.switch_to(0);
    wm.prev();
    assert_eq!(wm.current, 4);
    wm.prev();
    assert_eq!(wm.current, 3);
}

#[test]
fn prev_undoes_next() {
    for count in 1..=9usize {
        for start in 0..count {
            let mut wm = WorkspaceManager::new();
            wm.switch_to(count - 1);
            wm.switch_to(start);
            wm.next();
            wm.prev();
            assert_eq!(wm.current, start);
            assert!(wm.count() <= MAX_WORKSPACES);
        }
    }
}

#[test]
fn tabs_mark_the_current_workspace() {
    let mut wm = WorkspaceManager::new();
    wm.switch_to(2);
    wm.switch_to(1);
    let tabs = wm.tabs();
    let labels: Vec<&str> = tabs.iter().map(|t| t.label.as_str()).collect();
    assert_eq!(labels, vec!["  1  ", " [2] ", "  3  "]);
    let active: Vec<bool> = tabs.iter().map(|t| t.active).collect();
    assert_eq!(active, vec![false, true, false]);
}

#[test]
fn has_current_tells_whether_the_current_workspace_exists() {
    let mut wm = WorkspaceManager::new();
    assert!(wm.has_current());
    wm.current = wm.count();
    assert!(!wm.has_current());
}
