use tde::{Area, LayoutManager, Pane, SplitDir};

fn ids(lm: &LayoutManager) -> Vec<usize> {
    lm.panes.iter().map(|p| p.id).collect()
}

#[test]
fn new_layout_has_one_focused_shell_pane() {
    let lm = LayoutManager::new();
    assert_eq!(ids(&lm), vec![0]);
    assert_eq!(lm.panes[0].title, "Shell");
    assert_eq!(lm.focused, 0);
    assert_eq!(lm.split, SplitDir::Horizontal);
    assert_eq!(lm.next_id, 1);
}

#[test]
fn pane_new_keeps_id_and_title() {
    let p = Pane::new(7, "Editor".to_string());
    assert_eq!(p.id, 7);
    assert_eq!(p.title, "Editor");
}

#[test]
fn split_pane_opens_and_focuses_a_new_pane() {
    let mut lm = LayoutManager::new();
    lm.split_pane(SplitDir::Vertical);
    lm.split_pane(SplitDir::Horizontal);
    assert_eq!(ids(&lm), vec![0, 1, 2]);
    assert_eq!(lm.focused, 2);
    assert_eq!(lm.split, SplitDir::Horizontal);
    assert_eq!(lm.panes[2].title, "Shell");
    assert_eq!(lm.next_id, 3);
}

#[test]
fn close_focused_never_closes_the_last_pane() {
    let mut lm = LayoutManager::new();
    lm.close_focused();
    assert_eq!(ids(&lm), vec![0]);
    assert_eq!(lm.focused, 0);
}

#[test]
fn close_focused_removes_the_focused_pane() {
    let mut lm = LayoutManager::new();
    lm.split_pane(SplitDir::Horizontal);
    lm.split_pane(SplitDir::Horizontal);
    lm.focused = 1;
    lm.close_focused();
    assert_eq!(ids(&lm), vec![0, 2]);
    assert_eq!(lm.focused, 1);
}

#[test]
fn close_last_focused_pane_moves_focus_back() {
    let mut lm = LayoutManager::new();
    lm.split_pane(SplitDir::Horizontal);
    lm.split_pane(SplitDir::Horizontal);
    lm.close_focused();
    assert_eq!(ids(&lm), vec![0, 1]);
    assert_eq!(lm.focused, 1);
    // ids are never reused
    lm.split_pane(SplitDir::Horizontal);
    assert_eq!(ids(&lm), vec![0, 1, 3]);
}

#[test]
fn focus_next_wraps_around() {
    let mut lm = LayoutManager::new();
    lm.split_pane(SplitDir::Horizontal);
    lm.split_pane(SplitDir::Horizontal);
    assert_eq!(lm.focused, 2);
    lm.focus_next();
    assert_eq!(lm.focused, 0);
    lm.focus_next();
    assert_eq!(lm.focused, 1);
}

#[test]
fn focus_prev_wraps_around() {
    let mut lm = LayoutManager::new();
    lm.split_pane(SplitDir::Horizontal);
    lm.split_pane(SplitDir::Horizontal);
    lm.focused = 0;
    lm.focus_prev();
    assert_eq!(lm.focused, 2);
    lm.focus_prev();
    assert_eq!(lm.focused, 1);
}

#[test]
fn focus_next_then_prev_returns() {
    let mut lm = LayoutManager::new();
    for _ in 0..4 {
        lm.split_pane(SplitDir::Vertical);
    }
    for start in 0..5 {
        lm.focused = start;
        lm.focus_next();
        lm.focus_prev();
        assert_eq!(lm.focused, start);
        lm.focus_prev();
        lm.focus_next();
        assert_eq!(lm.focused, start);
    }
}

#[test]
fn focus_moves_on_empty_layout_do_nothing() {
    let mut lm = LayoutManager::new();
    lm.panes.clear();
    lm.focus_next();
    lm.focus_prev();
    assert_eq!(lm.focused, 0);
    assert!(lm.compute_rects(Area { x: 0, y: 0, width: 10, height: 10 }).is_empty());
}

#[test]
fn compute_rects_splits_horizontally_in_halves() {
    let mut lm = LayoutManager::new();
    lm.split_pane(SplitDir::Horizontal);
    let rects = lm.compute_rects(Area { x: 0, y: 0, width: 100, height: 10 });
    assert_eq!(
        rects,
        vec![
            Area { x: 0, y: 0, width: 50, height: 10 },
            Area { x: 50, y: 0, width: 50, height: 10 },
        ]
    );
}

#[test]
fn compute_rects_splits_vertically_in_thirds() {
    let mut lm = LayoutManager::new();
    lm.split_pane(SplitDir::Vertical);
    lm.split_pane(SplitDir::Vertical);
    let rects = lm.compute_rects(Area { x: 2, y: 1, width: 10, height: 9 });
    assert_eq!(
        rects,
        vec![
            Area { x: 2, y: 1, width: 10, height: 3 },
            Area { x: 2, y: 4, width: 10, height: 3 },
            Area { x: 2, y: 7, width: 10, height: 3 },
        ]
    );
}

#[test]
fn compute_rects_single_pane_fills_area() {
    let lm = LayoutManager::new();
    let area = Area { x: 3, y: 4, width: 40, height: 20 };
    assert_eq!(lm.compute_rects(area), vec![area]);
}

#[test]
fn compute_rects_splits_vertically_in_halves() {
    let mut lm = LayoutManager::new();
    lm.split_pane(SplitDir::Vertical);
    let rects = lm.compute_rects(Area { x: 0, y: 0, width: 80, height: 20 });
    assert_eq!(
        rects,
        vec![
            Area { x: 0, y: 0, width: 80, height: 10 },
            Area { x: 0, y: 10, width: 80, height: 10 },
        ]
    );
}

#[test]
fn focus_moves_from_a_focus_past_the_end_wrap_by_remainder() {
    let mut lm = LayoutManager::new();
    lm.split_pane(SplitDir::Horizontal);
    lm.split_pane(SplitDir::Horizontal);
    lm.focused = 5;
    lm.focus_next();
    assert_eq!(lm.focused, 0);
    lm.focused = 5;
    lm.focus_prev();
    assert_eq!(lm.focused, 1);
    lm.focused = usize::MAX;
    lm.focus_next();
    assert_eq!(lm.focused, 1);
    lm.focused = usize::MAX;
    lm.focus_prev();
    assert_eq!(lm.focused, 2);
}
