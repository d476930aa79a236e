use hntui::nav::{
    comment_line_range, comment_total_lines, ensure_visible, move_selection_down, move_selection_up,
    page_down, page_down_with_heights, page_up, page_up_with_heights, ListSelection,
};

#[test]
fn selection_moves_and_clamps() {
    let mut s = ListSelection::new();
    move_selection_down(&mut s, 3);
    move_selection_down(&mut s, 3);
    move_selection_down(&mut s, 3);
    assert_eq!(s.selected, Some(2));
    move_selection_up(&mut s);
    assert_eq!(s.selected, Some(1));
    move_selection_down(&mut s, 0);
    assert_eq!(s, ListSelection { selected: None, offset: 0 });
}

#[test]
fn paging_keeps_selection_visible() {
    let mut s = ListSelection::new();
    page_down(&mut s, 100, 10);
    assert_eq!(s.selected, Some(10));
    assert_eq!(s.offset, 1);
    page_down(&mut s, 15, 10);
    assert_eq!(s.selected, Some(14));
    page_up(&mut s, 10);
    assert_eq!(s.selected, Some(4));
    assert_eq!(s.offset, 4);
    let mut t = ListSelection { selected: Some(30), offset: 0 };
    ensure_visible(&mut t, 50, 10);
    assert_eq!(t.offset, 21);
}

#[test]
fn line_geometry() {
    let heights = vec![2, 0, 3];
    assert_eq!(comment_total_lines(&heights), 6);
    assert_eq!(comment_line_range(&heights, 1), (2, 3));
    assert_eq!(comment_line_range(&heights, 9), (6, 6));
    let mut s = ListSelection::new();
    page_down_with_heights(&mut s, &heights, 4);
    assert_eq!(s.selected, Some(2));
    page_up_with_heights(&mut s, &heights, 1);
    assert_eq!(s.selected, Some(1));
}
