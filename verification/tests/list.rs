use egui_pc98_revival::widgets::list::{
    Align, Column, ColumnWidth, ListKeys, ListState, column_layout,
};

/// Width, in whole cells, of a row `width` points wide with `cell_w`-point cells.
fn cells_of(width: f32, cell_w: f32) -> usize {
    (width / cell_w).floor() as usize
}

fn no_keys() -> ListKeys {
    ListKeys { down: 0, up: 0, page_down: 0, page_up: 0, home: false, end: false, enter: false }
}

#[test]
fn fixed_columns_positions() {
    let columns = [
        Column::new("A", ColumnWidth::Cells(4)),
        Column::new("B", ColumnWidth::Cells(4)),
    ];
    let cell_w = 8.0;
    let spans = column_layout(&columns, cells_of(200.0, cell_w));
    let a = spans[0].unwrap();
    let b = spans[1].unwrap();
    assert_eq!(a.x as f32 * cell_w, 8.0);
    assert_eq!(a.cells as f32 * cell_w, 32.0);
    assert_eq!(b.x as f32 * cell_w, 48.0);
    assert_eq!(b.cells as f32 * cell_w, 32.0);
}

#[test]
fn fill_takes_leftover() {
    let columns = [
        Column::new("A", ColumnWidth::Cells(4)),
        Column::new("B", ColumnWidth::Fill { min_cells: 2 }),
    ];
    let cell_w = 8.0;
    let spans = column_layout(&columns, cells_of(200.0, cell_w));
    let a = spans[0].unwrap();
    let b = spans[1].unwrap();
    assert_eq!(a.x as f32 * cell_w, 8.0);
    assert_eq!(a.cells as f32 * cell_w, 32.0);
    // available = 200 - 16 = 184; used = 32 + 16 (min) + 8 (gap) = 56;
    // leftover = 128 pts = 16 cells, all going to the sole Fill column.
    assert_eq!(b.cells, 18);
    assert_eq!(b.cells as f32 * cell_w, 144.0);
    assert_eq!(b.x as f32 * cell_w, 48.0);
}

#[test]
fn drops_by_priority_when_narrow() {
    // B (middle) has the higher drop priority, C (rightmost) the lower
    // one, so a position-based (rightmost-first) implementation would
    // drop C and fail this assertion; only priority should decide here.
    let columns = [
        Column::new("A", ColumnWidth::Cells(5)),
        Column::new("B", ColumnWidth::Cells(5)).drop_priority(2),
        Column::new("C", ColumnWidth::Cells(5)).drop_priority(1),
    ];
    // available = 136 - 16 = 120; all three need 40*3 + 8*2 = 136 > 120,
    // so the highest-priority column (B) is dropped; A + C = 88 fits.
    let spans = column_layout(&columns, cells_of(136.0, 8.0));
    assert!(spans[0].is_some());
    assert!(spans[1].is_none());
    assert!(spans[2].is_some());
}

#[test]
fn never_drops_none_columns() {
    let columns = [
        Column::new("A", ColumnWidth::Cells(5)),
        Column::new("B", ColumnWidth::Cells(5)),
    ];
    // width leaves no room past the insets; both columns have no drop
    // priority, so `fit_by_priority` must keep them regardless.
    let spans = column_layout(&columns, cells_of(16.0, 8.0));
    assert!(spans[0].is_some());
    assert!(spans[1].is_some());
}

#[test]
fn list_row_dropped_column_is_skipped() {
    let columns = [
        Column::new("A", ColumnWidth::Cells(4)),
        Column::new("B", ColumnWidth::Cells(4)).drop_priority(1),
    ];
    // Narrow enough that B is dropped.
    let spans = column_layout(&columns, cells_of(40.0, 8.0));
    assert!(spans[0].is_some());
    assert!(spans[1].is_none());
}

#[test]
fn fill_leftover_split_evenly_remainder_first() {
    let columns = [
        Column::new("A", ColumnWidth::Fill { min_cells: 1 }),
        Column::new("B", ColumnWidth::Cells(3)).align(Align::Max),
        Column::new("C", ColumnWidth::Fill { min_cells: 1 }),
        Column::new("D", ColumnWidth::Fill { min_cells: 1 }),
    ];
    // 20 cells: 18 between the insets; minimums 1+3+1+1 = 6 plus 3 gaps = 9;
    // leftover 9 over three Fill columns: 3 each.
    let spans = column_layout(&columns, 20);
    let cells: Vec<usize> = spans.iter().map(|s| s.unwrap().cells).collect();
    assert_eq!(cells, vec![4, 3, 4, 4]);
    // 21 cells: leftover 10, the first Fill column takes the extra cell.
    let spans = column_layout(&columns, 21);
    let cells: Vec<usize> = spans.iter().map(|s| s.unwrap().cells).collect();
    assert_eq!(cells, vec![5, 3, 4, 4]);
    let xs: Vec<usize> = spans.iter().map(|s| s.unwrap().x).collect();
    assert_eq!(xs, vec![1, 7, 11, 16]);
    // The last column ends where the right inset starts.
    let last = spans[3].unwrap();
    assert_eq!(last.x + last.cells, 21 - 1);
    assert_eq!(spans[1].unwrap().align, Align::Max);
}

#[test]
fn empty_columns_and_tiny_rows() {
    assert!(column_layout(&[], 10).is_empty());
    let columns = [Column::new("A", ColumnWidth::Fill { min_cells: 0 })];
    let spans = column_layout(&columns, 0);
    assert_eq!(spans[0].unwrap().x, 1);
    assert_eq!(spans[0].unwrap().cells, 0);
}

#[test]
fn huge_columns_hold_at_the_end_of_the_range() {
    // Two undroppable columns that together pass the largest position: the
    // second starts at the largest position and keeps its width.
    let columns = [
        Column::new("A", ColumnWidth::Cells(usize::MAX - 1)),
        Column::new("B", ColumnWidth::Cells(5)),
    ];
    let spans = column_layout(&columns, 10);
    let a = spans[0].unwrap();
    let b = spans[1].unwrap();
    assert_eq!((a.x, a.cells), (1, usize::MAX - 1));
    assert_eq!((b.x, b.cells), (usize::MAX, 5));
    // A row as wide as the range shares what is left out to a Fill column.
    let columns = [
        Column::new("A", ColumnWidth::Cells(3)),
        Column::new("B", ColumnWidth::Fill { min_cells: 1 }),
    ];
    let spans = column_layout(&columns, usize::MAX);
    let b = spans[1].unwrap();
    assert_eq!(b.x, 5);
    assert_eq!(b.x + b.cells, usize::MAX - 1);
}

#[test]
fn column_builders() {
    let c = Column::new("T", ColumnWidth::Cells(2));
    assert_eq!(c.title, "T");
    assert_eq!(c.align, Align::Min);
    assert_eq!(c.drop_priority, None);
    let c = c.align(Align::Center).drop_priority(7);
    assert_eq!(c.align, Align::Center);
    assert_eq!(c.drop_priority, Some(7));
    assert_eq!(c.width, ColumnWidth::Cells(2));
}

#[test]
fn list_view_clamps_cursor() {
    let mut state = ListState { cursor: 99 };
    state.clamp(10);
    assert_eq!(state.cursor, 9);
    let mut state = ListState { cursor: 3 };
    state.clamp(0);
    assert_eq!(state.cursor, 0);
    let mut state = ListState { cursor: 3 };
    state.clamp(10);
    assert_eq!(state.cursor, 3);
    assert_eq!(ListState::default().cursor, 0);
}

#[test]
fn list_view_arrow_down_moves_cursor_when_focused() {
    let mut state = ListState::default();
    let activated = state.apply_keys(10, 5, ListKeys { down: 1, ..no_keys() });
    assert_eq!(state.cursor, 1);
    assert_eq!(activated, None);
}

#[test]
fn list_view_end_and_enter() {
    let mut state = ListState::default();
    state.apply_keys(10, 5, ListKeys { end: true, ..no_keys() });
    assert_eq!(state.cursor, 9);
    let activated = state.apply_keys(10, 5, ListKeys { enter: true, ..no_keys() });
    assert_eq!(activated, Some(9));
}

#[test]
fn arrows_stop_at_the_ends() {
    let mut state = ListState { cursor: 8 };
    state.apply_keys(10, 5, ListKeys { down: 5, ..no_keys() });
    assert_eq!(state.cursor, 9);
    state.apply_keys(10, 5, ListKeys { up: 50, ..no_keys() });
    assert_eq!(state.cursor, 0);
    state.apply_keys(10, 5, ListKeys { down: usize::MAX, ..no_keys() });
    assert_eq!(state.cursor, 9);
}

#[test]
fn down_then_up_returns() {
    let mut state = ListState { cursor: 2 };
    state.apply_keys(10, 5, ListKeys { down: 3, ..no_keys() });
    assert_eq!(state.cursor, 5);
    state.apply_keys(10, 5, ListKeys { up: 3, ..no_keys() });
    assert_eq!(state.cursor, 2);
}

#[test]
fn paging_moves_one_less_than_visible_rows() {
    let mut state = ListState::default();
    state.apply_keys(100, 11, ListKeys { page_down: 2, ..no_keys() });
    assert_eq!(state.cursor, 20);
    state.apply_keys(100, 11, ListKeys { page_up: 1, ..no_keys() });
    assert_eq!(state.cursor, 10);
    // With one or two rows in view a page is one row.
    state.apply_keys(100, 1, ListKeys { page_down: 1, ..no_keys() });
    assert_eq!(state.cursor, 11);
    state.apply_keys(100, 2, ListKeys { page_up: 1, ..no_keys() });
    assert_eq!(state.cursor, 10);
    state.apply_keys(100, usize::MAX, ListKeys { page_down: usize::MAX, ..no_keys() });
    assert_eq!(state.cursor, 99);
}

#[test]
fn home_and_end_win_over_moves() {
    let mut state = ListState { cursor: 5 };
    let activated = state.apply_keys(10, 5, ListKeys { down: 2, home: true, enter: true, ..no_keys() });
    assert_eq!(state.cursor, 0);
    assert_eq!(activated, Some(0));
    state.apply_keys(10, 5, ListKeys { home: true, end: true, ..no_keys() });
    assert_eq!(state.cursor, 9);
}
