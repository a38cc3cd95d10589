use egui_pc98_revival::fit_by_priority;

#[test]
fn all_fit_keeps_all() {
    let widths = [5, 5, 5];
    let prio = [Some(1), Some(2), None];
    assert_eq!(
        fit_by_priority(&widths, &prio, 1, 100),
        vec![true, true, true]
    );
}

#[test]
fn drops_highest_priority_first() {
    let widths = [10, 10, 10];
    let prio = [None, Some(1), Some(2)];
    assert_eq!(
        fit_by_priority(&widths, &prio, 1, 21),
        vec![true, true, false]
    );
}

#[test]
fn ties_drop_rightmost_first() {
    let widths = [10, 10, 10];
    let prio = [Some(1), Some(1), Some(1)];
    // Fitting 15 requires dropping two of the three equal-priority items;
    // each drop should take the rightmost still-kept one.
    assert_eq!(
        fit_by_priority(&widths, &prio, 0, 15),
        vec![true, false, false]
    );
}

#[test]
fn none_is_never_dropped() {
    let widths = [10, 10];
    let prio = [None, None];
    assert_eq!(fit_by_priority(&widths, &prio, 0, 0), vec![true, true]);
}

#[test]
fn gap_counts_only_between_kept() {
    let widths = [10, 10, 10];
    let prio = [None, None, Some(1)];
    // Before the drop the gap is counted twice (3 kept items); after
    // dropping the last item it must be counted only once.
    assert_eq!(
        fit_by_priority(&widths, &prio, 5, 25),
        vec![true, true, false]
    );
}

#[test]
fn empty_input() {
    assert_eq!(fit_by_priority(&[], &[], 1, 0), Vec::<bool>::new());
}

#[test]
fn more_room_keeps_more() {
    let widths = [4, 4, 4, 4];
    let prio = [Some(3), Some(1), Some(2), None];
    // 4 items need 4*4 + 3 = 19; dropping item 0 leaves 14, then item 2 leaves 9.
    assert_eq!(fit_by_priority(&widths, &prio, 1, 19), vec![true, true, true, true]);
    assert_eq!(fit_by_priority(&widths, &prio, 1, 18), vec![false, true, true, true]);
    assert_eq!(fit_by_priority(&widths, &prio, 1, 13), vec![false, true, false, true]);
    assert_eq!(fit_by_priority(&widths, &prio, 1, 3), vec![false, false, false, true]);
}

#[test]
fn huge_widths_do_not_overflow() {
    let widths = [u64::MAX, u64::MAX, 1];
    let prio = [Some(2), Some(1), None];
    assert_eq!(fit_by_priority(&widths, &prio, u64::MAX, u64::MAX), vec![false, false, true]);
    assert_eq!(fit_by_priority(&widths, &prio, u64::MAX, 0), vec![false, false, true]);
}

#[test]
fn single_item_has_no_gap() {
    assert_eq!(fit_by_priority(&[7], &[Some(1)], 100, 7), vec![true]);
    assert_eq!(fit_by_priority(&[7], &[Some(1)], 100, 6), vec![false]);
}
