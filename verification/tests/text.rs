use egui_pc98_revival::text::{cells, char_cells, marquee_slice, truncate_tail};

#[test]
fn cells_count_characters() {
    assert_eq!(cells(""), 0);
    assert_eq!(cells("abc"), 3);
    assert_eq!(cells("abcdefghijklmnopqrst"), 20);
}

#[test]
fn truncate_tail_keeps_the_head() {
    assert_eq!(truncate_tail("Show this help", 4), "Show");
    assert_eq!(truncate_tail("short", 8), "short");
    assert_eq!(truncate_tail("exact", 5), "exact");
    assert_eq!(truncate_tail("x", 0), "");
}

#[test]
fn marquee_slice_scrolls_and_wraps() {
    let text = "abcdefghijklmnopqrst";
    assert_eq!(marquee_slice(text, 8, 0), "abcdefgh");
    assert_eq!(marquee_slice(text, 8, 2), "cdefghij");
    // The ring is the text and three blanks; it wraps back to the start.
    assert_eq!(marquee_slice(text, 8, 15), "pqrst   ");
    assert_eq!(marquee_slice(text, 8, 19), "t   abcd");
    assert_eq!(marquee_slice(text, 8, 23), "abcdefgh");
    assert_eq!(marquee_slice("ab", 7, 1), "b   ab ");
}

#[test]
fn full_width_characters_take_two_cells() {
    assert_eq!(char_cells('a'), 1);
    assert_eq!(char_cells('日'), 2);
    assert_eq!(char_cells('→'), 2);
    assert_eq!(char_cells('─'), 2);
    assert_eq!(char_cells('ｱ'), 1);
    assert_eq!(char_cells('\u{2212}'), 2);
    assert_eq!(char_cells('■'), 2);
    assert_eq!(char_cells('①'), 2);
    assert_eq!(char_cells('é'), 1);
    assert_eq!(cells("日本"), 4);
    assert_eq!(cells("a→b"), 4);
    assert_eq!(cells("ｱｲｳ"), 3);
}

#[test]
fn truncate_tail_never_splits_a_full_width_character() {
    assert_eq!(truncate_tail("日本語", 3), "日");
    assert_eq!(truncate_tail("日本語", 4), "日本");
    assert_eq!(truncate_tail("日本語", 6), "日本語");
    assert_eq!(truncate_tail("a日", 2), "a");
    assert_eq!(truncate_tail("日", 1), "");
}

#[test]
fn marquee_slice_blanks_cut_full_width_characters() {
    assert_eq!(marquee_slice("日本", 4, 0), "日本");
    assert_eq!(marquee_slice("日本", 3, 0), "日 ");
    assert_eq!(marquee_slice("日本", 3, 1), " 本");
    assert_eq!(marquee_slice("日本", 3, 5), "   ");
    assert_eq!(marquee_slice("日本", 3, 6), " 日");
    assert_eq!(marquee_slice("日本", 3, 7), "日 ");
}

#[test]
fn marquee_slice_is_always_as_wide_as_the_label() {
    for text in ["日本語abc", "a→b─c", "abcdefghijklmnopqrst", "日"] {
        for max_cells in 1..9 {
            for step in 0..30 {
                assert_eq!(cells(&marquee_slice(text, max_cells, step)), max_cells);
            }
        }
    }
}
