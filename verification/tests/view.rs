use memview::view::{classify, ByteClass, MemoryView, LABEL_WIDTH};

fn small_view() -> MemoryView {
    MemoryView::new(8, vec![(2, 4), (6, 8)], vec![2, 6])
}

#[test]
fn new_view_is_all_zero_with_no_flag() {
    let view = small_view();
    assert_eq!(view.size(), 8);
    assert_eq!(view.snapshot(), &[0u8; 8]);
    assert_eq!(view.corrupted(), &[false; 8]);
}

#[test]
fn empty_view_renders_only_its_label() {
    let mut view = MemoryView::new(0, vec![], vec![]);
    assert_eq!(view.render_row("init"), "init   |");
    view.capture(&[]);
    assert_eq!(view.render_diff(&[], "i=0", false), "i=0    |");
    assert_eq!(view.size(), 0);
}

#[test]
fn capture_overwrites_the_snapshot_and_leaves_the_flags() {
    let mut view = small_view();
    view.capture(&[1, 2, 3, 4, 5, 6, 7, 8]);
    assert_eq!(view.snapshot(), &[1, 2, 3, 4, 5, 6, 7, 8]);
    assert_eq!(view.corrupted(), &[false; 8]);
    let prev = [1, 2, 3, 4, 5, 6, 7, 9];
    view.render_diff(&prev, "x", false);
    let flags = view.corrupted().to_vec();
    view.capture(&[9, 9, 9, 9, 9, 9, 9, 9]);
    assert_eq!(view.corrupted(), &flags[..]);
    assert_eq!(view.snapshot(), &[9u8; 8]);
}

#[test]
fn separators_are_the_listed_positions() {
    let view = small_view();
    let found: Vec<usize> = (0..10).filter(|&i| view.is_separator(i)).collect();
    assert_eq!(found, vec![2, 6]);
}

#[test]
fn watched_ranges_are_half_open() {
    let view = small_view();
    let found: Vec<usize> = (0..10).filter(|&i| view.is_watched(i)).collect();
    assert_eq!(found, vec![2, 3, 6, 7]);
}

#[test]
fn overlapping_and_empty_ranges_are_accepted() {
    let view = MemoryView::new(8, vec![(5, 5), (1, 3), (2, 5), (7, 6)], vec![]);
    let found: Vec<usize> = (0..8).filter(|&i| view.is_watched(i)).collect();
    assert_eq!(found, vec![1, 2, 3, 4]);
}

#[test]
fn classes_are_tried_in_a_fixed_order() {
    assert_eq!(classify(true, true, false), ByteClass::Changed);
    assert_eq!(classify(true, true, true), ByteClass::Changed);
    assert_eq!(classify(true, false, false), ByteClass::Changed);
    assert_eq!(classify(true, false, true), ByteClass::Changed);
    assert_eq!(classify(false, true, false), ByteClass::WatchedPristine);
    assert_eq!(classify(false, true, true), ByteClass::Plain);
    assert_eq!(classify(false, false, false), ByteClass::Plain);
    assert_eq!(classify(false, false, true), ByteClass::Plain);
}

#[test]
fn changed_byte_renders_as_changed_even_when_watched() {
    let view = small_view();
    assert!(view.is_watched(3));
    assert_eq!(view.render_byte(3, 0xab, true, false), "[ab]");
    assert_eq!(view.render_byte(3, 0xab, true, true), "\x1b[91mab\x1b[0m");
    assert_eq!(view.render_byte(3, 0xab, false, false), "(ab)");
    assert_eq!(view.render_byte(3, 0xab, false, true), "\x1b[92mab\x1b[0m");
}

#[test]
fn unwatched_byte_renders_plain_or_changed() {
    let view = small_view();
    assert_eq!(view.render_byte(0, 0x10, false, false), " 10 ");
    assert_eq!(view.render_byte(0, 0x10, false, true), " 10 ");
    assert_eq!(view.render_byte(0, 0x10, true, false), "[10]");
}

#[test]
fn divider_comes_before_the_byte_at_a_separator() {
    let view = small_view();
    assert_eq!(view.render_byte(2, 0x01, false, false), " |(01)");
    assert_eq!(view.render_byte(2, 0x01, true, false), " |[01]");
    assert_eq!(view.render_byte(6, 0x01, true, true), " |\x1b[91m01\x1b[0m");
}

#[test]
fn watched_byte_that_changed_before_renders_plain() {
    let mut view = small_view();
    view.capture(&[0, 0, 0, 7, 0, 0, 0, 0]);
    view.render_diff(&[0; 8], "a", false);
    assert_eq!(view.corrupted()[3], true);
    assert_eq!(view.render_byte(3, 0x07, false, false), " 07 ");
    assert_eq!(view.render_byte(3, 0x08, true, false), "[08]");
    assert_eq!(view.render_byte(2, 0x00, false, false), " |(00)");
}

#[test]
fn row_shows_every_byte_plain() {
    let mut view = small_view();
    view.capture(&[0x00, 0x11, 0x22, 0x33, 0x44, 0x55, 0x66, 0x77]);
    assert_eq!(view.render_row("init"), "init   | 00  11  | 22  33  44  55  | 66  77 ");
    assert_eq!(view.corrupted(), &[false; 8]);
}

#[test]
fn label_is_padded_to_its_width_and_never_cut() {
    let view = MemoryView::new(1, vec![], vec![]);
    assert_eq!(LABEL_WIDTH, 6);
    assert_eq!(view.render_row(""), "       | 00 ");
    assert_eq!(view.render_row("i=5"), "i=5    | 00 ");
    assert_eq!(view.render_row("i=1234"), "i=1234 | 00 ");
    assert_eq!(view.render_row("i=12345"), "i=12345 | 00 ");
}

#[test]
fn diff_highlights_changes_then_sets_their_flags() {
    let mut view = small_view();
    view.capture(&[0, 1, 0, 3, 0, 0, 0, 0]);
    let line = view.render_diff(&[0; 8], "i=3", false);
    assert_eq!(line, "i=3    | 00 [01] |(00)[03] 00  00  |(00)(00)");
    assert_eq!(
        view.corrupted(),
        &[false, true, false, true, false, false, false, false]
    );
    assert_eq!(view.snapshot(), &[0, 1, 0, 3, 0, 0, 0, 0]);
}

#[test]
fn diff_uses_the_flags_from_before_it_ran() {
    let mut view = small_view();
    view.capture(&[0, 0, 5, 0, 0, 0, 0, 0]);
    let first = view.render_diff(&[0; 8], "a", false);
    assert_eq!(first, "a      | 00  00  |[05](00) 00  00  |(00)(00)");
    let second = view.render_diff(&[0, 0, 5, 0, 0, 0, 0, 0], "b", false);
    assert_eq!(second, "b      | 00  00  | 05 (00) 00  00  |(00)(00)");
}

#[test]
fn flags_stay_set_over_later_diffs() {
    let mut view = small_view();
    let mut prev = view.snapshot().to_vec();
    let mut ever = vec![false; 8];
    let images: [[u8; 8]; 5] = [
        [0, 1, 0, 0, 0, 0, 0, 0],
        [0, 1, 0, 0, 0, 0, 9, 0],
        [0, 0, 0, 0, 0, 0, 9, 0],
        [0, 0, 0, 0, 0, 0, 0, 0],
        [0, 0, 0, 0, 4, 0, 0, 0],
    ];
    for image in images {
        let before = view.corrupted().to_vec();
        view.capture(&image);
        view.render_diff(&prev, "s", true);
        for i in 0..8 {
            if prev[i] != image[i] {
                ever[i] = true;
            }
            if before[i] {
                assert!(view.corrupted()[i]);
            }
        }
        assert_eq!(view.corrupted(), &ever[..]);
        prev = view.snapshot().to_vec();
    }
    assert_eq!(
        view.corrupted(),
        &[false, true, false, false, true, false, true, false]
    );
}

#[test]
fn diff_of_unchanged_memory_sets_no_flag() {
    let mut view = small_view();
    let memory = [3u8, 1, 4, 1, 5, 9, 2, 6];
    view.capture(&[3, 1, 4, 1, 5, 9, 2, 7]);
    view.render_diff(&[0, 1, 4, 1, 5, 9, 2, 7], "a", false);
    view.capture(&memory);
    let prev = view.snapshot().to_vec();
    let flags = view.corrupted().to_vec();
    view.capture(&memory);
    let line = view.render_diff(&prev, "same", false);
    assert_eq!(view.corrupted(), &flags[..]);
    assert_eq!(view.snapshot(), &memory);
    assert!(!line.contains('['));
    assert_eq!(line, "same   | 03  01  |(04)(01) 05  09  |(02)(06)");
    let again = view.render_diff(&prev, "same", false);
    assert_eq!(again, line);
    assert_eq!(view.corrupted(), &flags[..]);
}
