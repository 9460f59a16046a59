use chatview::autocomplete::{choose_dropdown_x, choose_dropdown_y, compute_height,
    compute_text_area, find_case_insensitive_range, is_active, slash_command_highlight_range,
    wrapped_visual_pos, Autocomplete, DialogState, FileCandidate, MentionState};
use chatview::rect::Rect;

#[test]
fn dropdown_keeps_preferred_width_and_shifts_left_near_right_edge() {
    let (x, width) = choose_dropdown_x(78, 0, 80, 80);
    assert_eq!((x, width), (20, 60));
}

#[test]
fn dropdown_handles_tiny_area_by_shrinking_width() {
    let (x, width) = choose_dropdown_x(7, 5, 10, 5);
    assert_eq!((x, width), (5, 5));
}

#[test]
fn dropdown_keeps_anchor_when_room_is_available() {
    let (x, width) = choose_dropdown_x(12, 0, 80, 80);
    assert_eq!((x, width), (12, 60));
}

#[test]
fn dropdown_prefers_below_with_gap_when_space_available() {
    let y = choose_dropdown_y(10, 4, 0, 30);
    assert_eq!(y, 12);
}

#[test]
fn dropdown_uses_above_with_gap_when_below_too_small() {
    let y = choose_dropdown_y(9, 6, 0, 12);
    assert_eq!(y, 2);
}

#[test]
fn dropdown_does_not_cover_anchor_row_when_possible() {
    let anchor = 5;
    let height = 5;
    let y = choose_dropdown_y(anchor, height, 0, 11);
    assert!(!(y <= anchor && anchor < y + height));
}

#[test]
fn case_insensitive_range_respects_utf8_boundaries() {
    let haystack = "İstanbul";
    let (start, end) =
        find_case_insensitive_range(haystack, "i").expect("case-insensitive match");
    assert!(haystack.is_char_boundary(start));
    assert!(haystack.is_char_boundary(end));
    assert_eq!(&haystack[start..end], "İ");
}

#[test]
fn case_insensitive_range_ascii_match() {
    assert_eq!(find_case_insensitive_range("src/Main.rs", "main"), Some((4, 8)));
    assert_eq!(find_case_insensitive_range("abc", "d"), None);
    assert_eq!(find_case_insensitive_range("", "a"), None);
    assert_eq!(find_case_insensitive_range("abc", ""), None);
}

#[test]
fn slash_highlight_skips_leading_slash() {
    // "/Help" against "hel": match covers "Hel" at bytes 1..4 of the full text
    assert_eq!(slash_command_highlight_range("/Help", "hel"), Some((1, 4)));
    // without a slash the offsets are unshifted
    assert_eq!(slash_command_highlight_range("Help", "hel"), Some((0, 3)));
    assert_eq!(slash_command_highlight_range("/Help", "zzz"), None);
}

#[test]
fn dropdown_height_counts_visible_rows_plus_border() {
    let empty = Autocomplete { mention: None, slash: None };
    assert!(!is_active(&empty));
    assert_eq!(compute_height(&empty), 0);

    let mut candidates = Vec::new();
    for i in 0..3 {
        candidates.push(FileCandidate { rel_path: format!("file{i}") });
    }
    let ac = Autocomplete {
        mention: Some(MentionState {
            candidates,
            query: String::new(),
            trigger_row: 0,
            trigger_col: 0,
            dialog: DialogState { selected: 0 },
        }),
        slash: None,
    };
    assert!(is_active(&ac));
    assert_eq!(compute_height(&ac), 5); // 3 rows + 2 border rows
}

#[test]
fn dialog_window_follows_selection() {
    let d = DialogState { selected: 0 };
    assert_eq!(d.visible_range(3, 8), (0, 3));
    let d = DialogState { selected: 9 };
    assert_eq!(d.visible_range(20, 8), (2, 10));
}

#[test]
fn wrapped_position_counts_earlier_lines_and_wraps() {
    let lines = vec!["abcdef".to_string(), "xy".to_string()];
    // width 4: "abcdef" wraps after 4 columns
    assert_eq!(wrapped_visual_pos(&lines, 0, 0, 4), (0, 0));
    assert_eq!(wrapped_visual_pos(&lines, 0, 5, 4), (1, 1));
    // second line starts after the 2 visual rows of the first
    assert_eq!(wrapped_visual_pos(&lines, 1, 1, 4), (2, 1));
    // at width 2 the first line takes 3 rows, and a cursor exactly filling
    // its row wraps onto a fresh one
    assert_eq!(wrapped_visual_pos(&lines, 1, 2, 2), (4, 0));
}

#[test]
fn text_area_cuts_pads_prompt_and_login_hint() {
    let area = Rect::new(0, 0, 80, 10);
    let t = compute_text_area(area, false);
    assert_eq!((t.x, t.y, t.width, t.height), (4, 0, 74, 10));
    let t2 = compute_text_area(area, true);
    assert_eq!((t2.x, t2.y, t2.width, t2.height), (4, 2, 74, 8));
}
