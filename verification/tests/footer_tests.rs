use chatview::footer::{context_text, fit_footer_right_text, footer_telemetry_text, split_footer_columns,
    split_footer_columns_hint, split_footer_three_columns, FooterInfo, FOOTER_COLUMN_GAP};
use chatview::rect::Rect;
use unicode_width::UnicodeWidthStr;

// ── split_footer_columns (context-only, right is exact) ──────────────────

#[test]
fn split_footer_columns_right_gets_exact_width() {
    let area = Rect::new(0, 0, 80, 1);
    let right_width = 13u16; // context text
    let (left, right) = split_footer_columns(area, right_width);
    assert_eq!(
        left.width + FOOTER_COLUMN_GAP + right.width,
        80,
        "columns + gap must equal area width"
    );
    assert_eq!(right.width, right_width, "right column gets exactly the measured width");
    assert_eq!(left.width, 80 - FOOTER_COLUMN_GAP - right_width, "left fills the remainder");
}

#[test]
fn split_footer_columns_short_context_gives_left_more_room() {
    // an 11-column context text: left should get 80-1-11 = 68 columns.
    let area = Rect::new(0, 0, 80, 1);
    let (left, right) = split_footer_columns(area, 11);
    assert_eq!(right.width, 11);
    assert_eq!(left.width, 68);
}

#[test]
fn split_footer_columns_zero_width() {
    let area = Rect::new(0, 0, 0, 1);
    let (left, right) = split_footer_columns(area, 13);
    assert_eq!(left.width, 0);
    assert_eq!(right.width, 0);
}

// ── split_footer_columns_hint (hint-only, left is anchored) ─────────────

#[test]
fn split_footer_columns_hint_left_gets_its_minimum() {
    // Left (mode/help) must never shrink even when the update hint is wide.
    let area = Rect::new(0, 0, 80, 1);
    let left_min = 24u16;
    let (left, right) = split_footer_columns_hint(area, left_min);
    assert_eq!(left.width + FOOTER_COLUMN_GAP + right.width, 80);
    assert!(
        left.width >= left_min,
        "left (mode/help) must keep at least its natural width; got {}",
        left.width
    );
}

#[test]
fn split_footer_columns_hint_right_fills_remainder() {
    // With left_min=24 on 80 cols: right should get 80-1-24 = 55 columns.
    let area = Rect::new(0, 0, 80, 1);
    let left_min = 24u16;
    let (left, right) = split_footer_columns_hint(area, left_min);
    assert_eq!(left.width, left_min, "Min constraint: left gets exactly its minimum");
    assert_eq!(right.width, 80 - FOOTER_COLUMN_GAP - left_min);
}

#[test]
fn split_footer_columns_hint_zero_width() {
    let area = Rect::new(0, 0, 0, 1);
    let (left, right) = split_footer_columns_hint(area, 24);
    assert_eq!(left.width, 0);
    assert_eq!(right.width, 0);
}

// ── split_footer_three_columns ───────────────────────────────────────────

#[test]
fn split_footer_three_columns_preserves_total_width() {
    let area = Rect::new(0, 0, 80, 1);
    let (left, mid, right) = split_footer_three_columns(area, 24, 13);
    assert_eq!(
        left.width
            .saturating_add(FOOTER_COLUMN_GAP)
            .saturating_add(mid.width)
            .saturating_add(FOOTER_COLUMN_GAP)
            .saturating_add(right.width),
        80,
        "all columns + gaps must equal area width"
    );
}

#[test]
fn split_footer_three_columns_anchors_left_and_right() {
    // Columns 1 and 3 are anchored; mid (update hint) gets whatever is left.
    let area = Rect::new(0, 0, 80, 1);
    let left_min = 24u16;
    let ctx_width = 13u16;
    let (left, mid, right) = split_footer_three_columns(area, left_min, ctx_width);

    assert_eq!(right.width, ctx_width, "right (context) gets its exact measured width");
    assert!(
        left.width >= left_min,
        "left (mode/help) must keep at least its natural width; got {}",
        left.width
    );
    // mid gets the flex remainder: 80 - 2 gaps - left_min - ctx_width = 41
    assert_eq!(mid.width, 80 - 2 * FOOTER_COLUMN_GAP - left_min - ctx_width);
}

#[test]
fn split_footer_three_columns_mid_gets_useful_width_for_hint() {
    // The hint line needs around 30 columns at any sane terminal width.
    for terminal_width in [80u16, 100, 120, 160, 200] {
        let area = Rect::new(0, 0, terminal_width, 1);
        let (_, mid, _) = split_footer_three_columns(area, 24, 13);
        assert!(
            mid.width >= 30,
            "mid should have room for the update hint at width {terminal_width}, got {}",
            mid.width
        );
    }
}

#[test]
fn split_footer_three_columns_context_variants() {
    // All real context text widths must be reflected exactly in the right column.
    for (label, ctx_w) in [
        ("Context: 100%", 13u16),
        ("Context: 37%", 12),
        ("Context: 0%", 11),
        ("Context: -", 10),
    ] {
        let area = Rect::new(0, 0, 80, 1);
        let (left, mid, right) = split_footer_three_columns(area, 24, ctx_w);
        assert_eq!(
            right.width, ctx_w,
            "right column width should match measured width of \"{label}\""
        );
        assert_eq!(
            left.width + FOOTER_COLUMN_GAP + mid.width + FOOTER_COLUMN_GAP + right.width,
            80
        );
    }
}

#[test]
fn split_footer_three_columns_zero_width() {
    let area = Rect::new(0, 0, 0, 1);
    let (left, mid, right) = split_footer_three_columns(area, 24, 13);
    assert_eq!(left.width, 0);
    assert_eq!(mid.width, 0);
    assert_eq!(right.width, 0);
}

// ── fit_footer_right_text ────────────────────────────────────────────────

#[test]
fn fit_footer_right_text_truncates_when_needed() {
    let text = "Context: 37%";
    let fitted = fit_footer_right_text(text, 8).expect("fitted text");
    assert!(fitted.ends_with("..."));
    assert!(UnicodeWidthStr::width(fitted.as_str()) <= 8);
}

#[test]
fn fit_footer_right_text_keeps_compacting_prefix() {
    let text = "\u{280B} Compacting...  Context: 37%";
    let fitted = fit_footer_right_text(text, 20).expect("fitted text");
    assert!(fitted.starts_with('\u{280B}'));
    assert!(UnicodeWidthStr::width(fitted.as_str()) <= 20);
}

#[test]
fn fit_footer_right_text_edge_cases() {
    assert_eq!(fit_footer_right_text("anything", 0), None);
    assert_eq!(fit_footer_right_text("   ", 10), None);
    assert_eq!(fit_footer_right_text("fits", 10).as_deref(), Some("fits"));
    // not even the ellipsis fits: all dots
    assert_eq!(fit_footer_right_text("too wide here", 2).as_deref(), Some(".."));
}

// ── context helpers ──────────────────────────────────────────────────────

#[test]
fn context_text_new_session_defaults_to_full() {
    assert_eq!(context_text(None, None, true), "100%");
    assert_eq!(context_text(Some(200_000), None, true), "100%");
}

#[test]
fn context_text_unknown_when_not_new_session() {
    assert_eq!(context_text(None, None, false), "-");
    assert_eq!(context_text(Some(200_000), None, false), "-");
}

#[test]
fn context_text_computes_percent_when_defined() {
    assert_eq!(context_text(Some(200_000), Some(100_000), false), "50%");
}

// ── footer_telemetry_text ────────────────────────────────────────────────

#[test]
fn footer_telemetry_new_session_uses_unknown_defaults() {
    let mut info = FooterInfo::new();
    info.session_id_set = true;

    let text = footer_telemetry_text(&info).expect("footer telemetry");
    assert_eq!(text, "Context: 100%");
}

#[test]
fn footer_telemetry_still_defaults_to_full_after_first_user_message() {
    // a user message alone reports no usage, so the default still applies
    let mut info = FooterInfo::new();
    info.session_id_set = true;

    let text = footer_telemetry_text(&info).expect("footer telemetry");
    assert_eq!(text, "Context: 100%");
}

#[test]
fn footer_telemetry_resume_ignores_cost_and_tokens() {
    let mut info = FooterInfo::new();
    info.session_id_set = true;
    info.total_tokens = 400;

    let text = footer_telemetry_text(&info).expect("footer telemetry");
    assert_eq!(text, "Context: -");
}

#[test]
fn footer_telemetry_compacting_prefixes_spinner() {
    let mut info = FooterInfo::new();
    info.session_id_set = true;
    info.is_compacting = true;
    info.spinner_frame = 0;

    let text = footer_telemetry_text(&info).expect("footer telemetry");
    assert_eq!(text, "\u{280B} Compacting...  Context: 100%");

    let lone = FooterInfo { is_compacting: true, ..FooterInfo::new() };
    assert_eq!(footer_telemetry_text(&lone).as_deref(), Some("\u{280B} Compacting..."));

    assert_eq!(footer_telemetry_text(&FooterInfo::new()), None);
}
