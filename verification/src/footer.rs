//! Footer layout and text: column splits for the mode badge, update hint
//! and context telemetry, and the telemetry texts themselves.

use vstd::prelude::*;
use vstd::string::StrSliceExecFns;
use vstd::string::StringExecFns;
use crate::rect::Rect;
use crate::strutil::{char_cols, char_display_width, push_char, spec_dec_digits, u64_to_string};

verus! {

/// Horizontal footer inset, matching the header's.
pub const FOOTER_PAD: u16 = 2;

/// Columns of blank space between footer columns.
pub const FOOTER_COLUMN_GAP: u16 = 1;

/// `v` clamped to the largest `u16` value, for stating what saturating
/// column arithmetic computes.
pub open spec fn sat16(v: int) -> int {
    if v > u16::MAX {
        u16::MAX as int
    } else {
        v
    }
}

/// Splits the footer for the context-only case: the right column is
/// anchored to exactly the measured text width (clamped to what fits after
/// the gap), and the left column fills the remainder. A zero-width area
/// yields two empty columns.
pub fn split_footer_columns(area: Rect, right_text_width: u16) -> (r: (Rect, Rect))
    ensures
        area.width == 0 ==> r == (area, Rect { width: 0u16, ..area }),
        area.width > 0 ==> ({
            let gap = if area.width >= 1 {
                1int
            } else {
                0int
            };
            let avail = area.width - gap;
            let rw = if right_text_width <= avail {
                right_text_width as int
            } else {
                avail
            };
            &&& r.0.width == avail - rw
            &&& r.1.width == rw
            &&& r.0.x == area.x
            &&& r.1.x == sat16(area.x + r.0.width + gap)
            &&& r.0.y == area.y && r.1.y == area.y
            &&& r.0.height == area.height && r.1.height == area.height
        }),
{
    if area.width == 0 {
        return (area, Rect { width: 0, ..area });
    }
    let avail = area.width - 1;
    let rw = if right_text_width <= avail {
        right_text_width
    } else {
        avail
    };
    let lw = avail - rw;
    (
        Rect { x: area.x, y: area.y, width: lw, height: area.height },
        Rect { x: area.x.saturating_add(lw).saturating_add(1), y: area.y, width: rw, height: area.height },
    )
}

/// Splits the footer for the hint-only case: the left column is pinned to
/// exactly its natural width (clamped to what fits after the gap) so the
/// mode badge never loses space, and the hint fills the remainder. A
/// zero-width area yields two empty columns.
pub fn split_footer_columns_hint(area: Rect, left_min_width: u16) -> (r: (Rect, Rect))
    ensures
        area.width == 0 ==> r == (area, Rect { width: 0u16, ..area }),
        area.width > 0 ==> ({
            let avail = area.width - 1;
            let lw = if left_min_width <= avail {
                left_min_width as int
            } else {
                avail as int
            };
            &&& r.0.width == lw
            &&& r.1.width == avail - lw
            &&& r.0.x == area.x
            &&& r.1.x == sat16(area.x + lw + 1)
            &&& r.0.y == area.y && r.1.y == area.y
            &&& r.0.height == area.height && r.1.height == area.height
        }),
{
    if area.width == 0 {
        return (area, Rect { width: 0, ..area });
    }
    let avail = area.width - 1;
    let lw = if left_min_width <= avail {
        left_min_width
    } else {
        avail
    };
    let rw = avail - lw;
    (
        Rect { x: area.x, y: area.y, width: lw, height: area.height },
        Rect { x: area.x.saturating_add(lw).saturating_add(1), y: area.y, width: rw, height: area.height },
    )
}

/// Splits the footer into mode badge, update hint and context columns: the
/// outer two are anchored first (left to its natural width, right to the
/// context text's exact width, each clamped to what still fits), the middle
/// hint column takes whatever remains, and one-column gaps separate
/// neighbors. A zero-width area yields three empty columns.
pub fn split_footer_three_columns(area: Rect, left_min_width: u16, context_width: u16) -> (r: (
    Rect,
    Rect,
    Rect,
))
    ensures
        area.width == 0 ==> r == (area, Rect { width: 0u16, ..area }, Rect { width: 0u16, ..area }),
        area.width > 0 ==> ({
            let w = area.width as int;
            let lw = if left_min_width <= w {
                left_min_width as int
            } else {
                w
            };
            let g1 = if w - lw >= 1 {
                1int
            } else {
                0int
            };
            let rw = if context_width <= w - lw - g1 {
                context_width as int
            } else {
                w - lw - g1
            };
            let g2 = if w - lw - g1 - rw >= 1 {
                1int
            } else {
                0int
            };
            let mw = w - lw - g1 - rw - g2;
            &&& r.0.width == lw
            &&& r.1.width == mw
            &&& r.2.width == rw
            &&& r.0.x == area.x
            &&& r.1.x == sat16(area.x + lw + g1)
            &&& r.2.x == sat16(sat16(sat16(area.x + lw) + g1) + mw + g2)
            &&& r.0.y == area.y && r.1.y == area.y && r.2.y == area.y
            &&& r.0.height == area.height && r.1.height == area.height && r.2.height
                == area.height
        }),
{
    if area.width == 0 {
        let zero = Rect { width: 0, ..area };
        return (area, zero, zero);
    }
    let w = area.width;
    let lw = if left_min_width <= w {
        left_min_width
    } else {
        w
    };
    let g1: u16 = if w - lw >= 1 {
        1
    } else {
        0
    };
    let rest1 = w - lw - g1;
    let rw = if context_width <= rest1 {
        context_width
    } else {
        rest1
    };
    let g2: u16 = if rest1 - rw >= 1 {
        1
    } else {
        0
    };
    let mw = rest1 - rw - g2;
    (
        Rect { x: area.x, y: area.y, width: lw, height: area.height },
        Rect {
            x: area.x.saturating_add(lw).saturating_add(g1),
            y: area.y,
            width: mw,
            height: area.height,
        },
        Rect {
            x: area.x.saturating_add(lw).saturating_add(g1).saturating_add(mw).saturating_add(g2),
            y: area.y,
            width: rw,
            height: area.height,
        },
    )
}

/// The summed display width of the first `i` characters of `s`.
pub open spec fn cols_sum(s: Seq<char>, i: int) -> nat
    decreases i,
{
    if i <= 0 {
        0
    } else {
        cols_sum(s, i - 1) + char_cols(s[i - 1])
    }
}

/// How many leading characters of `s` fit when three columns must stay free
/// for the ellipsis: the first `i` with no room for character `i`, walking
/// with the accumulated width.
pub open spec fn fit_prefix_len(s: Seq<char>, max_width: int, i: int) -> int
    decreases s.len() - i,
{
    if i < 0 || i >= s.len() {
        s.len() as int
    } else if cols_sum(s, i) + char_cols(s[i]) + 3 > max_width {
        i
    } else {
        fit_prefix_len(s, max_width, i + 1)
    }
}

/// True if `s` consists of blanks only (ASCII whitespace).
pub open spec fn all_blank(s: Seq<char>) -> bool {
    forall|i: int| 0 <= i < s.len() ==> crate::version::spec_is_ws(#[trigger] s[i])
}

/// Fits `text` into `max_width` display columns: unchanged when it already
/// fits, otherwise truncated with a `...` suffix (or all dots when not even
/// that fits); `None` when there is no room at all or the text is blank.
pub fn fit_footer_right_text(text: &str, max_width: usize) -> (r: Option<String>)
    requires
        max_width < usize::MAX,
    ensures
        r is None <==> max_width == 0 || all_blank(text@),
        r is Some && cols_sum(text@, text@.len() as int) <= max_width ==> (r->0)@ == text@,
        r is Some && cols_sum(text@, text@.len() as int) > max_width && max_width <= 3 ==> (
        r->0)@ =~= Seq::new(max_width as nat, |i: int| '.'),
        r is Some && cols_sum(text@, text@.len() as int) > max_width && max_width > 3 ==> ({
            let k = fit_prefix_len(text@, max_width as int, 0);
            (r->0)@ == text@.take(k) + seq!['.', '.', '.']
        }),
{
    let n = text.unicode_len();
    if max_width == 0 {
        proof {
            assert(max_width == 0 || all_blank(text@));
        }
        return None;
    }
    let mut blank = true;
    let mut i: usize = 0;
    while i < n
        invariant
            0 <= i <= n,
            n == text@.len(),
            blank <==> (forall|j: int|
                0 <= j < i ==> crate::version::spec_is_ws(#[trigger] text@[j])),
        decreases n - i,
    {
        let c = text.get_char(i);
        let cb = c == ' ' || c == '\t' || c == '\n' || c == '\r';
        blank = blank && cb;
        i = i + 1;
    }
    if blank {
        return None;
    }
    assert(!all_blank(text@));
    let mut total: usize = 0;
    let mut i: usize = 0;
    while i < n
        invariant
            0 <= i <= n,
            n == text@.len(),
            max_width < usize::MAX,
            total == if cols_sum(text@, i as int) > usize::MAX {
                usize::MAX as nat
            } else {
                cols_sum(text@, i as int)
            },
        decreases n - i,
    {
        let w = char_display_width(text.get_char(i));
        total = total.saturating_add(w);
        i = i + 1;
    }
    if total <= max_width {
        proof {
            assert(cols_sum(text@, n as int) <= max_width);
        }
        return Some(text.to_owned());
    }
    if max_width <= 3 {
        let mut dots = String::new();
        let mut i: usize = 0;
        while i < max_width
            invariant
                0 <= i <= max_width,
                dots@ =~= Seq::new(i as nat, |j: int| '.'),
            decreases max_width - i,
        {
            push_char(&mut dots, '.');
            proof {
                assert(dots@ =~= Seq::new((i + 1) as nat, |j: int| '.'));
            }
            i = i + 1;
        }
        return Some(dots);
    }
    let mut fitted = String::new();
    let mut width: usize = 0;
    let mut i: usize = 0;
    let mut stopped = false;
    while i < n && !stopped
        invariant
            0 <= i <= n,
            n == text@.len(),
            3 < max_width < usize::MAX,
            cols_sum(text@, n as int) > max_width,
            !stopped ==> fit_prefix_len(text@, max_width as int, 0) == fit_prefix_len(
                text@,
                max_width as int,
                i as int,
            ),
            stopped ==> fit_prefix_len(text@, max_width as int, 0) == i,
            !stopped ==> width == cols_sum(text@, i as int) && width <= max_width,
            fitted@ == text@.take(i as int),
        decreases n - i, (if stopped {
            0int
        } else {
            1int
        }),
    {
        let c = text.get_char(i);
        let cw = char_display_width(c);
        if width.saturating_add(cw).saturating_add(3) > max_width {
            stopped = true;
        } else {
            push_char(&mut fitted, c);
            proof {
                assert(text@.take(i + 1) =~= text@.take(i as int).push(text@[i as int]));
            }
            width = width + cw;
            i = i + 1;
        }
    }
    proof {
        if !stopped {
            assert(fit_prefix_len(text@, max_width as int, n as int) == n);
            assert(cols_sum(text@, n as int) > max_width);
            assert(false);
        }
    }
    fitted.append("...");
    proof {
        reveal_strlit("...");
        assert(("...")@ =~= seq!['.', '.', '.']);
        assert(fitted@ =~= text@.take(fit_prefix_len(text@, max_width as int, 0)) + seq![
            '.',
            '.',
            '.',
        ]);
    }
    Some(fitted)
}

/// The rounded share of the context window that remains, as
/// [`context_remaining_percent_rounded`] computes it.
pub open spec fn spec_context_percent(used: nat, window: nat) -> Option<u64> {
    if window == 0 {
        None
    } else {
        let used_percent = (used * 100 + window / 2) / window;
        if used_percent >= 100 {
            Some(0u64)
        } else {
            Some((100 - used_percent) as u64)
        }
    }
}

/// The percentage of the context window still free, rounded to the nearest
/// whole percent and clamped to `0..=100`; `None` for an empty window.
pub fn context_remaining_percent_rounded(used: u64, window: u64) -> (r: Option<u64>)
    ensures
        r == spec_context_percent(used as nat, window as nat),
{
    if window == 0 {
        return None;
    }
    let used_percent: u128 = (used as u128 * 100 + (window as u128) / 2) / (window as u128);
    if used_percent >= 100 {
        Some(0)
    } else {
        Some(100 - used_percent as u64)
    }
}

/// The context telemetry text: a fresh session defaults to `100%`, a known
/// window and usage give the rounded remaining percentage with a `%` sign,
/// and anything else shows `-`.
pub open spec fn spec_context_text(
    window: Option<u64>,
    used: Option<u64>,
    show_new_session_default: bool,
) -> Seq<char> {
    if show_new_session_default {
        seq!['1', '0', '0', '%']
    } else if window is Some && used is Some && spec_context_percent(
        used->0 as nat,
        window->0 as nat,
    ) is Some {
        spec_dec_digits(spec_context_percent(used->0 as nat, window->0 as nat)->0 as nat) + seq![
            '%',
        ]
    } else {
        seq!['-']
    }
}

/// Renders the context telemetry text; see [`spec_context_text`].
pub fn context_text(window: Option<u64>, used: Option<u64>, show_new_session_default: bool) -> (r:
    String)
    ensures
        r@ == spec_context_text(window, used, show_new_session_default),
{
    if show_new_session_default {
        let mut s = String::new();
        push_char(&mut s, '1');
        push_char(&mut s, '0');
        push_char(&mut s, '0');
        push_char(&mut s, '%');
        proof {
            assert(s@ =~= seq!['1', '0', '0', '%']);
        }
        return s;
    }
    match (window, used) {
        (Some(w), Some(u)) => {
            match context_remaining_percent_rounded(u, w) {
                Some(percent) => {
                    let mut s = u64_to_string(percent);
                    push_char(&mut s, '%');
                    proof {
                        assert(s@ =~= spec_dec_digits(percent as nat) + seq!['%']);
                    }
                    s
                },
                None => {
                    let mut s = String::new();
                    push_char(&mut s, '-');
                    proof {
                        assert(s@ =~= seq!['-']);
                    }
                    s
                },
            }
        },
        _ => {
            let mut s = String::new();
            push_char(&mut s, '-');
            proof {
                assert(s@ =~= seq!['-']);
            }
            s
        },
    }
}

/// What the footer's telemetry needs to know about the session.
#[derive(Debug, Clone, Copy)]
pub struct FooterInfo {
    /// True once a session id is known.
    pub session_id_set: bool,
    /// The model's context window, in tokens, when known.
    pub context_window: Option<u64>,
    /// Tokens of the window already used, when known.
    pub context_used: Option<u64>,
    /// Total tokens accounted to the session so far.
    pub total_tokens: u64,
    /// True while the session's history is being compacted.
    pub is_compacting: bool,
    /// Animation frame counter for the compacting spinner.
    pub spinner_frame: usize,
}

impl FooterInfo {
    /// Telemetry for a session that has not reported anything yet.
    pub fn new() -> (r: FooterInfo)
        ensures
            r == (FooterInfo {
                session_id_set: false,
                context_window: None::<u64>,
                context_used: None::<u64>,
                total_tokens: 0u64,
                is_compacting: false,
                spinner_frame: 0usize,
            }),
    {
        FooterInfo {
            session_id_set: false,
            context_window: None,
            context_used: None,
            total_tokens: 0,
            is_compacting: false,
            spinner_frame: 0,
        }
    }
}

/// The spinner glyph for an animation frame (a ten-frame braille cycle).
pub open spec fn spec_spinner_char(frame: nat) -> char {
    let i = frame % 10;
    if i == 0 {
        '\u{280B}'
    } else if i == 1 {
        '\u{2819}'
    } else if i == 2 {
        '\u{2839}'
    } else if i == 3 {
        '\u{2838}'
    } else if i == 4 {
        '\u{283C}'
    } else if i == 5 {
        '\u{2834}'
    } else if i == 6 {
        '\u{2826}'
    } else if i == 7 {
        '\u{2827}'
    } else if i == 8 {
        '\u{2807}'
    } else {
        '\u{280F}'
    }
}

/// The spinner glyph for an animation frame; see [`spec_spinner_char`].
fn spinner_char(frame: usize) -> (c: char)
    ensures
        c == spec_spinner_char(frame as nat),
{
    let i = frame % 10;
    if i == 0 {
        '\u{280B}'
    } else if i == 1 {
        '\u{2819}'
    } else if i == 2 {
        '\u{2839}'
    } else if i == 3 {
        '\u{2838}'
    } else if i == 4 {
        '\u{283C}'
    } else if i == 5 {
        '\u{2834}'
    } else if i == 6 {
        '\u{2826}'
    } else if i == 7 {
        '\u{2827}'
    } else if i == 8 {
        '\u{2807}'
    } else {
        '\u{280F}'
    }
}

/// True exactly when the session is brand new: identified, but with no
/// tokens counted and no usage reported, so the context defaults to full.
pub open spec fn spec_is_new_session(info: FooterInfo) -> bool {
    info.session_id_set && info.total_tokens == 0 && info.context_used is None
}

/// The footer's right-hand telemetry text, as
/// [`footer_telemetry_text`] renders it: the context line when any session
/// telemetry exists, prefixed by a spinner and `Compacting...` while the
/// history is compacted; `None` when there is nothing to show.
pub open spec fn spec_footer_telemetry_text(info: FooterInfo) -> Option<Seq<char>> {
    let has_context = info.session_id_set || info.context_window is Some || info.context_used
        is Some;
    let context_part = "Context: "@ + spec_context_text(
        info.context_window,
        info.context_used,
        spec_is_new_session(info),
    );
    if !has_context && !info.is_compacting {
        None
    } else if !info.is_compacting {
        Some(context_part)
    } else {
        let prefix = seq![spec_spinner_char(info.spinner_frame as nat)] + " Compacting..."@;
        if has_context {
            Some(prefix + "  "@ + context_part)
        } else {
            Some(prefix)
        }
    }
}

/// Renders the footer's right-hand telemetry; see
/// [`spec_footer_telemetry_text`].
pub fn footer_telemetry_text(info: &FooterInfo) -> (r: Option<String>)
    ensures
        match r {
            Some(s) => spec_footer_telemetry_text(*info) == Some(s@),
            None => spec_footer_telemetry_text(*info) is None,
        },
{
    let has_context = info.session_id_set || info.context_window.is_some()
        || info.context_used.is_some();
    let is_new_session = info.session_id_set && info.total_tokens == 0
        && info.context_used.is_none();
    if !has_context && !info.is_compacting {
        return None;
    }
    let mut context_part = String::new();
    context_part.append("Context: ");
    let pct = context_text(info.context_window, info.context_used, is_new_session);
    context_part.append(pct.as_str());
    if !info.is_compacting {
        proof {
            assert(context_part@ =~= "Context: "@ + spec_context_text(
                info.context_window,
                info.context_used,
                spec_is_new_session(*info),
            ));
        }
        return Some(context_part);
    }
    let mut text = String::new();
    push_char(&mut text, spinner_char(info.spinner_frame));
    text.append(" Compacting...");
    if has_context {
        text.append("  ");
        text.append(context_part.as_str());
        proof {
            assert(text@ =~= (seq![spec_spinner_char(info.spinner_frame as nat)]
                + " Compacting..."@) + "  "@ + ("Context: "@ + spec_context_text(
                info.context_window,
                info.context_used,
                spec_is_new_session(*info),
            )));
        }
    } else {
        proof {
            assert(text@ =~= seq![spec_spinner_char(info.spinner_frame as nat)]
                + " Compacting..."@);
        }
    }
    Some(text)
}

} // verus!
