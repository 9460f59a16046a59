//! Sizing the input area: how many visual lines the input buffer occupies
//! once wrapped to the available width.

use vstd::prelude::*;
use vstd::string::StrSliceExecFns;
use crate::input::{InputState, iv_wf};

verus! {

/// Horizontal input inset, matching the header's and footer's.
pub const INPUT_PAD: u16 = 2;

/// Columns taken by the prompt marker and its trailing space.
pub const PROMPT_WIDTH: u16 = 2;

/// The input area never grows beyond this many lines, so it cannot consume
/// the whole screen.
pub const MAX_INPUT_HEIGHT: u16 = 12;

/// Visual lines one buffer line of `len` characters takes at `cw` columns:
/// always one more than the number of full wraps (a line exactly filling
/// its row wraps the cursor onto a fresh row).
pub open spec fn spec_wrapped_lines(len: nat, cw: nat) -> nat
    recommends
        cw > 0,
{
    len / cw + 1
}

/// The summed wrapped line count of the first `i` buffer lines.
pub open spec fn spec_vis_sum(lines: Seq<Seq<char>>, cw: nat, i: int) -> nat
    decreases i,
{
    if i <= 0 {
        0
    } else {
        spec_vis_sum(lines, cw, i - 1) + spec_wrapped_lines(lines[i - 1].len(), cw)
    }
}

/// The content width left for input text at a given area width: the area
/// minus both pads and the prompt column.
pub open spec fn spec_content_width(area_width: u16) -> nat {
    if area_width >= 6 {
        (area_width - 6) as nat
    } else {
        0
    }
}

/// How many visual lines the input occupies at `area_width`, counting
/// wrapping and capped at [`MAX_INPUT_HEIGHT`]: an empty buffer takes one
/// line; with no room for content, one line per buffer line (uncapped, up
/// to `u16::MAX`); otherwise each line contributes its wrapped line count
/// and the total is capped.
pub fn visual_line_count(input: &InputState, area_width: u16) -> (r: u16)
    requires
        iv_wf(input@),
    ensures
        input@.lines.len() == 1 && input@.lines[0].len() == 0 ==> r == 1,
        !(input@.lines.len() == 1 && input@.lines[0].len() == 0) && spec_content_width(area_width)
            == 0 ==> r == if input@.lines.len() > u16::MAX {
            u16::MAX as int
        } else {
            input@.lines.len() as int
        },
        !(input@.lines.len() == 1 && input@.lines[0].len() == 0) && spec_content_width(area_width)
            > 0 ==> r == if spec_vis_sum(
            input@.lines,
            spec_content_width(area_width),
            input@.lines.len() as int,
        ) > MAX_INPUT_HEIGHT {
            MAX_INPUT_HEIGHT as int
        } else {
            spec_vis_sum(
                input@.lines,
                spec_content_width(area_width),
                input@.lines.len() as int,
            ) as int
        },
{
    if input.is_empty() {
        return 1;
    }
    let content_width_16 = area_width.saturating_sub(INPUT_PAD * 2).saturating_sub(PROMPT_WIDTH);
    if content_width_16 == 0 {
        return input.line_count();
    }
    let cw = content_width_16 as usize;
    let n = input.lines.len();
    let mut total: u16 = 0;
    let mut i: usize = 0;
    while i < n
        invariant
            0 <= i <= n,
            n == input@.lines.len(),
            iv_wf(input@),
            cw == spec_content_width(area_width),
            cw > 0,
            total == if spec_vis_sum(input@.lines, cw as nat, i as int) > u16::MAX {
                u16::MAX as nat
            } else {
                spec_vis_sum(input@.lines, cw as nat, i as int)
            },
        decreases n - i,
    {
        let chars = input.lines[i].as_str().unicode_len();
        let wraps = chars / cw;
        let wrapped: u16 = if wraps >= 65535 {
            65535
        } else {
            (wraps + 1) as u16
        };
        proof {
            assert(wrapped == if spec_wrapped_lines(input@.lines[i as int].len(), cw as nat)
                > u16::MAX {
                u16::MAX as nat
            } else {
                spec_wrapped_lines(input@.lines[i as int].len(), cw as nat)
            });
        }
        total = total.saturating_add(wrapped);
        i = i + 1;
    }
    if total > MAX_INPUT_HEIGHT {
        MAX_INPUT_HEIGHT
    } else {
        total
    }
}

} // verus!
