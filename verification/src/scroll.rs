//! The smooth-scroll controller: an integer target, an animated position in
//! thousandths of a line, and auto-scroll re-attachment at the bottom.

use vstd::prelude::*;

verus! {

/// Content heights beyond this many lines are clamped before scroll math:
/// far past any real transcript, and keeping every intermediate product of
/// the thousandths-of-a-line animation inside a `u64`.
pub const MAX_SCROLL_CONTENT: u64 = 0xFFFF_FFFF;

/// Position snap threshold: within this many thousandths of the target the
/// animation stops exactly on it.
pub const SCROLL_EPSILON_MILLI: u64 = 10;

/// The scroll state: the authoritative integer target, the animated
/// position converging toward it, the integer offset actually rendered, and
/// whether the view is pinned to the bottom.
#[derive(Debug, Clone, Copy)]
pub struct ScrollState {
    /// The offset (in lines) used for rendering this frame: the rounded
    /// animated position.
    pub offset: usize,
    /// Desired scroll offset in lines.
    pub target: usize,
    /// Animated position in thousandths of a line, converging to
    /// `target * 1000`.
    pub position_milli: u64,
    /// True while pinned to the newest content.
    pub auto_scroll: bool,
}

/// The animated position stays within the clamped content range's scale.
pub open spec fn scroll_wf(s: ScrollState) -> bool {
    s.position_milli <= MAX_SCROLL_CONTENT * 1000
}

/// `content_height` clamped to the range scroll math works in.
pub open spec fn spec_clamp_content(content_height: nat) -> nat {
    if content_height > MAX_SCROLL_CONTENT {
        MAX_SCROLL_CONTENT as nat
    } else {
        content_height
    }
}

/// One animation tick of the controller, as [`advance_scroll`] performs it.
///
/// With everything visible, scrolling is disabled: all fields reset and
/// auto-scroll engages. Otherwise the target snaps to the bottom while
/// auto-scrolling, is clamped to the scrollable range, and the position
/// moves three tenths of the way toward it (snapping exactly when within
/// [`SCROLL_EPSILON_MILLI`]); the rounded position becomes the offset, and
/// reaching the bottom re-engages auto-scroll.
pub open spec fn spec_advance(
    s: ScrollState,
    content_height: nat,
    viewport_height: nat,
) -> ScrollState {
    let ch = spec_clamp_content(content_height);
    if ch <= viewport_height {
        ScrollState { offset: 0usize, target: 0usize, position_milli: 0u64, auto_scroll: true }
    } else {
        let max_scroll = (ch - viewport_height) as nat;
        let t0 = if s.auto_scroll {
            max_scroll
        } else {
            s.target as nat
        };
        let t = if t0 > max_scroll {
            max_scroll
        } else {
            t0
        };
        let tm = t * 1000;
        let p = s.position_milli as nat;
        let p2 = if tm >= p {
            if tm - p < SCROLL_EPSILON_MILLI {
                tm
            } else {
                (p + (tm - p) * 3 / 10) as nat
            }
        } else {
            if p - tm < SCROLL_EPSILON_MILLI {
                tm
            } else {
                (p - (p - tm) * 3 / 10) as nat
            }
        };
        let off = (p2 + 500) / 1000;
        ScrollState {
            offset: off as usize,
            target: t as usize,
            position_milli: p2 as u64,
            auto_scroll: s.auto_scroll || off >= max_scroll,
        }
    }
}

/// Advances the controller by one frame; see [`spec_advance`].
pub fn advance_scroll(s: &mut ScrollState, content_height: usize, viewport_height: usize)
    requires
        scroll_wf(*old(s)),
    ensures
        *final(s) == spec_advance(*old(s), content_height as nat, viewport_height as nat),
        scroll_wf(*final(s)),
{
    let ch: u64 = if content_height as u64 > MAX_SCROLL_CONTENT {
        MAX_SCROLL_CONTENT
    } else {
        content_height as u64
    };
    let vh: u64 = viewport_height as u64;
    if ch <= vh {
        s.offset = 0;
        s.target = 0;
        s.position_milli = 0;
        s.auto_scroll = true;
        return ;
    }
    let max_scroll: u64 = ch - vh;
    let t0: u64 = if s.auto_scroll {
        max_scroll
    } else {
        s.target as u64
    };
    let t: u64 = if t0 > max_scroll {
        max_scroll
    } else {
        t0
    };
    let tm: u64 = t * 1000;
    let p: u64 = s.position_milli;
    let p2: u64 = if tm >= p {
        if tm - p < SCROLL_EPSILON_MILLI {
            tm
        } else {
            p + (tm - p) * 3 / 10
        }
    } else {
        if p - tm < SCROLL_EPSILON_MILLI {
            tm
        } else {
            p - (p - tm) * 3 / 10
        }
    };
    let off: u64 = (p2 + 500) / 1000;
    s.offset = off as usize;
    s.target = t as usize;
    s.position_milli = p2;
    s.auto_scroll = s.auto_scroll || off >= max_scroll;
}

impl ScrollState {
    /// The initial state: at the top, pinned to the bottom.
    pub fn new() -> (s: ScrollState)
        ensures
            s == (ScrollState {
                offset: 0usize,
                target: 0usize,
                position_milli: 0u64,
                auto_scroll: true,
            }),
            scroll_wf(s),
    {
        ScrollState { offset: 0, target: 0, position_milli: 0, auto_scroll: true }
    }
}

} // verus!
