//! Autocomplete dropdown state and geometry: which dropdown is active, how
//! tall and wide it is, where it anchors relative to the wrapped input text,
//! and case-insensitive match highlighting.

use vstd::prelude::*;
use vstd::string::StrSliceExecFns;
use vstd::string::StringExecFns;
use crate::rect::Rect;
use crate::strutil::{char_cols, char_display_width, spec_dec_digits, u64_to_string};

verus! {

/// Most candidate rows a dropdown shows at once.
pub const MAX_VISIBLE: usize = 8;

/// Horizontal padding to match the input inset.
pub const INPUT_PAD: u16 = 2;

/// Prompt column width: prompt plus trailing space.
pub const PROMPT_WIDTH: u16 = 2;

/// Largest dropdown width, in columns.
pub const MAX_WIDTH: u16 = 60;

/// Smallest dropdown width that keeps list entries readable.
pub const MIN_WIDTH: u16 = 20;

/// Rows of space kept between the trigger line and the dropdown.
pub const ANCHOR_VERTICAL_GAP: u16 = 1;

/// Rows the login hint takes above the input when shown.
pub const LOGIN_HINT_LINES: u16 = 2;

/// One file-path completion candidate.
pub struct FileCandidate {
    pub rel_path: String,
}

/// One slash-command completion candidate: the command (or argument) text
/// and an optional dimmed description.
pub struct SlashCandidate {
    pub primary: String,
    pub secondary: Option<String>,
}

/// Selection state of a candidate list.
#[derive(Debug, Clone, Copy)]
pub struct DialogState {
    pub selected: usize,
}

impl DialogState {
    /// The window of candidates to show: the last `max_visible` entries up
    /// to and including the selection (or the first ones while the
    /// selection is still near the top), clipped to the list.
    pub fn visible_range(&self, total: usize, max_visible: usize) -> (r: (usize, usize))
        requires
            max_visible >= 1,
        ensures
            r.0 == ({
                let s0 = if self.selected >= max_visible {
                    self.selected - max_visible + 1
                } else {
                    0int
                };
                if s0 <= total {
                    s0
                } else {
                    total as int
                }
            }),
            r.1 == if total <= r.0 + max_visible {
                total as int
            } else {
                r.0 + max_visible
            },
            r.0 <= r.1 <= total,
            self.selected < total ==> r.0 <= self.selected < r.1,
    {
        let s0 = if self.selected >= max_visible {
            self.selected - max_visible + 1
        } else {
            0
        };
        let start = if s0 <= total {
            s0
        } else {
            total
        };
        let end = if total - start <= max_visible {
            total
        } else {
            start + max_visible
        };
        (start, end)
    }
}

/// Where a mention (`@file`) completion is under way.
pub struct MentionState {
    pub candidates: Vec<FileCandidate>,
    pub query: String,
    pub trigger_row: usize,
    pub trigger_col: usize,
    pub dialog: DialogState,
}

/// What part of a slash command is being completed.
pub enum SlashContext {
    CommandName,
    Argument { command: String },
}

/// Where a slash-command completion is under way.
pub struct SlashState {
    pub candidates: Vec<SlashCandidate>,
    pub query: String,
    pub trigger_row: usize,
    pub trigger_col: usize,
    pub dialog: DialogState,
    pub context: SlashContext,
}

/// The autocomplete state the input owns: at most one of the two dropdown
/// kinds is shown, mention taking precedence.
pub struct Autocomplete {
    pub mention: Option<MentionState>,
    pub slash: Option<SlashState>,
}

/// The active dropdown, borrowed from the autocomplete state.
pub enum Dropdown<'a> {
    Mention(&'a MentionState),
    Slash(&'a SlashState),
}

/// Candidate count of the dropdown that would show: the mention list when
/// present, else the slash list, else nothing.
pub open spec fn spec_active_count(ac: Autocomplete) -> nat {
    match ac.mention {
        Some(m) => m.candidates@.len(),
        None => match ac.slash {
            Some(s) => s.candidates@.len(),
            None => 0,
        },
    }
}

/// True if a dropdown with at least one candidate is showing.
pub fn is_active(ac: &Autocomplete) -> (r: bool)
    ensures
        r == ({
            ||| (ac.mention matches Some(m) && m.candidates@.len() > 0)
            ||| (ac.slash matches Some(s) && s.candidates@.len() > 0)
        }),
{
    let m_active = match &ac.mention {
        Some(m) => m.candidates.len() > 0,
        None => false,
    };
    let s_active = match &ac.slash {
        Some(s) => s.candidates.len() > 0,
        None => false,
    };
    m_active || s_active
}

/// The dropdown's height in rows: the visible candidates plus the top and
/// bottom border, or zero when there is nothing to show.
pub fn compute_height(ac: &Autocomplete) -> (r: u16)
    ensures
        spec_active_count(*ac) == 0 ==> r == 0,
        spec_active_count(*ac) > 0 ==> r == (if spec_active_count(*ac) < MAX_VISIBLE {
            spec_active_count(*ac) as int
        } else {
            MAX_VISIBLE as int
        }) + 2,
{
    let count = match &ac.mention {
        Some(m) => m.candidates.len(),
        None => match &ac.slash {
            Some(s) => s.candidates.len(),
            None => 0,
        },
    };
    if count == 0 {
        0
    } else {
        let visible = if count < MAX_VISIBLE {
            count
        } else {
            MAX_VISIBLE
        };
        (visible as u16) + 2
    }
}

/// The dropdown to draw: the mention list when it has candidates, else the
/// slash list when it has candidates.
pub fn active_dropdown<'a>(ac: &'a Autocomplete) -> (r: Option<Dropdown<'a>>)
    ensures
        r is Some <==> ((ac.mention matches Some(m) && m.candidates@.len() > 0) || (
        ac.slash matches Some(s) && s.candidates@.len() > 0)),
        (ac.mention matches Some(m) && m.candidates@.len() > 0) ==> (r matches Some(
            Dropdown::Mention(rm),
        ) && *rm == ac.mention->0),
        !(ac.mention matches Some(m) && m.candidates@.len() > 0) && (ac.slash matches Some(s)
            && s.candidates@.len() > 0) ==> (r matches Some(Dropdown::Slash(rs)) && *rs
            == ac.slash->0),
{
    match &ac.mention {
        Some(m) => {
            if m.candidates.len() > 0 {
                return Some(Dropdown::Mention(m));
            }
        },
        None => {},
    }
    match &ac.slash {
        Some(s) => {
            if s.candidates.len() > 0 {
                return Some(Dropdown::Slash(s));
            }
        },
        None => {},
    }
    None
}

/// The input position (row, character column) at which the dropdown's
/// trigger character sits.
pub fn dropdown_trigger(dropdown: &Dropdown<'_>) -> (r: (usize, usize))
    ensures
        dropdown matches Dropdown::Mention(m) ==> r == (m.trigger_row, m.trigger_col),
        dropdown matches Dropdown::Slash(s) ==> r == (s.trigger_row, s.trigger_col),
{
    match dropdown {
        Dropdown::Mention(m) => (m.trigger_row, m.trigger_col),
        Dropdown::Slash(s) => (s.trigger_row, s.trigger_col),
    }
}

/// Title and visible-window metadata of a dropdown.
pub struct DropdownMeta {
    pub visible_count: usize,
    pub start: usize,
    pub end: usize,
    pub title: String,
}

/// The dropdown's title text and candidate window: mention dropdowns list
/// files and folders, slash dropdowns list commands or one command's
/// arguments, each titled with the candidate count.
pub fn dropdown_meta(dropdown: &Dropdown<'_>) -> (r: DropdownMeta)
    ensures
        r.visible_count == if spec_dropdown_count(*dropdown) < MAX_VISIBLE {
            spec_dropdown_count(*dropdown) as int
        } else {
            MAX_VISIBLE as int
        },
        r.start <= r.end <= spec_dropdown_count(*dropdown),
        dropdown matches Dropdown::Mention(m) ==> r.title@ == " Files & Folders ("@
            + spec_dec_digits(m.candidates@.len()) + ") "@,
        dropdown matches Dropdown::Slash(s) ==> ((s.context is CommandName ==> r.title@
            == " Commands ("@ + spec_dec_digits(s.candidates@.len()) + ") "@) && (
        s.context matches SlashContext::Argument { command } ==> r.title@ == " "@ + command@
            + " Args ("@ + spec_dec_digits(s.candidates@.len()) + ") "@)),
{
    match dropdown {
        Dropdown::Mention(m) => {
            let count = m.candidates.len();
            let visible_count = if count < MAX_VISIBLE {
                count
            } else {
                MAX_VISIBLE
            };
            let (start, end) = m.dialog.visible_range(count, MAX_VISIBLE);
            let mut title = String::new();
            title.append(" Files & Folders (");
            let num = u64_to_string(count as u64);
            title.append(num.as_str());
            title.append(") ");
            DropdownMeta { visible_count, start, end, title }
        },
        Dropdown::Slash(s) => {
            let count = s.candidates.len();
            let visible_count = if count < MAX_VISIBLE {
                count
            } else {
                MAX_VISIBLE
            };
            let (start, end) = s.dialog.visible_range(count, MAX_VISIBLE);
            let num = u64_to_string(count as u64);
            let mut title = String::new();
            match &s.context {
                SlashContext::CommandName => {
                    title.append(" Commands (");
                    title.append(num.as_str());
                    title.append(") ");
                },
                SlashContext::Argument { command } => {
                    title.append(" ");
                    title.append(command.as_str());
                    title.append(" Args (");
                    title.append(num.as_str());
                    title.append(") ");
                },
            }
            DropdownMeta { visible_count, start, end, title }
        },
    }
}

/// The candidate count behind a dropdown.
pub open spec fn spec_dropdown_count(d: Dropdown<'_>) -> nat {
    match d {
        Dropdown::Mention(m) => m.candidates@.len(),
        Dropdown::Slash(s) => s.candidates@.len(),
    }
}

/// Picks the dropdown's column and width: the dropdown prefers the text
/// area's width clamped to at most [`MAX_WIDTH`] (and at least
/// [`MIN_WIDTH`] when the area allows it), anchors at the trigger column,
/// and shifts left just enough to stay inside the area.
pub fn choose_dropdown_x(anchor_x: u16, area_left: u16, area_right: u16, text_area_width: u16) -> (r:
    (u16, u16))
    ensures
        area_right <= area_left || text_area_width == 0 ==> r == (area_left, 0u16),
        area_right > area_left && text_area_width > 0 ==> ({
            let preferred = if text_area_width < MAX_WIDTH {
                text_area_width as int
            } else {
                MAX_WIDTH as int
            };
            let w = if text_area_width >= MIN_WIDTH && preferred < MIN_WIDTH {
                MIN_WIDTH as int
            } else {
                preferred
            };
            let a = if anchor_x < area_left {
                area_left as int
            } else if anchor_x > area_right - 1 {
                area_right - 1
            } else {
                anchor_x as int
            };
            let shifted = if crate::footer::sat16(a + w) > area_right {
                if area_right >= w {
                    area_right - w
                } else {
                    0int
                }
            } else {
                a
            };
            let x = if shifted < area_left {
                area_left as int
            } else {
                shifted
            };
            r == (x as u16, w as u16)
        }),
{
    if area_right <= area_left || text_area_width == 0 {
        return (area_left, 0);
    }
    let preferred_width = if text_area_width < MAX_WIDTH {
        text_area_width
    } else {
        MAX_WIDTH
    };
    let width = if text_area_width >= MIN_WIDTH && preferred_width < MIN_WIDTH {
        MIN_WIDTH
    } else {
        preferred_width
    };
    let hi = area_right - 1;
    let a = if anchor_x < area_left {
        area_left
    } else if anchor_x > hi {
        hi
    } else {
        anchor_x
    };
    let mut x = a;
    if x.saturating_add(width) > area_right {
        x = if area_right >= width {
            area_right - width
        } else {
            0
        };
    }
    if x < area_left {
        x = area_left;
    }
    (x, width)
}

/// Picks the dropdown's top row: below the anchor with a gap when it fits,
/// else above with a gap, else on whichever side has more room; the result
/// is clamped to the frame, then pushed off the anchor row if it can be
/// placed fully below or above it.
pub fn choose_dropdown_y(anchor_y: u16, height: u16, frame_top: u16, frame_bottom: u16) -> (y: u16)
    ensures
        height == 0 || frame_bottom <= frame_top ==> y == frame_top,
        frame_top < frame_bottom && height > 0 && frame_top + height <= frame_bottom ==> frame_top
            <= y <= frame_bottom - height,
        frame_top < frame_bottom && height > 0 && frame_top <= anchor_y && anchor_y + 2 + height
            <= frame_bottom ==> y == anchor_y + 2,
        frame_top < frame_bottom && height > 0 && frame_top <= anchor_y < frame_bottom && anchor_y
            + 2 + height > frame_bottom && frame_top + 1 + height <= anchor_y ==> y == anchor_y
            - height - 1,
        frame_top < frame_bottom && frame_bottom < u16::MAX && height > 0 && (anchor_y + 1
            + height <= frame_bottom || frame_top + height <= anchor_y) ==> !(y <= anchor_y < y
            + height),
{
    if height == 0 || frame_bottom <= frame_top {
        return frame_top;
    }
    let below_y = anchor_y.saturating_add(1).saturating_add(ANCHOR_VERTICAL_GAP);
    let rows_below_with_gap = frame_bottom.saturating_sub(below_y);
    let fits_below_with_gap = height <= rows_below_with_gap;
    let above_y = anchor_y.saturating_sub(height.saturating_add(ANCHOR_VERTICAL_GAP));
    let rows_above_with_gap = anchor_y.saturating_sub(frame_top.saturating_add(
        ANCHOR_VERTICAL_GAP,
    ));
    let fits_above_with_gap = height <= rows_above_with_gap;
    let mut y = if fits_below_with_gap {
        below_y
    } else if fits_above_with_gap {
        above_y
    } else if rows_below_with_gap >= rows_above_with_gap {
        anchor_y.saturating_add(1)
    } else {
        anchor_y.saturating_sub(height)
    };
    let max_y = frame_bottom.saturating_sub(height);
    if y < frame_top {
        y = frame_top;
    }
    if y > max_y {
        y = max_y;
    }
    let overlaps_anchor = y <= anchor_y && anchor_y < y.saturating_add(height);
    if overlaps_anchor {
        let can_place_below = anchor_y.saturating_add(1).saturating_add(height) <= frame_bottom;
        let can_place_above = frame_top.saturating_add(height) <= anchor_y;
        if can_place_below {
            y = anchor_y.saturating_add(1);
        } else if can_place_above {
            y = anchor_y.saturating_sub(height);
        }
    }
    if y < frame_top {
        y = frame_top;
    }
    if y > max_y {
        y = max_y;
    }
    y
}

/// The input text area inside the input widget: the login hint rows are cut
/// off the top when shown, both horizontal pads come off, and the prompt
/// column is skipped.
pub fn compute_text_area(input_area: Rect, has_login_hint: bool) -> (r: Rect)
    ensures
        ({
            let hint = if has_login_hint {
                if LOGIN_HINT_LINES < input_area.height {
                    LOGIN_HINT_LINES as int
                } else {
                    input_area.height as int
                }
            } else {
                0int
            };
            let padded_w = if input_area.width >= 2 * INPUT_PAD {
                input_area.width - 2 * INPUT_PAD
            } else {
                0int
            };
            &&& r.y == crate::footer::sat16(input_area.y + hint)
            &&& r.height == input_area.height - hint
            &&& r.x == crate::footer::sat16(input_area.x + INPUT_PAD + (if padded_w
                >= PROMPT_WIDTH {
                PROMPT_WIDTH as int
            } else {
                padded_w
            }))
            &&& r.width == if padded_w >= PROMPT_WIDTH {
                padded_w - PROMPT_WIDTH
            } else {
                0int
            }
        }),
{
    let hint: u16 = if has_login_hint {
        if LOGIN_HINT_LINES < input_area.height {
            LOGIN_HINT_LINES
        } else {
            input_area.height
        }
    } else {
        0
    };
    let main_y = input_area.y.saturating_add(hint);
    let main_h = input_area.height - hint;
    let padded_w = if input_area.width >= 2 * INPUT_PAD {
        input_area.width - 2 * INPUT_PAD
    } else {
        0
    };
    let prompt_w = if padded_w >= PROMPT_WIDTH {
        PROMPT_WIDTH
    } else {
        padded_w
    };
    Rect {
        x: input_area.x.saturating_add(INPUT_PAD).saturating_add(prompt_w),
        y: main_y,
        width: padded_w - prompt_w,
        height: main_h,
    }
}

/// The text `str::to_lowercase` maps the given characters to.
pub uninterp spec fn lower_of(s: Seq<char>) -> Seq<char>;

/// Relies on `str::to_lowercase`: the lowercase form of the string, which
/// depends on its characters alone; an empty string stays empty.
#[verifier::external_body]
fn lowercase(s: &str) -> (r: String)
    ensures
        r@ == lower_of(s@),
        s@.len() == 0 ==> r@.len() == 0,
{
    s.to_lowercase()
}

/// The characters `char::to_lowercase` yields for the given character.
pub uninterp spec fn char_fold(c: char) -> Seq<char>;

/// Relies on `char::to_lowercase`: the lowercase mapping of one character,
/// which yields at least one character (the character itself when it has no
/// mapping).
#[verifier::external_body]
fn char_lower(c: char) -> (r: String)
    ensures
        r@ == char_fold(c),
        r@.len() >= 1,
{
    c.to_lowercase().collect()
}

/// The concatenated per-character lowercase folds of the first `i`
/// characters of `s`.
pub open spec fn folded_upto(s: Seq<char>, i: int) -> Seq<char>
    decreases i,
{
    if i <= 0 {
        Seq::empty()
    } else {
        folded_upto(s, i - 1) + char_fold(s[i - 1])
    }
}

/// Folding a longer prefix never yields fewer characters.
pub proof fn lemma_folded_upto_le(s: Seq<char>, i: int, j: int)
    requires
        i <= j,
    ensures
        folded_upto(s, i).len() <= folded_upto(s, j).len(),
    decreases j - i,
{
    if i < j {
        lemma_folded_upto_le(s, i, j - 1);
    }
}

/// The first position at or after `p` where `n` occurs as a window of `h`,
/// or `-1` when there is none.
pub open spec fn find_seq_from(h: Seq<char>, n: Seq<char>, p: int) -> int
    decreases h.len() + 1 - p,
{
    if p < 0 || p + n.len() > h.len() {
        -1
    } else if h.subrange(p, p + n.len()) == n {
        p
    } else {
        find_seq_from(h, n, p + 1)
    }
}

/// The UTF-8 length of one character's encoding.
fn utf8_width(c: char) -> (w: usize)
    ensures
        w == vstd::utf8::encode_scalar(c as u32).len(),
        1 <= w <= 4,
{
    proof {
        vstd::utf8::char_is_scalar(c);
    }
    let v: u32 = c as u32;
    if v < 0x80 {
        1
    } else if v < 0x800 {
        2
    } else if v < 0x10000 {
        3
    } else {
        4
    }
}

/// The characters of `s`, collected.
fn str_chars_vec(s: &str) -> (r: Vec<char>)
    ensures
        r@ == s@,
{
    let n = s.unicode_len();
    let mut r: Vec<char> = Vec::new();
    let mut i: usize = 0;
    while i < n
        invariant
            0 <= i <= n,
            n == s@.len(),
            r@ == s@.take(i as int),
        decreases n - i,
    {
        r.push(s.get_char(i));
        proof {
            assert(s@.take(i + 1) =~= s@.take(i as int).push(s@[i as int]));
        }
        i = i + 1;
    }
    proof {
        assert(s@.take(n as int) =~= s@);
    }
    r
}

/// True exactly when `n` occurs as the window of `h` starting at `p`.
fn window_eq(h: &Vec<char>, n: &Vec<char>, p: usize) -> (r: bool)
    requires
        p + n@.len() <= h@.len(),
    ensures
        r == (h@.subrange(p as int, p + n@.len()) == n@),
{
    let hl = h.len();
    let m = n.len();
    let mut t: usize = 0;
    while t < m
        invariant
            0 <= t <= m,
            m == n@.len(),
            hl == h@.len(),
            p + m <= h@.len(),
            forall|u: int| 0 <= u < t ==> h@[p + u] == n@[u],
        decreases m - t,
    {
        if h[p + t] != n[t] {
            proof {
                assert(h@.subrange(p as int, p + n@.len())[t as int] == h@[p + t]);
            }
            return false;
        }
        t = t + 1;
    }
    proof {
        assert(h@.subrange(p as int, p + n@.len()) =~= n@);
    }
    true
}

/// Searches `haystack` for `needle` without regard to case, by lowercasing
/// both sides, and returns the byte range of the haystack characters whose
/// folds span the first match.
///
/// `None` exactly when either side is empty, the folded needle is empty, or
/// the folded needle does not occur in the character-by-character fold of
/// the haystack. A returned `(a, b)` gives the UTF-8 byte offsets of a
/// character range `i..=j` of the haystack such that the first match starts
/// inside character `i`'s fold and ends inside character `j`'s fold.
pub fn find_case_insensitive_range(haystack: &str, needle: &str) -> (r: Option<(usize, usize)>)
    ensures
        r is None <==> needle@.len() == 0 || haystack@.len() == 0 || lower_of(needle@).len() == 0
            || find_seq_from(
            folded_upto(haystack@, haystack@.len() as int),
            lower_of(needle@),
            0,
        ) < 0,
        r matches Some((a, b)) ==> exists|i: int, j: int|
            #![trigger folded_upto(haystack@, i), folded_upto(haystack@, j)]
            {
                let p = find_seq_from(
                    folded_upto(haystack@, haystack@.len() as int),
                    lower_of(needle@),
                    0,
                );
                &&& 0 <= i <= j < haystack@.len()
                &&& folded_upto(haystack@, i).len() <= p < folded_upto(haystack@, i + 1).len()
                &&& folded_upto(haystack@, j).len() <= p + lower_of(needle@).len() - 1
                    < folded_upto(haystack@, j + 1).len()
                &&& a == vstd::utf8::encode_utf8(haystack@.take(i)).len()
                &&& b == vstd::utf8::encode_utf8(haystack@.take(j + 1)).len()
            },
{
    let hlen = haystack.unicode_len();
    let nlen = needle.unicode_len();
    if nlen == 0 || hlen == 0 {
        return None;
    }
    let folded_needle = lowercase(needle);
    let ndv = str_chars_vec(folded_needle.as_str());
    let m = ndv.len();
    if m == 0 {
        return None;
    }
    let ghost hv = haystack@;
    let ghost fspec = folded_upto(hv, hv.len() as int);
    let mut folded: Vec<char> = Vec::new();
    let mut k: usize = 0;
    while k < hlen
        invariant
            0 <= k <= hlen,
            hlen == hv.len(),
            hv == haystack@,
            folded@ == folded_upto(hv, k as int),
        decreases hlen - k,
    {
        let fs = char_lower(haystack.get_char(k));
        let fl = fs.as_str().unicode_len();
        let mut t: usize = 0;
        while t < fl
            invariant
                0 <= t <= fl,
                fl == char_fold(hv[k as int]).len(),
                fs@ == char_fold(hv[k as int]),
                k < hlen == hv.len(),
                hv == haystack@,
                folded@ == folded_upto(hv, k as int) + char_fold(hv[k as int]).take(t as int),
            decreases fl - t,
        {
            folded.push(fs.as_str().get_char(t));
            proof {
                assert(char_fold(hv[k as int]).take(t + 1) =~= char_fold(hv[k as int]).take(
                    t as int,
                ).push(char_fold(hv[k as int])[t as int]));
                assert(folded@ =~= folded_upto(hv, k as int) + char_fold(hv[k as int]).take(t + 1));
            }
            t = t + 1;
        }
        proof {
            assert(char_fold(hv[k as int]).take(fl as int) =~= char_fold(hv[k as int]));
            assert(folded@ =~= folded_upto(hv, k + 1));
        }
        k = k + 1;
    }
    let flen = folded.len();
    if m > flen {
        proof {
            assert(find_seq_from(fspec, lower_of(needle@), 0) == -1);
        }
        return None;
    }
    let mut p: usize = 0;
    let mut found = false;
    while p <= flen - m && !found
        invariant
            0 <= p,
            m <= flen,
            p + m <= flen + 1,
            m == lower_of(needle@).len(),
            m >= 1,
            flen == fspec.len(),
            folded@ == fspec,
            ndv@ == lower_of(needle@),
            hv == haystack@,
            fspec == folded_upto(hv, hv.len() as int),
            !found ==> find_seq_from(fspec, lower_of(needle@), 0) == find_seq_from(
                fspec,
                lower_of(needle@),
                p as int,
            ),
            found ==> p + m <= flen && find_seq_from(fspec, lower_of(needle@), 0) == p
                && fspec.subrange(p as int, p + m) == lower_of(needle@),
        decreases flen - p, (if found {
            0int
        } else {
            1int
        }),
    {
        if window_eq(&folded, &ndv, p) {
            found = true;
        } else {
            p = p + 1;
        }
    }
    if !found {
        proof {
            assert(find_seq_from(fspec, lower_of(needle@), p as int) == -1);
        }
        return None;
    }
    let q = p + m - 1;
    let byte_len = crate::strutil::str_byte_len(haystack);
    proof {
        crate::input::lemma_encode_take_le(hv, hv.len() as int);
        assert(hv.take(hv.len() as int) =~= hv);
    }
    let mut fp: usize = 0;
    let mut bp: usize = 0;
    let mut k: usize = 0;
    let mut a: usize = 0;
    let mut b: usize = 0;
    let mut found_i = false;
    let mut found_j = false;
    let ghost mut gi: int = 0;
    let ghost mut gj: int = 0;
    while k < hlen && !found_j
        invariant
            0 <= k <= hlen,
            hlen == hv.len(),
            hv == haystack@,
            fspec == folded_upto(hv, hv.len() as int),
            flen == fspec.len(),
            m >= 1,
            p + m <= flen,
            q == p + m - 1,
            byte_len == vstd::utf8::encode_utf8(hv).len(),
            fp == folded_upto(hv, k as int).len(),
            bp == vstd::utf8::encode_utf8(hv.take(k as int)).len(),
            !found_i ==> fp <= p,
            found_i ==> 0 <= gi < k && folded_upto(hv, gi).len() <= p < folded_upto(
                hv,
                gi + 1,
            ).len() && a == vstd::utf8::encode_utf8(hv.take(gi)).len(),
            !found_j ==> fp <= q,
            found_j ==> found_i,
            found_j ==> 0 <= gj < k && gi <= gj && folded_upto(hv, gj).len() <= q < folded_upto(
                hv,
                gj + 1,
            ).len() && b == vstd::utf8::encode_utf8(hv.take(gj + 1)).len(),
        decreases hlen - k,
    {
        let c = haystack.get_char(k);
        let fs = char_lower(c);
        let fl = fs.as_str().unicode_len();
        let w = utf8_width(c);
        proof {
            assert(folded_upto(hv, k + 1) =~= folded_upto(hv, k as int) + char_fold(hv[k as int]));
            lemma_folded_upto_le(hv, k + 1, hv.len() as int);
            crate::input::lemma_encode_take_succ(hv, k as int);
            crate::input::lemma_encode_take_le(hv, k + 1);
        }
        if !found_i && p < fp + fl {
            found_i = true;
            a = bp;
            proof {
                gi = k as int;
            }
        }
        if !found_j && q < fp + fl {
            found_j = true;
            b = bp + w;
            proof {
                gj = k as int;
            }
        }
        fp = fp + fl;
        bp = bp + w;
        k = k + 1;
    }
    proof {
        if !found_j {
            lemma_folded_upto_le(hv, hv.len() as int, hv.len() as int);
            assert(fp == flen);
            assert(q < flen);
            assert(false);
        }
    }
    Some((a, b))
}

/// One character of width `w` processed by the input-wrapping walk: the
/// column advances by the character's width, wrapping to a fresh visual row
/// when it would overflow a non-empty row; a character wider than the whole
/// area consumes one row of its own.
pub open spec fn wstep(st: (nat, nat), w: nat, width: nat) -> (nat, nat) {
    let col = st.0;
    let vrow = st.1;
    let wrapped = w > 0 && col + w > width && col > 0;
    let c1: nat = if wrapped {
        0nat
    } else {
        col
    };
    let v1: nat = if wrapped {
        (vrow + 1) as nat
    } else {
        vrow
    };
    if w > width && c1 == 0 {
        (c1, (v1 + 1) as nat)
    } else if w > 0 {
        ((c1 + w) as nat, v1)
    } else {
        (c1, v1)
    }
}

/// Column and extra visual rows after walking the first `j` characters of
/// one buffer line at the given width.
pub open spec fn line_walk(line: Seq<char>, width: nat, j: int) -> (nat, nat)
    decreases j,
{
    if j <= 0 {
        (0nat, 0nat)
    } else {
        wstep(line_walk(line, width, j - 1), char_cols(line[j - 1]), width)
    }
}

/// Visual rows one whole buffer line occupies (its wraps plus its own row).
pub open spec fn rows_of(line: Seq<char>, width: nat) -> nat {
    line_walk(line, width, line.len() as int).1 + 1
}

/// Visual rows taken by the buffer lines before line `r`.
pub open spec fn rows_before(lines: Seq<Seq<char>>, width: nat, r: int) -> nat
    decreases r,
{
    if r <= 0 {
        0
    } else {
        rows_before(lines, width, r - 1) + rows_of(lines[r - 1], width)
    }
}

/// The visual (row, column) at which the character position
/// `(row, col)` of the input lines lands once wrapped to `width` columns:
/// the rows of all earlier lines plus the walk of the target line up to the
/// cursor. A cursor exactly filling its row wraps to the start of the next
/// one; a position past the text (or a zero width) lands at the very end.
pub open spec fn spec_wrapped_visual_pos(
    lines: Seq<Seq<char>>,
    row: int,
    col: int,
    width: nat,
) -> (nat, nat) {
    if width == 0 {
        (0nat, 0nat)
    } else if 0 <= row < lines.len() && col == 0 {
        (rows_before(lines, width, row), 0nat)
    } else if 0 <= row < lines.len() && 0 < col < lines[row].len() {
        let st = line_walk(lines[row], width, col);
        ((rows_before(lines, width, row) + st.1) as nat, st.0)
    } else if 0 <= row < lines.len() && col == lines[row].len() {
        let st = line_walk(lines[row], width, col);
        if st.0 >= width {
            ((rows_before(lines, width, row) + st.1 + 1) as nat, 0nat)
        } else {
            ((rows_before(lines, width, row) + st.1) as nat, st.0)
        }
    } else {
        (rows_before(lines, width, lines.len() as int), 0nat)
    }
}

/// Locates the visual position of the character `(target_row, target_col)`
/// of the input lines once wrapped to `width` columns; see
/// [`spec_wrapped_visual_pos`]. The visual row saturates at `u16::MAX`.
pub fn wrapped_visual_pos(
    lines: &Vec<String>,
    target_row: usize,
    target_col: usize,
    width: u16,
) -> (r: (u16, u16))
    ensures
        r.0 as int == crate::footer::sat16(
            spec_wrapped_visual_pos(
                lines.deep_view(),
                target_row as int,
                target_col as int,
                width as nat,
            ).0 as int,
        ),
        r.1 == spec_wrapped_visual_pos(
            lines.deep_view(),
            target_row as int,
            target_col as int,
            width as nat,
        ).1,
{
    let ghost lv = lines.deep_view();
    if width == 0 {
        return (0, 0);
    }
    let w_us = width as usize;
    let n = lines.len();
    let mut visual_row: u16 = 0;
    let mut rowi: usize = 0;
    while rowi < n
        invariant
            0 <= rowi <= n,
            n == lv.len(),
            lv == lines.deep_view(),
            width > 0,
            w_us == width as int,
            visual_row as int == crate::footer::sat16(
                rows_before(lv, width as nat, rowi as int) as int,
            ),
            target_row < rowi ==> target_col > lv[target_row as int].len(),
        decreases n - rowi,
    {
        let is_target = rowi == target_row;
        if is_target && target_col == 0 {
            return (visual_row, 0);
        }
        let len = lines[rowi].as_str().unicode_len();
        let ghost line = lv[rowi as int];
        let ghost base = rows_before(lv, width as nat, rowi as int);
        let mut col_width: usize = 0;
        let mut j: usize = 0;
        while j < len
            invariant
                0 <= j <= len,
                rowi < n,
                n == lv.len(),
                lv == lines.deep_view(),
                line == lv[rowi as int],
                len == line.len(),
                width > 0,
                w_us == width as int,
                base == rows_before(lv, width as nat, rowi as int),
                is_target == (rowi == target_row),
                is_target ==> target_col != 0,
                is_target ==> target_col >= j,
                col_width == line_walk(line, width as nat, j as int).0,
                col_width <= w_us,
                visual_row as int == crate::footer::sat16(
                    (base + line_walk(line, width as nat, j as int).1) as int,
                ),
                target_row < rowi ==> target_col > lv[target_row as int].len(),
            decreases len - j,
        {
            if is_target && j == target_col {
                return (visual_row, col_width as u16);
            }
            let c = lines[rowi].as_str().get_char(j);
            let w = char_display_width(c);
            proof {
                assert(line_walk(line, width as nat, j + 1) == wstep(
                    line_walk(line, width as nat, j as int),
                    char_cols(line[j as int]),
                    width as nat,
                ));
            }
            if w > 0 && col_width + w > w_us && col_width > 0 {
                visual_row = visual_row.saturating_add(1);
                col_width = 0;
            }
            if w > w_us && col_width == 0 {
                visual_row = visual_row.saturating_add(1);
            } else {
                if w > 0 {
                    col_width = col_width + w;
                }
            }
            j = j + 1;
        }
        if is_target && target_col == len {
            if col_width >= w_us {
                return (visual_row.saturating_add(1), 0);
            } else {
                return (visual_row, col_width as u16);
            }
        }
        proof {
            assert(rows_before(lv, width as nat, rowi + 1) == base + rows_of(line, width as nat));
        }
        visual_row = visual_row.saturating_add(1);
        rowi = rowi + 1;
    }
    (visual_row, 0)
}

/// The command text a slash candidate is matched on: everything after a
/// leading `/`, or the whole text when there is none.
pub open spec fn spec_slash_body(p: Seq<char>) -> Seq<char> {
    if p.len() > 0 && p[0] == '/' {
        p.subrange(1, p.len() as int)
    } else {
        p
    }
}

/// Bytes taken by the stripped `/` prefix: one when it is there, else zero.
pub open spec fn spec_slash_prefix(p: Seq<char>) -> int {
    if p.len() > 0 && p[0] == '/' {
        1int
    } else {
        0int
    }
}

/// Where to highlight a slash candidate's command for a query: the
/// case-insensitive match range over the text behind the leading `/`,
/// shifted back to byte offsets of the full candidate text.
pub fn slash_command_highlight_range(primary: &str, query: &str) -> (r: Option<(usize, usize)>)
    ensures
        r is Some <==> find_case_insensitive_range_hit(spec_slash_body(primary@), query@),
        r matches Some((a, b)) ==> exists|i: int, j: int|
            #![trigger folded_upto(spec_slash_body(primary@), i), folded_upto(
                spec_slash_body(primary@),
                j,
            )]
            {
                let body = spec_slash_body(primary@);
                let p = find_seq_from(folded_upto(body, body.len() as int), lower_of(query@), 0);
                &&& 0 <= i <= j < body.len()
                &&& folded_upto(body, i).len() <= p < folded_upto(body, i + 1).len()
                &&& folded_upto(body, j).len() <= p + lower_of(query@).len() - 1 < folded_upto(
                    body,
                    j + 1,
                ).len()
                &&& a == spec_slash_prefix(primary@) + vstd::utf8::encode_utf8(
                    body.take(i),
                ).len()
                &&& b == spec_slash_prefix(primary@) + vstd::utf8::encode_utf8(
                    body.take(j + 1),
                ).len()
            },
{
    let plen = primary.unicode_len();
    let stripped = plen > 0 && primary.get_char(0) == '/';
    let body = if stripped {
        primary.substring_char(1, plen)
    } else {
        primary
    };
    proof {
        assert(body@ == spec_slash_body(primary@));
    }
    let total_bytes = crate::strutil::str_byte_len(primary);
    proof {
        if stripped {
            assert(primary@.drop_first() =~= body@);
            assert(vstd::utf8::encode_utf8(primary@) == vstd::utf8::encode_scalar(
                primary@[0] as u32,
            ) + vstd::utf8::encode_utf8(body@));
        }
        crate::input::lemma_encode_take_le(body@, body@.len() as int);
        assert(body@.take(body@.len() as int) =~= body@);
    }
    match find_case_insensitive_range(body, query) {
        None => None,
        Some((a, b)) => {
            proof {
                let (i0, j0): (int, int) = choose|i: int, j: int|
                    #![trigger folded_upto(body@, i), folded_upto(body@, j)]
                    {
                        let p = find_seq_from(
                            folded_upto(body@, body@.len() as int),
                            lower_of(query@),
                            0,
                        );
                        &&& 0 <= i <= j < body@.len()
                        &&& folded_upto(body@, i).len() <= p < folded_upto(body@, i + 1).len()
                        &&& folded_upto(body@, j).len() <= p + lower_of(query@).len() - 1
                            < folded_upto(body@, j + 1).len()
                        &&& a == vstd::utf8::encode_utf8(body@.take(i)).len()
                        &&& b == vstd::utf8::encode_utf8(body@.take(j + 1)).len()
                    };
                crate::input::lemma_encode_take_le(body@, i0);
                crate::input::lemma_encode_take_le(body@, j0 + 1);
                if stripped {
                    assert(vstd::utf8::encode_scalar(primary@[0] as u32).len() >= 1);
                    assert(b + 1 <= total_bytes);
                }
            }
            if stripped {
                Some((a + 1, b + 1))
            } else {
                Some((a, b))
            }
        },
    }
}

/// The folded needle occurs in the haystack's character-by-character fold
/// (and both sides are usable at all).
pub open spec fn find_case_insensitive_range_hit(hay: Seq<char>, needle: Seq<char>) -> bool {
    &&& needle.len() > 0
    &&& hay.len() > 0
    &&& lower_of(needle).len() > 0
    &&& find_seq_from(folded_upto(hay, hay.len() as int), lower_of(needle), 0) >= 0
}

} // verus!
