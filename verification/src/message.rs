//! Messages and per-message height aggregation: summing a message's block
//! heights plus role-label and spacing overhead into one cached total.

use vstd::prelude::*;
use crate::block::{MessageBlock, TextBlock, ToolCallInfo};
use crate::cache::BlockCache;
use crate::strutil::sat_cap;

verus! {

/// Who a message is from.
#[derive(Debug, Clone, Copy, PartialEq, Eq, Structural)]
pub enum MessageRole {
    User,
    Assistant,
    System,
}

/// Per-frame spinner context handed to height computation and rendering.
#[derive(Debug, Clone, Copy)]
pub struct SpinnerState {
    /// Animation frame counter.
    pub frame: usize,
    /// True while the agent is thinking or running (an indicator may show).
    pub is_active: bool,
    /// True if the message being laid out is the newest one.
    pub is_last_message: bool,
    /// True if a "still thinking" indicator follows this message's blocks.
    pub is_thinking_mid_turn: bool,
}

/// One transcript entry: a role, its blocks, and the cached total visual
/// height together with the width it was computed at.
pub struct ChatMessage {
    pub role: MessageRole,
    pub blocks: Vec<MessageBlock>,
    /// Cached result of [`compute_message_height`]; zero means "not
    /// computed yet" (every real height is positive).
    pub cached_visual_height: usize,
    /// The width `cached_visual_height` was computed at.
    pub cached_visual_width: u16,
}

/// The external line renderer: measures how many lines a block occupies at
/// a width. The engine treats it as a collaborator and caches whatever it
/// answers; nothing here depends on the numbers it returns.
pub trait BlockRenderer {
    /// Lines a text block's content takes at `width`.
    fn text_height(&mut self, content: &String, width: u16) -> usize;

    /// Lines a tool-call panel takes at `width` (body only while the call
    /// is in progress).
    fn tool_call_height(&mut self, tc: &ToolCallInfo, width: u16) -> usize;
}

/// True if the block takes part in layout for a message of this role: text
/// always does; tool calls only in non-user messages and only when visible.
pub open spec fn relevant(b: MessageBlock, role: MessageRole) -> bool {
    match b {
        MessageBlock::Text(_) => true,
        MessageBlock::ToolCall(tc) => role != MessageRole::User && !tc.hidden,
    }
}

/// Every block that takes part in layout has a fresh cache entry at `width`.
pub open spec fn msg_caches_valid(m: ChatMessage, width: u16) -> bool {
    forall|i: int|
        0 <= i < m.blocks@.len() && relevant(#[trigger] m.blocks@[i], m.role)
            ==> m.blocks@[i].spec_cache().valid_at(width)
}

/// Running state of the assistant-message spacing walk after the first `i`
/// blocks: accumulated height, whether the previous rendered block was a
/// tool call, and whether anything was rendered yet.
#[verifier::ext_equal]
pub struct SpacingFold {
    pub total: nat,
    pub prev_was_tool: bool,
    pub any_rendered: bool,
}

/// The spacing walk over an assistant message's first `i` blocks: each text
/// block gets a blank line when it follows a tool call, each visible tool
/// call gets one when it follows rendered text; hidden tool calls are
/// skipped; an in-progress tool call counts one extra title line.
pub open spec fn asst_fold(blocks: Seq<MessageBlock>, width: u16, i: int) -> SpacingFold
    decreases i,
{
    if i <= 0 {
        SpacingFold { total: 0, prev_was_tool: false, any_rendered: false }
    } else {
        let f = asst_fold(blocks, width, i - 1);
        match blocks[i - 1] {
            MessageBlock::Text(t) => SpacingFold {
                total: f.total + (if f.prev_was_tool {
                    1nat
                } else {
                    0nat
                }) + t.cache.height_or_zero(width),
                prev_was_tool: false,
                any_rendered: true,
            },
            MessageBlock::ToolCall(tc) => if tc.hidden {
                f
            } else {
                SpacingFold {
                    total: f.total + (if !f.prev_was_tool && f.any_rendered {
                        1nat
                    } else {
                        0nat
                    }) + tc.cache.height_or_zero(width) + (if tc.is_in_progress() {
                        1nat
                    } else {
                        0nat
                    }),
                    prev_was_tool: true,
                    any_rendered: true,
                }
            },
        }
    }
}

/// Total of the text-block heights among a user message's first `i` blocks
/// (user messages render text only, with no spacing rules).
pub open spec fn user_sum(blocks: Seq<MessageBlock>, width: u16, i: int) -> nat
    decreases i,
{
    if i <= 0 {
        0
    } else {
        user_sum(blocks, width, i - 1) + match blocks[i - 1] {
            MessageBlock::Text(t) => t.cache.height_or_zero(width),
            MessageBlock::ToolCall(_) => 0nat,
        }
    }
}

/// A message's total visual height at `width`, over the heights its block
/// caches hold: one role-label line, the blocks with their spacing, a
/// two-line mid-turn indicator when one is active, and one trailing blank
/// line. An empty assistant message that is the newest while the agent
/// thinks is exactly label + indicator + blank.
pub open spec fn spec_message_height(m: ChatMessage, sp: SpinnerState, width: u16) -> nat {
    match m.role {
        MessageRole::User => 2 + user_sum(m.blocks@, width, m.blocks@.len() as int),
        _ => {
            if m.blocks@.len() == 0 && sp.is_active && sp.is_last_message {
                3
            } else {
                2 + asst_fold(m.blocks@, width, m.blocks@.len() as int).total + (
                if sp.is_thinking_mid_turn {
                    2nat
                } else {
                    0nat
                })
            }
        },
    }
}

/// The spacing walk reads only the first `i` blocks.
pub proof fn lemma_asst_fold_prefix(b1: Seq<MessageBlock>, b2: Seq<MessageBlock>, width: u16, i: int)
    requires
        i <= b1.len(),
        i <= b2.len(),
        forall|j: int| 0 <= j < i ==> b1[j] == b2[j],
    ensures
        asst_fold(b1, width, i) == asst_fold(b2, width, i),
    decreases i,
{
    if i > 0 {
        lemma_asst_fold_prefix(b1, b2, width, i - 1);
    }
}

/// The user-message sum reads only the first `i` blocks.
pub proof fn lemma_user_sum_prefix(b1: Seq<MessageBlock>, b2: Seq<MessageBlock>, width: u16, i: int)
    requires
        i <= b1.len(),
        i <= b2.len(),
        forall|j: int| 0 <= j < i ==> b1[j] == b2[j],
    ensures
        user_sum(b1, width, i) == user_sum(b2, width, i),
    decreases i,
{
    if i > 0 {
        lemma_user_sum_prefix(b1, b2, width, i - 1);
    }
}

/// Builds the spinner context for the message at `index` out of `msg_count`:
/// it is the last message exactly when its index is the final one, and a
/// mid-turn indicator is active when the newest message is an assistant
/// message that already has content while the agent still thinks.
pub open spec fn spec_msg_spinner(
    base: SpinnerState,
    index: int,
    msg_count: int,
    is_thinking: bool,
    msg: ChatMessage,
) -> SpinnerState {
    let is_last = index + 1 == msg_count;
    SpinnerState {
        is_last_message: is_last,
        is_thinking_mid_turn: is_last && is_thinking && msg.role == MessageRole::Assistant
            && msg.blocks@.len() > 0,
        ..base
    }
}

/// The spinner context for one message; see [`spec_msg_spinner`].
pub fn msg_spinner(
    base: SpinnerState,
    index: usize,
    msg_count: usize,
    is_thinking: bool,
    msg: &ChatMessage,
) -> (r: SpinnerState)
    ensures
        r == spec_msg_spinner(base, index as int, msg_count as int, is_thinking, *msg),
{
    let is_last = msg_count > 0 && index == msg_count - 1;
    let mid_turn = is_last && is_thinking && msg.role == MessageRole::Assistant
        && msg.blocks.len() > 0;
    SpinnerState { is_last_message: is_last, is_thinking_mid_turn: mid_turn, ..base }
}

/// Copies an optional string by value.
fn clone_opt_string(o: &Option<String>) -> (r: Option<String>)
    ensures
        r == *o,
{
    match o {
        Some(s) => Some(s.clone()),
        None => None,
    }
}

/// Computes a message's total visual height at `width` by summing cached
/// block heights; blocks whose cache misses are measured through `renderer`
/// and their fresh height stored, so a second call with unchanged content
/// reuses every cache and leaves the message untouched.
///
/// The result saturates at `usize::MAX`; block contents are never changed,
/// and a block with a valid cache entry at `width` is left exactly as it
/// was.
pub fn compute_message_height<R: BlockRenderer>(
    msg: &mut ChatMessage,
    spinner: &SpinnerState,
    width: u16,
    renderer: &mut R,
) -> (h: usize)
    ensures
        final(msg).role == old(msg).role,
        final(msg).cached_visual_height == old(msg).cached_visual_height,
        final(msg).cached_visual_width == old(msg).cached_visual_width,
        final(msg).blocks@.len() == old(msg).blocks@.len(),
        forall|i: int|
            0 <= i < old(msg).blocks@.len() ==> old(msg).blocks@[i].same_content(
                &final(msg).blocks@[i],
            ),
        forall|i: int|
            0 <= i < old(msg).blocks@.len() && (old(msg).blocks@[i].spec_cache().valid_at(width)
                || !relevant(old(msg).blocks@[i], old(msg).role)) ==> final(msg).blocks@[i] == old(
                msg,
            ).blocks@[i],
        msg_caches_valid(*old(msg), width) ==> final(msg).blocks@ == old(msg).blocks@,
        msg_caches_valid(*final(msg), width),
        h == sat_cap(spec_message_height(*final(msg), *spinner, width)),
{
    let ghost n = old(msg).blocks@.len();
    let is_user = msg.role == MessageRole::User;
    if !is_user && msg.blocks.len() == 0 && spinner.is_active && spinner.is_last_message {
        proof {
            assert(msg.blocks@ =~= old(msg).blocks@);
        }
        return 3;
    }
    let mut total: usize = 1;
    let mut prev_was_tool = false;
    let mut any_rendered = false;
    let count = msg.blocks.len();
    let mut i: usize = 0;
    while i < count
        invariant
            0 <= i <= count,
            count == n,
            n == msg.blocks@.len(),
            n == old(msg).blocks@.len(),
            msg.role == old(msg).role,
            is_user == (msg.role == MessageRole::User),
            msg.cached_visual_height == old(msg).cached_visual_height,
            msg.cached_visual_width == old(msg).cached_visual_width,
            forall|j: int| i <= j < n ==> msg.blocks@[j] == old(msg).blocks@[j],
            forall|j: int|
                0 <= j < i ==> old(msg).blocks@[j].same_content(&msg.blocks@[j]),
            forall|j: int|
                0 <= j < i && (old(msg).blocks@[j].spec_cache().valid_at(width) || !relevant(
                    old(msg).blocks@[j],
                    old(msg).role,
                )) ==> msg.blocks@[j] == old(msg).blocks@[j],
            forall|j: int|
                0 <= j < i && relevant(#[trigger] msg.blocks@[j], msg.role)
                    ==> msg.blocks@[j].spec_cache().valid_at(width),
            is_user ==> total == sat_cap(1 + user_sum(msg.blocks@, width, i as int)),
            !is_user ==> {
                let f = asst_fold(msg.blocks@, width, i as int);
                total == sat_cap(1 + f.total) && prev_was_tool == f.prev_was_tool && any_rendered
                    == f.any_rendered
            },
        decreases count - i,
    {
        let ghost pre_blocks = msg.blocks@;
        let mut replacement: Option<MessageBlock> = None;
        let mut add: usize = 0;
        let mut sep: usize = 0;
        let mut skip = false;
        match &msg.blocks[i] {
            MessageBlock::Text(tb) => {
                if !is_user && prev_was_tool {
                    sep = 1;
                }
                match tb.cache.height_at(width) {
                    Some(hh) => {
                        add = hh;
                    },
                    None => {
                        let hh = renderer.text_height(&tb.content, width);
                        let mut cache = BlockCache::new();
                        cache.store_with_height(width, hh);
                        replacement = Some(
                            MessageBlock::Text(TextBlock { content: tb.content.clone(), cache }),
                        );
                        add = hh;
                    },
                }
            },
            MessageBlock::ToolCall(tc) => {
                if is_user || tc.hidden {
                    skip = true;
                } else {
                    if !prev_was_tool && any_rendered {
                        sep = 1;
                    }
                    let in_prog = tc.status == crate::block::ToolStatus::InProgress || tc.status
                        == crate::block::ToolStatus::Pending;
                    let body = match tc.cache.height_at(width) {
                        Some(hh) => hh,
                        None => {
                            let hh = renderer.tool_call_height(tc, width);
                            let mut cache = BlockCache::new();
                            cache.store_with_height(width, hh);
                            replacement = Some(
                                MessageBlock::ToolCall(
                                    ToolCallInfo {
                                        status: tc.status,
                                        hidden: tc.hidden,
                                        cache,
                                        terminal_output: clone_opt_string(&tc.terminal_output),
                                        terminal_bytes_seen: tc.terminal_bytes_seen,
                                        terminal_output_len: tc.terminal_output_len,
                                        terminal_snapshot_mode: tc.terminal_snapshot_mode,
                                    },
                                ),
                            );
                            hh
                        },
                    };
                    add = if in_prog {
                        body.saturating_add(1)
                    } else {
                        body
                    };
                }
            },
        }
        match replacement {
            Some(b) => {
                msg.blocks.set(i, b);
            },
            None => {},
        }
        proof {
            lemma_user_sum_prefix(pre_blocks, msg.blocks@, width, i as int);
            lemma_asst_fold_prefix(pre_blocks, msg.blocks@, width, i as int);
        }
        if skip {
            proof {
                if is_user {
                    assert(user_sum(msg.blocks@, width, i + 1) == user_sum(
                        msg.blocks@,
                        width,
                        i as int,
                    ));
                } else {
                    assert(asst_fold(msg.blocks@, width, i + 1) == asst_fold(
                        msg.blocks@,
                        width,
                        i as int,
                    ));
                }
            }
        } else {
            total = total.saturating_add(sep);
            total = total.saturating_add(add);
            match &msg.blocks[i] {
                MessageBlock::Text(_) => {
                    prev_was_tool = false;
                },
                MessageBlock::ToolCall(_) => {
                    prev_was_tool = true;
                },
            }
            any_rendered = true;
        }
        i = i + 1;
    }
    if !is_user && spinner.is_thinking_mid_turn {
        total = total.saturating_add(2);
    }
    total = total.saturating_add(1);
    proof {
        if msg_caches_valid(*old(msg), width) {
            assert(msg.blocks@ =~= old(msg).blocks@);
        }
    }
    total
}

} // verus!
