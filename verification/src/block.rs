//! Renderable units inside a message: text runs and tool-call panels, each
//! carrying its own render cache, plus the tool call's live-output state.

use vstd::prelude::*;
use crate::cache::BlockCache;

verus! {

/// Lifecycle of a tool call as displayed in the transcript.
#[derive(Debug, Clone, Copy, PartialEq, Eq, Structural)]
pub enum ToolStatus {
    Pending,
    InProgress,
    Completed,
    Failed,
}

/// How live terminal output may be mirrored next frame: incrementally
/// (`AppendOnly`) or by resending the whole buffer (`ReplaceSnapshot`).
#[derive(Debug, Clone, Copy, PartialEq, Eq, Structural)]
pub enum TerminalSnapshotMode {
    AppendOnly,
    ReplaceSnapshot,
}

/// A run of text with its render cache.
pub struct TextBlock {
    pub content: String,
    pub cache: BlockCache,
}

/// A tool-call panel: status, visibility, render cache, and the state of the
/// live terminal-output mirror.
pub struct ToolCallInfo {
    pub status: ToolStatus,
    /// Hidden tool calls contribute nothing to layout.
    pub hidden: bool,
    pub cache: BlockCache,
    /// The text currently displayed for this call's terminal output.
    pub terminal_output: Option<String>,
    /// Monotonic watermark: how many bytes of the live output buffer have
    /// been consumed (only grows while in `AppendOnly` mode).
    pub terminal_bytes_seen: usize,
    /// Mirror of the buffer length seen at the last update.
    pub terminal_output_len: usize,
    pub terminal_snapshot_mode: TerminalSnapshotMode,
}

impl ToolCallInfo {
    /// True if the call still runs: its cache then holds the body only, and
    /// one extra line is added for the title.
    pub open spec fn is_in_progress(&self) -> bool {
        self.status == ToolStatus::InProgress || self.status == ToolStatus::Pending
    }

    /// The non-cache content of the tool call, for stating that an update
    /// left everything but the render cache alone.
    pub open spec fn same_content(&self, other: &ToolCallInfo) -> bool {
        &&& self.status == other.status
        &&& self.hidden == other.hidden
        &&& self.terminal_output == other.terminal_output
        &&& self.terminal_bytes_seen == other.terminal_bytes_seen
        &&& self.terminal_output_len == other.terminal_output_len
        &&& self.terminal_snapshot_mode == other.terminal_snapshot_mode
    }

    /// Drops the cached render after a content change, so the next frame
    /// recomputes this block's height.
    pub fn mark_tool_call_layout_dirty(&mut self)
        ensures
            final(self).same_content(&*old(self)),
            forall|w: u16| final(self).cache.spec_height_at(w) is None,
    {
        self.cache.invalidate();
    }
}

/// One renderable unit of a message.
pub enum MessageBlock {
    Text(TextBlock),
    ToolCall(ToolCallInfo),
}

impl MessageBlock {
    /// The block's render cache.
    pub open spec fn spec_cache(&self) -> BlockCache {
        match self {
            MessageBlock::Text(t) => t.cache,
            MessageBlock::ToolCall(tc) => tc.cache,
        }
    }

    /// Everything except the render cache is the same in both blocks.
    pub open spec fn same_content(&self, other: &MessageBlock) -> bool {
        match (self, other) {
            (MessageBlock::Text(a), MessageBlock::Text(b)) => a.content == b.content,
            (MessageBlock::ToolCall(a), MessageBlock::ToolCall(b)) => a.same_content(b),
            _ => false,
        }
    }
}

} // verus!
