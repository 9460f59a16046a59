//! Icon and label pairs for tool-call panels, and the fixed glyphs the
//! chrome uses.

use vstd::prelude::*;
use crate::strutil::str_eq;

verus! {

/// The prompt marker shown before the input line.
pub const PROMPT_CHAR: &'static str = "\u{276f}";

/// The glyph repeated to draw horizontal separators.
pub const SEPARATOR_CHAR: &'static str = "\u{2500}";

/// The glyph for a completed tool call.
pub const ICON_COMPLETED: &'static str = "\u{2713}";

/// The glyph for a failed tool call.
pub const ICON_FAILED: &'static str = "\u{2717}";

/// What kind of work a tool call performs, for choosing its icon and label.
#[derive(Debug, Clone, Copy, PartialEq, Eq, Structural)]
pub enum ToolKind {
    Read,
    Edit,
    Delete,
    Move,
    Search,
    Execute,
    Think,
    Fetch,
    SwitchMode,
    Other,
}

/// The icon and label for a tool kind, with named-tool overrides: the
/// views of what [`tool_kind_label`] returns.
pub open spec fn spec_tool_kind_label(kind: ToolKind, tool_name: Option<Seq<char>>) -> (
    Seq<char>,
    Seq<char>,
) {
    if tool_name == Some("Task"@) {
        ("\u{25c7}"@, "Agent"@)
    } else if tool_name == Some("WebSearch"@) {
        ("\u{2295}"@, "WebSearch"@)
    } else if tool_name == Some("WebFetch"@) {
        ("\u{2295}"@, "WebFetch"@)
    } else {
        match kind {
            ToolKind::Read => ("\u{2b1a}"@, "Read"@),
            ToolKind::Edit => ("\u{25a3}"@, "Edit"@),
            ToolKind::Delete => ("\u{25a3}"@, "Delete"@),
            ToolKind::Move => ("\u{21c4}"@, "Move"@),
            ToolKind::Search => ("\u{2315}"@, "Find"@),
            ToolKind::Execute => ("\u{27e9}"@, "Bash"@),
            ToolKind::Think => ("\u{2756}"@, "Think"@),
            ToolKind::Fetch => ("\u{2295}"@, "Fetch"@),
            ToolKind::SwitchMode => ("\u{2299}"@, "Mode"@),
            ToolKind::Other => ("\u{25cb}"@, "Tool"@),
        }
    }
}

/// The spec-level view of an optional tool name.
pub open spec fn spec_name_view(tool_name: Option<&str>) -> Option<Seq<char>> {
    match tool_name {
        Some(s) => Some(s@),
        None => None,
    }
}

/// The monochrome icon and label for a tool kind; a handful of well-known
/// tool names override the kind's defaults.
pub fn tool_kind_label(kind: ToolKind, tool_name: Option<&str>) -> (r: (&'static str, &'static str))
    ensures
        (r.0@, r.1@) == spec_tool_kind_label(kind, spec_name_view(tool_name)),
{
    match tool_name {
        Some(name) => {
            if str_eq(name, "Task") {
                return ("\u{25c7}", "Agent");
            }
            if str_eq(name, "WebSearch") {
                return ("\u{2295}", "WebSearch");
            }
            if str_eq(name, "WebFetch") {
                return ("\u{2295}", "WebFetch");
            }
        },
        None => {},
    }
    match kind {
        ToolKind::Read => ("\u{2b1a}", "Read"),
        ToolKind::Edit => ("\u{25a3}", "Edit"),
        ToolKind::Delete => ("\u{25a3}", "Delete"),
        ToolKind::Move => ("\u{21c4}", "Move"),
        ToolKind::Search => ("\u{2315}", "Find"),
        ToolKind::Execute => ("\u{27e9}", "Bash"),
        ToolKind::Think => ("\u{2756}", "Think"),
        ToolKind::Fetch => ("\u{2295}", "Fetch"),
        ToolKind::SwitchMode => ("\u{2299}", "Mode"),
        ToolKind::Other => ("\u{25cb}", "Tool"),
    }
}

} // verus!
