//! The streaming terminal-output synchronizer: mirrors a live, append-mostly
//! byte buffer into the text displayed for its owning tool call, once per
//! frame, using an append-delta fast path with a full-snapshot fallback.

use vstd::prelude::*;
use vstd::pervasive::VecAdditionalExecFns;
use vstd::string::StringExecFns;
use crate::block::{MessageBlock, TerminalSnapshotMode, ToolCallInfo};
use crate::message::ChatMessage;
use crate::transcript::Transcript;

verus! {

/// The text `String::from_utf8_lossy` decodes the given bytes to: the UTF-8
/// decoding with every invalid sequence shown as a replacement marker.
pub uninterp spec fn lossy_of(bytes: Seq<u8>) -> Seq<char>;

/// Relies on `String::from_utf8_lossy`: decodes bytes as UTF-8, replacing
/// invalid sequences with a replacement marker rather than failing; valid
/// UTF-8 comes through as exactly its decoding.
#[verifier::external_body]
fn decode_lossy(bytes: &Vec<u8>) -> (s: String)
    ensures
        s@ == lossy_of(bytes@),
        bytes@.len() == 0 ==> s@.len() == 0,
        vstd::utf8::valid_utf8(bytes@) ==> s@ == vstd::utf8::decode_utf8(bytes@),
{
    String::from_utf8_lossy(bytes).into_owned()
}

/// What one frame hands the display for a tool call: the new bytes since
/// the watermark (`Append`), or the whole buffer (`Replace`), together with
/// the buffer length that was observed.
pub enum TerminalUpdatePayload {
    Append { bytes: Vec<u8>, current_len: usize },
    Replace { bytes: Vec<u8>, current_len: usize },
}

/// The text a tool call currently displays for its terminal output.
pub open spec fn displayed(o: Option<String>) -> Seq<char> {
    match o {
        Some(s) => s@,
        None => Seq::empty(),
    }
}

/// `buf[from..]`, copied out.
fn copy_from(buf: &Vec<u8>, from: usize) -> (r: Vec<u8>)
    requires
        from <= buf@.len(),
    ensures
        r@ == buf@.skip(from as int),
{
    let mut r: Vec<u8> = Vec::new();
    let n = buf.len();
    let mut i: usize = from;
    while i < n
        invariant
            from <= i <= n,
            n == buf@.len(),
            r@ == buf@.subrange(from as int, i as int),
        decreases n - i,
    {
        r.push(buf[i]);
        proof {
            assert(buf@.subrange(from as int, i + 1) =~= buf@.subrange(from as int, i as int).push(
                buf@[i as int],
            ));
        }
        i = i + 1;
    }
    proof {
        assert(buf@.subrange(from as int, n as int) =~= buf@.skip(from as int));
    }
    r
}

/// The whole buffer, copied out.
fn copy_all(buf: &Vec<u8>) -> (r: Vec<u8>)
    ensures
        r@ == buf@,
{
    let r = copy_from(buf, 0);
    proof {
        assert(buf@.skip(0) =~= buf@);
    }
    r
}

/// Chooses this frame's payload for one tool call from the observed buffer
/// contents: nothing when the watermark already covers the buffer, the
/// delta above the watermark while appending is allowed, and the whole
/// buffer when a replace was forced or the buffer shrank below the
/// watermark.
pub fn decide_terminal_payload(tc: &ToolCallInfo, buf: &Vec<u8>) -> (r: Option<
    TerminalUpdatePayload,
>)
    ensures
        r is None <==> tc.terminal_snapshot_mode == TerminalSnapshotMode::AppendOnly && buf@.len()
            == tc.terminal_bytes_seen,
        tc.terminal_snapshot_mode == TerminalSnapshotMode::AppendOnly && buf@.len()
            > tc.terminal_bytes_seen ==> (r matches Some(
            TerminalUpdatePayload::Append { bytes, current_len },
        ) && bytes@ == buf@.skip(tc.terminal_bytes_seen as int) && current_len == buf@.len()),
        tc.terminal_snapshot_mode == TerminalSnapshotMode::ReplaceSnapshot || buf@.len()
            < tc.terminal_bytes_seen ==> (r matches Some(
            TerminalUpdatePayload::Replace { bytes, current_len },
        ) && bytes@ == buf@ && current_len == buf@.len()),
{
    let current_len = buf.len();
    let force_replace = tc.terminal_snapshot_mode == TerminalSnapshotMode::ReplaceSnapshot;
    if !force_replace && current_len == tc.terminal_bytes_seen {
        None
    } else if !force_replace && current_len > tc.terminal_bytes_seen {
        Some(
            TerminalUpdatePayload::Append {
                bytes: copy_from(buf, tc.terminal_bytes_seen),
                current_len,
            },
        )
    } else {
        Some(TerminalUpdatePayload::Replace { bytes: copy_all(buf), current_len })
    }
}

/// The displayed text grew by the delta's decoding, and the watermark,
/// mirrored length and snapshot mode were updated for the next frame.
pub open spec fn apply_append_post(
    o: ToolCallInfo,
    n: ToolCallInfo,
    bytes: Seq<u8>,
    current_len: int,
) -> bool {
    &&& n.terminal_output is Some
    &&& displayed(n.terminal_output) == displayed(o.terminal_output) + lossy_of(bytes)
    &&& n.terminal_bytes_seen == current_len
    &&& n.terminal_output_len == current_len
    &&& n.terminal_snapshot_mode == TerminalSnapshotMode::AppendOnly
}

/// The displayed text was substituted by the whole decoding exactly when it
/// differed (`changed`), and the watermark, mirrored length and snapshot
/// mode were updated for the next frame.
pub open spec fn apply_replace_post(
    o: ToolCallInfo,
    n: ToolCallInfo,
    bytes: Seq<u8>,
    current_len: int,
    changed: bool,
) -> bool {
    &&& changed == !(o.terminal_output is Some && displayed(o.terminal_output) == lossy_of(bytes))
    &&& changed ==> n.terminal_output is Some && displayed(n.terminal_output) == lossy_of(bytes)
    &&& !changed ==> n.terminal_output == o.terminal_output
    &&& n.terminal_bytes_seen == current_len
    &&& n.terminal_output_len == current_len
    &&& n.terminal_snapshot_mode == TerminalSnapshotMode::AppendOnly
}

/// Applies one payload to the tool call's displayed text.
///
/// An `Append` of nothing is a no-op. Otherwise the delta's (lossy) decoding
/// is concatenated to the displayed text, or — for `Replace` — the whole
/// decoding substitutes it, counting as a change only if the text really
/// differs. Both paths move the watermark and the mirrored length to the
/// observed buffer length and reset the snapshot mode to append-only.
pub fn apply_terminal_payload(tc: &mut ToolCallInfo, payload: TerminalUpdatePayload) -> (changed:
    bool)
    ensures
        final(tc).status == old(tc).status,
        final(tc).hidden == old(tc).hidden,
        final(tc).cache == old(tc).cache,
        payload matches TerminalUpdatePayload::Append { bytes, current_len } ==> if bytes@.len()
            == 0 {
            !changed && *final(tc) == *old(tc)
        } else {
            changed && apply_append_post(*old(tc), *final(tc), bytes@, current_len as int)
        },
        payload matches TerminalUpdatePayload::Replace { bytes, current_len }
            ==> apply_replace_post(*old(tc), *final(tc), bytes@, current_len as int, changed),
{
    match payload {
        TerminalUpdatePayload::Append { bytes, current_len } => {
            if bytes.len() == 0 {
                return false;
            }
            let delta = decode_lossy(&bytes);
            match &mut tc.terminal_output {
                Some(output) => {
                    output.append(delta.as_str());
                },
                None => {
                    tc.terminal_output = Some(delta);
                },
            }
            tc.terminal_bytes_seen = current_len;
            tc.terminal_output_len = current_len;
            tc.terminal_snapshot_mode = TerminalSnapshotMode::AppendOnly;
            true
        },
        TerminalUpdatePayload::Replace { bytes, current_len } => {
            let snapshot = decode_lossy(&bytes);
            let changed = match &tc.terminal_output {
                Some(cur) => !cur.eq(&snapshot),
                None => true,
            };
            if changed {
                tc.terminal_output = Some(snapshot);
            }
            tc.terminal_bytes_seen = current_len;
            tc.terminal_output_len = current_len;
            tc.terminal_snapshot_mode = TerminalSnapshotMode::AppendOnly;
            changed
        },
    }
}

/// The displayed text after feeding each of `parts` through one Append
/// step, starting from `base`.
pub open spec fn appended(base: Seq<char>, parts: Seq<Seq<char>>) -> Seq<char>
    decreases parts.len(),
{
    if parts.len() == 0 {
        base
    } else {
        appended(base + parts[0], parts.drop_first())
    }
}

/// The concatenation of all of `parts`.
pub open spec fn concat_parts(parts: Seq<Seq<char>>) -> Seq<char>
    decreases parts.len(),
{
    if parts.len() == 0 {
        Seq::empty()
    } else {
        parts[0] + concat_parts(parts.drop_first())
    }
}

/// Append/Replace equivalence: feeding decoded deltas one by one through
/// the Append path displays exactly the concatenation of those texts, which
/// is what one Replace shows whenever the whole buffer's decoding equals
/// that concatenation. (When an append boundary splits a multi-byte UTF-8
/// sequence, the delta decodings contain replacement markers that a single
/// Replace of the assembled buffer would not, and the two genuinely
/// differ; the law therefore speaks of the decoded texts.)
pub proof fn lemma_append_replace_equivalence(base: Seq<char>, parts: Seq<Seq<char>>)
    ensures
        appended(base, parts) == base + concat_parts(parts),
    decreases parts.len(),
{
    if parts.len() == 0 {
        assert(base + concat_parts(parts) =~= base);
    } else {
        lemma_append_replace_equivalence(base + parts[0], parts.drop_first());
        assert((base + parts[0]) + concat_parts(parts.drop_first()) =~= base + (parts[0]
            + concat_parts(parts.drop_first())));
    }
}

/// Monotonic watermark: while the synchronizer is in append-only mode and
/// the buffer has not shrunk below the watermark, applying the decided
/// payload never moves `terminal_bytes_seen` backward.
pub proof fn lemma_monotonic_watermark(o: ToolCallInfo, n: ToolCallInfo, buf: Seq<u8>)
    requires
        sync_result(o, n, buf),
        o.terminal_snapshot_mode == TerminalSnapshotMode::AppendOnly,
        buf.len() >= o.terminal_bytes_seen,
    ensures
        n.terminal_bytes_seen >= o.terminal_bytes_seen,
{
}

/// The render cache holds nothing at any width.
pub open spec fn cache_cleared(c: crate::cache::BlockCache) -> bool {
    forall|w: u16| c.spec_height_at(w) is None
}

/// True if synchronizing against a buffer that reads `buf` changes the
/// displayed text: an appendable delta exists, or a (forced or
/// shrink-triggered) replace shows something different.
pub open spec fn sync_changed(tc: ToolCallInfo, buf: Seq<u8>) -> bool {
    if tc.terminal_snapshot_mode == TerminalSnapshotMode::AppendOnly && buf.len()
        == tc.terminal_bytes_seen {
        false
    } else if tc.terminal_snapshot_mode == TerminalSnapshotMode::AppendOnly && buf.len()
        > tc.terminal_bytes_seen {
        true
    } else {
        !(tc.terminal_output is Some && displayed(tc.terminal_output) == lossy_of(buf))
    }
}

/// How one tool call looks after its per-frame synchronization against a
/// buffer that reads `buf`: untouched on the no-op path; on the append path
/// the delta's decoding is concatenated and the render cache dropped; on
/// the replace path the whole decoding substitutes the text exactly when it
/// differs. Either active path moves the watermark and mirrored length to
/// the buffer length and resets the mode.
pub open spec fn sync_result(o: ToolCallInfo, n: ToolCallInfo, buf: Seq<u8>) -> bool {
    &&& n.status == o.status
    &&& n.hidden == o.hidden
    &&& if o.terminal_snapshot_mode == TerminalSnapshotMode::AppendOnly && buf.len()
        == o.terminal_bytes_seen {
        n == o
    } else {
        &&& n.terminal_bytes_seen == buf.len()
        &&& n.terminal_output_len == buf.len()
        &&& n.terminal_snapshot_mode == TerminalSnapshotMode::AppendOnly
        &&& if o.terminal_snapshot_mode == TerminalSnapshotMode::AppendOnly && buf.len()
            > o.terminal_bytes_seen {
            &&& n.terminal_output is Some
            &&& displayed(n.terminal_output) == displayed(o.terminal_output) + lossy_of(
                buf.skip(o.terminal_bytes_seen as int),
            )
            &&& cache_cleared(n.cache)
        } else {
            if sync_changed(o, buf) {
                &&& n.terminal_output is Some
                &&& displayed(n.terminal_output) == lossy_of(buf)
                &&& cache_cleared(n.cache)
            } else {
                &&& n.terminal_output == o.terminal_output
                &&& n.cache == o.cache
            }
        }
    }
}

/// The tool call at block `bi` of message `mi` (meaningless elsewhere).
pub open spec fn tc_of(msgs: Seq<ChatMessage>, mi: int, bi: int) -> ToolCallInfo
    recommends
        valid_target(msgs, mi, bi),
{
    msgs[mi].blocks@[bi]->ToolCall_0
}

/// `(mi, bi)` addresses a tool-call block of `msgs`.
pub open spec fn valid_target(msgs: Seq<ChatMessage>, mi: int, bi: int) -> bool {
    &&& 0 <= mi < msgs.len()
    &&& 0 <= bi < msgs[mi].blocks@.len()
    &&& msgs[mi].blocks@[bi] is ToolCall
}

/// Entry `k` of the terminal index will be synchronized this frame: its
/// buffer could be read and it addresses a tool-call block.
pub open spec fn entry_active(
    msgs: Seq<ChatMessage>,
    ttc: Seq<(usize, usize)>,
    captures: Seq<Option<Vec<u8>>>,
    k: int,
) -> bool {
    &&& 0 <= k < ttc.len()
    &&& k < captures.len()
    &&& captures[k] is Some
    &&& valid_target(msgs, ttc[k].0 as int, ttc[k].1 as int)
}

/// Synchronizing entry `k` changes its tool call's displayed text.
pub open spec fn entry_changed(
    msgs: Seq<ChatMessage>,
    ttc: Seq<(usize, usize)>,
    captures: Seq<Option<Vec<u8>>>,
    k: int,
) -> bool {
    &&& entry_active(msgs, ttc, captures, k)
    &&& sync_changed(tc_of(msgs, ttc[k].0 as int, ttc[k].1 as int), captures[k]->0@)
}

/// Block `(m, b)` is the target of one of the first `upto` active entries.
pub open spec fn is_sync_target_upto(
    msgs: Seq<ChatMessage>,
    ttc: Seq<(usize, usize)>,
    captures: Seq<Option<Vec<u8>>>,
    m: int,
    b: int,
    upto: int,
) -> bool {
    exists|k: int|
        0 <= k < upto && #[trigger] entry_active(msgs, ttc, captures, k) && ttc[k].0 == m && ttc[
            k
        ].1 == b
}

/// Runs the synchronizer over every tracked tool call once for this frame:
/// each call whose buffer could be captured is brought up to date via the
/// append/replace protocol, changed calls have their block caches dropped,
/// and the cached heights from the earliest changed message on are
/// invalidated so the invalidation scan reaches them. Returns whether any
/// call's displayed text changed. A capture of `None` (the buffer's lock
/// was unavailable) skips that call only.
pub fn update_terminal_outputs(app: &mut Transcript, captures: &Vec<Option<Vec<u8>>>) -> (changed:
    bool)
    requires
        captures@.len() == old(app).terminal_tool_calls@.len(),
        forall|k1: int, k2: int|
            0 <= k1 < k2 < old(app).terminal_tool_calls@.len() ==> old(app).terminal_tool_calls@[k1] != old(app).terminal_tool_calls@[k2],
    ensures
        final(app).prefix_sums == old(app).prefix_sums,
        final(app).scroll == old(app).scroll,
        final(app).status == old(app).status,
        final(app).terminal_tool_calls == old(app).terminal_tool_calls,
        final(app).messages@.len() == old(app).messages@.len(),
        forall|m: int|
            0 <= m < old(app).messages@.len() ==> (#[trigger] final(app).messages@[m]).role == old(app).messages@[m].role && final(app).messages@[m].blocks@.len() == old(app).messages@[m].blocks@.len() && final(app).messages@[m].cached_visual_width == old(app).messages@[m].cached_visual_width && (final(app).messages@[m].cached_visual_height
                == old(app).messages@[m].cached_visual_height || final(app).messages@[m].cached_visual_height == 0),
        forall|k: int|
            #[trigger] entry_active(
                old(app).messages@,
                old(app).terminal_tool_calls@,
                captures@,
                k,
            ) ==> valid_target(
                final(app).messages@,
                old(app).terminal_tool_calls@[k].0 as int,
                old(app).terminal_tool_calls@[k].1 as int,
            ) && sync_result(
                tc_of(
                    old(app).messages@,
                    old(app).terminal_tool_calls@[k].0 as int,
                    old(app).terminal_tool_calls@[k].1 as int,
                ),
                tc_of(
                    final(app).messages@,
                    old(app).terminal_tool_calls@[k].0 as int,
                    old(app).terminal_tool_calls@[k].1 as int,
                ),
                captures@[k]->0@,
            ),
        forall|m: int, b: int|
            0 <= m < old(app).messages@.len() && 0 <= b < old(app).messages@[m].blocks@.len()
                && !is_sync_target_upto(
                old(app).messages@,
                old(app).terminal_tool_calls@,
                captures@,
                m,
                b,
                old(app).terminal_tool_calls@.len() as int,
            ) ==> (#[trigger] final(app).messages@[m].blocks@[b]) == old(app).messages@[m].blocks@[b],
        changed == exists|k: int|
            #[trigger] entry_changed(
                old(app).messages@,
                old(app).terminal_tool_calls@,
                captures@,
                k,
            ),
        !changed ==> forall|m: int|
            0 <= m < old(app).messages@.len() ==> (#[trigger] final(app).messages@[m]).cached_visual_height == old(app).messages@[m].cached_visual_height,
{
    let ghost olds = old(app).messages@;
    let ghost ttc = old(app).terminal_tool_calls@;
    let n_entries = app.terminal_tool_calls.len();
    let mut changed = false;
    let mut dirty_from: Option<usize> = None;
    let mut k: usize = 0;
    while k < n_entries
        invariant
            0 <= k <= n_entries,
            olds == old(app).messages@,
            ttc == old(app).terminal_tool_calls@,
            n_entries == ttc.len(),
            captures@.len() == ttc.len(),
            forall|k1: int, k2: int| 0 <= k1 < k2 < ttc.len() ==> ttc[k1] != ttc[k2],
            app.prefix_sums == old(app).prefix_sums,
            app.scroll == old(app).scroll,
            app.status == old(app).status,
            app.terminal_tool_calls == old(app).terminal_tool_calls,
            app.messages@.len() == olds.len(),
            forall|m: int|
                0 <= m < olds.len() ==> (#[trigger] app.messages@[m]).role == olds[m].role
                    && app.messages@[m].blocks@.len() == olds[m].blocks@.len()
                    && app.messages@[m].cached_visual_width == olds[m].cached_visual_width
                    && app.messages@[m].cached_visual_height == olds[m].cached_visual_height,
            forall|kp: int|
                0 <= kp < k && #[trigger] entry_active(olds, ttc, captures@, kp) ==> valid_target(
                    app.messages@,
                    ttc[kp].0 as int,
                    ttc[kp].1 as int,
                ) && sync_result(
                    tc_of(olds, ttc[kp].0 as int, ttc[kp].1 as int),
                    tc_of(app.messages@, ttc[kp].0 as int, ttc[kp].1 as int),
                    captures@[kp]->0@,
                ),
            forall|m: int, b: int|
                0 <= m < olds.len() && 0 <= b < olds[m].blocks@.len() && !is_sync_target_upto(
                    olds,
                    ttc,
                    captures@,
                    m,
                    b,
                    k as int,
                ) ==> (#[trigger] app.messages@[m].blocks@[b]) == olds[m].blocks@[b],
            changed == exists|kp: int|
                0 <= kp < k && #[trigger] entry_changed(olds, ttc, captures@, kp),
            changed == (dirty_from is Some),
            dirty_from matches Some(d) ==> d < olds.len(),
        decreases n_entries - k,
    {
        let pair = app.terminal_tool_calls[k];
        let mi = pair.0;
        let bi = pair.1;
        let ghost pre_msgs = app.messages@;
        let mut did = false;
        match &captures[k] {
            Some(buf) => {
                if mi < app.messages.len() {
                    let mut msg_tmp = ChatMessage {
                        role: crate::message::MessageRole::User,
                        blocks: Vec::new(),
                        cached_visual_height: 0,
                        cached_visual_width: 0,
                    };
                    app.messages.set_and_swap(mi, &mut msg_tmp);
                    let ghost pre_blocks = msg_tmp.blocks@;
                    if bi < msg_tmp.blocks.len() {
                        let mut blk_tmp = MessageBlock::Text(
                            crate::block::TextBlock {
                                content: String::new(),
                                cache: crate::cache::BlockCache::new(),
                            },
                        );
                        msg_tmp.blocks.set_and_swap(bi, &mut blk_tmp);
                        match blk_tmp {
                            MessageBlock::ToolCall(tc) => {
                                let mut tc = tc;
                                match decide_terminal_payload(&tc, buf) {
                                    Some(payload) => {
                                        let ch = apply_terminal_payload(&mut tc, payload);
                                        if ch {
                                            tc.mark_tool_call_layout_dirty();
                                            did = true;
                                        }
                                    },
                                    None => {},
                                }
                                proof {
                                    assert(sync_result(
                                        pre_blocks[bi as int]->ToolCall_0,
                                        tc,
                                        buf@,
                                    ));
                                    assert(did == sync_changed(
                                        pre_blocks[bi as int]->ToolCall_0,
                                        buf@,
                                    ));
                                }
                                blk_tmp = MessageBlock::ToolCall(tc);
                            },
                            MessageBlock::Text(tb) => {
                                blk_tmp = MessageBlock::Text(tb);
                            },
                        }
                        msg_tmp.blocks.set_and_swap(bi, &mut blk_tmp);
                        proof {
                            assert(msg_tmp.blocks@ =~= pre_blocks.update(
                                bi as int,
                                msg_tmp.blocks@[bi as int],
                            ));
                        }
                    }
                    app.messages.set_and_swap(mi, &mut msg_tmp);
                    proof {
                        assert(app.messages@ =~= pre_msgs.update(
                            mi as int,
                            app.messages@[mi as int],
                        ));
                    }
                }
            },
            None => {},
        }
        if did {
            changed = true;
            dirty_from = match dirty_from {
                Some(d) => if mi < d {
                    Some(mi)
                } else {
                    Some(d)
                },
                None => Some(mi),
            };
        }
        proof {
            if entry_active(olds, ttc, captures@, k as int) {
                assert(valid_target(app.messages@, mi as int, bi as int));
            }
            assert forall|m: int, b: int|
                0 <= m < olds.len() && 0 <= b < olds[m].blocks@.len() && !is_sync_target_upto(
                    olds,
                    ttc,
                    captures@,
                    m,
                    b,
                    k + 1,
                ) implies (#[trigger] app.messages@[m].blocks@[b]) == olds[m].blocks@[b] by {
                assert(!is_sync_target_upto(olds, ttc, captures@, m, b, k as int));
            }
            assert forall|kp: int|
                0 <= kp < k + 1 && #[trigger] entry_active(olds, ttc, captures@, kp)
                implies valid_target(app.messages@, ttc[kp].0 as int, ttc[kp].1 as int)
                && sync_result(
                tc_of(olds, ttc[kp].0 as int, ttc[kp].1 as int),
                tc_of(app.messages@, ttc[kp].0 as int, ttc[kp].1 as int),
                captures@[kp]->0@,
            ) by {
                if kp < k {
                    assert(ttc[kp] != ttc[k as int]);
                }
            }
            if did {
                assert(entry_changed(olds, ttc, captures@, k as int));
            }
            assert(changed == exists|kp: int|
                0 <= kp < k + 1 && #[trigger] entry_changed(olds, ttc, captures@, kp)) by {
                if !changed {
                    assert forall|kp: int| 0 <= kp < k + 1 implies !entry_changed(
                        olds,
                        ttc,
                        captures@,
                        kp,
                    ) by {}
                }
            }
        }
        k = k + 1;
    }
    match dirty_from {
        Some(d) => {
            app.mark_message_layout_dirty(d);
        },
        None => {},
    }
    changed
}

} // verus!
