//! The transcript: the append-only message list, the cumulative-height
//! index over it, the per-frame invalidation scan, viewport culling, and
//! the composed frame entry point.

use vstd::prelude::*;
use vstd::pervasive::VecAdditionalExecFns;
use crate::message::{BlockRenderer, ChatMessage, MessageRole, SpinnerState, compute_message_height,
    msg_caches_valid, msg_spinner, spec_message_height, spec_msg_spinner};
use crate::scroll::{ScrollState, advance_scroll, scroll_wf, spec_advance};
use crate::strutil::sat_cap;

verus! {

/// What the agent is doing, as far as layout cares: while it thinks or
/// runs, the newest message may change every frame.
#[derive(Debug, Clone, Copy, PartialEq, Eq, Structural)]
pub enum AppStatus {
    Idle,
    Thinking,
    Running,
}

/// True while transcript content may still change at the tail.
pub open spec fn spec_is_streaming(st: AppStatus) -> bool {
    st == AppStatus::Thinking || st == AppStatus::Running
}

/// True while the agent is in its thinking phase.
pub open spec fn spec_is_thinking(st: AppStatus) -> bool {
    st == AppStatus::Thinking
}

/// Messages to render above the first visible one as a safety margin,
/// absorbing slack in the height estimation from text wrapping.
pub const CULLING_MARGIN: usize = 2;

/// The transcript state handed through the engine: messages, the derived
/// cumulative-height index, scroll state, agent status, and the positions
/// of tool calls wired to live terminal output.
pub struct Transcript {
    pub messages: Vec<ChatMessage>,
    /// `prefix_sums[i]` caches the (saturating) sum of the cached heights
    /// of messages `0..=i`; rebuilt by [`Transcript::rebuild_prefix_sums`].
    pub prefix_sums: Vec<usize>,
    pub scroll: ScrollState,
    pub status: AppStatus,
    /// `(message index, block index)` of every tool call mirroring a live
    /// terminal output buffer.
    pub terminal_tool_calls: Vec<(usize, usize)>,
}

/// The cached heights of messages `0..=i`, as an exact (unsaturated) sum.
pub open spec fn spec_cum(msgs: Seq<ChatMessage>, i: int) -> nat
    decreases i + 1,
{
    if i < 0 {
        0
    } else {
        spec_cum(msgs, i - 1) + msgs[i].cached_visual_height as nat
    }
}

/// The sum over a prefix never exceeds the sum over a longer prefix.
pub proof fn lemma_cum_mono(msgs: Seq<ChatMessage>, i: int, j: int)
    requires
        i <= j,
    ensures
        spec_cum(msgs, i) <= spec_cum(msgs, j),
    decreases j - i,
{
    if i < j {
        lemma_cum_mono(msgs, i, j - 1);
    }
}

/// The index is up to date: one entry per message, each the saturating
/// cumulative height through that message.
pub open spec fn index_fresh(t: Transcript) -> bool {
    &&& t.prefix_sums@.len() == t.messages@.len()
    &&& forall|i: int|
        0 <= i < t.messages@.len() ==> t.prefix_sums@[i] == sat_cap(
            spec_cum(t.messages@, i),
        )
}

/// Prefix-sum invariant: while the true totals fit in `usize`, each index
/// entry exceeds its predecessor by exactly that message's cached height,
/// so `cumulative_height_before(i + 1) == cumulative_height_before(i) +
/// height(i)` and the total height is the sum over all messages.
pub proof fn lemma_prefix_sum_invariant(t: Transcript, i: int)
    requires
        index_fresh(t),
        0 <= i < t.messages@.len(),
        spec_cum(t.messages@, t.messages@.len() as int - 1) <= usize::MAX,
    ensures
        sat_cap(spec_cum(t.messages@, i)) == sat_cap(spec_cum(t.messages@, i - 1))
            + t.messages@[i].cached_visual_height,
        t.prefix_sums@[i] == sat_cap(spec_cum(t.messages@, i - 1))
            + t.messages@[i].cached_visual_height,
        sat_cap(spec_cum(t.messages@, t.messages@.len() as int - 1)) == spec_cum(
            t.messages@,
            t.messages@.len() as int - 1,
        ),
{
    lemma_cum_mono(t.messages@, i, t.messages@.len() as int - 1);
    lemma_cum_mono(t.messages@, i - 1, t.messages@.len() as int - 1);
}

impl Transcript {
    /// An empty transcript: no messages, an empty index, scroll at rest.
    pub fn new() -> (t: Transcript)
        ensures
            t.messages@.len() == 0,
            t.prefix_sums@.len() == 0,
            t.terminal_tool_calls@.len() == 0,
            t.status == AppStatus::Idle,
            t.scroll == (ScrollState {
                offset: 0usize,
                target: 0usize,
                position_milli: 0u64,
                auto_scroll: true,
            }),
            index_fresh(t),
            scroll_wf(t.scroll),
    {
        Transcript {
            messages: Vec::new(),
            prefix_sums: Vec::new(),
            scroll: ScrollState::new(),
            status: AppStatus::Idle,
            terminal_tool_calls: Vec::new(),
        }
    }

    /// Brings the cumulative-height index in line with the messages'
    /// cached heights, leaving entries that already match untouched.
    pub fn rebuild_prefix_sums(&mut self)
        ensures
            final(self).messages == old(self).messages,
            final(self).scroll == old(self).scroll,
            final(self).status == old(self).status,
            final(self).terminal_tool_calls == old(self).terminal_tool_calls,
            index_fresh(*final(self)),
    {
        let n = self.messages.len();
        let mut prev: usize = 0;
        let mut i: usize = 0;
        while i < n
            invariant
                0 <= i <= n,
                n == self.messages@.len(),
                self.messages == old(self).messages,
                self.scroll == old(self).scroll,
                self.status == old(self).status,
                self.terminal_tool_calls == old(self).terminal_tool_calls,
                self.prefix_sums@.len() >= i,
                prev == sat_cap(spec_cum(self.messages@, i as int - 1)),
                forall|j: int|
                    0 <= j < i ==> self.prefix_sums@[j] == sat_cap(
                        spec_cum(self.messages@, j),
                    ),
            decreases n - i,
        {
            let h = self.messages[i].cached_visual_height;
            let expected = prev.saturating_add(h);
            if i < self.prefix_sums.len() {
                if self.prefix_sums[i] != expected {
                    self.prefix_sums.set(i, expected);
                }
            } else {
                self.prefix_sums.push(expected);
            }
            prev = expected;
            i = i + 1;
        }
        self.prefix_sums.truncate(n);
        proof {
            assert(self.prefix_sums@ =~= self.prefix_sums@.take(n as int));
        }
    }

    /// The total height of all messages (saturating), read off the index.
    pub fn total_message_height(&self) -> (r: usize)
        requires
            index_fresh(*self),
        ensures
            r == sat_cap(spec_cum(self.messages@, self.messages@.len() as int - 1)),
    {
        let n = self.prefix_sums.len();
        if n == 0 {
            0
        } else {
            self.prefix_sums[n - 1]
        }
    }

    /// The summed height of the messages strictly before `index`
    /// (saturating), read off the index.
    pub fn cumulative_height_before(&self, index: usize) -> (r: usize)
        requires
            index_fresh(*self),
            index <= self.messages@.len(),
        ensures
            r == sat_cap(spec_cum(self.messages@, index as int - 1)),
    {
        if index == 0 {
            0
        } else {
            self.prefix_sums[index - 1]
        }
    }

    /// The first message that extends below scroll offset `scroll`, with a
    /// fixed welcome preamble of `welcome_height` lines above message zero:
    /// the least index whose cumulative bottom edge lies strictly past
    /// `scroll`, or the message count when everything is above it. Binary
    /// search over the monotone index.
    pub fn find_first_visible(&self, scroll: usize, welcome_height: usize) -> (r: usize)
        requires
            index_fresh(*self),
        ensures
            r <= self.messages@.len(),
            forall|j: int|
                0 <= j < r ==> !vis_past(self.messages@, welcome_height as nat, scroll as nat, j),
            r < self.messages@.len() ==> vis_past(
                self.messages@,
                welcome_height as nat,
                scroll as nat,
                r as int,
            ),
    {
        let n = self.prefix_sums.len();
        let mut lo: usize = 0;
        let mut hi: usize = n;
        while lo < hi
            invariant
                0 <= lo <= hi <= n,
                n == self.messages@.len(),
                index_fresh(*self),
                forall|j: int|
                    0 <= j < lo ==> !vis_past(
                        self.messages@,
                        welcome_height as nat,
                        scroll as nat,
                        j,
                    ),
                forall|j: int|
                    hi <= j < n ==> vis_past(
                        self.messages@,
                        welcome_height as nat,
                        scroll as nat,
                        j,
                    ),
            decreases hi - lo,
        {
            let mid = lo + (hi - lo) / 2;
            if welcome_height.saturating_add(self.prefix_sums[mid]) > scroll {
                proof {
                    lemma_vis_past_mono(self.messages@, welcome_height as nat, scroll as nat, mid as int);
                }
                hi = mid;
            } else {
                proof {
                    assert(self.prefix_sums@[mid as int] == sat_cap(
                        spec_cum(self.messages@, mid as int),
                    ));
                    assert(!vis_past(self.messages@, welcome_height as nat, scroll as nat, mid as int));
                    assert forall|j: int| lo <= j <= mid implies !vis_past(
                        self.messages@,
                        welcome_height as nat,
                        scroll as nat,
                        j,
                    ) by {
                        if vis_past(self.messages@, welcome_height as nat, scroll as nat, j) {
                            lemma_vis_past_mono(
                                self.messages@,
                                welcome_height as nat,
                                scroll as nat,
                                j,
                            );
                        }
                    }
                }
                lo = mid + 1;
            }
        }
        lo
    }

    /// Invalidates the cached heights of message `index` and everything
    /// after it, so the next invalidation scan recomputes from the end down
    /// to exactly this message. The earliest such call in a frame thereby
    /// fixes how far the scan must reach; block contents and caches are not
    /// touched.
    pub fn mark_message_layout_dirty(&mut self, index: usize)
        requires
            index < old(self).messages@.len(),
        ensures
            final(self).messages@.len() == old(self).messages@.len(),
            final(self).prefix_sums == old(self).prefix_sums,
            final(self).scroll == old(self).scroll,
            final(self).status == old(self).status,
            final(self).terminal_tool_calls == old(self).terminal_tool_calls,
            forall|j: int| 0 <= j < index ==> final(self).messages@[j] == old(self).messages@[j],
            forall|j: int|
                index <= j < old(self).messages@.len() ==> zero_height_of(
                    old(self).messages@[j],
                    #[trigger] final(self).messages@[j],
                ),
    {
        let ghost olds = old(self).messages@;
        let ghost n = olds.len();
        proof {
            assert(olds.subrange(0, n as int) =~= olds);
        }
        let mut tail: Vec<ChatMessage> = Vec::new();
        while self.messages.len() > index
            invariant
                n == olds.len(),
                olds == old(self).messages@,
                index <= n,
                self.messages@.len() + tail@.len() == n,
                self.messages@.len() >= index,
                self.messages@ == olds.subrange(0, self.messages@.len() as int),
                self.prefix_sums == old(self).prefix_sums,
                self.scroll == old(self).scroll,
                self.status == old(self).status,
                self.terminal_tool_calls == old(self).terminal_tool_calls,
                forall|j: int|
                    0 <= j < tail@.len() ==> #[trigger] tail@[j] == olds[n - 1 - j],
            decreases self.messages@.len(),
        {
            let ghost pre_msgs = self.messages@;
            let ghost pre_tail = tail@;
            let m = self.messages.pop().unwrap();
            tail.push(m);
            proof {
                let ghost lp = pre_msgs.len() as int;
                assert(pre_msgs.subrange(0, lp)[lp - 1] == pre_msgs[lp - 1]);
                assert(olds.subrange(0, lp)[lp - 1] == olds[lp - 1]);
                assert(m == olds[lp - 1]);
                assert forall|j: int| 0 <= j < lp - 1 implies #[trigger] self.messages@[j]
                    == olds[j] by {
                    assert(pre_msgs.subrange(0, lp - 1)[j] == pre_msgs[j]);
                    assert(olds.subrange(0, lp)[j] == olds[j]);
                }
                assert(self.messages@ =~= olds.subrange(0, self.messages@.len() as int));
                assert(m == olds[pre_msgs.len() - 1]);
                assert forall|j: int| 0 <= j < tail@.len() implies #[trigger] tail@[j]
                    == olds[n - 1 - j] by {
                    if j < pre_tail.len() {
                        assert(tail@[j] == pre_tail[j]);
                    } else {
                        assert(j == pre_tail.len());
                        assert(tail@[j] == m);
                    }
                }
            }
        }
        let ghost k = self.messages@.len();
        while tail.len() > 0
            invariant
                n == olds.len(),
                olds == old(self).messages@,
                index <= k <= n,
                k == index,
                self.messages@.len() + tail@.len() == n,
                self.messages@.len() >= k,
                self.prefix_sums == old(self).prefix_sums,
                self.scroll == old(self).scroll,
                self.status == old(self).status,
                self.terminal_tool_calls == old(self).terminal_tool_calls,
                forall|j: int| 0 <= j < k ==> #[trigger] self.messages@[j] == olds[j],
                forall|j: int|
                    k <= j < self.messages@.len() ==> zero_height_of(
                        olds[j],
                        #[trigger] self.messages@[j],
                    ),
                forall|j: int|
                    0 <= j < tail@.len() ==> #[trigger] tail@[j] == olds[n - 1 - j],
            decreases tail@.len(),
        {
            let ghost pre_msgs = self.messages@;
            let ghost pre_tail = tail@;
            let mut m = tail.pop().unwrap();
            m.cached_visual_height = 0;
            self.messages.push(m);
            proof {
                assert(pre_tail.last() == olds[n - 1 - (pre_tail.len() - 1)]);
                assert(pre_msgs.len() == n - pre_tail.len());
                assert(zero_height_of(olds[pre_msgs.len() as int], m));
                assert forall|j: int|
                    k <= j < self.messages@.len() implies zero_height_of(
                    olds[j],
                    #[trigger] self.messages@[j],
                ) by {
                    if j < pre_msgs.len() {
                        assert(self.messages@[j] == pre_msgs[j]);
                    } else {
                        assert(self.messages@[j] == m);
                    }
                }
            }
        }
    }
}

/// Message `j`'s bottom edge (welcome preamble included, saturating) lies
/// strictly below scroll offset `scroll`.
pub open spec fn vis_past(msgs: Seq<ChatMessage>, welcome: nat, scroll: nat, j: int) -> bool {
    sat_cap(welcome + sat_cap(spec_cum(msgs, j))) > scroll
}

/// Once a message's bottom edge passes the offset, every later one does.
pub proof fn lemma_vis_past_mono(msgs: Seq<ChatMessage>, welcome: nat, scroll: nat, j: int)
    requires
        0 <= j < msgs.len(),
        vis_past(msgs, welcome, scroll, j),
    ensures
        forall|l: int| j <= l < msgs.len() ==> vis_past(msgs, welcome, scroll, l),
{
    assert forall|l: int| j <= l < msgs.len() implies vis_past(msgs, welcome, scroll, l) by {
        lemma_cum_mono(msgs, j, l);
    }
}

/// `b` is `a` with its cached visual height reset to zero.
pub open spec fn zero_height_of(a: ChatMessage, b: ChatMessage) -> bool {
    &&& b.role == a.role
    &&& b.blocks == a.blocks
    &&& b.cached_visual_width == a.cached_visual_width
    &&& b.cached_visual_height == 0
}

/// `b` has the same identity and content as `a`: same role and the same
/// blocks up to render-cache state.
pub open spec fn msg_like(a: ChatMessage, b: ChatMessage) -> bool {
    &&& b.role == a.role
    &&& b.blocks@.len() == a.blocks@.len()
    &&& forall|i: int|
        0 <= i < a.blocks@.len() ==> a.blocks@[i].same_content(&(#[trigger] b.blocks@[i]))
}

/// The message-level cache marker the invalidation scan trusts: computed at
/// this width, with a (necessarily positive) height stored.
pub open spec fn height_marker_valid(m: ChatMessage, width: u16) -> bool {
    m.cached_visual_width == width && m.cached_visual_height > 0
}

/// Message `idx` of `total` was freshly laid out at `width`: content kept,
/// every relevant block cache filled, and the cached height the saturating
/// total that [`spec_message_height`] assigns under that message's spinner
/// context.
pub open spec fn recomputed(
    o: ChatMessage,
    m: ChatMessage,
    base: SpinnerState,
    idx: int,
    total: int,
    is_thinking: bool,
    width: u16,
) -> bool {
    &&& msg_like(o, m)
    &&& m.cached_visual_width == width
    &&& msg_caches_valid(m, width)
    &&& m.cached_visual_height == sat_cap(
        spec_message_height(m, spec_msg_spinner(base, idx, total, is_thinking, m), width),
    )
}

/// What one invalidation scan achieves: some cut `k` such that everything
/// before it is untouched, everything from it on is freshly laid out, and a
/// positive cut is justified by the message just before it already carrying
/// a valid marker (and not being the still-streaming newest message).
pub open spec fn scan_outcome(
    olds: Seq<ChatMessage>,
    news: Seq<ChatMessage>,
    base: SpinnerState,
    is_thinking: bool,
    streaming: bool,
    width: u16,
    k: int,
) -> bool {
    &&& 0 <= k <= olds.len()
    &&& news.len() == olds.len()
    &&& forall|j: int| 0 <= j < k ==> news[j] == olds[j]
    &&& forall|j: int|
        k <= j < olds.len() ==> recomputed(
            olds[j],
            #[trigger] news[j],
            base,
            j,
            olds.len() as int,
            is_thinking,
            width,
        )
    &&& k > 0 ==> height_marker_valid(olds[k - 1], width) && !(k == olds.len() && streaming)
}

/// Ensures every message's cached height is up to date at `width` for this
/// frame, walking from newest to oldest and stopping at the first message
/// whose marker is already valid (unless it is the newest message while the
/// transcript streams, which is always recomputed). Under the invariant
/// that only the newest message's content changes while streaming, the
/// messages above the stop point are still correct, so when all but the
/// newest carry valid markers, only that one message is touched.
pub fn update_visual_heights<R: BlockRenderer>(
    app: &mut Transcript,
    base: SpinnerState,
    is_thinking: bool,
    width: u16,
    renderer: &mut R,
)
    ensures
        final(app).messages@.len() == old(app).messages@.len(),
        final(app).prefix_sums == old(app).prefix_sums,
        final(app).scroll == old(app).scroll,
        final(app).status == old(app).status,
        final(app).terminal_tool_calls == old(app).terminal_tool_calls,
        exists|k: int|
            scan_outcome(
                old(app).messages@,
                final(app).messages@,
                base,
                is_thinking,
                spec_is_streaming(old(app).status),
                width,
                k,
            ),
        (forall|j: int|
            0 <= j < old(app).messages@.len() - 1 ==> height_marker_valid(
                #[trigger] old(app).messages@[j],
                width,
            )) ==> forall|j: int|
            0 <= j < old(app).messages@.len() - 1 ==> final(app).messages@[j] == old(
                app,
            ).messages@[j],
{
    let ghost olds = old(app).messages@;
    let ghost n = olds.len();
    let total = app.messages.len();
    let is_streaming = app.status == AppStatus::Thinking || app.status == AppStatus::Running;
    let mut tail: Vec<ChatMessage> = Vec::new();
    let mut done = false;
    while app.messages.len() > 0 && !done
        invariant
            n == olds.len(),
            olds == old(app).messages@,
            total == n,
            app.messages@.len() + tail@.len() == n,
            is_streaming == spec_is_streaming(old(app).status),
            app.prefix_sums == old(app).prefix_sums,
            app.scroll == old(app).scroll,
            app.status == old(app).status,
            app.terminal_tool_calls == old(app).terminal_tool_calls,
            forall|j: int|
                0 <= j < app.messages@.len() ==> #[trigger] app.messages@[j] == olds[j],
            forall|j: int|
                0 <= j < tail@.len() ==> recomputed(
                    olds[n - 1 - j],
                    #[trigger] tail@[j],
                    base,
                    n - 1 - j,
                    n as int,
                    is_thinking,
                    width,
                ),
            done ==> app.messages@.len() > 0 && height_marker_valid(
                olds[app.messages@.len() - 1],
                width,
            ) && !(app.messages@.len() == n && is_streaming),
            (forall|j: int|
                0 <= j < n - 1 ==> height_marker_valid(#[trigger] olds[j], width))
                ==> app.messages@.len() >= n - 1,
        decreases app.messages@.len(), (if done {
            0int
        } else {
            1int
        }),
    {
        let idx = app.messages.len() - 1;
        let valid = app.messages[idx].cached_visual_width == width && app.messages[
            idx
        ].cached_visual_height > 0;
        let is_last = app.messages.len() == total;
        if valid && !(is_last && is_streaming) {
            done = true;
        } else {
            let ghost pre_msgs = app.messages@;
            let ghost pre_tail = tail@;
            let mut m = app.messages.pop().unwrap();
            let sp = msg_spinner(base, idx, total, is_thinking, &m);
            let h = compute_message_height(&mut m, &sp, width, renderer);
            m.cached_visual_height = h;
            m.cached_visual_width = width;
            tail.push(m);
            proof {
                assert(recomputed(olds[idx as int], m, base, idx as int, n as int, is_thinking, width));
                assert forall|j: int| 0 <= j < tail@.len() implies recomputed(
                    olds[n - 1 - j],
                    #[trigger] tail@[j],
                    base,
                    n - 1 - j,
                    n as int,
                    is_thinking,
                    width,
                ) by {
                    if j < pre_tail.len() {
                        assert(tail@[j] == pre_tail[j]);
                    } else {
                        assert(tail@[j] == m);
                    }
                }
            }
        }
    }
    let ghost k = app.messages@.len() as int;
    proof {
        assert(k > 0 ==> height_marker_valid(olds[k - 1], width) && !(k == n && spec_is_streaming(
            old(app).status,
        )));
    }
    while tail.len() > 0
        invariant
            n == olds.len(),
            olds == old(app).messages@,
            0 <= k <= app.messages@.len(),
            app.messages@.len() + tail@.len() == n,
            is_streaming == spec_is_streaming(old(app).status),
            app.prefix_sums == old(app).prefix_sums,
            app.scroll == old(app).scroll,
            app.status == old(app).status,
            app.terminal_tool_calls == old(app).terminal_tool_calls,
            forall|j: int| 0 <= j < k ==> #[trigger] app.messages@[j] == olds[j],
            forall|j: int|
                k <= j < app.messages@.len() ==> recomputed(
                    olds[j],
                    #[trigger] app.messages@[j],
                    base,
                    j,
                    n as int,
                    is_thinking,
                    width,
                ),
            forall|j: int|
                0 <= j < tail@.len() ==> recomputed(
                    olds[n - 1 - j],
                    #[trigger] tail@[j],
                    base,
                    n - 1 - j,
                    n as int,
                    is_thinking,
                    width,
                ),
        decreases tail@.len(),
    {
        let ghost pre_msgs = app.messages@;
        let ghost pre_tail = tail@;
        let m = tail.pop().unwrap();
        app.messages.push(m);
        proof {
            assert(m == pre_tail[pre_tail.len() - 1]);
            assert forall|j: int|
                k <= j < app.messages@.len() implies recomputed(
                olds[j],
                #[trigger] app.messages@[j],
                base,
                j,
                n as int,
                is_thinking,
                width,
            ) by {
                if j < pre_msgs.len() {
                    assert(app.messages@[j] == pre_msgs[j]);
                } else {
                    assert(app.messages@[j] == m);
                    assert(j == n - 1 - (pre_tail.len() - 1));
                }
            }
        }
    }
    proof {
        assert(scan_outcome(
            olds,
            app.messages@,
            base,
            is_thinking,
            spec_is_streaming(old(app).status),
            width,
            k,
        ));
        if forall|j: int|
            0 <= j < n - 1 ==> height_marker_valid(#[trigger] olds[j], width) {
            assert(k >= n - 1);
        }
    }
}

/// The range and offsets of a culled render: where rendering starts, what
/// was skipped above it, how to shift the produced lines, and how many
/// lines are enough.
#[derive(Debug, Clone, Copy, PartialEq, Eq, Structural)]
pub struct CullPlan {
    /// First message to render: the first visible one backed up by
    /// [`CULLING_MARGIN`].
    pub render_start: usize,
    /// True exactly when rendering starts at message zero, so the welcome
    /// preamble is included and heights switch to an absolute basis.
    pub include_welcome: bool,
    /// Lines skipped above `render_start` (zero on the absolute basis).
    pub height_before_start: usize,
    /// The residual scroll still to apply to the rendered lines.
    pub local_scroll: usize,
    /// Rendering may stop once this many lines were produced: enough to
    /// cover the viewport plus slack.
    pub lines_budget: usize,
}

/// What a cull plan promises, given the first visible message `fv`: see
/// [`CullPlan`]'s fields.
pub open spec fn cull_ok(
    msgs: Seq<ChatMessage>,
    welcome: nat,
    scroll: nat,
    vh: nat,
    fv: int,
    plan: CullPlan,
) -> bool {
    &&& 0 <= fv <= msgs.len()
    &&& forall|j: int| 0 <= j < fv ==> !vis_past(msgs, welcome, scroll, j)
    &&& fv < msgs.len() ==> vis_past(msgs, welcome, scroll, fv)
    &&& plan.render_start == if fv >= CULLING_MARGIN {
        fv - CULLING_MARGIN
    } else {
        0int
    }
    &&& plan.include_welcome == (plan.render_start == 0)
    &&& plan.height_before_start == if plan.render_start == 0 {
        0nat
    } else {
        sat_cap(welcome + sat_cap(spec_cum(msgs, plan.render_start as int - 1)))
    }
    &&& plan.local_scroll == if scroll >= plan.height_before_start {
        scroll - plan.height_before_start
    } else {
        0int
    }
    &&& plan.lines_budget == sat_cap((plan.local_scroll + vh + 100) as nat)
}

impl Transcript {
    /// Selects the minimal message range to render for scroll offset
    /// `scroll` and a viewport of `viewport_height` lines: the first
    /// visible message backed up by a fixed margin, with the residual local
    /// scroll and a line budget that covers the viewport plus slack.
    pub fn cull_plan(&self, scroll: usize, viewport_height: usize, welcome_height: usize) -> (plan:
        CullPlan)
        requires
            index_fresh(*self),
        ensures
            exists|fv: int|
                cull_ok(
                    self.messages@,
                    welcome_height as nat,
                    scroll as nat,
                    viewport_height as nat,
                    fv,
                    plan,
                ),
    {
        let fv = self.find_first_visible(scroll, welcome_height);
        let render_start = if fv >= CULLING_MARGIN {
            fv - CULLING_MARGIN
        } else {
            0
        };
        let height_before_start = if render_start == 0 {
            0
        } else {
            welcome_height.saturating_add(self.cumulative_height_before(render_start))
        };
        let local_scroll = if scroll >= height_before_start {
            scroll - height_before_start
        } else {
            0
        };
        let lines_budget = local_scroll.saturating_add(viewport_height).saturating_add(100);
        let plan = CullPlan {
            render_start,
            include_welcome: render_start == 0,
            height_before_start,
            local_scroll,
            lines_budget,
        };
        proof {
            assert(cull_ok(
                self.messages@,
                welcome_height as nat,
                scroll as nat,
                viewport_height as nat,
                fv as int,
                plan,
            ));
        }
        plan
    }
}

/// What one frame draws: everything, bottom-aligned with `top_offset` blank
/// rows above (short transcripts), or a culled window of the transcript.
#[derive(Debug, Clone, Copy, PartialEq, Eq, Structural)]
pub enum FramePlan {
    Full { top_offset: usize },
    Culled { plan: CullPlan },
}

/// The plan inside a culled frame (meaningless for a full frame).
pub open spec fn culled_plan(r: FramePlan) -> CullPlan {
    match r {
        FramePlan::Culled { plan } => plan,
        FramePlan::Full { .. } => CullPlan {
            render_start: 0usize,
            include_welcome: true,
            height_before_start: 0usize,
            local_scroll: 0usize,
            lines_budget: 0usize,
        },
    }
}

/// The transcript's total content height at `width`: the welcome preamble
/// plus every message's cached height (saturating).
pub open spec fn spec_content_height(msgs: Seq<ChatMessage>, welcome: nat) -> nat {
    sat_cap(welcome + sat_cap(spec_cum(msgs, msgs.len() as int - 1)))
}

impl Transcript {
    /// The composed per-frame entry point: refreshes every stale message
    /// height (invalidation scan), brings the cumulative index up to date,
    /// and either lays the whole transcript out bottom-aligned (when it
    /// fits the viewport, disabling scrolling) or advances the smooth
    /// scroll and selects the culled window to render.
    #[verifier::rlimit(60)]
    #[verifier::spinoff_prover]
    pub fn render<R: BlockRenderer>(
        &mut self,
        width: u16,
        viewport_height: usize,
        welcome_height: usize,
        spinner_frame: usize,
        renderer: &mut R,
    ) -> (r: FramePlan)
        requires
            scroll_wf(old(self).scroll),
        ensures
            final(self).status == old(self).status,
            final(self).terminal_tool_calls == old(self).terminal_tool_calls,
            final(self).messages@.len() == old(self).messages@.len(),
            index_fresh(*final(self)),
            scroll_wf(final(self).scroll),
            exists|k: int|
                #[trigger] scan_outcome(
                    old(self).messages@,
                    final(self).messages@,
                    spec_render_base(spinner_frame as int, old(self).status),
                    spec_is_thinking(old(self).status),
                    spec_is_streaming(old(self).status),
                    width,
                    k,
                ),
            spec_content_height(final(self).messages@, welcome_height as nat) <= viewport_height
                ==> final(self).scroll == (ScrollState {
                offset: 0usize,
                target: 0usize,
                position_milli: 0u64,
                auto_scroll: true,
            }) && r == (FramePlan::Full {
                top_offset: (viewport_height - spec_content_height(
                    final(self).messages@,
                    welcome_height as nat,
                )) as usize,
            }),
            spec_content_height(final(self).messages@, welcome_height as nat) > viewport_height
                ==> final(self).scroll == spec_advance(
                old(self).scroll,
                spec_content_height(final(self).messages@, welcome_height as nat),
                viewport_height as nat,
            ) && r is Culled && (exists|fv: int|
                cull_ok(
                    final(self).messages@,
                    welcome_height as nat,
                    final(self).scroll.offset as nat,
                    viewport_height as nat,
                    fv,
                    culled_plan(r),
                )),
    {
        let is_thinking = self.status == AppStatus::Thinking;
        let is_streaming = self.status == AppStatus::Thinking || self.status == AppStatus::Running;
        let base = SpinnerState {
            frame: spinner_frame,
            is_active: is_streaming,
            is_last_message: false,
            is_thinking_mid_turn: false,
        };
        proof {
            assert(base == spec_render_base(spinner_frame as int, old(self).status));
            assert(is_thinking == spec_is_thinking(old(self).status));
            assert(is_streaming == spec_is_streaming(old(self).status));
        }
        update_visual_heights(self, base, is_thinking, width, renderer);
        proof {
            let k0 = choose|k: int|
                scan_outcome(
                    old(self).messages@,
                    self.messages@,
                    base,
                    is_thinking,
                    spec_is_streaming(old(self).status),
                    width,
                    k,
                );
            assert(scan_outcome(
                old(self).messages@,
                self.messages@,
                spec_render_base(spinner_frame as int, old(self).status),
                spec_is_thinking(old(self).status),
                spec_is_streaming(old(self).status),
                width,
                k0,
            ));
        }
        let ghost mid_msgs = self.messages@;
        self.rebuild_prefix_sums();
        let content_height = welcome_height.saturating_add(self.total_message_height());
        proof {
            assert(content_height == spec_content_height(self.messages@, welcome_height as nat));
        }
        if content_height <= viewport_height {
            self.scroll.offset = 0;
            self.scroll.target = 0;
            self.scroll.position_milli = 0;
            self.scroll.auto_scroll = true;
            proof {
                assert(self.scroll == (ScrollState {
                    offset: 0usize,
                    target: 0usize,
                    position_milli: 0u64,
                    auto_scroll: true,
                }));
            }
            proof {
                assert(self.messages@ == mid_msgs);
            }
            FramePlan::Full { top_offset: viewport_height - content_height }
        } else {
            advance_scroll(&mut self.scroll, content_height, viewport_height);
            let plan = self.cull_plan(self.scroll.offset, viewport_height, welcome_height);
            let r = FramePlan::Culled { plan };
            proof {
                let fv0 = choose|fv: int|
                    cull_ok(
                        self.messages@,
                        welcome_height as nat,
                        self.scroll.offset as nat,
                        viewport_height as nat,
                        fv,
                        plan,
                    );
                assert(culled_plan(r) == plan);
                assert(cull_ok(
                    self.messages@,
                    welcome_height as nat,
                    self.scroll.offset as nat,
                    viewport_height as nat,
                    fv0,
                    culled_plan(r),
                ));
                assert(self.messages@ == mid_msgs);
            }
            r
        }
    }
}

/// The per-frame spinner context that [`Transcript::render`] hands to the
/// invalidation scan.
pub open spec fn spec_render_base(frame: int, status: AppStatus) -> SpinnerState {
    SpinnerState {
        frame: frame as usize,
        is_active: spec_is_streaming(status),
        is_last_message: false,
        is_thinking_mid_turn: false,
    }
}

} // verus!
