//! The interactive collector protocol.
//!
//! A command turns into a multi-turn UI in two phases: it sends a message
//! whose controls all carry a correlation id unique to the invocation, then
//! repeatedly awaits the next matching interaction under an idle timeout,
//! applies a state transition, and updates the message in place. On exit the
//! controls are stripped while the rendered content stays.
//!
//! This module holds the decisions of that loop: which interactions are
//! recognized, how paging offsets move (with wraparound at both ends), when
//! a filter change resets the page, and what teardown leaves behind. The
//! awaiting, rendering and editing are the caller's work.

use vstd::prelude::*;

verus! {

/// Offsets and totals stay below this bound — far beyond any real page
/// count, and small enough that offset arithmetic can never overflow.
pub const PAGE_LIMIT: u64 = 0x1000_0000_0000_0000;

/// The role a control plays inside one collector session.
#[derive(Clone, Copy, PartialEq, Eq, Structural, Debug)]
pub enum ControlKind {
    Prev,
    Next,
    Refresh,
    Filter,
    Confirm,
    Cancel,
    Boop,
}

/// A structured control id: the correlation id of the invocation it belongs
/// to, plus the role of the control. Stands in for the flat
/// `{correlation}{suffix}` strings the wire protocol uses.
#[derive(Clone, Copy, PartialEq, Eq, Structural, Debug)]
pub struct ControlId {
    pub correlation: u64,
    pub kind: ControlKind,
}

/// What one awaited interaction amounts to for a session with the given
/// correlation id.
#[derive(Clone, Copy, PartialEq, Eq, Structural, Debug)]
pub enum CollectorOutcome {
    /// The idle timeout elapsed; the session ends.
    Timeout,
    /// A control of this session fired.
    Recognized(ControlKind),
    /// An interaction that carries this correlation id but no control role
    /// this session knows — logged and ignored, the loop keeps waiting.
    Unrelated,
}

/// Classify one awaited interaction: `None` is the timeout, a control id of
/// another invocation or an unknown role is unrelated noise.
#[verifier::loop_isolation(false)]
pub fn classify(correlation: u64, pressed: Option<&ControlId>, known: &[ControlKind]) -> (r:
    CollectorOutcome)
    ensures
        pressed is None ==> r == CollectorOutcome::Timeout,
        match pressed {
            None => r == CollectorOutcome::Timeout,
            Some(id) => {
                if id.correlation == correlation && known@.contains(id.kind) {
                    r == CollectorOutcome::Recognized(id.kind)
                } else {
                    r == CollectorOutcome::Unrelated
                }
            },
        },
{
    match pressed {
        None => CollectorOutcome::Timeout,
        Some(id) => {
            if id.correlation != correlation {
                return CollectorOutcome::Unrelated;
            }
            let n = known.len();
            let mut i: usize = 0;
            while i < n
                invariant
                    i <= n,
                    n == known@.len(),
                    forall|j: int| 0 <= j < i ==> known@[j] != id.kind,
                decreases n - i,
            {
                if known[i] == id.kind {
                    return CollectorOutcome::Recognized(id.kind);
                }
                i = i + 1;
            }
            CollectorOutcome::Unrelated
        },
    }
}

/// Where paging lands after one "next" press: forward one page, wrapping to
/// the start once the offset would reach past the end.
pub open spec fn next_offset(offset: u64, total: u64, page_size: u64) -> u64 {
    if offset + page_size >= total {
        0
    } else {
        (offset + page_size) as u64
    }
}

/// Where paging lands after one "prev" press: back one page, wrapping from
/// the start to the last full page boundary `(total / page_size) *
/// page_size` — not to `total - 1`.
pub open spec fn prev_offset(offset: u64, total: u64, page_size: u64) -> u64 {
    if offset >= page_size {
        (offset - page_size) as u64
    } else {
        ((total / page_size) * page_size) as u64
    }
}

/// Offset-based paging state over a collection whose size may be refreshed
/// while the session runs.
#[derive(Clone, Copy, PartialEq, Eq, Structural, Debug)]
pub struct PageState {
    pub offset: u64,
    pub total: u64,
    pub page_size: u64,
}

impl PageState {
    pub open spec fn wf(self) -> bool {
        &&& 1 <= self.page_size < PAGE_LIMIT
        &&& self.offset < PAGE_LIMIT
        &&& self.total < PAGE_LIMIT
    }

    pub fn new(total: u64, page_size: u64) -> (r: PageState)
        requires
            1 <= page_size < PAGE_LIMIT,
            total < PAGE_LIMIT,
        ensures
            r.wf(),
            r == (PageState { offset: 0, total, page_size }),
    {
        PageState { offset: 0, total, page_size }
    }

    /// One "next" press.
    pub fn next_page(&mut self)
        requires
            old(self).wf(),
        ensures
            final(self).wf(),
            final(self).offset == next_offset(
                old(self).offset,
                old(self).total,
                old(self).page_size,
            ),
            final(self).total == old(self).total,
            final(self).page_size == old(self).page_size,
    {
        let moved = self.offset + self.page_size;
        if moved >= self.total {
            self.offset = 0;
        } else {
            self.offset = moved;
        }
    }

    /// One "prev" press.
    pub fn prev_page(&mut self)
        requires
            old(self).wf(),
        ensures
            final(self).wf(),
            final(self).offset == prev_offset(
                old(self).offset,
                old(self).total,
                old(self).page_size,
            ),
            final(self).total == old(self).total,
            final(self).page_size == old(self).page_size,
    {
        if self.offset >= self.page_size {
            self.offset = self.offset - self.page_size;
        } else {
            let q = self.total / self.page_size;
            let ghost t = self.total as int;
            let ghost p = self.page_size as int;
            proof {
                vstd::arithmetic::div_mod::lemma_fundamental_div_mod(t, p);
                vstd::arithmetic::div_mod::lemma_mod_bound(t, p);
                assert(t == p * (t / p) + t % p);
                assert(0 <= t % p);
                assert(p * (t / p) <= t);
                assert(q as int == t / p);
                assert((q as int) * p == p * (t / p)) by (nonlinear_arith)
                    requires
                        q as int == t / p,
                ;
                assert((q as int) * p <= t);
            }
            self.offset = q * self.page_size;
        }
    }

    /// A refreshed element count; the offset deliberately stays, as the
    /// running session left it.
    pub fn set_total(&mut self, total: u64)
        requires
            old(self).wf(),
            total < PAGE_LIMIT,
        ensures
            final(self).wf(),
            *final(self) == (PageState { total, ..*old(self) }),
    {
        self.total = total;
    }
}

/// Index-based paging over a fixed list of pages (the manual viewer):
/// "next" and "prev" cycle through `0 .. count`.
#[derive(Clone, Copy, PartialEq, Eq, Structural, Debug)]
pub struct PageViewer {
    pub index: usize,
    pub count: usize,
}

impl PageViewer {
    pub open spec fn wf(self) -> bool {
        &&& self.count >= 1
        &&& self.index < self.count
    }

    pub fn new(count: usize) -> (r: PageViewer)
        requires
            count >= 1,
        ensures
            r.wf(),
            r == (PageViewer { index: 0, count }),
    {
        PageViewer { index: 0, count }
    }

    /// One "next" press: forward, wrapping past the last page to the first.
    pub fn next_page(&mut self)
        requires
            old(self).wf(),
        ensures
            final(self).wf(),
            final(self).count == old(self).count,
            final(self).index == (if old(self).index + 1 == old(self).count {
                0int
            } else {
                old(self).index + 1
            }),
    {
        if self.index + 1 >= self.count {
            self.index = 0;
        } else {
            self.index = self.index + 1;
        }
    }

    /// One "prev" press: back, wrapping from the first page to the last.
    pub fn prev_page(&mut self)
        requires
            old(self).wf(),
        ensures
            final(self).wf(),
            final(self).count == old(self).count,
            final(self).index == (if old(self).index == 0 {
                old(self).count - 1
            } else {
                old(self).index - 1
            }),
    {
        if self.index == 0 {
            self.index = self.count - 1;
        } else {
            self.index = self.index - 1;
        }
    }
}

/// The decision for a confirmation dialog (one "confirm" and one "cancel"
/// control, no loop): the timeout ends it, the confirm control of this
/// session confirms, and anything else — the cancel control, another
/// session's control, a stray press — cancels.
#[derive(Clone, Copy, PartialEq, Eq, Structural, Debug)]
pub enum ConfirmOutcome {
    Confirmed,
    Cancelled,
    TimedOut,
}

pub fn decide_confirm(correlation: u64, pressed: Option<&ControlId>) -> (r: ConfirmOutcome)
    ensures
        match pressed {
            None => r == ConfirmOutcome::TimedOut,
            Some(id) => {
                if id.correlation == correlation && id.kind == ControlKind::Confirm {
                    r == ConfirmOutcome::Confirmed
                } else {
                    r == ConfirmOutcome::Cancelled
                }
            },
        },
{
    match pressed {
        None => ConfirmOutcome::TimedOut,
        Some(id) => {
            if id.correlation == correlation && matches!(id.kind, ControlKind::Confirm) {
                ConfirmOutcome::Confirmed
            } else {
                ConfirmOutcome::Cancelled
            }
        },
    }
}

/// A counting session (the "boop" button): every recognized press bumps the
/// counter by one.
#[derive(Clone, Copy, PartialEq, Eq, Structural, Debug)]
pub struct BoopSession {
    pub correlation: u64,
    pub count: u64,
}

impl BoopSession {
    pub fn new(correlation: u64) -> (r: BoopSession)
        ensures
            r == (BoopSession { correlation, count: 0 }),
    {
        BoopSession { correlation, count: 0 }
    }

    /// One awaited interaction: a press of this session's single button
    /// counts, anything else is ignored, the timeout ends the session with
    /// the count reached.
    pub fn step(&mut self, pressed: Option<&ControlId>) -> (ended: bool)
        requires
            old(self).count < u64::MAX,
        ensures
            final(self).correlation == old(self).correlation,
            match pressed {
                None => ended && final(self).count == old(self).count,
                Some(id) => {
                    &&& !ended
                    &&& (if id.correlation == old(self).correlation && id.kind
                        == ControlKind::Boop {
                        final(self).count == old(self).count + 1
                    } else {
                        final(self).count == old(self).count
                    })
                },
            },
    {
        match pressed {
            None => true,
            Some(id) => {
                if id.correlation == self.correlation && matches!(id.kind, ControlKind::Boop) {
                    self.count = self.count + 1;
                }
                false
            },
        }
    }
}

/// A message as the collector sees it: rendered content, rendered embeds,
/// and the interactive controls.
pub struct MessageView {
    pub content: String,
    pub embeds: Vec<String>,
    pub controls: Vec<ControlId>,
}

impl MessageView {
    /// Teardown: strip every interactive control but leave the content and
    /// embeds exactly as last rendered, so the UI freezes instead of
    /// vanishing.
    pub fn strip_controls(&mut self)
        ensures
            final(self).content@ == old(self).content@,
            final(self).embeds.deep_view() == old(self).embeds.deep_view(),
            final(self).controls@.len() == 0,
    {
        self.controls = Vec::new();
        proof {
            assert(self.controls@ =~= Seq::<ControlId>::empty());
        }
    }
}

} // verus!
