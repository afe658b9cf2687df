//! The feature-tracker browse session.
//!
//! The feature list command is one instance of the collector protocol: a
//! paged view with previous/next buttons, a refresh button, and a select
//! menu that filters by feature state. This module is its decision machine;
//! querying rows and counts, rendering embeds and editing the message stay
//! with the caller.

use vstd::prelude::*;

use crate::collector::ControlId;
use crate::collector::ControlKind;
use crate::collector::PAGE_LIMIT;
use crate::collector::PageState;
use crate::collector::next_offset;
use crate::collector::prev_offset;

verus! {

/// Lifecycle state of a tracked feature, plus the `All` pseudo-state the
/// filter menu offers.
#[derive(Clone, Copy, PartialEq, Eq, Structural, Debug)]
pub enum FeatureState {
    All,
    ToDo,
    Implemented,
    Rejected,
    Postponed,
}

/// The durable integer code of each state; `All` is the out-of-band value.
pub open spec fn spec_state_code(s: FeatureState) -> i64 {
    match s {
        FeatureState::All => -1i64,
        FeatureState::ToDo => 0,
        FeatureState::Implemented => 1,
        FeatureState::Rejected => 2,
        FeatureState::Postponed => 3,
    }
}

/// The state a durable integer code denotes; anything unknown reads as
/// `All`.
pub open spec fn spec_state_of_code(v: i64) -> FeatureState {
    if v == 0 {
        FeatureState::ToDo
    } else if v == 1 {
        FeatureState::Implemented
    } else if v == 2 {
        FeatureState::Rejected
    } else if v == 3 {
        FeatureState::Postponed
    } else {
        FeatureState::All
    }
}

/// The human label of each state.
pub open spec fn spec_state_label(s: FeatureState) -> Seq<char> {
    match s {
        FeatureState::All => "All"@,
        FeatureState::ToDo => "To Do"@,
        FeatureState::Implemented => "Implemented"@,
        FeatureState::Rejected => "Rejected"@,
        FeatureState::Postponed => "Postponed"@,
    }
}

impl FeatureState {
    /// The integer this state is stored as.
    pub fn code(&self) -> (r: i64)
        ensures
            r == spec_state_code(*self),
    {
        match self {
            FeatureState::All => -1,
            FeatureState::ToDo => 0,
            FeatureState::Implemented => 1,
            FeatureState::Rejected => 2,
            FeatureState::Postponed => 3,
        }
    }

    /// The state stored under an integer code.
    pub fn from_code(v: i64) -> (r: FeatureState)
        ensures
            r == spec_state_of_code(v),
    {
        if v == 0 {
            FeatureState::ToDo
        } else if v == 1 {
            FeatureState::Implemented
        } else if v == 2 {
            FeatureState::Rejected
        } else if v == 3 {
            FeatureState::Postponed
        } else {
            FeatureState::All
        }
    }

    /// The human label of the state.
    pub fn label(&self) -> (r: &'static str)
        ensures
            r@ == spec_state_label(*self),
    {
        match self {
            FeatureState::All => "All",
            FeatureState::ToDo => "To Do",
            FeatureState::Implemented => "Implemented",
            FeatureState::Rejected => "Rejected",
            FeatureState::Postponed => "Postponed",
        }
    }
}

/// Reading the stored code back yields the same state.
pub proof fn lemma_state_code_roundtrip(s: FeatureState)
    ensures
        spec_state_of_code(spec_state_code(s)) == s,
{
}

/// What the browse loop should do after one awaited interaction.
#[derive(Clone, Copy, PartialEq, Eq, Structural, Debug)]
pub enum BrowseAction {
    /// The idle timeout elapsed: leave the loop and strip the controls.
    Ended,
    /// Re-query the rows at the current filter and offset and update the
    /// message in place.
    UpdateView,
    /// The element count is stale (refresh pressed, or the filter just
    /// changed): re-count first, hand it to [`FeatureBrowser::apply_count`],
    /// then update the message.
    FetchCount,
    /// The already-active filter was selected again: acknowledge with an
    /// ephemeral notice, recompute nothing.
    AlreadyShowing,
    /// A stray interaction with this correlation id: log it and keep
    /// waiting.
    Ignored,
}

/// One awaited interaction, as the platform hands it over.
pub enum BrowseEvent {
    /// The idle timeout elapsed.
    TimedOut,
    /// A button was pressed.
    Control(ControlId),
    /// A select menu chose the state with the given stored code.
    Select(ControlId, i64),
}

/// The ephemeral state of one feature-list invocation.
#[derive(Clone, Copy, PartialEq, Eq, Structural, Debug)]
pub struct FeatureBrowser {
    pub correlation: u64,
    pub filter: FeatureState,
    pub page: PageState,
}

impl FeatureBrowser {
    pub open spec fn wf(self) -> bool {
        self.page.wf()
    }

    pub fn new(correlation: u64, total: u64, page_size: u64) -> (r: FeatureBrowser)
        requires
            1 <= page_size < PAGE_LIMIT,
            total < PAGE_LIMIT,
        ensures
            r.wf(),
            r.correlation == correlation,
            r.filter is All,
            r.page == (PageState { offset: 0, total, page_size }),
    {
        FeatureBrowser { correlation, filter: FeatureState::All, page: PageState::new(total, page_size) }
    }

    /// Decide one awaited interaction.
    pub fn step(&mut self, event: &BrowseEvent) -> (r: BrowseAction)
        requires
            old(self).wf(),
        ensures
            final(self).wf(),
            final(self).correlation == old(self).correlation,
            final(self).page.page_size == old(self).page.page_size,
            match *event {
                BrowseEvent::TimedOut => r == BrowseAction::Ended && *final(self) == *old(self),
                BrowseEvent::Control(id) => {
                    if id.correlation != old(self).correlation {
                        r == BrowseAction::Ignored && *final(self) == *old(self)
                    } else if id.kind is Next {
                        &&& r == BrowseAction::UpdateView
                        &&& final(self).filter == old(self).filter
                        &&& final(self).page.total == old(self).page.total
                        &&& final(self).page.offset == next_offset(
                            old(self).page.offset,
                            old(self).page.total,
                            old(self).page.page_size,
                        )
                    } else if id.kind is Prev {
                        &&& r == BrowseAction::UpdateView
                        &&& final(self).filter == old(self).filter
                        &&& final(self).page.total == old(self).page.total
                        &&& final(self).page.offset == prev_offset(
                            old(self).page.offset,
                            old(self).page.total,
                            old(self).page.page_size,
                        )
                    } else if id.kind is Refresh {
                        r == BrowseAction::FetchCount && *final(self) == *old(self)
                    } else {
                        r == BrowseAction::Ignored && *final(self) == *old(self)
                    }
                },
                BrowseEvent::Select(id, code) => {
                    if id.correlation == old(self).correlation && id.kind is Filter {
                        if spec_state_of_code(code) == old(self).filter {
                            r == BrowseAction::AlreadyShowing && *final(self) == *old(self)
                        } else {
                            &&& r == BrowseAction::FetchCount
                            &&& final(self).filter == spec_state_of_code(code)
                            &&& final(self).page.offset == 0
                            &&& final(self).page.total == old(self).page.total
                        }
                    } else {
                        r == BrowseAction::Ignored && *final(self) == *old(self)
                    }
                },
            },
    {
        match event {
            BrowseEvent::TimedOut => BrowseAction::Ended,
            BrowseEvent::Control(id) => {
                if id.correlation != self.correlation {
                    return BrowseAction::Ignored;
                }
                match id.kind {
                    ControlKind::Next => {
                        self.page.next_page();
                        BrowseAction::UpdateView
                    },
                    ControlKind::Prev => {
                        self.page.prev_page();
                        BrowseAction::UpdateView
                    },
                    ControlKind::Refresh => BrowseAction::FetchCount,
                    _ => BrowseAction::Ignored,
                }
            },
            BrowseEvent::Select(id, code) => {
                if id.correlation == self.correlation && matches!(id.kind, ControlKind::Filter) {
                    let picked = FeatureState::from_code(*code);
                    if picked == self.filter {
                        BrowseAction::AlreadyShowing
                    } else {
                        self.filter = picked;
                        self.page.offset = 0;
                        BrowseAction::FetchCount
                    }
                } else {
                    BrowseAction::Ignored
                }
            },
        }
    }

    /// The header line over the feature list as currently browsed: the
    /// active filter, the page offset and the element count.
    pub fn list_header(&self) -> (r: String)
        ensures
            self.filter is All ==> r@ == "**All** Features "@ + crate::text::decimal_digits(
                self.page.offset as nat,
            ) + "/"@ + crate::text::decimal_digits(self.page.total as nat),
            !(self.filter is All) ==> r@ == "**"@ + spec_state_label(self.filter) + "** "@
                + crate::text::decimal_digits(self.page.offset as nat) + "/"@
                + crate::text::decimal_digits(self.page.total as nat),
    {
        let offset = crate::text::u64_to_string(self.page.offset);
        let total = crate::text::u64_to_string(self.page.total);
        let head = match self.filter {
            FeatureState::All => String::from_str("**All** Features "),
            _ => String::from_str("**").concat(self.filter.label()).concat("** "),
        };
        head.concat(offset.as_str()).concat("/").concat(total.as_str())
    }

    /// Hand a freshly queried element count to the session.
    pub fn apply_count(&mut self, total: u64)
        requires
            old(self).wf(),
            total < PAGE_LIMIT,
        ensures
            final(self).wf(),
            final(self).correlation == old(self).correlation,
            final(self).filter == old(self).filter,
            final(self).page.offset == old(self).page.offset,
            final(self).page.page_size == old(self).page.page_size,
            final(self).page.total == total,
    {
        self.page.set_total(total);
    }
}

} // verus!
