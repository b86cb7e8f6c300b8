//! One generation of a largest-accounts computation: its outcome, its callers and how
//! far it has come.

use std::sync::atomic::AtomicBool;
use std::sync::Arc;
use vstd::prelude::*;

use crate::abort_flag;
use crate::abort_flag::AbortFlag;
use crate::accounts;
use crate::accounts::{LargestAccountsOutcome, OutcomeView};
use crate::outcome_channel;
use crate::outcome_channel::{OutcomeReceiver, OutcomeSender};

verus! {

/// How far a generation has come.
#[derive(Debug, Clone, Copy, PartialEq, Eq, Structural)]
pub enum GenerationState {
    /// Computing, open to further callers.
    Active,
    /// Told to abort, not ended yet.
    Aborting,
    /// Computed, about to publish.
    Completing,
    /// Ended.
    Terminal,
}

/// What one generation is made of.
pub struct EntryView {
    /// The outcome, once it has been published.
    pub value: Option<OutcomeView>,
    /// Whether the producer has been told to abort: what was last stored in the abort flag.
    pub abort: bool,
    /// The abort flag, which stays the same for the whole life of the generation.
    pub flag: int,
    pub state: GenerationState,
    /// The callers that have not gone away.
    pub waiters: usize,
    /// The handles that keep the generation in memory.
    pub holders: usize,
}

impl EntryView {
    /// A generation that has just started, with the abort flag `flag`.
    pub open spec fn fresh(flag: int, waiters: usize, holders: usize) -> EntryView {
        EntryView {
            value: None,
            abort: false,
            flag,
            state: GenerationState::Active,
            waiters,
            holders,
        }
    }

    /// One more caller.
    pub open spec fn joined(self) -> EntryView {
        EntryView { waiters: self.waiters.wrapping_add(1), ..self }
    }

    /// One caller less; the last one to leave an active generation aborts it.
    pub open spec fn left(self) -> EntryView {
        let waiters = self.waiters.wrapping_sub(1);
        if self.waiters == 1 && self.state is Active {
            EntryView { waiters, state: GenerationState::Aborting, abort: true, ..self }
        } else {
            EntryView { waiters, ..self }
        }
    }

    /// An active generation has computed its outcome.
    pub open spec fn committed(self) -> EntryView {
        if self.state is Active {
            EntryView { state: GenerationState::Completing, ..self }
        } else {
            self
        }
    }

    /// The outcome is there for everyone to read.
    pub open spec fn published(self, outcome: OutcomeView) -> EntryView {
        EntryView { value: Some(outcome), ..self }
    }

    /// The generation has ended.
    pub open spec fn ended(self) -> EntryView {
        EntryView { state: GenerationState::Terminal, ..self }
    }

    /// One more handle. A count that has reached its limit stays there for good.
    pub open spec fn held(self) -> EntryView {
        if self.holders < usize::MAX {
            EntryView { holders: (self.holders + 1) as usize, ..self }
        } else {
            self
        }
    }

    /// One handle less.
    pub open spec fn dropped(self) -> EntryView {
        if 0 < self.holders < usize::MAX {
            EntryView { holders: (self.holders - 1) as usize, ..self }
        } else {
            self
        }
    }
}

/// What a caller that waits on a generation has learned.
#[derive(Debug, Clone, Copy, PartialEq, Eq, Structural)]
pub enum WaitEvent {
    /// The channel may hold a new value.
    Changed,
    /// The channel was closed.
    Closed,
}

/// What a caller that waits on a generation does next.
pub enum WaitStep {
    /// Returns this outcome.
    Done(LargestAccountsOutcome),
    /// Waits for the channel to change.
    AwaitChange,
}

/// The outcome of a generation whose producer went away without publishing one.
pub fn producer_aborted() -> (outcome: LargestAccountsOutcome)
    ensures
        accounts::outcome_view(outcome) == producer_aborted_view(),
{
    Err("producer task aborted".to_owned())
}

/// The content of [`producer_aborted`].
pub open spec fn producer_aborted_view() -> OutcomeView {
    Err("producer task aborted"@)
}

/// One generation: its channel and its bookkeeping.
pub struct InflightEntry {
    sender: OutcomeSender,
    /// A receiving end that is never dropped before the sending end: sending on a
    /// channel without receivers would lose the outcome of a generation whose callers
    /// have not subscribed yet.
    _receiver: OutcomeReceiver,
    abort: AbortFlag,
    state: GenerationState,
    waiters: usize,
    holders: usize,
}

impl View for InflightEntry {
    type V = EntryView;

    closed spec fn view(&self) -> EntryView {
        EntryView {
            value: outcome_channel::channel_value(self.sender),
            abort: self.abort.value(),
            flag: self.abort.identity(),
            state: self.state,
            waiters: self.waiters,
            holders: self.holders,
        }
    }
}

/// A function that changes or shows a generation opens no invariant. With that it cannot make
/// the calls on a shared atomic of which nothing is known, so the abort flag changes through
/// its keeper alone.
impl InflightEntry {
    /// Whether the kept receiving end belongs to the channel.
    pub closed spec fn wf(&self) -> bool {
        outcome_channel::receiver_channel(self._receiver) == self.channel()
    }

    /// The channel of this generation, which no other generation has.
    pub closed spec fn channel(&self) -> int {
        outcome_channel::sender_channel(self.sender)
    }

    /// A generation that has just started.
    pub(crate) fn fresh(waiters: usize, holders: usize) -> (entry: InflightEntry)
        ensures
            entry.wf(),
            entry@ == EntryView::fresh(entry@.flag, waiters, holders),
    {
        let (sender, receiver) = outcome_channel::channel(None);
        InflightEntry {
            sender,
            _receiver: receiver,
            abort: AbortFlag::new(),
            state: GenerationState::Active,
            waiters,
            holders,
        }
    }

    /// How far this generation has come.
    pub fn state(&self) -> (state: GenerationState)
        ensures
            state == self@.state,
        opens_invariants none
    {
        self.state
    }

    /// The abort flag, shared: whoever takes it once sees at any later time whether the
    /// producer has been told to abort.
    pub fn abort_token(&self) -> (token: Arc<AtomicBool>)
        ensures
            abort_flag::flag_identity(*token) == self@.flag,
        opens_invariants none
    {
        abort_flag::share(&self.abort)
    }

    /// A receiving end that changes when this generation publishes.
    pub fn subscribe(&self) -> (receiver: OutcomeReceiver)
        ensures
            outcome_channel::receiver_channel(receiver) == self.channel(),
    {
        outcome_channel::subscribe(&self.sender)
    }

    /// Whether `receiver` is a receiving end of this generation's channel.
    pub(crate) fn announces_to(&self, receiver: &OutcomeReceiver) -> (announces: bool)
        requires
            self.wf(),
        ensures
            announces == (outcome_channel::receiver_channel(*receiver) == self.channel()),
    {
        outcome_channel::same_channel(&self._receiver, receiver)
    }

    /// What a caller that waits on this generation does after `event`: it returns the
    /// outcome if one has been published, and goes on waiting if not; a closed channel
    /// means that the producer is gone.
    pub fn wait(&self, event: WaitEvent) -> (step: WaitStep)
        ensures
            match event {
                WaitEvent::Changed => match self@.value {
                    Some(outcome) => step matches WaitStep::Done(done) && accounts::outcome_view(done)
                        == outcome,
                    None => step is AwaitChange,
                },
                WaitEvent::Closed => step matches WaitStep::Done(done) && accounts::outcome_view(done)
                    == producer_aborted_view(),
            },
    {
        match event {
            WaitEvent::Changed => match outcome_channel::borrow(&self.sender) {
                Some(outcome) => WaitStep::Done(outcome),
                None => WaitStep::AwaitChange,
            },
            WaitEvent::Closed => WaitStep::Done(producer_aborted()),
        }
    }

    /// One more caller.
    pub(crate) fn join(&mut self)
        requires
            old(self).wf(),
        ensures
            final(self).wf(),
            final(self).channel() == old(self).channel(),
            final(self)@ == old(self)@.joined(),
        opens_invariants none
    {
        self.waiters = if self.waiters < usize::MAX {
            self.waiters + 1
        } else {
            0
        };
    }

    /// One caller less.
    pub(crate) fn leave(&mut self)
        requires
            old(self).wf(),
        ensures
            final(self).wf(),
            final(self).channel() == old(self).channel(),
            final(self)@ == old(self)@.left(),
        opens_invariants none
    {
        let previous: usize = self.waiters;
        self.waiters = if previous > 0 {
            previous - 1
        } else {
            usize::MAX
        };
        if previous == 1 && self.state == GenerationState::Active {
            self.state = GenerationState::Aborting;
            abort_flag::store(&mut self.abort, true);
        }
    }

    /// The outcome has been computed. Returns whether it may be published as a success.
    pub(crate) fn commit(&mut self) -> (committed: bool)
        requires
            old(self).wf(),
        ensures
            final(self).wf(),
            final(self).channel() == old(self).channel(),
            final(self)@ == old(self)@.committed(),
            committed == (old(self)@.state is Active),
        opens_invariants none
    {
        if self.state == GenerationState::Active {
            self.state = GenerationState::Completing;
            true
        } else {
            false
        }
    }

    /// Puts the outcome where everyone can read it.
    pub(crate) fn publish(&mut self, outcome: LargestAccountsOutcome)
        requires
            old(self).wf(),
        ensures
            final(self).wf(),
            final(self).channel() == old(self).channel(),
            final(self)@ == old(self)@.published(accounts::outcome_view(outcome)),
        opens_invariants none
    {
        outcome_channel::send(&mut self.sender, &self._receiver, Some(outcome));
    }

    /// The generation has ended.
    pub(crate) fn end(&mut self)
        requires
            old(self).wf(),
        ensures
            final(self).wf(),
            final(self).channel() == old(self).channel(),
            final(self)@ == old(self)@.ended(),
        opens_invariants none
    {
        self.state = GenerationState::Terminal;
    }

    /// One more handle.
    pub(crate) fn hold(&mut self)
        requires
            old(self).wf(),
        ensures
            final(self).wf(),
            final(self).channel() == old(self).channel(),
            final(self)@ == old(self)@.held(),
        opens_invariants none
    {
        if self.holders < usize::MAX {
            self.holders += 1;
        }
    }

    /// Whether there is a handle.
    pub(crate) fn is_held(&self) -> (held: bool)
        ensures
            held == (self@.holders > 0),
        opens_invariants none
    {
        self.holders > 0
    }

    /// One handle less.
    pub(crate) fn drop_holder(&mut self)
        requires
            old(self).wf(),
        ensures
            final(self).wf(),
            final(self).channel() == old(self).channel(),
            final(self)@ == old(self)@.dropped(),
        opens_invariants none
    {
        if 0 < self.holders && self.holders < usize::MAX {
            self.holders -= 1;
        }
    }
}

impl InflightEntry {
    /// A generation is what it holds: the outcome in its channel, the value and the identity
    /// of its abort flag, and its counts.
    proof fn law_generation_is_what_it_holds(&self)
        ensures
            self@.value == outcome_channel::channel_value(self.sender),
            self@.abort == self.abort.value(),
            self@.flag == self.abort.identity(),
            self@.state == self.state,
            self@.waiters == self.waiters,
            self@.holders == self.holders,
            self.channel() == outcome_channel::sender_channel(self.sender),
    {
    }
}

} // verus!
