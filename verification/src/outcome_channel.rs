//! The channel over which the outcome of a generation reaches its callers: a
//! `tokio` watch channel, of which the library trusts what is said here.
//!
//! A watch channel holds one value, and only a sender can replace it. The library
//! keeps one sender for each channel and never sends but through `&mut`, so that the
//! value of a channel is a function of its sender.

use tokio::sync::watch;
use vstd::prelude::*;

use crate::accounts::{LargestAccountsOutcome, OutcomeView};

verus! {

/// The sending end, `tokio::sync::watch::Sender`, as an opaque type.
#[verifier::external_type_specification]
#[verifier::external_body]
#[verifier::reject_recursive_types(T)]
pub struct ExSender<T>(tokio::sync::watch::Sender<T>);

/// The receiving end, `tokio::sync::watch::Receiver`, as an opaque type.
#[verifier::external_type_specification]
#[verifier::external_body]
#[verifier::reject_recursive_types(T)]
pub struct ExReceiver<T>(tokio::sync::watch::Receiver<T>);

/// The sending end of the channel of one generation.
pub type OutcomeSender = watch::Sender<Option<LargestAccountsOutcome>>;

/// A receiving end of the channel of one generation.
pub type OutcomeReceiver = watch::Receiver<Option<LargestAccountsOutcome>>;

/// The value that the channel of `sender` holds.
pub uninterp spec fn channel_value(sender: OutcomeSender) -> Option<OutcomeView>;

/// Which channel `sender` is an end of: a number that stands for the channel, the same for
/// all its ends and never for an end of another one.
pub uninterp spec fn sender_channel(sender: OutcomeSender) -> int;

/// Which channel `receiver` is an end of.
pub uninterp spec fn receiver_channel(receiver: OutcomeReceiver) -> int;

/// `tokio::sync::watch::channel`: a new channel that holds `initial`, and its two
/// ends.
#[verifier::external_body]
pub(crate) fn channel(initial: Option<LargestAccountsOutcome>) -> (ends: (
    OutcomeSender,
    OutcomeReceiver,
))
    ensures
        channel_value(ends.0) == crate::accounts::published_view(initial),
        sender_channel(ends.0) == receiver_channel(ends.1),
{
    watch::channel(initial)
}

/// `tokio::sync::watch::Sender::send`: replaces the value of the channel and wakes
/// everyone who waits for a change. It would leave the value alone if no receiving
/// end existed; `receiver` is one that does, so the value is always replaced and the
/// error never comes. What is left unsaid is the waking, which is nothing that the
/// ends of the channel hold, and that the call waits while another thread is reading the
/// value.
#[verifier::external_body]
pub(crate) fn send(
    sender: &mut OutcomeSender,
    receiver: &OutcomeReceiver,
    value: Option<LargestAccountsOutcome>,
)
    requires
        sender_channel(*old(sender)) == receiver_channel(*receiver),
    ensures
        channel_value(*final(sender)) == crate::accounts::published_view(value),
        sender_channel(*final(sender)) == sender_channel(*old(sender)),
    opens_invariants none
{
    let _ = sender.send(value);
}

/// `tokio::sync::watch::Sender::borrow`: the value that the channel holds, copied out
/// of the borrow.
#[verifier::external_body]
pub(crate) fn borrow(sender: &OutcomeSender) -> (value: Option<LargestAccountsOutcome>)
    ensures
        crate::accounts::published_view(value) == channel_value(*sender),
{
    sender.borrow().clone()
}

/// `tokio::sync::watch::Sender::subscribe`: one more receiving end of the channel.
#[verifier::external_body]
pub(crate) fn subscribe(sender: &OutcomeSender) -> (receiver: OutcomeReceiver)
    ensures
        receiver_channel(receiver) == sender_channel(*sender),
{
    sender.subscribe()
}

/// `tokio::sync::watch::Receiver::same_channel`: whether two receiving ends belong to one
/// channel.
#[verifier::external_body]
pub(crate) fn same_channel(a: &OutcomeReceiver, b: &OutcomeReceiver) -> (same: bool)
    ensures
        same == (receiver_channel(*a) == receiver_channel(*b)),
{
    a.same_channel(b)
}

} // verus!
