//! The delivery channel: a bounded first-in first-out queue between the event
//! adapter and the render loop, kept in a `tokio` channel.
//!
//! While both ends are held together the channel is worked without waiting:
//! an offer that finds the channel full comes back with the message, so that
//! the sender can wait and offer again, and nothing is dropped or
//! overwritten. To run the two sides at once, the channel is split into its
//! ends.

use vstd::prelude::*;
use tokio::sync::mpsc::error::TrySendError;
use tokio::sync::mpsc::{Receiver, Sender};
use crate::message::{Message, MessageView};

verus! {

/// Number of messages that the channel holds before a sender has to wait.
pub const CHANNEL_CAPACITY: usize = 32;

/// `tokio::sync::mpsc::Sender`, the sending end of a bounded channel. Nothing
/// is claimed of what it holds.
#[verifier::external_type_specification]
#[verifier::external_body]
#[verifier::reject_recursive_types(T)]
pub struct ExSender<T>(Sender<T>);

/// `tokio::sync::mpsc::Receiver`, the receiving end of a bounded channel.
/// What it holds is spoken of through [`queued`], [`limit`] and [`shut`].
#[verifier::external_type_specification]
#[verifier::external_body]
#[verifier::reject_recursive_types(T)]
pub struct ExReceiver<T>(Receiver<T>);

/// The messages that wait in the channel, oldest first.
pub uninterp spec fn queued(rx: Receiver<Message>) -> Seq<MessageView>;

/// The number of messages that the channel was made to hold.
pub uninterp spec fn limit(rx: Receiver<Message>) -> nat;

/// Whether the receiving end has been closed.
pub uninterp spec fn shut(rx: Receiver<Message>) -> bool;

/// The channel as contracts see it.
pub struct ChannelState {
    /// The messages that wait, oldest first.
    pub pending: Seq<MessageView>,
    /// How many messages may wait at once.
    pub capacity: nat,
    /// Whether the receiving end is closed: no message is taken in any more.
    pub closed: bool,
}

/// How an offer ended, as contracts see it.
pub enum OfferView {
    Accepted,
    Full(MessageView),
    Closed(MessageView),
}

impl ChannelState {
    /// No more messages wait than the channel holds.
    pub open spec fn wf(self) -> bool {
        self.pending.len() <= self.capacity
    }

    /// The channel holds as many messages as it can.
    pub open spec fn is_full(self) -> bool {
        self.pending.len() >= self.capacity
    }

    /// How an offer of `message` ends.
    pub open spec fn offer_result(self, message: MessageView) -> OfferView {
        if self.closed {
            OfferView::Closed(message)
        } else if self.is_full() {
            OfferView::Full(message)
        } else {
            OfferView::Accepted
        }
    }

    /// The channel after an offer of `message`: it joins the end of the
    /// queue where it is accepted, and nothing changes where it is not.
    pub open spec fn after_offer(self, message: MessageView) -> ChannelState {
        if self.offer_result(message) is Accepted {
            ChannelState { pending: self.pending.push(message), ..self }
        } else {
            self
        }
    }

    /// What a take hands over: the oldest message, if any waits.
    pub open spec fn take_result(self) -> Option<MessageView> {
        if self.pending.len() > 0 {
            Some(self.pending[0])
        } else {
            None
        }
    }

    /// The channel after a take.
    pub open spec fn after_take(self) -> ChannelState {
        if self.pending.len() > 0 {
            ChannelState { pending: self.pending.drop_first(), ..self }
        } else {
            self
        }
    }

    /// The channel after its receiving end was closed: what waits stays.
    pub open spec fn after_close(self) -> ChannelState {
        ChannelState { closed: true, ..self }
    }

    /// The channel after the offers of `messages`, one after the other.
    pub open spec fn after_offers(self, messages: Seq<MessageView>) -> ChannelState
        decreases messages.len(),
    {
        if messages.len() == 0 {
            self
        } else {
            self.after_offers(messages.drop_last()).after_offer(messages.last())
        }
    }

    /// What `count` takes hand over, one after the other.
    pub open spec fn taken(self, count: nat) -> Seq<Option<MessageView>>
        decreases count,
    {
        if count == 0 {
            Seq::empty()
        } else {
            seq![self.take_result()] + self.after_take().taken((count - 1) as nat)
        }
    }

    /// The channel after `count` takes.
    pub open spec fn after_takes(self, count: nat) -> ChannelState
        decreases count,
    {
        if count == 0 {
            self
        } else {
            self.after_take().after_takes((count - 1) as nat)
        }
    }
}

/// How an offer ended.
#[derive(Debug, PartialEq, Eq)]
pub enum Offer {
    /// The message waits in the channel.
    Accepted,
    /// The channel is full: here is the message, to offer again later.
    Full(Message),
    /// The receiving end is closed: here is the message, which nobody will
    /// take.
    Closed(Message),
}

impl View for Offer {
    type V = OfferView;

    open spec fn view(&self) -> OfferView {
        match self {
            Offer::Accepted => OfferView::Accepted,
            Offer::Full(message) => OfferView::Full(message@),
            Offer::Closed(message) => OfferView::Closed(message@),
        }
    }
}

/// Both ends of the channel, held together.
///
/// The two ends are made as a pair by [`DeliveryChannel::open`] and neither
/// leaves the pair before [`DeliveryChannel::split`], so while the channel is
/// whole nobody else sends into it or takes from it.
pub struct DeliveryChannel {
    tx: Sender<Message>,
    rx: Receiver<Message>,
}

impl View for DeliveryChannel {
    type V = ChannelState;

    closed spec fn view(&self) -> ChannelState {
        ChannelState { pending: queued(self.rx), capacity: limit(self.rx), closed: shut(self.rx) }
    }
}

/// Calls `tokio::sync::mpsc::channel`: the new channel is empty, open, and
/// holds up to `bound` messages.
#[verifier::external_body]
fn bounded_channel(bound: usize) -> (ends: (Sender<Message>, Receiver<Message>))
    requires
        0 < bound <= usize::MAX / 8,
    ensures
        queued(ends.1) == Seq::<MessageView>::empty(),
        limit(ends.1) == bound,
        !shut(ends.1),
{
    tokio::sync::mpsc::channel(bound)
}

/// Calls `Sender::try_send`. A closed channel hands the message back as
/// `Closed`, a full one as `Full`, and neither changes; otherwise the message
/// joins the end of the queue.
#[verifier::external_body]
fn try_send(channel: &mut DeliveryChannel, message: Message) -> (offer: Offer)
    ensures
        offer@ == old(channel)@.offer_result(message@),
        final(channel)@ == old(channel)@.after_offer(message@),
{
    match channel.tx.try_send(message) {
        Ok(()) => Offer::Accepted,
        Err(TrySendError::Full(message)) => Offer::Full(message),
        Err(TrySendError::Closed(message)) => Offer::Closed(message),
    }
}

/// Calls `Receiver::try_recv`. The oldest message that waits is taken out
/// and handed over; where none waits, nothing is handed over and nothing
/// changes.
#[verifier::external_body]
fn try_recv(channel: &mut DeliveryChannel) -> (taken: Option<Message>)
    ensures
        match old(channel)@.take_result() {
            Some(view) => taken matches Some(message) && message@ == view,
            None => taken is None,
        },
        final(channel)@ == old(channel)@.after_take(),
{
    channel.rx.try_recv().ok()
}

/// Calls `Receiver::close`. No message is taken in from then on; those that
/// wait can still be taken out.
#[verifier::external_body]
fn close_receiver(channel: &mut DeliveryChannel)
    ensures
        final(channel)@ == old(channel)@.after_close(),
{
    channel.rx.close()
}

impl DeliveryChannel {
    /// Opens the channel: empty, and with room for [`CHANNEL_CAPACITY`]
    /// messages.
    pub fn open() -> (channel: DeliveryChannel)
        ensures
            channel@ == (ChannelState {
                pending: Seq::empty(),
                capacity: CHANNEL_CAPACITY as nat,
                closed: false,
            }),
    {
        let (tx, rx) = bounded_channel(CHANNEL_CAPACITY);
        DeliveryChannel { tx, rx }
    }

    /// Offers a message to the channel, without waiting.
    pub fn offer(&mut self, message: Message) -> (offer: Offer)
        ensures
            offer@ == old(self)@.offer_result(message@),
            final(self)@ == old(self)@.after_offer(message@),
    {
        try_send(self, message)
    }

    /// Takes the oldest message out of the channel, without waiting.
    pub fn take(&mut self) -> (taken: Option<Message>)
        ensures
            match old(self)@.take_result() {
                Some(view) => taken matches Some(message) && message@ == view,
                None => taken is None,
            },
            final(self)@ == old(self)@.after_take(),
    {
        try_recv(self)
    }

    /// Closes the receiving end, as when the render loop is gone.
    pub fn close(&mut self)
        ensures
            final(self)@ == old(self)@.after_close(),
    {
        close_receiver(self)
    }

    /// Parts the channel into its two ends, for the two sides to run at once:
    /// the sending end for the event adapter, the receiving end for the
    /// render loop.
    pub fn split(self) -> (ends: (Sender<Message>, Receiver<Message>))
        ensures
            queued(ends.1) == self@.pending,
            limit(ends.1) == self@.capacity,
            shut(ends.1) == self@.closed,
    {
        (self.tx, self.rx)
    }
}

/// Offers never overfill the channel, and takes never do either.
pub proof fn capacity_is_kept(state: ChannelState, message: MessageView)
    requires
        state.wf(),
    ensures
        state.after_offer(message).wf(),
        state.after_take().wf(),
        state.after_close().wf(),
        state.after_offer(message).capacity == state.capacity,
        state.after_take().capacity == state.capacity,
{
}

proof fn offers_that_fit_are_appended(state: ChannelState, messages: Seq<MessageView>)
    requires
        !state.closed,
        state.pending.len() + messages.len() <= state.capacity,
    ensures
        state.after_offers(messages) == (ChannelState {
            pending: state.pending + messages,
            ..state
        }),
    decreases messages.len(),
{
    if messages.len() == 0 {
        assert(state.pending + messages =~= state.pending);
    } else {
        offers_that_fit_are_appended(state, messages.drop_last());
        assert((state.pending + messages.drop_last()).push(messages.last()) =~= state.pending
            + messages);
    }
}

proof fn takes_hand_over_the_oldest(state: ChannelState, count: nat)
    requires
        count <= state.pending.len(),
    ensures
        state.taken(count) == state.pending.take(count as int).map_values(
            |message: MessageView| Some(message),
        ),
        state.after_takes(count) == (ChannelState {
            pending: state.pending.skip(count as int),
            ..state
        }),
    decreases count,
{
    let some = |message: MessageView| Some(message);
    if count == 0 {
        assert(state.taken(count) =~= state.pending.take(0).map_values(some));
        assert(state.pending.skip(0) =~= state.pending);
    } else {
        let rest = state.after_take();
        takes_hand_over_the_oldest(rest, (count - 1) as nat);
        assert(state.taken(count) =~= state.pending.take(count as int).map_values(some));
        assert(rest.pending.skip(count - 1) =~= state.pending.skip(count as int));
    }
}

/// First in, first out: messages that are offered while there is room are
/// all accepted, and come out behind those that waited before them, in the
/// order in which they were offered, none missing and none twice.
pub proof fn messages_leave_in_the_order_they_came(
    state: ChannelState,
    messages: Seq<MessageView>,
    count: nat,
)
    requires
        !state.closed,
        state.pending.len() + messages.len() <= state.capacity,
        count <= state.pending.len() + messages.len(),
    ensures
        state.after_offers(messages).pending == state.pending + messages,
        state.after_offers(messages).taken(count) == (state.pending + messages).take(
            count as int,
        ).map_values(|message: MessageView| Some(message)),
        state.after_offers(messages).after_takes(count).pending == (state.pending
            + messages).skip(count as int),
{
    offers_that_fit_are_appended(state, messages);
    takes_hand_over_the_oldest(state.after_offers(messages), count);
}

/// Backpressure: an offer to a full channel does not go through. The message
/// comes back to the sender, and what waits in the channel is untouched,
/// nothing dropped or overwritten. Once one message has been taken out, the
/// same offer is accepted, at the end of the queue.
pub proof fn full_channel_makes_the_sender_wait(state: ChannelState, message: MessageView)
    requires
        state.wf(),
        !state.closed,
        state.capacity > 0,
        state.is_full(),
    ensures
        state.offer_result(message) == OfferView::Full(message),
        state.after_offer(message) == state,
        state.after_take().offer_result(message) is Accepted,
        state.after_take().after_offer(message).pending == state.pending.drop_first().push(
            message,
        ),
{
}

/// Once the receiving end is closed, no offer is accepted and none changes
/// the channel; what waits can still be taken out.
pub proof fn closed_channel_takes_nothing_in(state: ChannelState, message: MessageView)
    ensures
        state.after_close().offer_result(message) == OfferView::Closed(message),
        state.after_close().after_offer(message) == state.after_close(),
        state.after_close().take_result() == state.take_result(),
{
}

} // verus!
