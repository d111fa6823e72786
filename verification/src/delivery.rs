//! The decisions of the loop that accepts a connection, receives from it and
//! accepts again when it ends.
//!
//! The loop itself runs in the program around the library, which owns the
//! sockets. At the top of each round it calls [`DeliveryLoop::poll`] with the
//! state of its cancellation token and performs the action that comes back;
//! it hands what happened to [`DeliveryLoop::route`] and passes the delivery
//! on to its consumer. What a read gives is found before that, by
//! [`receive`](crate::connection::receive) or, for a text frame of the
//! structured grammar, by the program's own decoder.
//!
//! A stop is asked for only at the top of a round: a read that is under way
//! is not interrupted, and what it returns is still delivered.

use vstd::prelude::*;
use crate::connection::{Received, ReceivedView};
use crate::event::{Failure, SpotifyEvent, SpotifyEventView};

verus! {

/// Where the loop stands.
#[derive(Debug, Copy, Clone, PartialEq, Eq, Structural, Hash)]
pub enum DeliveryState {
    /// Nothing was asked of the listener yet.
    Idle,
    /// Waiting for the producer to connect.
    Accepting,
    /// A connection is up.
    Connected,
    /// The loop was stopped. It does not start again.
    Closed,
}

/// What the loop does next.
#[derive(Debug, Copy, Clone, PartialEq, Eq, Structural, Hash)]
pub enum Action {
    /// Wait for one connection and its handshake.
    Accept,
    /// Wait for the next frame of the connection.
    Receive,
    /// End the loop.
    Stop,
}

/// Why accepting a connection failed.
#[derive(Debug, Copy, Clone, PartialEq, Eq, Structural, Hash)]
pub enum AcceptFailure {
    /// The socket could not accept.
    Transport,
    /// The peer connected, but its upgrade request was malformed or refused.
    Handshake,
}

/// What the action of a round led to.
#[derive(Debug, Clone, PartialEq, Eq)]
pub enum Outcome {
    /// A connection is up.
    Accepted,
    /// No connection came of the accept.
    AcceptFailed(AcceptFailure),
    /// The connection was read from. A write to the producer that failed
    /// counts as a read that found the connection closed.
    Received(Received),
}

/// The mathematical value of an [`Outcome`].
pub ghost enum OutcomeView {
    Accepted,
    AcceptFailed(AcceptFailure),
    Received(ReceivedView),
}

impl View for Outcome {
    type V = OutcomeView;

    open spec fn view(&self) -> OutcomeView {
        match self {
            Outcome::Accepted => OutcomeView::Accepted,
            Outcome::AcceptFailed(failure) => OutcomeView::AcceptFailed(*failure),
            Outcome::Received(received) => OutcomeView::Received(received@),
        }
    }
}

/// What the consumer gets of one round.
#[derive(Debug, Clone, PartialEq, Eq)]
pub enum Delivery {
    /// Nothing to pass on.
    Nothing,
    /// An event of the producer.
    Event(SpotifyEvent),
    /// A failure; the loop goes on.
    Failure(Failure),
}

/// The mathematical value of a [`Delivery`].
pub ghost enum DeliveryView {
    Nothing,
    Event(SpotifyEventView),
    Failure(Failure),
}

impl View for Delivery {
    type V = DeliveryView;

    open spec fn view(&self) -> DeliveryView {
        match self {
            Delivery::Nothing => DeliveryView::Nothing,
            Delivery::Event(event) => DeliveryView::Event(event@),
            Delivery::Failure(failure) => DeliveryView::Failure(*failure),
        }
    }
}

/// The state and the action at the top of a round. A requested stop closes
/// the loop from any state; otherwise the loop accepts unless a connection is
/// up, and then receives.
pub open spec fn polled(state: DeliveryState, cancelled: bool) -> (DeliveryState, Action) {
    if cancelled {
        (DeliveryState::Closed, Action::Stop)
    } else {
        match state {
            DeliveryState::Idle => (DeliveryState::Accepting, Action::Accept),
            DeliveryState::Accepting => (DeliveryState::Accepting, Action::Accept),
            DeliveryState::Connected => (DeliveryState::Connected, Action::Receive),
            DeliveryState::Closed => (DeliveryState::Closed, Action::Stop),
        }
    }
}

/// The failure that the consumer is told of when an accept fails.
pub open spec fn accept_failure(failure: AcceptFailure) -> Failure {
    match failure {
        AcceptFailure::Transport => Failure::Transport,
        AcceptFailure::Handshake => Failure::Handshake,
    }
}

/// The state after an outcome, and what the consumer gets of it.
///
/// While accepting, a connection moves the loop to `Connected` and a
/// failure leaves it accepting. While connected, an event and a failure are
/// passed on and leave the connection up; a closed or lost connection moves
/// the loop back to `Accepting`. An outcome that does not belong to the state
/// changes nothing.
pub open spec fn routed(state: DeliveryState, outcome: OutcomeView) -> (
    DeliveryState,
    DeliveryView,
) {
    match (state, outcome) {
        (DeliveryState::Accepting, OutcomeView::Accepted) => (
            DeliveryState::Connected,
            DeliveryView::Nothing,
        ),
        (DeliveryState::Accepting, OutcomeView::AcceptFailed(failure)) => (
            DeliveryState::Accepting,
            DeliveryView::Failure(accept_failure(failure)),
        ),
        (DeliveryState::Connected, OutcomeView::Received(received)) => match received {
            ReceivedView::Event(event) => (DeliveryState::Connected, DeliveryView::Event(event)),
            ReceivedView::Failed(failure) => (
                DeliveryState::Connected,
                DeliveryView::Failure(failure),
            ),
            ReceivedView::Closed => (DeliveryState::Accepting, DeliveryView::Nothing),
        },
        _ => (state, DeliveryView::Nothing),
    }
}

/// The state after a whole round: the poll, and then the outcome of the
/// action it asked for.
pub open spec fn round(state: DeliveryState, cancelled: bool, outcome: OutcomeView)
    -> DeliveryState {
    routed(polled(state, cancelled).0, outcome).0
}

/// The state after a run of rounds, none of them cancelled.
pub open spec fn run(state: DeliveryState, outcomes: Seq<OutcomeView>) -> DeliveryState
    decreases outcomes.len(),
{
    if outcomes.len() == 0 {
        state
    } else {
        round(run(state, outcomes.drop_last()), false, outcomes.last())
    }
}

/// What the consumer gets of a run of rounds, none of them cancelled, one
/// delivery for each round and in the order of the rounds.
pub open spec fn delivered(state: DeliveryState, outcomes: Seq<OutcomeView>) -> Seq<DeliveryView>
    decreases outcomes.len(),
{
    if outcomes.len() == 0 {
        Seq::empty()
    } else {
        delivered(state, outcomes.drop_last()).push(
            routed(polled(run(state, outcomes.drop_last()), false).0, outcomes.last()).1,
        )
    }
}

/// The loop's state, and the two decisions of a round.
#[derive(Debug, Clone, PartialEq, Eq)]
pub struct DeliveryLoop {
    state: DeliveryState,
}

impl DeliveryLoop {
    /// Where the loop stands.
    pub closed spec fn spec_state(&self) -> DeliveryState {
        self.state
    }

    /// A loop that has not started.
    pub fn new() -> (delivery: DeliveryLoop)
        ensures
            delivery.state() == DeliveryState::Idle,
    {
        DeliveryLoop { state: DeliveryState::Idle }
    }

    /// Where the loop stands.
    #[verifier::when_used_as_spec(spec_state)]
    pub fn state(&self) -> (state: DeliveryState)
        ensures
            state == self.spec_state(),
    {
        self.state
    }

    /// The top of a round: says what to do next, given whether a stop was
    /// requested.
    pub fn poll(&mut self, cancelled: bool) -> (action: Action)
        ensures
            (final(self).state(), action) == polled(old(self).state(), cancelled),
    {
        if cancelled {
            self.state = DeliveryState::Closed;
            return Action::Stop;
        }
        match self.state {
            DeliveryState::Idle | DeliveryState::Accepting => {
                self.state = DeliveryState::Accepting;
                Action::Accept
            },
            DeliveryState::Connected => Action::Receive,
            DeliveryState::Closed => Action::Stop,
        }
    }

    /// Takes the outcome of the round's action and says what the consumer
    /// gets.
    pub fn route(&mut self, outcome: Outcome) -> (delivery: Delivery)
        ensures
            (final(self).state(), delivery@) == routed(old(self).state(), outcome@),
    {
        match self.state {
            DeliveryState::Accepting => match outcome {
                Outcome::Accepted => {
                    self.state = DeliveryState::Connected;
                    Delivery::Nothing
                },
                Outcome::AcceptFailed(AcceptFailure::Transport) => Delivery::Failure(
                    Failure::Transport,
                ),
                Outcome::AcceptFailed(AcceptFailure::Handshake) => Delivery::Failure(
                    Failure::Handshake,
                ),
                _ => Delivery::Nothing,
            },
            DeliveryState::Connected => match outcome {
                Outcome::Received(received) => match received {
                    Received::Event(event) => Delivery::Event(event),
                    Received::Failed(failure) => Delivery::Failure(failure),
                    Received::Closed => {
                        self.state = DeliveryState::Accepting;
                        Delivery::Nothing
                    },
                },
                _ => Delivery::Nothing,
            },
            _ => Delivery::Nothing,
        }
    }
}

/// A closed loop stays closed, and is told to stop whenever it asks.
pub proof fn lemma_closed_is_final(cancelled: bool, outcome: OutcomeView)
    ensures
        polled(DeliveryState::Closed, cancelled) == (DeliveryState::Closed, Action::Stop),
        routed(DeliveryState::Closed, outcome).0 == DeliveryState::Closed,
        routed(DeliveryState::Closed, outcome).1 == DeliveryView::Nothing,
{
}

/// A requested stop closes the loop at the next poll, from any state.
pub proof fn lemma_cancellation_closes(state: DeliveryState)
    ensures
        polled(state, true) == (DeliveryState::Closed, Action::Stop),
{
}

/// Nothing but a requested stop closes the loop or stops it: no failure and
/// no lost connection does.
pub proof fn lemma_only_cancellation_closes(state: DeliveryState, outcome: OutcomeView)
    requires
        state != DeliveryState::Closed,
    ensures
        polled(state, false).0 != DeliveryState::Closed,
        polled(state, false).1 != Action::Stop,
        routed(state, outcome).0 != DeliveryState::Closed,
        round(state, false, outcome) != DeliveryState::Closed,
{
}

/// A loop that is never cancelled never closes, whatever happens to its
/// connections, and after each run it accepts or receives again.
pub proof fn lemma_listens_forever(state: DeliveryState, outcomes: Seq<OutcomeView>)
    requires
        state != DeliveryState::Closed,
    ensures
        run(state, outcomes) != DeliveryState::Closed,
        polled(run(state, outcomes), false).1 != Action::Stop,
    decreases outcomes.len(),
{
    if outcomes.len() > 0 {
        lemma_listens_forever(state, outcomes.drop_last());
        lemma_only_cancellation_closes(run(state, outcomes.drop_last()), outcomes.last());
    }
}

/// After a connection ends the same loop accepts again, and a new
/// connection is served as the first one was.
pub proof fn lemma_reconnects()
    ensures
        routed(DeliveryState::Connected, OutcomeView::Received(ReceivedView::Closed)).0
            == DeliveryState::Accepting,
        polled(DeliveryState::Accepting, false) == (DeliveryState::Accepting, Action::Accept),
        routed(DeliveryState::Accepting, OutcomeView::Accepted).0 == DeliveryState::Connected,
        polled(DeliveryState::Connected, false) == (DeliveryState::Connected, Action::Receive),
        run(
            DeliveryState::Connected,
            seq![OutcomeView::Received(ReceivedView::Closed), OutcomeView::Accepted],
        ) == DeliveryState::Connected,
{
    let ending = OutcomeView::Received(ReceivedView::Closed);
    let outcomes = seq![ending, OutcomeView::Accepted];
    assert(run(DeliveryState::Connected, outcomes.drop_last().drop_last())
        == DeliveryState::Connected);
    assert(run(DeliveryState::Connected, outcomes.drop_last()) == DeliveryState::Accepting);
}

/// A frame that cannot be decoded, an unsupported frame and a failed read
/// are passed on as failures and leave the connection up; an event is passed
/// on as it is.
pub proof fn lemma_failures_keep_connection(failure: Failure, event: SpotifyEventView)
    ensures
        routed(DeliveryState::Connected, OutcomeView::Received(ReceivedView::Failed(failure)))
            == (DeliveryState::Connected, DeliveryView::Failure(failure)),
        routed(DeliveryState::Connected, OutcomeView::Received(ReceivedView::Event(event)))
            == (DeliveryState::Connected, DeliveryView::Event(event)),
{
}

/// The events of a connection reach the consumer one for one and in the
/// order of their frames.
pub proof fn lemma_events_in_order(events: Seq<SpotifyEventView>)
    ensures
        run(
            DeliveryState::Connected,
            events.map_values(|e: SpotifyEventView| OutcomeView::Received(ReceivedView::Event(e))),
        ) == DeliveryState::Connected,
        delivered(
            DeliveryState::Connected,
            events.map_values(|e: SpotifyEventView| OutcomeView::Received(ReceivedView::Event(e))),
        ) == events.map_values(|e: SpotifyEventView| DeliveryView::Event(e)),
    decreases events.len(),
{
    let outcomes = events.map_values(
        |e: SpotifyEventView| OutcomeView::Received(ReceivedView::Event(e)),
    );
    if events.len() > 0 {
        lemma_events_in_order(events.drop_last());
        assert(outcomes.drop_last() =~= events.drop_last().map_values(
            |e: SpotifyEventView| OutcomeView::Received(ReceivedView::Event(e)),
        ));
    }
}

/// A failed accept is passed on as a failure and leaves the loop accepting.
pub proof fn lemma_failed_accept_is_retried(failure: AcceptFailure)
    ensures
        routed(DeliveryState::Accepting, OutcomeView::AcceptFailed(failure)).0
            == DeliveryState::Accepting,
        round(DeliveryState::Accepting, false, OutcomeView::AcceptFailed(failure))
            == DeliveryState::Accepting,
        polled(DeliveryState::Accepting, false).1 == Action::Accept,
{
}

} // verus!
