//! The decisions of the driver that carries a protocol through its rounds.
//!
//! The driver neither runs the protocol nor touches the transport. It is
//! told what happened as an [`Event`] and answers with the [`Action`] to take
//! next: ask the protocol's state something, hand messages to the transport,
//! wait for the next message, or stop. Whoever owns the state and the
//! transport performs the action and reports back with the next event.
//!
//! A round goes through three phases. The state is asked for the messages
//! of the round; they are readdressed and sent. Then messages are received,
//! one at a time, until the state says that its input is complete. At last
//! the state takes the received messages in and says whether another round
//! follows or the protocol has ended.

use crate::addressing::convert_incoming_to_input_message;
use crate::addressing::convert_output_messages;
use crate::addressing::input_of;
use crate::addressing::outgoing_batch;
use crate::addressing::unknown_destinations;
use crate::addressing::UnknownDestination;
use crate::error::Error;
use crate::identity::PartyIndex;
use crate::message::Incoming;
use crate::message::InputMessage;
use crate::message::Outgoing;
use crate::message::OutputMessage;
use crate::parties::Parties;
use vstd::prelude::*;

verus! {

/// What the protocol's state says when it has taken in the messages of a
/// round.
#[derive(Debug)]
pub enum Transition<F, PErr> {
    /// Another round follows, with a new state.
    NewState,
    /// The protocol has ended, with its output or with an error.
    FinalState(Result<F, PErr>),
}

/// What has happened since the driver's last action.
#[derive(Debug)]
pub enum Event<M, F, PErr, IErr, OErr> {
    /// The state was started and gave these messages to send, if any.
    Started(Option<Vec<OutputMessage<M>>>),
    /// The transport took the messages and was flushed, or failed.
    Sent(Result<(), OErr>),
    /// The transport delivered its next item, or has come to its end.
    Received(Option<Result<Incoming<M>, IErr>>),
    /// The state said whether it expects the message under validation.
    Expected(bool),
    /// The state said whether the messages received complete its input.
    Complete(bool),
    /// The state took the messages of the round in.
    Consumed(Transition<F, PErr>),
}

/// What is to be done next.
#[derive(Debug)]
pub enum Action<M, F, PErr, IErr, OErr> {
    /// Start the current state; answer with [`Event::Started`].
    Start,
    /// Hand `batch` to the transport, in this order, then flush it; answer
    /// with [`Event::Sent`]. The state also addressed messages to
    /// `unknown`, which take no part in the computation: those messages
    /// are not sent.
    Send {
        /// The messages to send.
        batch: Vec<Outgoing<M>>,
        /// The recipients that are not in the party list.
        unknown: Vec<UnknownDestination>,
    },
    /// Take the next item from the transport; answer with
    /// [`Event::Received`].
    Receive,
    /// Ask the state whether it expects the driver's candidate after the
    /// messages received so far; answer with [`Event::Expected`].
    CheckExpected,
    /// Ask the state whether the messages received so far complete its
    /// input; answer with [`Event::Complete`].
    CheckComplete,
    /// Let the state take these messages in; answer with
    /// [`Event::Consumed`].
    Consume(Vec<InputMessage<M>>),
    /// Stop: the computation has ended with this result.
    Finish(Result<F, Error<PErr, IErr, OErr>>),
}

/// Which event the driver waits for.
#[derive(Debug)]
pub enum Phase<M> {
    /// The state is being started.
    Starting,
    /// The messages of the round are being sent.
    Sending,
    /// The next item of the transport is awaited.
    Receiving,
    /// The state is being asked whether it expects `message`, which the
    /// party at position `sender` sent.
    Validating {
        /// Position of the party that sent the message.
        sender: u16,
        /// The message, addressed by identity.
        message: InputMessage<M>,
    },
    /// The state is being asked whether its input is complete.
    Completing,
    /// The state is taking the messages of the round in.
    Consuming,
    /// The computation has ended.
    Finished,
}

/// An [`Event`] with its messages as a sequence.
pub enum EventView<M, F, PErr, IErr, OErr> {
    Started(Option<Seq<OutputMessage<M>>>),
    Sent(Result<(), OErr>),
    Received(Option<Result<Incoming<M>, IErr>>),
    Expected(bool),
    Complete(bool),
    Consumed(Transition<F, PErr>),
}

/// An [`Action`] with its messages as a sequence.
pub enum ActionView<M, F, PErr, IErr, OErr> {
    Start,
    Send { batch: Seq<Outgoing<M>>, unknown: Seq<UnknownDestination> },
    Receive,
    CheckExpected,
    CheckComplete,
    Consume(Seq<InputMessage<M>>),
    Finish(Result<F, Error<PErr, IErr, OErr>>),
}

impl<M, F, PErr, IErr, OErr> View for Event<M, F, PErr, IErr, OErr> {
    type V = EventView<M, F, PErr, IErr, OErr>;

    open spec fn view(&self) -> EventView<M, F, PErr, IErr, OErr> {
        match *self {
            Event::Started(Some(msgs)) => EventView::Started(Some(msgs@)),
            Event::Started(None) => EventView::Started(None),
            Event::Sent(result) => EventView::Sent(result),
            Event::Received(item) => EventView::Received(item),
            Event::Expected(answer) => EventView::Expected(answer),
            Event::Complete(answer) => EventView::Complete(answer),
            Event::Consumed(transition) => EventView::Consumed(transition),
        }
    }
}

impl<M, F, PErr, IErr, OErr> View for Action<M, F, PErr, IErr, OErr> {
    type V = ActionView<M, F, PErr, IErr, OErr>;

    open spec fn view(&self) -> ActionView<M, F, PErr, IErr, OErr> {
        match *self {
            Action::Start => ActionView::Start,
            Action::Send { batch, unknown } => ActionView::Send {
                batch: batch@,
                unknown: unknown@,
            },
            Action::Receive => ActionView::Receive,
            Action::CheckExpected => ActionView::CheckExpected,
            Action::CheckComplete => ActionView::CheckComplete,
            Action::Consume(batch) => ActionView::Consume(batch@),
            Action::Finish(result) => ActionView::Finish(result),
        }
    }
}

/// The driver of one party's part in a computation.
#[derive(Debug)]
pub struct Driver<M> {
    parties: Parties,
    own_position: u16,
    phase: Phase<M>,
    received: Vec<InputMessage<M>>,
}

/// What a [`Driver`] holds.
pub struct DriverView<M> {
    /// The identities of the parties, in the order of their positions.
    pub parties: Seq<PartyIndex>,
    /// The position of the party that the driver acts for.
    pub own_position: u16,
    /// Which event the driver waits for.
    pub phase: Phase<M>,
    /// The messages accepted in this round so far, in the order in which
    /// the transport delivered them.
    pub received: Seq<InputMessage<M>>,
}

impl<M> DriverView<M> {
    /// The driver at the beginning of the first round.
    pub open spec fn initial(own_position: u16, parties: Seq<PartyIndex>) -> DriverView<M> {
        DriverView { parties, own_position, phase: Phase::Starting, received: Seq::empty() }
    }

    /// The same driver, waiting for another event.
    pub open spec fn awaiting(self, phase: Phase<M>) -> DriverView<M> {
        DriverView { phase, ..self }
    }

    /// The computation is given up because of `error`.
    pub open spec fn failing<F, PErr, IErr, OErr>(self, error: Error<PErr, IErr, OErr>) -> (
        DriverView<M>,
        ActionView<M, F, PErr, IErr, OErr>,
    ) {
        (self.awaiting(Phase::Finished), ActionView::Finish(Err(error)))
    }

    /// What becomes of the driver when `event` is reported, and what it
    /// asks for next; `None` where the driver does not wait for such an
    /// event.
    pub open spec fn next<F, PErr, IErr, OErr>(
        self,
        event: EventView<M, F, PErr, IErr, OErr>,
    ) -> Option<(DriverView<M>, ActionView<M, F, PErr, IErr, OErr>)> {
        match (self.phase, event) {
            (Phase::Starting, EventView::Started(None)) => Some(
                (self.awaiting(Phase::Receiving), ActionView::Receive),
            ),
            (Phase::Starting, EventView::Started(Some(msgs))) => Some(
                (
                    self.awaiting(Phase::Sending),
                    ActionView::Send {
                        batch: outgoing_batch(self.parties, msgs),
                        unknown: unknown_destinations(self.parties, msgs),
                    },
                ),
            ),
            (Phase::Sending, EventView::Sent(Ok(_))) => Some(
                (self.awaiting(Phase::Receiving), ActionView::Receive),
            ),
            (Phase::Sending, EventView::Sent(Err(cause))) => Some(
                self.failing(Error::SendMessage(cause)),
            ),
            (Phase::Receiving, EventView::Received(None)) => Some(
                self.failing(Error::UnexpectedEof),
            ),
            (Phase::Receiving, EventView::Received(Some(Err(cause)))) => Some(
                self.failing(Error::ReceiveNextMessage(cause)),
            ),
            (Phase::Receiving, EventView::Received(Some(Ok(incoming)))) => {
                if incoming.sender == self.own_position {
                    Some((self, ActionView::Receive))
                } else {
                    match input_of(self.parties, incoming) {
                        Ok(message) => Some(
                            (
                                self.awaiting(
                                    Phase::Validating { sender: incoming.sender, message },
                                ),
                                ActionView::CheckExpected,
                            ),
                        ),
                        Err(unknown) => Some(self.failing(Error::UnknownSender(unknown))),
                    }
                }
            },
            (Phase::Validating { sender, message }, EventView::Expected(true)) => Some(
                (
                    DriverView {
                        phase: Phase::Completing,
                        received: self.received.push(message),
                        ..self
                    },
                    ActionView::CheckComplete,
                ),
            ),
            (Phase::Validating { sender, message }, EventView::Expected(false)) => Some(
                self.failing(Error::ReceivedUnexpectedMessage { sender }),
            ),
            (Phase::Completing, EventView::Complete(true)) => Some(
                (
                    DriverView { phase: Phase::Consuming, received: Seq::empty(), ..self },
                    ActionView::Consume(self.received),
                ),
            ),
            (Phase::Completing, EventView::Complete(false)) => Some(
                (self.awaiting(Phase::Receiving), ActionView::Receive),
            ),
            (Phase::Consuming, EventView::Consumed(Transition::NewState)) => Some(
                (self.awaiting(Phase::Starting), ActionView::Start),
            ),
            (Phase::Consuming, EventView::Consumed(Transition::FinalState(Ok(output)))) => Some(
                (self.awaiting(Phase::Finished), ActionView::Finish(Ok(output))),
            ),
            (Phase::Consuming, EventView::Consumed(Transition::FinalState(Err(cause)))) => Some(
                self.failing(Error::ProtocolError(cause)),
            ),
            _ => None,
        }
    }
}

impl<M> View for Driver<M> {
    type V = DriverView<M>;

    closed spec fn view(&self) -> DriverView<M> {
        DriverView {
            parties: self.parties@,
            own_position: self.own_position,
            phase: self.phase,
            received: self.received@,
        }
    }
}

impl<M> Driver<M> {
    /// A driver for the party at `own_position` of `parties`, at the
    /// beginning of the first round: the first action is [`Action::Start`].
    pub fn new(own_position: u16, parties: Parties) -> (driver: Driver<M>)
        ensures
            driver@ == DriverView::<M>::initial(own_position, parties@),
    {
        Driver { parties, own_position, phase: Phase::Starting, received: Vec::new() }
    }

    /// The parties of the computation.
    pub fn parties(&self) -> (parties: &Parties)
        ensures
            parties@ == self@.parties,
    {
        &self.parties
    }

    /// The position of the party that the driver acts for.
    pub fn own_position(&self) -> (position: u16)
        ensures
            position == self@.own_position,
    {
        self.own_position
    }

    /// Which event the driver waits for.
    pub fn phase(&self) -> (phase: &Phase<M>)
        ensures
            *phase == self@.phase,
    {
        &self.phase
    }

    /// The messages accepted in this round so far, in the order of their
    /// arrival.
    pub fn received(&self) -> (received: &[InputMessage<M>])
        ensures
            received@ == self@.received,
    {
        self.received.as_slice()
    }

    /// The message that the state is being asked about, if any.
    pub fn candidate(&self) -> (candidate: Option<&InputMessage<M>>)
        ensures
            match candidate {
                Some(found) => self@.phase matches Phase::Validating { message, .. }
                    && message == *found,
                None => !(self@.phase is Validating),
            },
    {
        match &self.phase {
            Phase::Validating { message, .. } => Some(message),
            _ => None,
        }
    }

    /// Takes in what has happened and says what is to be done next.
    ///
    /// Returns `None`, and leaves the driver as it is, where `event` is not
    /// the one that the driver waits for.
    pub fn step<F, PErr, IErr, OErr>(&mut self, event: Event<M, F, PErr, IErr, OErr>) -> (action:
        Option<Action<M, F, PErr, IErr, OErr>>)
        ensures
            match old(self)@.next(event@) {
                Some((after, expected)) => {
                    &&& final(self)@ == after
                    &&& action matches Some(a) && a@ == expected
                },
                None => final(self)@ == old(self)@ && action is None,
            },
    {
        let mut phase = Phase::Finished;
        core::mem::swap(&mut self.phase, &mut phase);
        match (phase, event) {
            (Phase::Starting, Event::Started(None)) => {
                self.phase = Phase::Receiving;
                Some(Action::Receive)
            },
            (Phase::Starting, Event::Started(Some(msgs))) => {
                let (batch, unknown) = convert_output_messages(&self.parties, msgs);
                self.phase = Phase::Sending;
                Some(Action::Send { batch, unknown })
            },
            (Phase::Sending, Event::Sent(Ok(_))) => {
                self.phase = Phase::Receiving;
                Some(Action::Receive)
            },
            (Phase::Sending, Event::Sent(Err(cause))) => {
                Some(Action::Finish(Err(Error::SendMessage(cause))))
            },
            (Phase::Receiving, Event::Received(None)) => {
                Some(Action::Finish(Err(Error::UnexpectedEof)))
            },
            (Phase::Receiving, Event::Received(Some(Err(cause)))) => {
                Some(Action::Finish(Err(Error::ReceiveNextMessage(cause))))
            },
            (Phase::Receiving, Event::Received(Some(Ok(incoming)))) => {
                let sender = incoming.sender;
                if sender == self.own_position {
                    self.phase = Phase::Receiving;
                    Some(Action::Receive)
                } else {
                    match convert_incoming_to_input_message(&self.parties, incoming) {
                        Ok(message) => {
                            self.phase = Phase::Validating { sender, message };
                            Some(Action::CheckExpected)
                        },
                        Err(unknown) => Some(Action::Finish(Err(Error::UnknownSender(unknown)))),
                    }
                }
            },
            (Phase::Validating { sender, message }, Event::Expected(true)) => {
                self.received.push(message);
                self.phase = Phase::Completing;
                Some(Action::CheckComplete)
            },
            (Phase::Validating { sender, message }, Event::Expected(false)) => {
                Some(Action::Finish(Err(Error::ReceivedUnexpectedMessage { sender })))
            },
            (Phase::Completing, Event::Complete(true)) => {
                let mut batch: Vec<InputMessage<M>> = Vec::new();
                core::mem::swap(&mut self.received, &mut batch);
                self.phase = Phase::Consuming;
                Some(Action::Consume(batch))
            },
            (Phase::Completing, Event::Complete(false)) => {
                self.phase = Phase::Receiving;
                Some(Action::Receive)
            },
            (Phase::Consuming, Event::Consumed(Transition::NewState)) => {
                self.phase = Phase::Starting;
                Some(Action::Start)
            },
            (Phase::Consuming, Event::Consumed(Transition::FinalState(Ok(output)))) => {
                Some(Action::Finish(Ok(output)))
            },
            (Phase::Consuming, Event::Consumed(Transition::FinalState(Err(cause)))) => {
                Some(Action::Finish(Err(Error::ProtocolError(cause))))
            },
            (phase, _) => {
                self.phase = phase;
                None
            },
        }
    }
}

/// Starting a round never ends the computation: whatever the state wants
/// sent, the driver goes on to send what can be delivered, or to receive.
pub proof fn lemma_start_never_fails<M, F, PErr, IErr, OErr>(
    driver: DriverView<M>,
    msgs: Option<Seq<OutputMessage<M>>>,
)
    requires
        driver.phase is Starting,
    ensures
        driver.next::<F, PErr, IErr, OErr>(EventView::Started(msgs)) == Some(
            match msgs {
                Some(msgs) => (
                    driver.awaiting(Phase::Sending),
                    ActionView::<M, F, PErr, IErr, OErr>::Send {
                        batch: outgoing_batch(driver.parties, msgs),
                        unknown: unknown_destinations(driver.parties, msgs),
                    },
                ),
                None => (driver.awaiting(Phase::Receiving), ActionView::Receive),
            },
        ),
{
}

/// A message that the transport brings back from the party's own position
/// is passed over: it is not kept, the state is not asked about it, and the
/// driver goes on to the next item as it was.
pub proof fn lemma_own_message_is_passed_over<M, F, PErr, IErr, OErr>(
    driver: DriverView<M>,
    incoming: Incoming<M>,
)
    requires
        driver.phase is Receiving,
        incoming.sender == driver.own_position,
    ensures
        driver.next::<F, PErr, IErr, OErr>(EventView::Received(Some(Ok(incoming)))) == Some(
            (driver, ActionView::<M, F, PErr, IErr, OErr>::Receive),
        ),
{
}

/// A message from another position of the party list is shown to the state,
/// under the identity at that position, before anything is kept.
pub proof fn lemma_message_is_validated_first<M, F, PErr, IErr, OErr>(
    driver: DriverView<M>,
    incoming: Incoming<M>,
)
    requires
        driver.phase is Receiving,
        incoming.sender != driver.own_position,
        incoming.sender < driver.parties.len(),
    ensures
        driver.next::<F, PErr, IErr, OErr>(EventView::Received(Some(Ok(incoming)))) == Some(
            (
                driver.awaiting(
                    Phase::Validating {
                        sender: incoming.sender,
                        message: InputMessage {
                            sender: driver.parties[incoming.sender as int],
                            body: incoming.msg,
                        },
                    },
                ),
                ActionView::<M, F, PErr, IErr, OErr>::CheckExpected,
            ),
        ),
{
}

/// A message that the state does not expect ends the computation: the error
/// names the sender's position, and the message is not kept.
pub proof fn lemma_unexpected_message_aborts<M, F, PErr, IErr, OErr>(driver: DriverView<M>)
    requires
        driver.phase is Validating,
    ensures
        driver.next::<F, PErr, IErr, OErr>(EventView::Expected(false)) == Some(
            (
                driver.awaiting(Phase::Finished),
                ActionView::<M, F, PErr, IErr, OErr>::Finish(
                    Err(Error::ReceivedUnexpectedMessage { sender: driver.phase->sender }),
                ),
            ),
        ),
{
}

/// The end of the transport in the middle of a round ends the computation.
pub proof fn lemma_end_of_transport_aborts<M, F, PErr, IErr, OErr>(driver: DriverView<M>)
    requires
        driver.phase is Receiving,
    ensures
        driver.next::<F, PErr, IErr, OErr>(EventView::Received(None)) == Some(
            (
                driver.awaiting(Phase::Finished),
                ActionView::<M, F, PErr, IErr, OErr>::Finish(Err(Error::UnexpectedEof)),
            ),
        ),
{
}

/// The state is given a round's messages only when it has said that they
/// complete its input, and then it is given all that were accepted, in the
/// order of their arrival.
pub proof fn lemma_consume_follows_completion<M, F, PErr, IErr, OErr>(
    driver: DriverView<M>,
    event: EventView<M, F, PErr, IErr, OErr>,
)
    requires
        driver.next(event) matches Some((_, action)) && action is Consume,
    ensures
        driver.phase is Completing,
        event == EventView::<M, F, PErr, IErr, OErr>::Complete(true),
        driver.next(event) == Some(
            (
                DriverView { phase: Phase::Consuming, received: Seq::empty(), ..driver },
                ActionView::<M, F, PErr, IErr, OErr>::Consume(driver.received),
            ),
        ),
{
}

/// Whenever the driver stops, it has come to its end, and the other way
/// round.
pub proof fn lemma_finish_ends_the_driver<M, F, PErr, IErr, OErr>(
    driver: DriverView<M>,
    event: EventView<M, F, PErr, IErr, OErr>,
)
    requires
        driver.next(event) is Some,
    ensures
        driver.next(event).unwrap().0.phase is Finished <==> driver.next(event).unwrap().1 is Finish,
{
}

/// A driver that has come to its end asks for nothing more, whatever is
/// reported to it.
pub proof fn lemma_finished_is_final<M, F, PErr, IErr, OErr>(
    driver: DriverView<M>,
    event: EventView<M, F, PErr, IErr, OErr>,
)
    requires
        driver.phase is Finished,
    ensures
        driver.next(event) is None,
{
}

} // verus!
