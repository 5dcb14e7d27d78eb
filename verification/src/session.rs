//! What a whole computation comes to.
//!
//! The driver takes one event at a time and answers with one action. This
//! module says what that adds up to when each action is performed as the
//! driver asks: the computation goes through its rounds as [`session`]
//! says, which speaks of the protocol and the transport alone.

use crate::addressing::input_of;
use crate::addressing::outgoing_batch;
use crate::driver::ActionView;
use crate::driver::DriverView;
use crate::driver::EventView;
use crate::driver::Phase;
use crate::driver::Transition;
use crate::error::Error;
use crate::identity::PartyIndex;
use crate::message::Incoming;
use crate::message::InputMessage;
use crate::message::Outgoing;
use crate::message::OutputMessage;
use crate::reception::lemma_reception_takes_items;
use crate::reception::reception;
use crate::reception::Answers;
use vstd::prelude::*;

verus! {

/// A protocol as the driver meets it: what its states, of type `S`, answer.
#[verifier::reject_recursive_types(S)]
#[verifier::reject_recursive_types(M)]
pub struct Protocol<S, M, F, PErr> {
    /// The state after it was started, and the messages that it wants sent.
    pub start: spec_fn(S) -> (S, Option<Seq<OutputMessage<M>>>),
    /// Whether a state expects a message after the messages received so far.
    pub expects: spec_fn(S, InputMessage<M>, Seq<InputMessage<M>>) -> bool,
    /// Whether the messages received so far complete the input of a state.
    pub completes: spec_fn(S, Seq<InputMessage<M>>) -> bool,
    /// What a state says when it has taken the messages of its round in,
    /// and the state of the round that follows, if one does.
    pub consume: spec_fn(S, Seq<InputMessage<M>>) -> (Transition<F, PErr>, S),
}

impl<S, M, F, PErr> Protocol<S, M, F, PErr> {
    /// How `state` answers the questions of the receive phase.
    pub open spec fn answers(self, state: S) -> Answers<M> {
        Answers {
            expects: |message: InputMessage<M>, received: Seq<InputMessage<M>>|
                (self.expects)(state, message, received),
            completes: |received: Seq<InputMessage<M>>| (self.completes)(state, received),
        }
    }
}

/// What surrounds the driver at some point of a computation.
pub struct Scene<S, M, IErr> {
    /// The state of the round that is under way.
    pub state: S,
    /// What the transport still holds; after that it ends.
    pub items: Seq<Result<Incoming<M>, IErr>>,
    /// How many batches were handed to the transport so far.
    pub batches: nat,
}

/// How a computation ends.
pub struct Session<M, F, PErr, IErr, OErr> {
    /// The output of the protocol, or the error that ended the computation.
    pub outcome: Result<F, Error<PErr, IErr, OErr>>,
    /// The batches of messages that were handed to the transport, in order.
    pub sent: Seq<Seq<Outgoing<M>>>,
    /// How many items were taken from the transport.
    pub taken: nat,
}

impl<M, F, PErr, IErr, OErr> Session<M, F, PErr, IErr, OErr> {
    /// The same end, reached after `sent` was handed to the transport and
    /// `taken` items were taken from it.
    pub open spec fn after(self, sent: Seq<Seq<Outgoing<M>>>, taken: nat) -> Session<
        M,
        F,
        PErr,
        IErr,
        OErr,
    > {
        Session { outcome: self.outcome, sent: sent + self.sent, taken: taken + self.taken }
    }
}

/// How the computation ends for the party at `own_position` of `parties`,
/// from the beginning of a round on. The transport takes or refuses its
/// `n`-th batch as `accepts(n)` says.
///
/// The state is started. What it wants sent is readdressed and handed to
/// the transport as one batch; messages to identities outside the list are
/// left out. If the transport refuses the batch, the computation ends.
/// Then messages are received as [`reception`] says, and the state takes
/// them in: the computation ends with what the state ends with, or goes on
/// with the next round.
pub open spec fn session<S, M, F, PErr, IErr, OErr>(
    parties: Seq<PartyIndex>,
    own_position: u16,
    protocol: Protocol<S, M, F, PErr>,
    accepts: spec_fn(nat) -> Result<(), OErr>,
    scene: Scene<S, M, IErr>,
) -> Session<M, F, PErr, IErr, OErr>
    decreases scene.items.len(),
{
    let (started, msgs) = (protocol.start)(scene.state);
    let sent = match msgs {
        Some(msgs) => seq![outgoing_batch(parties, msgs)],
        None => Seq::empty(),
    };
    if msgs is Some && accepts(scene.batches) is Err {
        Session { outcome: Err(Error::SendMessage(accepts(scene.batches)->Err_0)), sent, taken: 0 }
    } else {
        let told = reception::<M, PErr, IErr, OErr>(
            parties,
            own_position,
            protocol.answers(started),
            scene.items,
            Seq::empty(),
        );
        match told.outcome {
            Err(error) => Session { outcome: Err(error), sent, taken: told.taken },
            Ok(batch) => {
                let (transition, following) = (protocol.consume)(started, batch);
                match transition {
                    Transition::FinalState(Ok(output)) => Session {
                        outcome: Ok(output),
                        sent,
                        taken: told.taken,
                    },
                    Transition::FinalState(Err(cause)) => Session {
                        outcome: Err(Error::ProtocolError(cause)),
                        sent,
                        taken: told.taken,
                    },
                    Transition::NewState => {
                        proof {
                            lemma_reception_takes_items::<M, PErr, IErr, OErr>(
                                parties,
                                own_position,
                                protocol.answers(started),
                                scene.items,
                                Seq::empty(),
                            );
                        }
                        session(
                            parties,
                            own_position,
                            protocol,
                            accepts,
                            Scene {
                                state: following,
                                items: scene.items.skip(told.taken as int),
                                batches: scene.batches + sent.len(),
                            },
                        ).after(sent, told.taken)
                    },
                }
            },
        }
    }
}

/// The order in which the actions follow one another while no item is
/// taken from the transport.
pub open spec fn stage<M, F, PErr, IErr, OErr>(action: ActionView<M, F, PErr, IErr, OErr>) -> nat {
    match action {
        ActionView::CheckExpected => 6,
        ActionView::CheckComplete => 5,
        ActionView::Consume(_) => 4,
        ActionView::Start => 3,
        ActionView::Send { .. } => 2,
        ActionView::Receive => 1,
        ActionView::Finish(_) => 0,
    }
}

/// What is reported to the driver when `action` has been performed, and
/// what surrounds the driver after that; `None` when the driver has stopped.
///
/// The state is asked about the driver's candidate and the messages that the
/// driver has received, and is given the batch that the driver hands out.
/// The next item is taken from the transport, or its end is reported.
pub open spec fn report<S, M, F, PErr, IErr, OErr>(
    driver: DriverView<M>,
    action: ActionView<M, F, PErr, IErr, OErr>,
    protocol: Protocol<S, M, F, PErr>,
    accepts: spec_fn(nat) -> Result<(), OErr>,
    scene: Scene<S, M, IErr>,
) -> Option<(EventView<M, F, PErr, IErr, OErr>, Scene<S, M, IErr>)> {
    match action {
        ActionView::Start => {
            let (started, msgs) = (protocol.start)(scene.state);
            Some((EventView::Started(msgs), Scene { state: started, ..scene }))
        },
        ActionView::Send { .. } => Some(
            (EventView::Sent(accepts(scene.batches)), Scene { batches: scene.batches + 1, ..scene }),
        ),
        ActionView::Receive => if scene.items.len() == 0 {
            Some((EventView::Received(None), scene))
        } else {
            Some(
                (
                    EventView::Received(Some(scene.items.first())),
                    Scene { items: scene.items.drop_first(), ..scene },
                ),
            )
        },
        ActionView::CheckExpected => match driver.phase {
            Phase::Validating { message, .. } => Some(
                (
                    EventView::Expected((protocol.expects)(scene.state, message, driver.received)),
                    scene,
                ),
            ),
            _ => None,
        },
        ActionView::CheckComplete => Some(
            (EventView::Complete((protocol.completes)(scene.state, driver.received)), scene),
        ),
        ActionView::Consume(batch) => {
            let (transition, following) = (protocol.consume)(scene.state, batch);
            Some((EventView::Consumed(transition), Scene { state: following, ..scene }))
        },
        ActionView::Finish(_) => None,
    }
}

/// What `action` hands to the transport.
pub open spec fn handed_over<M, F, PErr, IErr, OErr>(
    action: ActionView<M, F, PErr, IErr, OErr>,
) -> Seq<Seq<Outgoing<M>>> {
    match action {
        ActionView::Send { batch, .. } => seq![batch],
        _ => Seq::empty(),
    }
}

/// How the computation ends when, from `action` on, each action of the
/// driver is performed and reported as [`report`] says; `None` if the
/// driver does not take what is reported to it.
pub open spec fn run<S, M, F, PErr, IErr, OErr>(
    driver: DriverView<M>,
    action: ActionView<M, F, PErr, IErr, OErr>,
    protocol: Protocol<S, M, F, PErr>,
    accepts: spec_fn(nat) -> Result<(), OErr>,
    scene: Scene<S, M, IErr>,
) -> Option<Session<M, F, PErr, IErr, OErr>>
    decreases scene.items.len(), stage(action),
{
    match action {
        ActionView::Finish(outcome) => Some(Session { outcome, sent: Seq::empty(), taken: 0 }),
        _ => match report(driver, action, protocol, accepts, scene) {
            Some((event, around)) => match driver.next(event) {
                Some((after, then)) => match run(after, then, protocol, accepts, around) {
                    Some(end) => Some(
                        end.after(
                            handed_over(action),
                            (scene.items.len() - around.items.len()) as nat,
                        ),
                    ),
                    None => None,
                },
                None => None,
            },
            None => None,
        },
    }
}

/// The run ends, and ends as `end` says.
spec fn ends_as<M, F, PErr, IErr, OErr>(
    run: Option<Session<M, F, PErr, IErr, OErr>>,
    end: Session<M, F, PErr, IErr, OErr>,
) -> bool {
    &&& run is Some
    &&& run.unwrap().outcome == end.outcome
    &&& run.unwrap().sent =~= end.sent
    &&& run.unwrap().taken == end.taken
}

/// From the point where the driver asks for the next item, a run receives
/// as [`reception`] says: it ends with the error of the receive phase, or
/// goes on by giving the state the messages that complete its input.
proof fn lemma_run_receives_as_reception<S, M, F, PErr, IErr, OErr>(
    driver: DriverView<M>,
    protocol: Protocol<S, M, F, PErr>,
    accepts: spec_fn(nat) -> Result<(), OErr>,
    scene: Scene<S, M, IErr>,
)
    requires
        driver.phase is Receiving,
    ensures
        ({
            let told = reception::<M, PErr, IErr, OErr>(
                driver.parties,
                driver.own_position,
                protocol.answers(scene.state),
                scene.items,
                driver.received,
            );
            let run = run::<S, M, F, PErr, IErr, OErr>(
                driver,
                ActionView::Receive,
                protocol,
                accepts,
                scene,
            );
            match told.outcome {
                Err(error) => ends_as(
                    run,
                    Session { outcome: Err(error), sent: Seq::empty(), taken: told.taken },
                ),
                Ok(batch) => {
                    let onward = self::run::<S, M, F, PErr, IErr, OErr>(
                        DriverView { phase: Phase::Consuming, received: Seq::empty(), ..driver },
                        ActionView::Consume(batch),
                        protocol,
                        accepts,
                        Scene { items: scene.items.skip(told.taken as int), ..scene },
                    );
                    &&& told.taken <= scene.items.len()
                    &&& run is Some <==> onward is Some
                    &&& onward is Some ==> ends_as(
                        run,
                        onward.unwrap().after(Seq::empty(), told.taken),
                    )
                },
            }
        }),
    decreases scene.items.len(),
{
    reveal_with_fuel(run, 4);
    let items = scene.items;
    if items.len() > 0 {
        let rest = items.drop_first();
        let around = Scene { items: rest, ..scene };
        assert(items.skip(1) == rest);
        match items.first() {
            Err(cause) => {},
            Ok(incoming) => {
                if incoming.sender == driver.own_position {
                    lemma_run_receives_as_reception::<S, M, F, PErr, IErr, OErr>(
                        driver,
                        protocol,
                        accepts,
                        around,
                    );
                    lemma_reception_takes_items::<M, PErr, IErr, OErr>(
                        driver.parties,
                        driver.own_position,
                        protocol.answers(scene.state),
                        rest,
                        driver.received,
                    );
                    lemma_skip_after_first(
                        items,
                        reception::<M, PErr, IErr, OErr>(
                            driver.parties,
                            driver.own_position,
                            protocol.answers(scene.state),
                            rest,
                            driver.received,
                        ).taken,
                    );
                } else {
                    match input_of(driver.parties, incoming) {
                        Err(unknown) => {},
                        Ok(message) => {
                            let kept = driver.received.push(message);
                            if (protocol.expects)(scene.state, message, driver.received) {
                                if (protocol.completes)(scene.state, kept) {
                                } else {
                                    lemma_run_receives_as_reception::<S, M, F, PErr, IErr, OErr>(
                                        DriverView {
                                            phase: Phase::Receiving,
                                            received: kept,
                                            ..driver
                                        },
                                        protocol,
                                        accepts,
                                        around,
                                    );
                                    lemma_reception_takes_items::<M, PErr, IErr, OErr>(
                                        driver.parties,
                                        driver.own_position,
                                        protocol.answers(scene.state),
                                        rest,
                                        kept,
                                    );
                                    lemma_skip_after_first(
                                        items,
                                        reception::<M, PErr, IErr, OErr>(
                                            driver.parties,
                                            driver.own_position,
                                            protocol.answers(scene.state),
                                            rest,
                                            kept,
                                        ).taken,
                                    );
                                }
                            }
                        },
                    }
                }
            },
        }
    }
}

proof fn lemma_skip_after_first<A>(items: Seq<A>, n: nat)
    requires
        n < items.len(),
        items.len() > 0,
    ensures
        items.drop_first().skip(n as int) == items.skip(n as int + 1),
{
}

/// A computation in which each action of the driver is performed and
/// reported as [`report`] says ends as [`session`] says: with the same
/// output or error, after the same batches were handed to the transport and
/// the same number of items was taken from it.
pub proof fn lemma_run_ends_as_session<S, M, F, PErr, IErr, OErr>(
    parties: Seq<PartyIndex>,
    own_position: u16,
    protocol: Protocol<S, M, F, PErr>,
    accepts: spec_fn(nat) -> Result<(), OErr>,
    scene: Scene<S, M, IErr>,
)
    ensures
        run::<S, M, F, PErr, IErr, OErr>(
            DriverView::initial(own_position, parties),
            ActionView::Start,
            protocol,
            accepts,
            scene,
        ) == Some(session(parties, own_position, protocol, accepts, scene)),
{
    lemma_run_ends_like_session(parties, own_position, protocol, accepts, scene);
}

/// Where the transport holds nothing, nothing is sent after its end has
/// been met: the computation ends in its first round, with at most the
/// batch of that round handed over.
pub proof fn lemma_session_without_items<S, M, F, PErr, IErr, OErr>(
    parties: Seq<PartyIndex>,
    own_position: u16,
    protocol: Protocol<S, M, F, PErr>,
    accepts: spec_fn(nat) -> Result<(), OErr>,
    scene: Scene<S, M, IErr>,
)
    requires
        scene.items.len() == 0,
    ensures
        ({
            let end = session(parties, own_position, protocol, accepts, scene);
            let msgs = (protocol.start)(scene.state).1;
            &&& end.taken == 0
            &&& end.sent == match msgs {
                Some(msgs) => seq![outgoing_batch(parties, msgs)],
                None => Seq::empty(),
            }
            &&& end.outcome == if msgs is Some && accepts(scene.batches) is Err {
                Err::<F, _>(Error::<PErr, IErr, OErr>::SendMessage(accepts(scene.batches)->Err_0))
            } else {
                Err(Error::UnexpectedEof)
            }
        }),
{
}

proof fn lemma_run_ends_like_session<S, M, F, PErr, IErr, OErr>(
    parties: Seq<PartyIndex>,
    own_position: u16,
    protocol: Protocol<S, M, F, PErr>,
    accepts: spec_fn(nat) -> Result<(), OErr>,
    scene: Scene<S, M, IErr>,
)
    ensures
        ends_as(
            run::<S, M, F, PErr, IErr, OErr>(
                DriverView::initial(own_position, parties),
                ActionView::Start,
                protocol,
                accepts,
                scene,
            ),
            session(parties, own_position, protocol, accepts, scene),
        ),
    decreases scene.items.len(),
{
    reveal_with_fuel(run, 3);
    let driver = DriverView::<M>::initial(own_position, parties);
    let (started, msgs) = (protocol.start)(scene.state);
    let receiving = driver.awaiting(Phase::Receiving);
    let sent: Seq<Seq<Outgoing<M>>> = match msgs {
        Some(msgs) => seq![outgoing_batch(parties, msgs)],
        None => Seq::empty(),
    };
    if msgs is Some && accepts(scene.batches) is Err {
    } else {
        let around = Scene { state: started, batches: scene.batches + sent.len(), ..scene };
        let told = reception::<M, PErr, IErr, OErr>(
            parties,
            own_position,
            protocol.answers(started),
            scene.items,
            Seq::empty(),
        );
        lemma_run_receives_as_reception::<S, M, F, PErr, IErr, OErr>(
            receiving,
            protocol,
            accepts,
            around,
        );
        lemma_reception_takes_items::<M, PErr, IErr, OErr>(
            parties,
            own_position,
            protocol.answers(started),
            scene.items,
            Seq::empty(),
        );
        match told.outcome {
            Err(error) => {},
            Ok(batch) => {
                let (transition, following) = (protocol.consume)(started, batch);
                let left = scene.items.skip(told.taken as int);
                match transition {
                    Transition::NewState => {
                        lemma_run_ends_like_session::<S, M, F, PErr, IErr, OErr>(
                            parties,
                            own_position,
                            protocol,
                            accepts,
                            Scene { state: following, items: left, batches: around.batches },
                        );
                    },
                    Transition::FinalState(_) => {},
                }
            },
        }
    }
}

} // verus!
