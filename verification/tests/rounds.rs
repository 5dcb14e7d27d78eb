use std::collections::VecDeque;

use round_based_ing::Action;
use round_based_ing::Address;
use round_based_ing::Driver;
use round_based_ing::Error;
use round_based_ing::Event;
use round_based_ing::Incoming;
use round_based_ing::InputMessage;
use round_based_ing::Outgoing;
use round_based_ing::OutputMessage;
use round_based_ing::Parties;
use round_based_ing::PartyIndex;
use round_based_ing::Phase;
use round_based_ing::Transition;
use round_based_ing::UnknownSender;

type Msg = &'static str;
type Output = Vec<InputMessage<Msg>>;
type Failure = Error<String, String, String>;

fn party(number: u8) -> PartyIndex {
    let mut bytes = [0u8; 32];
    bytes[31] = number;
    PartyIndex(bytes)
}

fn parties(numbers: &[u8]) -> Parties {
    Parties::try_from(numbers.iter().map(|number| party(*number)).collect::<Vec<_>>()).unwrap()
}

fn broadcast(body: Msg) -> OutputMessage<Msg> {
    OutputMessage { recipient: Address::Broadcast, body }
}

fn to(number: u8, body: Msg) -> OutputMessage<Msg> {
    OutputMessage { recipient: Address::Peer(party(number)), body }
}

fn from(number: u8, body: Msg) -> InputMessage<Msg> {
    InputMessage { sender: party(number), body }
}

/// One round of a scripted protocol.
struct Round {
    sends: Option<Vec<OutputMessage<Msg>>>,
    needs: usize,
    rejects: Option<Msg>,
    then: Option<Result<(), String>>,
}

/// A protocol that goes through its rounds as scripted and counts what it is
/// asked.
struct Script {
    rounds: VecDeque<Round>,
    shown: Vec<InputMessage<Msg>>,
    completeness_asked_of: Vec<usize>,
    consumed: Vec<Vec<InputMessage<Msg>>>,
}

impl Script {
    fn new(rounds: Vec<Round>) -> Script {
        Script {
            rounds: rounds.into(),
            shown: Vec::new(),
            completeness_asked_of: Vec::new(),
            consumed: Vec::new(),
        }
    }

    fn start(&mut self) -> Option<Vec<OutputMessage<Msg>>> {
        self.rounds[0].sends.take()
    }

    fn is_message_expected(&mut self, msg: &InputMessage<Msg>, _received: &[InputMessage<Msg>]) -> bool {
        self.shown.push(msg.clone());
        self.rounds[0].rejects != Some(msg.body)
    }

    fn is_input_complete(&mut self, received: &[InputMessage<Msg>]) -> bool {
        self.completeness_asked_of.push(received.len());
        received.len() >= self.rounds[0].needs
    }

    fn consume(&mut self, received: Vec<InputMessage<Msg>>) -> Transition<Output, String> {
        self.consumed.push(received.clone());
        let round = self.rounds.pop_front().unwrap();
        match round.then {
            None => Transition::NewState,
            Some(Ok(())) => Transition::FinalState(Ok(received)),
            Some(Err(cause)) => Transition::FinalState(Err(cause)),
        }
    }
}

/// A transport that delivers what it was loaded with and records what it is
/// given.
struct Wire {
    inbox: VecDeque<Result<Incoming<Msg>, String>>,
    sent: Vec<Outgoing<Msg>>,
    unknown: Vec<PartyIndex>,
    flushes: usize,
    pulls: usize,
    refuses_to_send: bool,
}

impl Wire {
    fn loaded(items: Vec<Result<Incoming<Msg>, String>>) -> Wire {
        Wire {
            inbox: items.into(),
            sent: Vec::new(),
            unknown: Vec::new(),
            flushes: 0,
            pulls: 0,
            refuses_to_send: false,
        }
    }
}

fn delivered(sender: u16, msg: Msg) -> Result<Incoming<Msg>, String> {
    Ok(Incoming { sender, msg })
}

/// Performs what the driver asks for until it stops.
fn run(
    driver: &mut Driver<Msg>,
    script: &mut Script,
    wire: &mut Wire,
) -> Result<Output, Failure> {
    let mut action: Action<Msg, Output, String, String, String> = Action::Start;
    loop {
        let event = match action {
            Action::Start => Event::Started(script.start()),
            Action::Send { batch, unknown } => {
                wire.unknown.extend(unknown.iter().map(|unknown| unknown.recipient));
                if wire.refuses_to_send {
                    Event::Sent(Err(String::from("broken pipe")))
                } else {
                    wire.sent.extend(batch);
                    wire.flushes += 1;
                    Event::Sent(Ok(()))
                }
            }
            Action::Receive => {
                wire.pulls += 1;
                Event::Received(wire.inbox.pop_front())
            }
            Action::CheckExpected => {
                let candidate = driver.candidate().unwrap();
                Event::Expected(script.is_message_expected(candidate, driver.received()))
            }
            Action::CheckComplete => Event::Complete(script.is_input_complete(driver.received())),
            Action::Consume(batch) => Event::Consumed(script.consume(batch)),
            Action::Finish(result) => return result,
        };
        action = driver.step(event).unwrap();
    }
}

fn one_round(sends: Option<Vec<OutputMessage<Msg>>>, needs: usize) -> Vec<Round> {
    vec![Round { sends, needs, rejects: None, then: Some(Ok(())) }]
}

#[test]
fn a_new_driver_waits_for_the_state_to_start() {
    let driver: Driver<Msg> = Driver::new(1, parties(&[1, 2, 3]));
    assert!(matches!(driver.phase(), Phase::Starting));
    assert_eq!(driver.own_position(), 1);
    assert_eq!(driver.parties().len(), 3);
    assert!(driver.received().is_empty());
    assert!(driver.candidate().is_none());
}

#[test]
fn a_message_to_a_stranger_is_dropped_and_the_round_goes_on() {
    let mut driver = Driver::new(0, parties(&[1, 2]));
    let mut script = Script::new(one_round(Some(vec![to(9, "lost"), to(2, "kept")]), 1));
    let mut wire = Wire::loaded(vec![delivered(1, "reply")]);
    let output = run(&mut driver, &mut script, &mut wire).unwrap();
    assert_eq!(wire.sent, vec![Outgoing { recipient: Some(1), msg: "kept" }]);
    assert_eq!(wire.unknown, vec![party(9)]);
    assert_eq!(wire.flushes, 1);
    assert_eq!(output, vec![from(2, "reply")]);
    assert!(matches!(driver.phase(), Phase::Finished));
}

#[test]
fn a_state_with_nothing_to_send_leaves_the_transport_alone() {
    let mut driver = Driver::new(0, parties(&[1, 2]));
    let mut script = Script::new(one_round(None, 1));
    let mut wire = Wire::loaded(vec![delivered(1, "reply")]);
    let output = run(&mut driver, &mut script, &mut wire).unwrap();
    assert!(wire.sent.is_empty());
    assert_eq!(wire.flushes, 0);
    assert_eq!(output, vec![from(2, "reply")]);
}

#[test]
fn an_empty_list_of_messages_is_still_flushed() {
    let mut driver = Driver::new(0, parties(&[1, 2]));
    let mut script = Script::new(one_round(Some(Vec::new()), 1));
    let mut wire = Wire::loaded(vec![delivered(1, "reply")]);
    run(&mut driver, &mut script, &mut wire).unwrap();
    assert!(wire.sent.is_empty());
    assert_eq!(wire.flushes, 1);
}

#[test]
fn the_partys_own_message_is_never_shown_to_the_state() {
    let mut driver = Driver::new(1, parties(&[1, 2, 3]));
    let mut script = Script::new(one_round(Some(vec![broadcast("mine")]), 2));
    let mut wire = Wire::loaded(vec![
        delivered(1, "mine"),
        delivered(0, "first"),
        delivered(1, "mine"),
        delivered(2, "second"),
    ]);
    let output = run(&mut driver, &mut script, &mut wire).unwrap();
    assert_eq!(output, vec![from(1, "first"), from(3, "second")]);
    assert_eq!(script.shown, vec![from(1, "first"), from(3, "second")]);
    assert_eq!(script.completeness_asked_of, vec![1, 2]);
    assert_eq!(script.consumed, vec![vec![from(1, "first"), from(3, "second")]]);
    assert_eq!(wire.pulls, 4);
}

#[test]
fn an_own_position_outside_the_list_is_passed_over_too() {
    let mut driver = Driver::new(7, parties(&[1, 2]));
    let mut script = Script::new(one_round(None, 1));
    let mut wire = Wire::loaded(vec![delivered(7, "echo"), delivered(0, "real")]);
    let output = run(&mut driver, &mut script, &mut wire).unwrap();
    assert_eq!(output, vec![from(1, "real")]);
}

#[test]
fn an_unexpected_message_ends_the_computation() {
    let mut driver = Driver::new(0, parties(&[1, 2, 3]));
    let mut script = Script::new(vec![Round {
        sends: None,
        needs: 2,
        rejects: Some("bad"),
        then: Some(Ok(())),
    }]);
    let mut wire =
        Wire::loaded(vec![delivered(1, "good"), delivered(2, "bad"), delivered(1, "late")]);
    let error = run(&mut driver, &mut script, &mut wire).unwrap_err();
    assert!(matches!(error, Error::ReceivedUnexpectedMessage { sender: 2 }));
    assert!(script.consumed.is_empty());
    assert_eq!(script.shown, vec![from(2, "good"), from(3, "bad")]);
    assert_eq!(driver.received(), &[from(2, "good")]);
    assert_eq!(wire.pulls, 2);
    assert!(matches!(driver.phase(), Phase::Finished));
}

#[test]
fn the_end_of_the_transport_before_completion_is_an_error() {
    let mut driver = Driver::new(0, parties(&[1, 2]));
    let mut script = Script::new(one_round(Some(vec![broadcast("ping")]), 1));
    let mut wire = Wire::loaded(Vec::new());
    let error = run(&mut driver, &mut script, &mut wire).unwrap_err();
    assert!(matches!(error, Error::UnexpectedEof));
    assert_eq!(wire.sent, vec![Outgoing { recipient: None, msg: "ping" }]);
    assert_eq!(wire.flushes, 1);
    assert_eq!(wire.pulls, 1);
    assert!(script.consumed.is_empty());
    let idle: Option<Action<Msg, Output, String, String, String>> =
        driver.step(Event::Started(Some(vec![broadcast("again")])));
    assert!(idle.is_none());
    let idle: Option<Action<Msg, Output, String, String, String>> =
        driver.step(Event::Received(None));
    assert!(idle.is_none());
}

#[test]
fn the_end_of_the_transport_in_the_middle_of_a_round_is_an_error() {
    let mut driver = Driver::new(0, parties(&[1, 2, 3]));
    let mut script = Script::new(one_round(None, 2));
    let mut wire = Wire::loaded(vec![delivered(2, "only")]);
    let error = run(&mut driver, &mut script, &mut wire).unwrap_err();
    assert!(matches!(error, Error::UnexpectedEof));
    assert!(script.consumed.is_empty());
}

#[test]
fn a_failure_of_the_transport_to_receive_is_an_error() {
    let mut driver = Driver::new(0, parties(&[1, 2]));
    let mut script = Script::new(one_round(None, 1));
    let mut wire = Wire::loaded(vec![Err(String::from("reset")), delivered(1, "late")]);
    let error = run(&mut driver, &mut script, &mut wire).unwrap_err();
    assert!(matches!(error, Error::ReceiveNextMessage(cause) if cause == "reset"));
    assert!(script.shown.is_empty());
}

#[test]
fn a_failure_of_the_transport_to_send_is_an_error() {
    let mut driver = Driver::new(0, parties(&[1, 2]));
    let mut script = Script::new(one_round(Some(vec![broadcast("ping")]), 1));
    let mut wire = Wire::loaded(vec![delivered(1, "reply")]);
    wire.refuses_to_send = true;
    let error = run(&mut driver, &mut script, &mut wire).unwrap_err();
    assert!(matches!(error, Error::SendMessage(cause) if cause == "broken pipe"));
    assert_eq!(wire.pulls, 0);
}

#[test]
fn a_sender_outside_the_list_is_an_error() {
    let mut driver = Driver::new(0, parties(&[1, 2]));
    let mut script = Script::new(one_round(None, 1));
    let mut wire = Wire::loaded(vec![delivered(2, "who")]);
    let error = run(&mut driver, &mut script, &mut wire).unwrap_err();
    assert!(matches!(error, Error::UnknownSender(UnknownSender { sender: 2 })));
    assert!(script.shown.is_empty());
}

#[test]
fn an_error_of_the_protocol_is_handed_on() {
    let mut driver = Driver::new(0, parties(&[1, 2]));
    let mut script = Script::new(vec![Round {
        sends: None,
        needs: 1,
        rejects: None,
        then: Some(Err(String::from("bad share"))),
    }]);
    let mut wire = Wire::loaded(vec![delivered(1, "share")]);
    let error = run(&mut driver, &mut script, &mut wire).unwrap_err();
    assert!(matches!(error, Error::ProtocolError(cause) if cause == "bad share"));
    assert_eq!(script.consumed, vec![vec![from(2, "share")]]);
}

#[test]
fn each_round_starts_with_an_empty_list_of_received_messages() {
    let mut driver = Driver::new(2, parties(&[1, 2, 3]));
    let mut script = Script::new(vec![
        Round { sends: Some(vec![broadcast("one")]), needs: 2, rejects: None, then: None },
        Round { sends: Some(vec![to(1, "two")]), needs: 1, rejects: None, then: None },
        Round { sends: None, needs: 2, rejects: None, then: Some(Ok(())) },
    ]);
    let mut wire = Wire::loaded(vec![
        delivered(0, "a"),
        delivered(1, "b"),
        delivered(1, "c"),
        delivered(1, "d"),
        delivered(0, "e"),
        delivered(0, "unread"),
    ]);
    let output = run(&mut driver, &mut script, &mut wire).unwrap();
    assert_eq!(output, vec![from(2, "d"), from(1, "e")]);
    assert_eq!(
        script.consumed,
        vec![
            vec![from(1, "a"), from(2, "b")],
            vec![from(2, "c")],
            vec![from(2, "d"), from(1, "e")],
        ]
    );
    assert_eq!(
        wire.sent,
        vec![Outgoing { recipient: None, msg: "one" }, Outgoing { recipient: Some(0), msg: "two" }]
    );
    assert_eq!(wire.flushes, 2);
    assert_eq!(wire.pulls, 5);
    assert_eq!(wire.inbox.len(), 1);
}

#[test]
fn an_event_that_is_not_awaited_changes_nothing() {
    let mut driver: Driver<Msg> = Driver::new(0, parties(&[1, 2]));
    let answer: Option<Action<Msg, Output, String, String, String>> =
        driver.step(Event::Expected(true));
    assert!(answer.is_none());
    assert!(matches!(driver.phase(), Phase::Starting));
    let answer: Option<Action<Msg, Output, String, String, String>> =
        driver.step(Event::Received(Some(delivered(1, "early"))));
    assert!(answer.is_none());
    assert!(matches!(driver.phase(), Phase::Starting));
    assert!(driver.received().is_empty());
    let answer: Option<Action<Msg, Output, String, String, String>> =
        driver.step(Event::Started(None));
    assert!(matches!(answer, Some(Action::Receive)));
    assert!(matches!(driver.phase(), Phase::Receiving));
    let answer: Option<Action<Msg, Output, String, String, String>> =
        driver.step(Event::Complete(true));
    assert!(answer.is_none());
    assert!(matches!(driver.phase(), Phase::Receiving));
}

#[test]
fn the_candidate_is_held_while_the_state_is_asked() {
    let mut driver: Driver<Msg> = Driver::new(0, parties(&[1, 2]));
    let _: Option<Action<Msg, Output, String, String, String>> = driver.step(Event::Started(None));
    let answer: Option<Action<Msg, Output, String, String, String>> =
        driver.step(Event::Received(Some(delivered(1, "hello"))));
    assert!(matches!(answer, Some(Action::CheckExpected)));
    assert_eq!(driver.candidate(), Some(&from(2, "hello")));
    assert!(matches!(driver.phase(), Phase::Validating { sender: 1, .. }));
    assert!(driver.received().is_empty());
    let answer: Option<Action<Msg, Output, String, String, String>> =
        driver.step(Event::Expected(true));
    assert!(matches!(answer, Some(Action::CheckComplete)));
    assert!(driver.candidate().is_none());
    assert_eq!(driver.received(), &[from(2, "hello")]);
    let answer: Option<Action<Msg, Output, String, String, String>> =
        driver.step(Event::Complete(true));
    assert!(matches!(answer, Some(Action::Consume(batch)) if batch == vec![from(2, "hello")]));
    assert!(driver.received().is_empty());
    assert!(matches!(driver.phase(), Phase::Consuming));
}

/// One party of a computation that is run in turns with the others.
struct Seat {
    driver: Driver<Msg>,
    script: Script,
    action: Option<Action<Msg, Output, String, String, String>>,
    result: Option<Result<Output, Failure>>,
}

/// Runs all the parties against one another until each has stopped. A
/// broadcast reaches every party, the sender too.
fn run_together(seats: &mut Vec<Seat>) {
    let mut inboxes: Vec<VecDeque<Incoming<Msg>>> = seats.iter().map(|_| VecDeque::new()).collect();
    loop {
        let mut moved = false;
        for position in 0..seats.len() {
            let seat = &mut seats[position];
            let Some(action) = seat.action.take() else {
                continue;
            };
            let event = match action {
                Action::Start => Event::Started(seat.script.start()),
                Action::Send { batch, .. } => {
                    for outgoing in batch {
                        let incoming = Incoming { sender: position as u16, msg: outgoing.msg };
                        match outgoing.recipient {
                            Some(recipient) => inboxes[recipient as usize].push_back(incoming),
                            None => {
                                for inbox in inboxes.iter_mut() {
                                    inbox.push_back(incoming.clone());
                                }
                            }
                        }
                    }
                    Event::Sent(Ok(()))
                }
                Action::Receive => match inboxes[position].pop_front() {
                    Some(incoming) => Event::Received(Some(Ok(incoming))),
                    None => {
                        seat.action = Some(Action::Receive);
                        continue;
                    }
                },
                Action::CheckExpected => {
                    let candidate = seat.driver.candidate().unwrap();
                    let received = seat.driver.received();
                    Event::Expected(seat.script.is_message_expected(candidate, received))
                }
                Action::CheckComplete => {
                    Event::Complete(seat.script.is_input_complete(seat.driver.received()))
                }
                Action::Consume(batch) => Event::Consumed(seat.script.consume(batch)),
                Action::Finish(result) => {
                    seat.result = Some(result);
                    moved = true;
                    continue;
                }
            };
            seat.action = Some(seat.driver.step(event).unwrap());
            moved = true;
        }
        if !moved {
            return;
        }
    }
}

fn seat(position: u16, parties: Parties, rounds: Vec<Round>) -> Seat {
    Seat {
        driver: Driver::new(position, parties),
        script: Script::new(rounds),
        action: Some(Action::Start),
        result: None,
    }
}

#[test]
fn two_parties_exchange_one_message_each() {
    let mut seats = vec![
        seat(0, parties(&[1, 2]), one_round(Some(vec![broadcast("ping")]), 1)),
        seat(1, parties(&[1, 2]), one_round(Some(vec![broadcast("ping")]), 1)),
    ];
    run_together(&mut seats);
    let second = seats.pop().unwrap();
    let first = seats.pop().unwrap();
    assert_eq!(first.result.unwrap().unwrap(), vec![from(2, "ping")]);
    assert_eq!(second.result.unwrap().unwrap(), vec![from(1, "ping")]);
    assert_eq!(first.script.shown, vec![from(2, "ping")]);
    assert_eq!(second.script.shown, vec![from(1, "ping")]);
}

#[test]
fn three_parties_go_through_two_rounds() {
    let rounds = |first: Msg, second: Msg| {
        vec![
            Round { sends: Some(vec![broadcast(first)]), needs: 2, rejects: None, then: None },
            Round {
                sends: Some(vec![to(1, second), to(2, second), to(3, second), to(4, second)]),
                needs: 2,
                rejects: None,
                then: Some(Ok(())),
            },
        ]
    };
    let mut seats = vec![
        seat(0, parties(&[1, 2, 3]), rounds("a1", "a2")),
        seat(1, parties(&[1, 2, 3]), rounds("b1", "b2")),
        seat(2, parties(&[1, 2, 3]), rounds("c1", "c2")),
    ];
    run_together(&mut seats);
    let mut outputs: Vec<Output> =
        seats.into_iter().map(|seat| seat.result.unwrap().unwrap()).collect();
    for output in outputs.iter_mut() {
        output.sort_by_key(|msg| msg.sender);
    }
    assert_eq!(outputs[0], vec![from(2, "b2"), from(3, "c2")]);
    assert_eq!(outputs[1], vec![from(1, "a2"), from(3, "c2")]);
    assert_eq!(outputs[2], vec![from(1, "a2"), from(2, "b2")]);
}
