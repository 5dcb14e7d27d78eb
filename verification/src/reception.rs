//! What the receiving of a round comes to: which messages the state is
//! given in the end, or which error ends the computation, and how many items
//! of the transport that takes.

use crate::addressing::input_of;
use crate::error::Error;
use crate::identity::PartyIndex;
use crate::message::Incoming;
use crate::message::InputMessage;
use vstd::prelude::*;

verus! {

/// How the state of a round answers the driver's two questions.
#[verifier::reject_recursive_types(M)]
pub struct Answers<M> {
    /// Whether a message is expected after the messages received so far.
    pub expects: spec_fn(InputMessage<M>, Seq<InputMessage<M>>) -> bool,
    /// Whether the messages received so far complete the input.
    pub completes: spec_fn(Seq<InputMessage<M>>) -> bool,
}

/// How a receive phase ends.
pub struct Reception<M, PErr, IErr, OErr> {
    /// The messages that the state takes in, or the error that ends the
    /// computation.
    pub outcome: Result<Seq<InputMessage<M>>, Error<PErr, IErr, OErr>>,
    /// How many items were taken from the transport.
    pub taken: nat,
}

/// How the receive phase of a round ends for the party at `own_position`
/// of `parties`, where `received` has been accepted already and the
/// transport holds `items` and then ends.
///
/// The items are taken in their order. An item that the transport failed to
/// receive ends the computation. A message from the party's own position is
/// passed over. Any other message must come from a position of the list and
/// be expected by the state; it is then added to the messages received, and
/// the phase ends as soon as the state finds them complete. If the items run
/// out before that, the computation ends too.
pub open spec fn reception<M, PErr, IErr, OErr>(
    parties: Seq<PartyIndex>,
    own_position: u16,
    answers: Answers<M>,
    items: Seq<Result<Incoming<M>, IErr>>,
    received: Seq<InputMessage<M>>,
) -> Reception<M, PErr, IErr, OErr>
    decreases items.len(),
{
    if items.len() == 0 {
        Reception { outcome: Err(Error::UnexpectedEof), taken: 0 }
    } else {
        match items.first() {
            Err(cause) => Reception { outcome: Err(Error::ReceiveNextMessage(cause)), taken: 1 },
            Ok(incoming) => {
                if incoming.sender == own_position {
                    reception(
                        parties,
                        own_position,
                        answers,
                        items.drop_first(),
                        received,
                    ).after_one_more()
                } else {
                    match input_of(parties, incoming) {
                        Err(unknown) => Reception {
                            outcome: Err(Error::UnknownSender(unknown)),
                            taken: 1,
                        },
                        Ok(message) => {
                            if !(answers.expects)(message, received) {
                                Reception {
                                    outcome: Err(
                                        Error::ReceivedUnexpectedMessage {
                                            sender: incoming.sender,
                                        },
                                    ),
                                    taken: 1,
                                }
                            } else if (answers.completes)(received.push(message)) {
                                Reception { outcome: Ok(received.push(message)), taken: 1 }
                            } else {
                                reception(
                                    parties,
                                    own_position,
                                    answers,
                                    items.drop_first(),
                                    received.push(message),
                                ).after_one_more()
                            }
                        },
                    }
                }
            },
        }
    }
}

impl<M, PErr, IErr, OErr> Reception<M, PErr, IErr, OErr> {
    /// The same end, reached after one more item.
    pub open spec fn after_one_more(self) -> Reception<M, PErr, IErr, OErr> {
        Reception { taken: self.taken + 1, ..self }
    }
}

/// A receive phase that ends with the state's input complete has taken at
/// least one item from the transport, and none ends beyond the items that
/// the transport holds.
pub proof fn lemma_reception_takes_items<M, PErr, IErr, OErr>(
    parties: Seq<PartyIndex>,
    own_position: u16,
    answers: Answers<M>,
    items: Seq<Result<Incoming<M>, IErr>>,
    received: Seq<InputMessage<M>>,
)
    ensures
        ({
            let told = reception::<M, PErr, IErr, OErr>(
                parties,
                own_position,
                answers,
                items,
                received,
            );
            &&& told.taken <= items.len()
            &&& told.outcome is Ok ==> told.taken >= 1
        }),
    decreases items.len(),
{
    if items.len() > 0 {
        match items.first() {
            Err(cause) => {},
            Ok(incoming) => {
                if incoming.sender == own_position {
                    lemma_reception_takes_items::<M, PErr, IErr, OErr>(
                        parties,
                        own_position,
                        answers,
                        items.drop_first(),
                        received,
                    );
                } else {
                    match input_of(parties, incoming) {
                        Err(unknown) => {},
                        Ok(message) => {
                            lemma_reception_takes_items::<M, PErr, IErr, OErr>(
                                parties,
                                own_position,
                                answers,
                                items.drop_first(),
                                received.push(message),
                            );
                        },
                    }
                }
            },
        }
    }
}

/// A message from the party's own position makes no difference to how a
/// receive phase ends: without it the phase ends in the same way, and takes
/// one item less if the message was reached at all.
pub proof fn lemma_own_message_makes_no_difference<M, PErr, IErr, OErr>(
    parties: Seq<PartyIndex>,
    own_position: u16,
    answers: Answers<M>,
    items: Seq<Result<Incoming<M>, IErr>>,
    received: Seq<InputMessage<M>>,
    i: int,
)
    requires
        0 <= i < items.len(),
        items[i] is Ok,
        items[i]->Ok_0.sender == own_position,
    ensures
        ({
            let with = reception::<M, PErr, IErr, OErr>(
                parties,
                own_position,
                answers,
                items,
                received,
            );
            let without = reception::<M, PErr, IErr, OErr>(
                parties,
                own_position,
                answers,
                items.remove(i),
                received,
            );
            &&& without.outcome == with.outcome
            &&& without.taken == if with.taken > i {
                with.taken - 1
            } else {
                with.taken as int
            }
        }),
    decreases items.len(),
{
    let rest = items.drop_first();
    if i == 0 {
        assert(items.remove(0) == rest);
        lemma_reception_takes_items::<M, PErr, IErr, OErr>(
            parties,
            own_position,
            answers,
            rest,
            received,
        );
    } else {
        let shorter = items.remove(i);
        assert(shorter.first() == items.first());
        assert(shorter.drop_first() == rest.remove(i - 1));
        assert(rest[i - 1] == items[i]);
        match items.first() {
            Err(cause) => {},
            Ok(incoming) => {
                if incoming.sender == own_position {
                    lemma_own_message_makes_no_difference::<M, PErr, IErr, OErr>(
                        parties,
                        own_position,
                        answers,
                        rest,
                        received,
                        i - 1,
                    );
                } else {
                    match input_of(parties, incoming) {
                        Err(unknown) => {},
                        Ok(message) => {
                            lemma_own_message_makes_no_difference::<M, PErr, IErr, OErr>(
                                parties,
                                own_position,
                                answers,
                                rest,
                                received.push(message),
                                i - 1,
                            );
                        },
                    }
                }
            },
        }
    }
}

/// A message that the state does not expect ends the receive phase at
/// once: the error names the position that sent it, and the state is given
/// nothing.
pub proof fn lemma_unexpected_message_ends_reception<M, PErr, IErr, OErr>(
    parties: Seq<PartyIndex>,
    own_position: u16,
    answers: Answers<M>,
    items: Seq<Result<Incoming<M>, IErr>>,
    received: Seq<InputMessage<M>>,
)
    requires
        items.len() > 0,
        items.first() is Ok,
        items.first()->Ok_0.sender != own_position,
        input_of(parties, items.first()->Ok_0) is Ok,
        !(answers.expects)(input_of(parties, items.first()->Ok_0)->Ok_0, received),
    ensures
        reception::<M, PErr, IErr, OErr>(parties, own_position, answers, items, received)
            == (Reception::<M, PErr, IErr, OErr> {
            outcome: Err(
                Error::ReceivedUnexpectedMessage { sender: items.first()->Ok_0.sender },
            ),
            taken: 1,
        }),
{
}

} // verus!
