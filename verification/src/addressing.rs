//! Readdressing of messages: from identities to positions and back.

use crate::error::UnknownSender;
use crate::identity::PartyIndex;
use crate::message::Address;
use crate::message::Incoming;
use crate::message::InputMessage;
use crate::message::Outgoing;
use crate::message::OutputMessage;
use crate::parties::identity_at;
use crate::parties::position_of;
use crate::parties::Parties;
use vstd::prelude::*;

verus! {

/// A message is addressed to an identity that is not in the party list.
#[derive(Clone, Copy, Debug, PartialEq, Eq)]
pub struct UnknownDestination {
    /// The identity that the protocol named as the recipient.
    pub recipient: PartyIndex,
}

/// What the transport is to send for `msg`: a broadcast stays one, and a
/// message to one party goes to that party's position in `parties`.
pub open spec fn outgoing_of<M>(parties: Seq<PartyIndex>, msg: OutputMessage<M>) -> Result<
    Outgoing<M>,
    UnknownDestination,
> {
    match msg.recipient {
        Address::Broadcast => Ok(Outgoing { recipient: None, msg: msg.body }),
        Address::Peer(identity) => match position_of(parties, identity) {
            Some(position) => Ok(Outgoing { recipient: Some(position), msg: msg.body }),
            None => Err(UnknownDestination { recipient: identity }),
        },
    }
}

/// What the protocol is to take in for `incoming`: the same body, from the
/// identity that holds the sender's position in `parties`.
pub open spec fn input_of<M>(parties: Seq<PartyIndex>, incoming: Incoming<M>) -> Result<
    InputMessage<M>,
    UnknownSender,
> {
    match identity_at(parties, incoming.sender) {
        Some(identity) => Ok(InputMessage { sender: identity, body: incoming.msg }),
        None => Err(UnknownSender { sender: incoming.sender }),
    }
}

/// Readdresses a message of the protocol for the transport.
pub fn convert_output_message_to_outgoing<M>(parties: &Parties, msg: OutputMessage<M>) -> (outgoing:
    Result<Outgoing<M>, UnknownDestination>)
    ensures
        outgoing == outgoing_of(parties@, msg),
{
    let recipient = match msg.recipient {
        Address::Peer(identity) => {
            match parties.find(&identity) {
                Some(position) => Some(position),
                None => {
                    return Err(UnknownDestination { recipient: identity });
                },
            }
        },
        Address::Broadcast => None,
    };
    Ok(Outgoing { recipient, msg: msg.body })
}

/// Readdresses a message of the transport for the protocol.
pub fn convert_incoming_to_input_message<M>(parties: &Parties, incoming: Incoming<M>) -> (input:
    Result<InputMessage<M>, UnknownSender>)
    ensures
        input == input_of(parties@, incoming),
{
    match parties.get(incoming.sender) {
        Some(identity) => Ok(InputMessage { sender: *identity, body: incoming.msg }),
        None => Err(UnknownSender { sender: incoming.sender }),
    }
}

/// The message that the transport is to send for `msg`, if its recipient is
/// in `parties`.
pub open spec fn deliverable<M>(parties: Seq<PartyIndex>, msg: OutputMessage<M>) -> Option<
    Outgoing<M>,
> {
    match outgoing_of(parties, msg) {
        Ok(outgoing) => Some(outgoing),
        Err(_) => None,
    }
}

/// The recipient of `msg`, if it is not in `parties`.
pub open spec fn undeliverable<M>(parties: Seq<PartyIndex>, msg: OutputMessage<M>) -> Option<
    UnknownDestination,
> {
    match outgoing_of(parties, msg) {
        Ok(_) => None,
        Err(unknown) => Some(unknown),
    }
}

/// What the transport is to send for the messages of one round: each
/// message readdressed, in the order given, without those whose recipient is
/// not in `parties`.
pub open spec fn outgoing_batch<M>(parties: Seq<PartyIndex>, msgs: Seq<OutputMessage<M>>) -> Seq<
    Outgoing<M>,
> {
    msgs.filter_map(|msg: OutputMessage<M>| deliverable(parties, msg))
}

/// The recipients of `msgs` that are not in `parties`, in the order of the
/// messages.
pub open spec fn unknown_destinations<M>(
    parties: Seq<PartyIndex>,
    msgs: Seq<OutputMessage<M>>,
) -> Seq<UnknownDestination> {
    msgs.filter_map(|msg: OutputMessage<M>| undeliverable(parties, msg))
}

/// Readdresses the messages of one round for the transport. Those whose
/// recipient takes no part in the computation are left out; their
/// recipients are returned beside the batch.
pub fn convert_output_messages<M>(parties: &Parties, msgs: Vec<OutputMessage<M>>) -> (converted: (
    Vec<Outgoing<M>>,
    Vec<UnknownDestination>,
))
    ensures
        converted.0@ == outgoing_batch(parties@, msgs@),
        converted.1@ == unknown_destinations(parties@, msgs@),
{
    let ghost all = msgs@;
    let mut batch: Vec<Outgoing<M>> = Vec::new();
    let mut dropped: Vec<UnknownDestination> = Vec::new();
    for msg in iter: msgs
        invariant
            iter.seq() == all,
            batch@ == outgoing_batch(parties@, all.take(iter.index())),
            dropped@ == unknown_destinations(parties@, all.take(iter.index())),
    {
        proof {
            all.lemma_filter_map_take_succ(
                |msg: OutputMessage<M>| deliverable(parties@, msg),
                iter.index(),
            );
            all.lemma_filter_map_take_succ(
                |msg: OutputMessage<M>| undeliverable(parties@, msg),
                iter.index(),
            );
        }
        match convert_output_message_to_outgoing(parties, msg) {
            Ok(outgoing) => {
                batch.push(outgoing);
            },
            Err(unknown) => {
                dropped.push(unknown);
            },
        }
    }
    assert(all.take(all.len() as int) == all);
    (batch, dropped)
}

/// A message whose recipient is not in the party list leaves no trace in
/// what is sent: the other messages go out as if it had not been there.
pub proof fn lemma_unknown_destination_is_dropped<M>(
    parties: Seq<PartyIndex>,
    msgs: Seq<OutputMessage<M>>,
    i: int,
)
    requires
        0 <= i < msgs.len(),
        outgoing_of(parties, msgs[i]) is Err,
    ensures
        outgoing_batch(parties, msgs) == outgoing_batch(parties, msgs.remove(i)),
    decreases msgs.len(),
{
    if i == msgs.len() - 1 {
        assert(msgs.remove(i) == msgs.drop_last());
    } else {
        let shorter = msgs.remove(i);
        assert(shorter.last() == msgs.last());
        assert(shorter.drop_last() == msgs.drop_last().remove(i));
        lemma_unknown_destination_is_dropped(parties, msgs.drop_last(), i);
    }
}

/// Where every recipient is in the party list, each message is sent, in the
/// order given.
pub proof fn lemma_known_destinations_are_kept<M>(
    parties: Seq<PartyIndex>,
    msgs: Seq<OutputMessage<M>>,
)
    requires
        forall|i: int| 0 <= i < msgs.len() ==> outgoing_of(parties, #[trigger] msgs[i]) is Ok,
    ensures
        outgoing_batch(parties, msgs).len() == msgs.len(),
        forall|i: int|
            0 <= i < msgs.len() ==> outgoing_of(parties, #[trigger] msgs[i]) == Ok::<
                _,
                UnknownDestination,
            >(outgoing_batch(parties, msgs)[i]),
    decreases msgs.len(),
{
    if msgs.len() > 0 {
        let rest = msgs.drop_last();
        assert forall|i: int| 0 <= i < rest.len() implies outgoing_of(
            parties,
            #[trigger] rest[i],
        ) is Ok by {
            assert(rest[i] == msgs[i]);
        }
        lemma_known_destinations_are_kept(parties, rest);
        assert forall|i: int| 0 <= i < msgs.len() implies outgoing_of(
            parties,
            #[trigger] msgs[i],
        ) == Ok::<_, UnknownDestination>(outgoing_batch(parties, msgs)[i]) by {
            if i < rest.len() {
                assert(rest[i] == msgs[i]);
            }
        }
    }
}

/// Every message of a round is either sent or reported as undeliverable.
pub proof fn lemma_each_message_is_sent_or_reported<M>(
    parties: Seq<PartyIndex>,
    msgs: Seq<OutputMessage<M>>,
)
    ensures
        outgoing_batch(parties, msgs).len() + unknown_destinations(parties, msgs).len()
            == msgs.len(),
    decreases msgs.len(),
{
    if msgs.len() > 0 {
        lemma_each_message_is_sent_or_reported(parties, msgs.drop_last());
    }
}

} // verus!
