//! What can end a computation early.

use vstd::prelude::*;
use vstd::std_specs::convert::FromSpecImpl;

verus! {

/// A message came from a position that no party of the list holds.
#[derive(Clone, Copy, Debug, PartialEq, Eq, Structural)]
pub struct UnknownSender {
    /// The position that the transport named as the sender.
    pub sender: u16,
}

/// Why a computation was given up.
#[derive(Debug)]
pub enum Error<PErr, IErr, OErr> {
    /// The protocol itself ended with an error.
    ProtocolError(PErr),
    /// The transport failed to deliver the next message.
    ReceiveNextMessage(IErr),
    /// The protocol did not expect the message that `sender` sent.
    ReceivedUnexpectedMessage {
        /// Position of the party that sent the message.
        sender: u16,
    },
    /// The transport ran out of messages before the round's input was complete.
    UnexpectedEof,
    /// The transport failed to send a message.
    SendMessage(OErr),
    /// A message came from a position outside the party list.
    UnknownSender(UnknownSender),
}

impl<PErr, IErr, OErr> From<UnknownSender> for Error<PErr, IErr, OErr> {
    fn from(unknown: UnknownSender) -> (error: Self) {
        Error::UnknownSender(unknown)
    }
}

impl<PErr, IErr, OErr> FromSpecImpl<UnknownSender> for Error<PErr, IErr, OErr> {
    open spec fn obeys_from_spec() -> bool {
        true
    }

    open spec fn from_spec(unknown: UnknownSender) -> Self {
        Error::UnknownSender(unknown)
    }
}

} // verus!
