//! Messages as the protocol and as the transport address them.

use crate::identity::PartyIndex;
use vstd::prelude::*;

verus! {

/// Whom the protocol sends a message to.
#[derive(Clone, Copy, Debug, PartialEq, Eq)]
pub enum Address {
    /// One party, named by its identity.
    Peer(PartyIndex),
    /// Every party of the computation.
    Broadcast,
}

/// A message that the protocol wants sent.
#[derive(Clone, Debug, PartialEq, Eq)]
pub struct OutputMessage<M> {
    /// Whom the message is for.
    pub recipient: Address,
    /// What is sent.
    pub body: M,
}

/// A message that the protocol takes in.
#[derive(Clone, Debug, PartialEq, Eq)]
pub struct InputMessage<M> {
    /// Identity of the party that sent the message.
    pub sender: PartyIndex,
    /// What was sent.
    pub body: M,
}

/// A message handed to the transport.
#[derive(Clone, Debug, PartialEq, Eq)]
pub struct Outgoing<M> {
    /// Position of the party that the message is for; `None` sends it to all.
    pub recipient: Option<u16>,
    /// What is sent.
    pub msg: M,
}

/// A message that the transport delivered.
#[derive(Clone, Debug, PartialEq, Eq)]
pub struct Incoming<M> {
    /// Position of the party that sent the message.
    pub sender: u16,
    /// What was sent.
    pub msg: M,
}

} // verus!
