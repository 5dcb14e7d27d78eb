//! Execution driver for round-based multi-party protocols.
//!
//! A protocol state machine addresses parties by identity; a transport
//! addresses them by their position in the session's party list. This crate
//! holds the party list, the readdressing of messages from one way to the other,
//! and the decisions of the driver that carries a protocol through its rounds.

pub mod addressing;
pub mod driver;
pub mod error;
pub mod identity;
pub mod message;
pub mod parties;
pub mod reception;
pub mod session;

pub use addressing::UnknownDestination;
pub use addressing::convert_incoming_to_input_message;
pub use addressing::convert_output_message_to_outgoing;
pub use addressing::convert_output_messages;
pub use driver::Action;
pub use driver::Driver;
pub use driver::Event;
pub use driver::Phase;
pub use driver::Transition;
pub use error::Error;
pub use error::UnknownSender;
pub use identity::PartyIndex;
pub use identity::Rank;
pub use message::Address;
pub use message::Incoming;
pub use message::InputMessage;
pub use message::Outgoing;
pub use message::OutputMessage;
pub use parties::InvalidPartiesList;
pub use parties::Parties;
pub use parties::is_strictly_sorted;
