//! A username registry with per-name mailboxes, an account ledger and a
//! book of username sale offers, written as a verified state machine.
//!
//! Every operation takes the facts that the execution environment supplies
//! (the caller, the value attached to the call, the block time and height)
//! as arguments. Where an operation needs the host to move value or replace
//! code, it takes the host's report of that step as an argument too.

mod account;
mod message;
mod model;
mod records;
mod store;
mod transmitter;

pub use account::{bytes32_eq, AccountId, Balance, BlockNumber, Timestamp};
pub use message::{
    be_bytes, fingerprint_bytes, fingerprint_input, message_hash, messages_view, sha2_256_of,
    Content, Message, MessageType, MessageTypeView, MessageView, Username,
};
pub use records::{
    names_view, sales_view, AccountView, Error, NameView, OwnerInfo, Sale, SaleView, UserInfo,
    UsernameInfo,
};
pub use store::{Store, StoreKey};
pub use model::{is_first_offer_for, is_first_with_hash, offered_to, TransmitterView};
pub use transmitter::{Transmitter, INITIAL_FEE};
