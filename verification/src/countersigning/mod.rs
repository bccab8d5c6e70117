//! The two-party commit: the initiator proposes a record, the counterparty
//! answers with its half of the authorisation or says that the proposal is
//! stale, and the initiator commits once it holds both halves.

pub mod common;
pub mod receiver;
pub mod sender;

