//! The core of a note program for a ledger runtime: notes of a title and a
//! body, each kept in the storage slot of an account and changed only by the
//! identity that the note names as its authority.
//!
//! An instruction is a byte string ([`instruction`]) that is decoded into one
//! of three commands and carried out on the accounts it is given
//! ([`processor`]). Accounts are plain values here ([`account`]): the caller
//! hands in what the accounts hold and stores what comes back. An update and
//! a delete are done in one step. A create needs two services of the
//! runtime, one that names the rent-exempt balance of a slot and one that
//! allocates the slot, so it goes in steps between which the caller asks the
//! service and reports the answer ([`create`]).
//!
//! A note lies in its slot as 32 bytes of authority followed by the two
//! texts, each behind a little-endian `u32` byte count ([`state`], [`text`]).
//! Every function states what it returns and what it changes over these
//! byte-level descriptions, and a failure never changes an account.

pub mod account;
pub mod create;
pub mod error;
pub mod instruction;
pub mod processor;
pub mod pubkey;
pub mod state;
pub mod text;
