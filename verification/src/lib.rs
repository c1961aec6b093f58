//! Verified core of a cross-chain message relay.
//!
//! A relayer proves to a destination contract that a message-emitting event
//! occurred in a specific block on a source chain.  This crate holds the
//! deterministic logic of that pipeline: the address codec shared by the two
//! chains' conventions, the byte-exact input and journal encodings crossing
//! the proving oracle's boundary, the event-matching rules, the environment
//! builder's validation steps, and the submission gate that refuses to relay
//! a proof built against the wrong verification program.  Network access,
//! signing and the proving oracle itself live outside, in ordinary code that
//! hands this crate plain values.

pub mod addr;
pub mod builder;
pub mod bytes;
pub mod error;
pub mod event;
pub mod gate;
pub mod input;
pub mod journal;
pub mod program;
pub mod words;
