//! A rotating savings group ("ajo"): members pool a fixed contribution every
//! cycle and the whole pot goes to one member per cycle, in the order in which
//! the members were admitted.
//!
//! The library is a pure state machine. Every instruction takes the current
//! [`state::State`] and plain values and either changes the state and returns
//! what has to be sent out, or fails and leaves the state as it was.

pub mod amount;
pub mod coin;
pub mod contract;
pub mod error;
pub mod frequency;
pub mod laws;
pub mod ledger;
pub mod membership;
pub mod msg;
pub mod plan;
pub mod query;
pub mod state;
pub mod text;
pub mod treasury;
pub mod validate;
