//! Phase-sequenced distributed key generation and blind threshold signing.
//!
//! A participant of the key generation holds exactly one phase value at a
//! time and advances it with [`node::DKGPhase::run`], which consumes the value,
//! publishes what the phase produced to a shared board and hands back the next
//! phase. The curve, the phases' cryptography and the board itself are
//! supplied by the caller through the traits of [`group`], [`phases`] and
//! [`board`]. What every implementation shares is done here: the count of
//! who contributed, who is contested and who qualifies in [`tally`], and the
//! sum of the qualified deals in [`output`].
//!
//! [`tblind`] derives the unblinding of a single partial signature for any
//! threshold scheme that can unblind a full one.

pub mod board;
pub mod group;
pub mod node;
pub mod output;
pub mod phases;
pub mod poly;
pub mod tally;
pub mod tblind;
pub mod types;
