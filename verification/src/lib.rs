//! The decisions behind the communication streams of a GRANDPA voter.
//!
//! GRANDPA nodes gossip their votes, the commits that complete a round, and the
//! catch-ups that help a node that has fallen behind. This crate decides what
//! a node does with each of them: what it signs and sends ([`outgoing`]), what
//! it takes in and whom it reports ([`incoming`], [`check`]), and what it does
//! at startup and when a round or a voter set begins ([`bridge`]). A decision
//! is a list of [`action::Action`]s, which the surrounding program carries out
//! in order.
//!
//! The byte formats stand in [`layout`] and [`codec`], gossip topics in
//! [`topic`], signatures in [`signing`] and the voter set in [`voters`]. What
//! holds across all of them is proved in [`quorum`] and [`laws`].

pub mod action;
pub mod benefit;
pub mod bridge;
pub mod check;
pub mod codec;
pub mod cost;
pub mod crypto;
pub mod incoming;
pub mod laws;
pub mod layout;
pub mod outgoing;
pub mod quorum;
pub mod signing;
pub mod topic;
pub mod types;
pub mod voters;
