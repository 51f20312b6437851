//! Core decision logic of a storage node in a peer-to-peer,
//! content-addressed network.
//!
//! A node answers the queries of its peers, proves to them that it holds
//! the chunks it claims to hold and challenges them to do the same,
//! replicates records to its neighbours, and accepts paid records once
//! their payment is found on the payment chain. This crate holds what the
//! node decides; waiting, sending and timing are left to its caller:
//!
//! - [`event`] turns events of the swarm driver into the actions that the
//!   runtime has to start, and [`runtime`] does the same for one step of
//!   the node's loop, timers included;
//! - [`query`] answers queries from what was looked up locally;
//! - [`challenge`], [`closest`] and [`chunk_proof`] are the storage
//!   challenge, from both sides;
//! - [`quote`] issues signed quotes, [`payment`] and [`network`] verify
//!   that a quote was paid, and [`put`] stores what was paid for;
//! - [`address`], [`bytes`], [`evm`], [`messages`] and [`store`] are the
//!   values all of this is about, [`hashing`] and [`random`] what the
//!   crate takes from other crates without proof, and [`node`] sets a
//!   node up.

pub mod address;
pub mod bytes;
pub mod challenge;
pub mod chunk_proof;
pub mod closest;
pub mod event;
pub mod evm;
pub mod hashing;
pub mod messages;
pub mod network;
pub mod node;
pub mod payment;
pub mod put;
pub mod query;
pub mod quote;
pub mod random;
pub mod runtime;
pub mod store;
