//! Custody and authorization core of a multi-asset venue.
//!
//! Users deposit fungible tokens into pooled custody accounts and get them
//! back only on two factors: the user signs the request, and a guardian
//! attests off-chain, with a signature over the request, that the withdrawal
//! was approved.
//!
//! The library holds the binary layout of the two records ([`state`], over
//! the maps of [`map_format`] and [`token_map`]), the wire form of the five
//! operations ([`instruction`]), the guardian's authorization ([`guardian`])
//! and the operations themselves ([`processor`]). An operation changes
//! nothing: it reads the accounts of a request and answers with the steps
//! that the host is to carry out. What holds of every request is stated in
//! [`laws`].

pub mod bytes;
pub mod error;
pub mod guardian;
pub mod instruction;
pub mod laws;
pub mod map_format;
pub mod processor;
pub mod pubkey;
pub mod state;
pub mod symbol;
pub mod token_account;
pub mod token_map;
