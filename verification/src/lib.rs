//! Cardano ledger state: epoch transitions, rewards, governance, deposits and
//! the bookkeeping of a node that follows the chain, with machine-checked
//! contracts.

pub mod allotments;
pub mod bigint;
pub mod dump;
pub mod genesis;
pub mod hexa;
pub mod item;
pub mod ledger;
pub mod node;
pub mod sums;
pub mod table;
pub mod text;
