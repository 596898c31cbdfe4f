//! What a node does with the blocks that it follows.

pub mod block;
pub mod certs;
pub mod describe;
pub mod effects;
pub mod header;
pub mod pieces;
pub mod reading;
pub mod registry;
pub mod storage;
pub mod sync;
pub mod txs;
pub mod wording;
