//! The ledger state and its transitions.

pub mod boundary;
pub mod bounds;
pub mod certificates;
pub mod changes;
pub mod conway;
pub mod copy;
pub mod countable;
pub mod effects;
pub mod enact;
pub mod epoch;
pub mod eras;
pub mod formula;
pub mod governance;
pub mod holdings;
pub mod nonce;
pub mod origins;
pub mod primitives;
pub mod ratify;
pub mod rational;
pub mod rebuild;
pub mod registry;
pub mod rewards;
pub mod snapshot;
pub mod state;
pub mod steps;
pub mod validation;
pub mod voting;
pub mod wording;
