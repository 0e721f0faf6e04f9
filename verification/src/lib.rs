//! Time-bounded subscriptions between the creator of an offering and the
//! subscribers who pay for it: the record store, the lifecycle rules and the
//! listings, with their contracts.

pub mod contract;
pub mod error;
pub mod index;
pub mod key;
pub mod laws;
pub mod model;
pub mod response;
pub mod state;
pub mod subscription;
pub mod text;
pub mod time;

pub use crate::error::ContractError;
