//! Escrow-backed attendance commitments: sessions, deposits, absence votes and
//! the settlement that pays the stakes back or out.

pub mod address;
pub mod contract;
pub mod error;
pub mod keys;
pub mod laws;
pub mod model;
pub mod session;
pub mod settlement;
pub mod word;

pub use address::Address;
pub use contract::TozlowSession;
pub use error::TozlowError;
pub use model::{Outcome, Record};
pub use session::Session;
pub use settlement::{Payout, Settlement, SettlementRecord};
pub use word::U256;
