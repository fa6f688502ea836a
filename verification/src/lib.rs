//! A six-horse race engine with exacta wagering: a fixed strength model and
//! odds table, a seeded weighted draw for the finish order, a balance ledger,
//! and the lifecycle that ties wagering, the draw and settlement together.

pub mod account;
pub mod engine;
pub mod laws;
pub mod ledger;
pub mod model;
pub mod odds;
pub mod outcome;
pub mod probability;
pub mod strength;
pub mod types;

pub use account::AccountId;
pub use engine::HorseRace;
pub use ledger::BalanceLedger;
pub use odds::OddsTable;
pub use probability::ExactaProbability;
pub use strength::Horse;
pub use types::{
    BetPlaced,
    Deposited,
    Error,
    ExactaBet,
    Payout,
    PayoutDistributed,
    RaceFinished,
    RaceResult,
    RaceStarted,
    RaceStatus,
    Withdrawn,
};
