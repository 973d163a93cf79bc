//! A verified model of a fiat on/off-ramp bridge contract: token whitelist,
//! deposits with receipts, time-locked withdrawals, a two-step admin handover,
//! a timelock for admin actions and an emergency recovery path.
pub mod addr;
pub mod addr_map;
pub mod types;
pub mod effects;
pub mod model;
pub mod bridge;
pub mod laws;
