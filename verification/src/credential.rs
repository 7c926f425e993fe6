//! Provider accounts, their persisted credential facts, the single status
//! resolver and account selection within one target.

pub mod ids;
pub mod state;
pub mod account;
pub mod ranking;
pub mod quotient;
pub mod selection;
pub mod model_access;
pub mod smart_scheduling;
pub mod store;
pub mod proxy;
