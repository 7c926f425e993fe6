//! Data-plane core of a multi-provider AI gateway: verified value objects,
//! account scheduling rules, accounting and canonical event sequencing.

pub mod text;
pub mod time;
pub mod accounting;
pub mod identity;
pub mod credential;
pub mod upstream;
pub mod error;
pub mod policy;
pub mod engine;
pub mod event;
pub mod provider_ports;
pub mod operation;
pub mod concurrency;
pub mod health;
pub mod lifecycle;
pub mod textmap;
pub mod pricing;
pub mod diagnostics;
