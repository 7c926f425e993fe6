//! What diagnostic captures may keep of requests, responses and events.

pub mod capture;
pub mod event_capture;
pub mod selection;
pub mod trace;
