//! Subscription broker that relays device telemetry to interested consumers.

pub mod registry;
pub mod message;
pub mod broker;
pub mod laws;
pub mod reading;
