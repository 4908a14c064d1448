//! Monitoring of a network-attached printer over a publish/subscribe broker:
//! decoding and classification of its status payloads, the status derived
//! from them, the reconnection policy of the subscription, and the store of
//! named printer profiles.

pub mod cli;
pub mod config;
pub mod json;
pub mod messages;
pub mod mqtt;
pub mod report;
pub mod schema;
pub mod text;
pub mod textmap;
