//! Sensor identity cache and metric projection engine for a Zigbee
//! home-automation gateway.
//!
//! The crate decodes textual event frames pushed by the gateway, resolves
//! them against a cache of previously seen device identities, normalizes
//! raw readings, and projects the result into a table of named, labeled
//! gauges that can be rendered in the plaintext exposition format.

pub mod cache;
pub mod event;
pub mod gateway;
pub mod json;
pub mod num;
pub mod project;
pub mod registry;
pub mod util;
