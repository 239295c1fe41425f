//! Configuration model: per-host device preferences, model catalog, logging
//! filter and tutorial state.
pub mod schema;
pub mod models;
pub mod devices;
pub mod paths;
