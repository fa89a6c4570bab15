//! Aggregation of sensor readings published on the session bus: classification
//! of sensor objects, per-category tracking of the hottest temperature and the
//! fastest fan, and the shared state that listeners update concurrently.

pub mod discovery;
pub mod error;
pub mod metric;
pub mod mutex_helpers;
pub mod names;
pub mod observer;
pub mod reading;
pub mod sample;
pub mod session;
pub mod tracker;
