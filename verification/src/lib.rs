//! Verified core of a small benchmark that stores hourly RUNEPool history
//! intervals in several databases and times the inserts.
pub mod float_bits;
pub mod decimal;
pub mod models;
pub mod error;
pub mod timer;
pub mod local;
pub mod rocks;
pub mod postgres;
pub mod cron;
pub mod batch;
