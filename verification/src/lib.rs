//! A verified sampling-and-aggregation pipeline for a temperature and humidity
//! station: raw sensor samples are converted to real units, collected in a
//! fixed-size window, averaged, and encoded as the payload that is reported.

pub mod aggregate;
pub mod decimal;
pub mod payload;
pub mod pipeline;
pub mod reading;
pub mod request;
pub mod station;
pub mod window;
