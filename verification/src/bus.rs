//! Arrival data: pages, rows, line labels and the polled snapshot.

pub mod fetch;
pub mod label;
pub mod markup;
pub mod models;
pub mod snapshot;
