//! Non-blocking polling and periodic refresh of a fixed family of named series.
//!
//! A [`cell::PollableValue`] holds the last value of one series and the
//! promise of its next one. A [`registry::SeriesRegistry`] holds one cell per
//! series, and a [`coordinator::RefreshCoordinator`] polls them all on every
//! tick of the consumer's loop and starts all fetches again together once
//! every series has a value and the refresh period has passed.
//!
//! The remaining modules hold what the data server and the front end decide
//! without doing any input or output: which handlers the server mounts and
//! what a request selects, the columns of the log table, and the addresses
//! under which data is asked for.

pub mod cell;
pub mod config;
pub mod coordinator;
pub mod panels;
pub mod registry;
pub mod requests;
pub mod routes;
pub mod series;
pub mod snapshot;
pub mod text;
