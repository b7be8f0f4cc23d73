//! The parts of the node's daemon that decide things.
//!
//! Logs: [`record`] turns events into OTLP log records, [`request`] wraps them into export
//! requests, [`batch`] and [`round`] say how a sender gathers and exports them, [`sender`] what it
//! makes of the answers, and [`endpoint`] where they go.
//!
//! Settings: [`config`] decides which config file counts, and [`wallet`] brings the wallet inputs
//! of a boot together.

pub mod batch;
pub mod config;
pub mod endpoint;
pub mod error;
pub mod json;
pub mod record;
pub mod request;
pub mod round;
pub mod sender;
pub mod text;
pub mod wallet;
