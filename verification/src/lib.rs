//! Bridge between a frame-driven host loop and long-running background work:
//! a single-slot connection lifecycle, a first-in-first-out queue of submitted
//! operations, and the once-per-tick pass that reconciles both with the results
//! of the background tasks.
//!
//! The executor that runs the background work stays outside: every operation
//! that starts or awaits a task receives the capability to do so as an argument,
//! and its contract says on which handle that capability may be used.

pub mod bridge;
pub mod config;
pub mod connection;
pub mod felt_text;
pub mod queue;

pub use crate::bridge::{
    check_sn_task, execute_transaction, init_starknet_connection, StarknetConnection,
    StarknetConnectionView, TickReport,
};
pub use crate::config::{ConfigError, ConnectRequest, DefaultStarknetConfig};
pub use crate::connection::{ConnectionManager, ConnectionOutcome, ConnectionState};
pub use crate::queue::OperationQueue;
