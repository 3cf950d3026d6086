//! A synthetic-workload benchmark harness core for a primary/read-replica
//! database pair: a rate-limited write-traffic generator, a round-robin
//! read-traffic generator, a countdown completion signal that ties the
//! writer's lifetime to the readers', and a latency-sample aggregator.
//!
//! The core is generic over capability traits (`PrimaryDatabase`,
//! `ReadReplica`, `Clock`, `SampleSink`); concrete database adapters,
//! command-line handling and thread plumbing live outside the library.
use vstd::prelude::*;

pub mod config;
pub mod data_gen;
pub mod measurements;
pub mod operations;
pub mod pretty_duration;
pub mod primary_simulator;
pub mod read_simulator;
pub mod rng;
pub mod task_handle;

verus! {

/// A failure reported by a primary or replica capability. Any such failure
/// aborts the worker that saw it; the core never retries.
#[derive(Clone, Debug)]
pub struct BenchError {
    pub message: String,
}

/// The outcome of a write that the primary capability accepted: either the
/// row change was performed, or the adapter deliberately does not support
/// that operation and explicitly skipped it (distinct from success and from
/// failure).
#[derive(Clone, Copy, Debug, PartialEq, Eq, Structural)]
pub enum WriteOutcome {
    Performed,
    Skipped,
}

/// Write-side capability of the primary store: random existing-row lookups
/// used to pick update/delete targets and read-parameter keys, and the single
/// entry point for executing a synthesized write operation.
///
/// Implementors live outside the library; each method either succeeds with a
/// value or fails (for example when a table is empty).
pub trait PrimaryDatabase {
    fn get_random_customer_id(&mut self) -> Result<i32, BenchError>;

    fn get_random_account_id(&mut self) -> Result<i32, BenchError>;

    fn get_random_security_id(&mut self) -> Result<i32, BenchError>;

    fn get_random_trade_id(&mut self) -> Result<i32, BenchError>;

    fn get_random_order_id(&mut self) -> Result<i32, BenchError>;

    fn get_random_market_data_id(&mut self) -> Result<i32, BenchError>;

    fn get_random_ticker(&mut self) -> Result<String, BenchError>;

    fn get_random_sector(&mut self) -> Result<String, BenchError>;

    fn execute_command(&self, op: operations::WriteOperation) -> Result<
        WriteOutcome,
        BenchError,
    >;
}

/// Read-side capability of the replica: one call per analytical query in the
/// catalogue. Result rows are discarded by the core; only latency matters.
pub trait ReadReplica {
    fn customer_portfolio(&mut self, customer_id: i32) -> Result<(), BenchError>;

    fn top_performers(&mut self) -> Result<(), BenchError>;

    fn market_overview(&mut self, sector: &str) -> Result<(), BenchError>;

    fn recent_large_trades(&mut self, account_id: i32) -> Result<(), BenchError>;

    fn customer_order_book(&mut self, customer_id: i32) -> Result<(), BenchError>;

    fn sector_performance(&mut self, sector: String) -> Result<(), BenchError>;

    fn account_activity_summary(&mut self, account_id: i32) -> Result<(), BenchError>;

    fn daily_market_movements(&mut self, security_id: i32) -> Result<(), BenchError>;

    fn high_value_customers(&mut self) -> Result<(), BenchError>;

    fn pending_orders_summary(&mut self, ticker: &str) -> Result<(), BenchError>;

    fn trade_volume_by_hour(&mut self) -> Result<(), BenchError>;

    fn top_securities_by_sector(&mut self, sector: String) -> Result<(), BenchError>;

    fn recent_trades_by_account(&mut self, account_id: i32) -> Result<(), BenchError>;

    fn order_fulfillment_rates(&mut self, customer_id: i32) -> Result<(), BenchError>;

    fn sector_order_activity(&mut self, sector: String) -> Result<(), BenchError>;

    fn cascading_order_cancellation_alert(&mut self) -> Result<(), BenchError>;
}

/// Time capability: a monotonic reading in nanoseconds used to time replica
/// calls, and a pause used for the writer's fixed-interval pacing. The
/// benchmark binary supplies a wall-clock implementation; tests supply a
/// simulated one.
pub trait Clock {
    fn now_nanos(&mut self) -> u64;

    fn pause_nanos(&mut self, nanos: u64);
}

/// Outbound queue capability for latency samples. `send` returns false once
/// the receiving side has gone away, which a reader treats as a normal
/// shutdown signal, not an error.
pub trait SampleSink {
    fn send(&mut self, nanos: u64) -> bool;
}

} // verus!
