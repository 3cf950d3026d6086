use std::cell::RefCell;
use std::rc::Rc;

use rr_bench::measurements::Measurements;
use rr_bench::operations::{catalogue, param_kind, ParamKind, ReadOperation, WriteOperation};
use rr_bench::primary_simulator::{classify_draw, PrimarySimulator};
use rr_bench::read_simulator::{InstrumentedReader, ReaderSimulator, RoundRobin};
use rr_bench::task_handle::new_task_handles;
use rr_bench::operations::WriteClass;
use rr_bench::{BenchError, Clock, PrimaryDatabase, ReadReplica, SampleSink, WriteOutcome};

struct StubPrimary {
    executed: Rc<RefCell<Vec<WriteOperation>>>,
    fail_lookups: bool,
}

impl StubPrimary {
    fn new() -> StubPrimary {
        StubPrimary { executed: Rc::new(RefCell::new(Vec::new())), fail_lookups: false }
    }

    fn failing() -> StubPrimary {
        StubPrimary { executed: Rc::new(RefCell::new(Vec::new())), fail_lookups: true }
    }

    fn lookup(&self) -> Result<i32, BenchError> {
        if self.fail_lookups {
            Err(BenchError { message: "table empty".to_string() })
        } else {
            Ok(7)
        }
    }
}

impl PrimaryDatabase for StubPrimary {
    fn get_random_customer_id(&mut self) -> Result<i32, BenchError> {
        self.lookup()
    }
    fn get_random_account_id(&mut self) -> Result<i32, BenchError> {
        self.lookup()
    }
    fn get_random_security_id(&mut self) -> Result<i32, BenchError> {
        self.lookup()
    }
    fn get_random_trade_id(&mut self) -> Result<i32, BenchError> {
        self.lookup()
    }
    fn get_random_order_id(&mut self) -> Result<i32, BenchError> {
        self.lookup()
    }
    fn get_random_market_data_id(&mut self) -> Result<i32, BenchError> {
        self.lookup()
    }
    fn get_random_ticker(&mut self) -> Result<String, BenchError> {
        if self.fail_lookups {
            Err(BenchError { message: "table empty".to_string() })
        } else {
            Ok("ABCD".to_string())
        }
    }
    fn get_random_sector(&mut self) -> Result<String, BenchError> {
        if self.fail_lookups {
            Err(BenchError { message: "table empty".to_string() })
        } else {
            Ok("Technology".to_string())
        }
    }
    fn execute_command(&self, op: WriteOperation) -> Result<WriteOutcome, BenchError> {
        self.executed.borrow_mut().push(op);
        Ok(WriteOutcome::Performed)
    }
}

struct StubReplica;

impl ReadReplica for StubReplica {
    fn customer_portfolio(&mut self, _customer_id: i32) -> Result<(), BenchError> {
        Ok(())
    }
    fn top_performers(&mut self) -> Result<(), BenchError> {
        Ok(())
    }
    fn market_overview(&mut self, _sector: &str) -> Result<(), BenchError> {
        Ok(())
    }
    fn recent_large_trades(&mut self, _account_id: i32) -> Result<(), BenchError> {
        Ok(())
    }
    fn customer_order_book(&mut self, _customer_id: i32) -> Result<(), BenchError> {
        Ok(())
    }
    fn sector_performance(&mut self, _sector: String) -> Result<(), BenchError> {
        Ok(())
    }
    fn account_activity_summary(&mut self, _account_id: i32) -> Result<(), BenchError> {
        Ok(())
    }
    fn daily_market_movements(&mut self, _security_id: i32) -> Result<(), BenchError> {
        Ok(())
    }
    fn high_value_customers(&mut self) -> Result<(), BenchError> {
        Ok(())
    }
    fn pending_orders_summary(&mut self, _ticker: &str) -> Result<(), BenchError> {
        Ok(())
    }
    fn trade_volume_by_hour(&mut self) -> Result<(), BenchError> {
        Ok(())
    }
    fn top_securities_by_sector(&mut self, _sector: String) -> Result<(), BenchError> {
        Ok(())
    }
    fn recent_trades_by_account(&mut self, _account_id: i32) -> Result<(), BenchError> {
        Ok(())
    }
    fn order_fulfillment_rates(&mut self, _customer_id: i32) -> Result<(), BenchError> {
        Ok(())
    }
    fn sector_order_activity(&mut self, _sector: String) -> Result<(), BenchError> {
        Ok(())
    }
    fn cascading_order_cancellation_alert(&mut self) -> Result<(), BenchError> {
        Ok(())
    }
}

/// A simulated clock: every reading advances it by a fixed step, so each
/// timed call appears to take exactly one step; pausing costs nothing.
struct FakeClock {
    now: u64,
    step: u64,
}

impl Clock for FakeClock {
    fn now_nanos(&mut self) -> u64 {
        let v = self.now;
        self.now += self.step;
        v
    }
    fn pause_nanos(&mut self, _nanos: u64) {}
}

struct VecSink {
    samples: Rc<RefCell<Vec<u64>>>,
    open: bool,
}

impl SampleSink for VecSink {
    fn send(&mut self, nanos: u64) -> bool {
        if self.open {
            self.samples.borrow_mut().push(nanos);
        }
        self.open
    }
}

#[test]
fn round_robin_first_cycle_is_canonical_order() {
    let mut rr = RoundRobin::new();
    let expected = catalogue();
    for op in &expected {
        assert_eq!(rr.next_operation(), *op);
    }
    // The walk wraps: the next draw is the head again.
    assert_eq!(rr.next_operation(), expected[0]);
}

#[test]
fn round_robin_cycles_cover_every_kind_equally() {
    let mut rr = RoundRobin::new();
    let expected = catalogue();
    let k: usize = 5;
    let mut counts = std::collections::BTreeMap::new();
    for _ in 0..k * expected.len() {
        let op = rr.next_operation();
        *counts.entry(format!("{:?}", op)).or_insert(0usize) += 1;
    }
    assert_eq!(counts.len(), expected.len());
    for (_, c) in counts {
        assert_eq!(c, k);
    }
}

#[test]
fn param_kinds_match_catalogue_metadata() {
    assert_eq!(param_kind(ReadOperation::CustomerPortfolio), ParamKind::CustomerId);
    assert_eq!(param_kind(ReadOperation::TopPerformers), ParamKind::NoParam);
    assert_eq!(param_kind(ReadOperation::MarketOverview), ParamKind::Sector);
    assert_eq!(param_kind(ReadOperation::PendingOrdersSummary), ParamKind::Ticker);
    assert_eq!(param_kind(ReadOperation::RecentLargeTrades), ParamKind::AccountId);
    assert_eq!(param_kind(ReadOperation::DailyMarketMovements), ParamKind::SecurityId);
}

#[test]
fn classification_bands_partition_the_draw_space() {
    let mut insert: u32 = 0;
    let mut update: u32 = 0;
    let mut delete: u32 = 0;
    for d in 0..100u32 {
        match classify_draw(d) {
            WriteClass::Insert => insert += 1,
            WriteClass::Update => update += 1,
            WriteClass::Delete => delete += 1,
        }
    }
    // Uniform draws land 45% insert, 45% update, 10% delete; in particular
    // the update band is reachable.
    assert_eq!(insert, 45);
    assert_eq!(update, 45);
    assert_eq!(delete, 10);
    assert!(update > 0);
}

#[test]
fn writer_emits_all_three_classes_in_proportion() {
    let primary = StubPrimary::new();
    let executed = Rc::clone(&primary.executed);
    let (handle, tracker) = new_task_handles();
    let clock = FakeClock { now: 0, step: 1 };
    let mut sim = PrimarySimulator::new(primary, 10, 42, tracker, clock);
    let total: u64 = 2000;
    sim.run(total).unwrap();
    drop(handle);
    let ops = executed.borrow();
    assert_eq!(ops.len(), total as usize);
    let mut insert = 0usize;
    let mut update = 0usize;
    let mut delete = 0usize;
    for op in ops.iter() {
        match op {
            WriteOperation::InsertCustomer { .. }
            | WriteOperation::InsertAccount { .. }
            | WriteOperation::InsertSecurity { .. }
            | WriteOperation::InsertTrade { .. }
            | WriteOperation::InsertOrder { .. }
            | WriteOperation::InsertMarketData { .. } => insert += 1,
            WriteOperation::UpdateCustomer { .. }
            | WriteOperation::UpdateAccount { .. }
            | WriteOperation::UpdateTrade { .. }
            | WriteOperation::UpdateOrder { .. }
            | WriteOperation::UpdateMarketData { .. } => update += 1,
            _ => delete += 1,
        }
        // Inserts never link a parent row.
        match op {
            WriteOperation::InsertAccount { parent_account_id, .. } => {
                assert!(parent_account_id.is_none())
            }
            WriteOperation::InsertTrade { parent_trade_id, .. } => {
                assert!(parent_trade_id.is_none())
            }
            WriteOperation::InsertOrder { parent_order_id, .. } => {
                assert!(parent_order_id.is_none())
            }
            _ => {}
        }
    }
    let n = total as f64;
    assert!((insert as f64 / n - 0.45).abs() < 0.05);
    assert!((update as f64 / n - 0.45).abs() < 0.05);
    assert!((delete as f64 / n - 0.10).abs() < 0.05);
    assert!(update > 0);
}

struct SkippingPrimary {
    inner: StubPrimary,
}

impl PrimaryDatabase for SkippingPrimary {
    fn get_random_customer_id(&mut self) -> Result<i32, BenchError> {
        self.inner.get_random_customer_id()
    }
    fn get_random_account_id(&mut self) -> Result<i32, BenchError> {
        self.inner.get_random_account_id()
    }
    fn get_random_security_id(&mut self) -> Result<i32, BenchError> {
        self.inner.get_random_security_id()
    }
    fn get_random_trade_id(&mut self) -> Result<i32, BenchError> {
        self.inner.get_random_trade_id()
    }
    fn get_random_order_id(&mut self) -> Result<i32, BenchError> {
        self.inner.get_random_order_id()
    }
    fn get_random_market_data_id(&mut self) -> Result<i32, BenchError> {
        self.inner.get_random_market_data_id()
    }
    fn get_random_ticker(&mut self) -> Result<String, BenchError> {
        self.inner.get_random_ticker()
    }
    fn get_random_sector(&mut self) -> Result<String, BenchError> {
        self.inner.get_random_sector()
    }
    fn execute_command(&self, op: WriteOperation) -> Result<WriteOutcome, BenchError> {
        // An adapter that deliberately does not perform market-data updates
        // reports them as explicitly skipped, not as failures.
        if matches!(op, WriteOperation::UpdateMarketData { .. }) {
            self.inner.executed.borrow_mut().push(op);
            Ok(WriteOutcome::Skipped)
        } else {
            self.inner.execute_command(op)
        }
    }
}

#[test]
fn writer_continues_past_skipped_operations() {
    let primary = SkippingPrimary { inner: StubPrimary::new() };
    let executed = Rc::clone(&primary.inner.executed);
    let (_handle, tracker) = new_task_handles();
    let clock = FakeClock { now: 0, step: 1 };
    let mut sim = PrimarySimulator::new(primary, 10, 42, tracker, clock);
    let total: u64 = 500;
    sim.run(total).unwrap();
    // A skipped operation is not a failure: the generator keeps going.
    assert_eq!(executed.borrow().len(), total as usize);
}

#[test]
fn writer_stops_once_signal_is_done() {
    let primary = StubPrimary::new();
    let executed = Rc::clone(&primary.executed);
    let (handle, tracker) = new_task_handles();
    handle.release();
    let clock = FakeClock { now: 0, step: 1 };
    let mut sim = PrimarySimulator::new(primary, 10, 42, tracker, clock);
    sim.run(u64::MAX).unwrap();
    assert_eq!(executed.borrow().len(), 0);
}

#[test]
fn writer_aborts_on_lookup_failure() {
    // Every draw eventually picks an update or delete, which needs a lookup.
    let primary = StubPrimary::failing();
    let (_handle, tracker) = new_task_handles();
    let clock = FakeClock { now: 0, step: 1 };
    let mut sim = PrimarySimulator::new(primary, 10, 42, tracker, clock);
    assert!(sim.run(2000).is_err());
}

#[test]
fn reader_stops_after_ceiling_of_duration_over_latency() {
    // One timed call per 300 ms against a 1 s budget: ceil(10/3) = 4 samples.
    let samples = Rc::new(RefCell::new(Vec::new()));
    let sink = VecSink { samples: Rc::clone(&samples), open: true };
    let clock = FakeClock { now: 0, step: 300_000_000 };
    let (handle, tracker) = new_task_handles();
    let mut sim =
        ReaderSimulator::new(StubReplica, StubPrimary::new(), 1_000_000_000, sink, clock, handle);
    assert!(!tracker.is_done());
    sim.run(usize::MAX).unwrap();
    // The reader gave its completion handle up on exit.
    assert!(tracker.is_done());
    let got = samples.borrow();
    assert_eq!(got.len(), 4);
    assert!(got.iter().all(|&s| s == 300_000_000));
    let accumulated: u64 = got.iter().sum();
    assert!(accumulated >= 1_000_000_000);
    assert!(accumulated - got.last().unwrap() < 1_000_000_000);
}

#[test]
fn reader_stops_when_sink_closes() {
    let samples = Rc::new(RefCell::new(Vec::new()));
    let sink = VecSink { samples: Rc::clone(&samples), open: false };
    let clock = FakeClock { now: 0, step: 1_000 };
    let (handle, tracker) = new_task_handles();
    let mut sim =
        ReaderSimulator::new(StubReplica, StubPrimary::new(), 1_000_000_000, sink, clock, handle);
    sim.run(usize::MAX).unwrap();
    assert_eq!(samples.borrow().len(), 0);
    assert!(tracker.is_done());
}

#[test]
fn reader_aborts_on_parameter_lookup_failure() {
    let samples = Rc::new(RefCell::new(Vec::new()));
    let sink = VecSink { samples: Rc::clone(&samples), open: true };
    let clock = FakeClock { now: 0, step: 1_000 };
    let (handle, tracker) = new_task_handles();
    let mut sim =
        ReaderSimulator::new(StubReplica, StubPrimary::failing(), 1_000_000_000, sink, clock, handle);
    assert!(sim.run(usize::MAX).is_err());
    // The handle is released even on a failed run.
    assert!(tracker.is_done());
}

#[test]
fn end_to_end_two_second_run_with_hundred_milli_reads() {
    // Simulated clock, duration 2 s, every replica call exactly 100 ms:
    // exactly 20 samples, throughput 10.0 tx/s, and every statistic 100 ms.
    let samples = Rc::new(RefCell::new(Vec::new()));
    let sink = VecSink { samples: Rc::clone(&samples), open: true };
    let clock = FakeClock { now: 0, step: 100_000_000 };
    let duration = 2_000_000_000u64;
    let (handle, tracker) = new_task_handles();
    let mut sim =
        ReaderSimulator::new(StubReplica, StubPrimary::new(), duration, sink, clock, handle);
    sim.run(usize::MAX).unwrap();
    assert!(tracker.is_done());

    let mut m = Measurements::new(duration);
    for &s in samples.borrow().iter() {
        m.push(s);
    }
    assert_eq!(m.total_transactions(), 20);
    assert_eq!(m.tps_milli(), 10_000);
    assert_eq!(m.min(), Some(100_000_000));
    assert_eq!(m.max(), Some(100_000_000));
    assert_eq!(m.average(), Some(100_000_000));
    assert_eq!(m.median(), Some(100_000_000));
    assert_eq!(m.percentile(95), Some(100_000_000));
    assert_eq!(m.standard_deviation(), Some(0));
}

#[test]
fn instrumented_reader_accumulates_only_timed_calls() {
    let clock = FakeClock { now: 0, step: 250 };
    let mut reader = InstrumentedReader::new(StubReplica, clock);
    assert_eq!(reader.experiment_nanos(), 0);
    let first = reader.top_performers().unwrap();
    assert_eq!(first, 250);
    assert_eq!(reader.experiment_nanos(), 250);
    let second = reader.customer_portfolio(1).unwrap();
    assert_eq!(second, 250);
    assert_eq!(reader.experiment_nanos(), 500);
}
