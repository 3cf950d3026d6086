//! The read-traffic generator ("reader simulator"): repeatedly executes the
//! fixed catalogue of analytical read operations against the replica
//! capability, in round-robin order, timing each one, until the accumulated
//! measured time reaches the experiment duration.
//!
//! Timing is based on the cumulative duration of the read operations
//! themselves (experiment time), not wall-clock time: fetching a parameter
//! key from the primary capability is not timed and does not count against
//! the reader's budget. Every latency sample goes to the outbound sample
//! sink; a closed sink is a normal shutdown signal, not an error.
use vstd::prelude::*;

use crate::operations::{catalogue, catalogue_spec, ReadOperation, CATALOGUE_LEN};
use crate::task_handle::TaskHandle;
use crate::{BenchError, Clock, PrimaryDatabase, ReadReplica, SampleSink};
use vstd::arithmetic::div_mod::{
    lemma_basic_div,
    lemma_div_plus_one,
    lemma_fundamental_div_mod,
    lemma_mod_bound,
    lemma_mod_multiples_vanish,
    lemma_small_mod,
};

verus! {

/// The accumulated experiment time never exceeds this (one step past the
/// largest expressible duration bound), so one more sample cannot overflow
/// the 128-bit accumulator.
pub const EXPERIMENT_CAP_NANOS: u128 = 0x1_0000_0000_0000_0000;

/// An endless walk over the read catalogue in canonical order, wrapping
/// after the last entry.
pub struct RoundRobin {
    next_index: usize,
}

impl RoundRobin {
    /// The catalogue position the next draw will return.
    pub closed spec fn index(&self) -> int {
        self.next_index as int
    }

    /// The position stays inside the catalogue.
    pub open spec fn wf(&self) -> bool {
        0 <= self.index() < CATALOGUE_LEN
    }

    /// A walk that starts at the head of the catalogue.
    pub fn new() -> (r: RoundRobin)
        ensures
            r.wf(),
            r.index() == 0,
    {
        RoundRobin { next_index: 0 }
    }

    /// The next catalogue entry, advancing (and wrapping) the position.
    pub fn next_operation(&mut self) -> (op: ReadOperation)
        requires
            old(self).wf(),
        ensures
            final(self).wf(),
            op == catalogue_spec()[old(self).index()],
            final(self).index() == (old(self).index() + 1) % (CATALOGUE_LEN as int),
    {
        let ops = catalogue();
        let op = ops[self.next_index];
        self.next_index = if self.next_index + 1 == CATALOGUE_LEN {
            0
        } else {
            self.next_index + 1
        };
        op
    }
}

/// Wraps a replica capability and times each read operation on the given
/// clock, accumulating the measured experiment time.
pub struct InstrumentedReader<R, C> {
    handle: R,
    clock: C,
    experiment_nanos: u128,
}

impl<R, C> InstrumentedReader<R, C> {
    /// The accumulated experiment time, in nanoseconds.
    pub closed spec fn elapsed(&self) -> int {
        self.experiment_nanos as int
    }

    /// A reader that has not yet accumulated any experiment time.
    pub fn new(reader: R, clock: C) -> (r: InstrumentedReader<R, C>)
        ensures
            r.elapsed() == 0,
    {
        InstrumentedReader { handle: reader, clock, experiment_nanos: 0 }
    }

    /// The accumulated experiment time, in nanoseconds.
    pub fn experiment_nanos(&self) -> (n: u128)
        ensures
            n == self.elapsed(),
    {
        self.experiment_nanos
    }
}

impl<R: ReadReplica, C: Clock> InstrumentedReader<R, C> {
    /// Times one already-issued reading of the clock pair around a replica
    /// call that returned successfully, and accumulates it: the sample is
    /// exactly the difference of the two readings (zero when the clock ran
    /// backwards).
    fn account(&mut self, start: u64, end: u64) -> (d: u64)
        requires
            old(self).elapsed() < EXPERIMENT_CAP_NANOS,
        ensures
            d == if end >= start {
                (end - start) as u64
            } else {
                0u64
            },
            final(self).elapsed() == old(self).elapsed() + d,
    {
        let d: u64 = if end >= start {
            end - start
        } else {
            0
        };
        self.experiment_nanos = self.experiment_nanos + d as u128;
        d
    }

    /// Times `customer_portfolio` on the replica.
    pub fn customer_portfolio(&mut self, customer_id: i32) -> (r: Result<u64, BenchError>)
        requires
            old(self).elapsed() < EXPERIMENT_CAP_NANOS,
        ensures
            r matches Ok(d) ==> final(self).elapsed() == old(self).elapsed() + d,
            r is Err ==> final(self).elapsed() == old(self).elapsed(),
    {
        let start = self.clock.now_nanos();
        match self.handle.customer_portfolio(customer_id) {
            Ok(()) => (),
            Err(e) => { return Err(e); },
        }
        let end = self.clock.now_nanos();
        Ok(self.account(start, end))
    }

    /// Times `top_performers` on the replica.
    pub fn top_performers(&mut self) -> (r: Result<u64, BenchError>)
        requires
            old(self).elapsed() < EXPERIMENT_CAP_NANOS,
        ensures
            r matches Ok(d) ==> final(self).elapsed() == old(self).elapsed() + d,
            r is Err ==> final(self).elapsed() == old(self).elapsed(),
    {
        let start = self.clock.now_nanos();
        match self.handle.top_performers() {
            Ok(()) => (),
            Err(e) => { return Err(e); },
        }
        let end = self.clock.now_nanos();
        Ok(self.account(start, end))
    }

    /// Times `market_overview` on the replica.
    pub fn market_overview(&mut self, sector: &str) -> (r: Result<u64, BenchError>)
        requires
            old(self).elapsed() < EXPERIMENT_CAP_NANOS,
        ensures
            r matches Ok(d) ==> final(self).elapsed() == old(self).elapsed() + d,
            r is Err ==> final(self).elapsed() == old(self).elapsed(),
    {
        let start = self.clock.now_nanos();
        match self.handle.market_overview(sector) {
            Ok(()) => (),
            Err(e) => { return Err(e); },
        }
        let end = self.clock.now_nanos();
        Ok(self.account(start, end))
    }

    /// Times `recent_large_trades` on the replica.
    pub fn recent_large_trades(&mut self, account_id: i32) -> (r: Result<u64, BenchError>)
        requires
            old(self).elapsed() < EXPERIMENT_CAP_NANOS,
        ensures
            r matches Ok(d) ==> final(self).elapsed() == old(self).elapsed() + d,
            r is Err ==> final(self).elapsed() == old(self).elapsed(),
    {
        let start = self.clock.now_nanos();
        match self.handle.recent_large_trades(account_id) {
            Ok(()) => (),
            Err(e) => { return Err(e); },
        }
        let end = self.clock.now_nanos();
        Ok(self.account(start, end))
    }

    /// Times `customer_order_book` on the replica.
    pub fn customer_order_book(&mut self, customer_id: i32) -> (r: Result<u64, BenchError>)
        requires
            old(self).elapsed() < EXPERIMENT_CAP_NANOS,
        ensures
            r matches Ok(d) ==> final(self).elapsed() == old(self).elapsed() + d,
            r is Err ==> final(self).elapsed() == old(self).elapsed(),
    {
        let start = self.clock.now_nanos();
        match self.handle.customer_order_book(customer_id) {
            Ok(()) => (),
            Err(e) => { return Err(e); },
        }
        let end = self.clock.now_nanos();
        Ok(self.account(start, end))
    }

    /// Times `sector_performance` on the replica.
    pub fn sector_performance(&mut self, sector: String) -> (r: Result<u64, BenchError>)
        requires
            old(self).elapsed() < EXPERIMENT_CAP_NANOS,
        ensures
            r matches Ok(d) ==> final(self).elapsed() == old(self).elapsed() + d,
            r is Err ==> final(self).elapsed() == old(self).elapsed(),
    {
        let start = self.clock.now_nanos();
        match self.handle.sector_performance(sector) {
            Ok(()) => (),
            Err(e) => { return Err(e); },
        }
        let end = self.clock.now_nanos();
        Ok(self.account(start, end))
    }

    /// Times `account_activity_summary` on the replica.
    pub fn account_activity_summary(&mut self, account_id: i32) -> (r: Result<u64, BenchError>)
        requires
            old(self).elapsed() < EXPERIMENT_CAP_NANOS,
        ensures
            r matches Ok(d) ==> final(self).elapsed() == old(self).elapsed() + d,
            r is Err ==> final(self).elapsed() == old(self).elapsed(),
    {
        let start = self.clock.now_nanos();
        match self.handle.account_activity_summary(account_id) {
            Ok(()) => (),
            Err(e) => { return Err(e); },
        }
        let end = self.clock.now_nanos();
        Ok(self.account(start, end))
    }

    /// Times `daily_market_movements` on the replica.
    pub fn daily_market_movements(&mut self, security_id: i32) -> (r: Result<u64, BenchError>)
        requires
            old(self).elapsed() < EXPERIMENT_CAP_NANOS,
        ensures
            r matches Ok(d) ==> final(self).elapsed() == old(self).elapsed() + d,
            r is Err ==> final(self).elapsed() == old(self).elapsed(),
    {
        let start = self.clock.now_nanos();
        match self.handle.daily_market_movements(security_id) {
            Ok(()) => (),
            Err(e) => { return Err(e); },
        }
        let end = self.clock.now_nanos();
        Ok(self.account(start, end))
    }

    /// Times `high_value_customers` on the replica.
    pub fn high_value_customers(&mut self) -> (r: Result<u64, BenchError>)
        requires
            old(self).elapsed() < EXPERIMENT_CAP_NANOS,
        ensures
            r matches Ok(d) ==> final(self).elapsed() == old(self).elapsed() + d,
            r is Err ==> final(self).elapsed() == old(self).elapsed(),
    {
        let start = self.clock.now_nanos();
        match self.handle.high_value_customers() {
            Ok(()) => (),
            Err(e) => { return Err(e); },
        }
        let end = self.clock.now_nanos();
        Ok(self.account(start, end))
    }

    /// Times `pending_orders_summary` on the replica.
    pub fn pending_orders_summary(&mut self, ticker: &str) -> (r: Result<u64, BenchError>)
        requires
            old(self).elapsed() < EXPERIMENT_CAP_NANOS,
        ensures
            r matches Ok(d) ==> final(self).elapsed() == old(self).elapsed() + d,
            r is Err ==> final(self).elapsed() == old(self).elapsed(),
    {
        let start = self.clock.now_nanos();
        match self.handle.pending_orders_summary(ticker) {
            Ok(()) => (),
            Err(e) => { return Err(e); },
        }
        let end = self.clock.now_nanos();
        Ok(self.account(start, end))
    }

    /// Times `trade_volume_by_hour` on the replica.
    pub fn trade_volume_by_hour(&mut self) -> (r: Result<u64, BenchError>)
        requires
            old(self).elapsed() < EXPERIMENT_CAP_NANOS,
        ensures
            r matches Ok(d) ==> final(self).elapsed() == old(self).elapsed() + d,
            r is Err ==> final(self).elapsed() == old(self).elapsed(),
    {
        let start = self.clock.now_nanos();
        match self.handle.trade_volume_by_hour() {
            Ok(()) => (),
            Err(e) => { return Err(e); },
        }
        let end = self.clock.now_nanos();
        Ok(self.account(start, end))
    }

    /// Times `top_securities_by_sector` on the replica.
    pub fn top_securities_by_sector(&mut self, sector: String) -> (r: Result<u64, BenchError>)
        requires
            old(self).elapsed() < EXPERIMENT_CAP_NANOS,
        ensures
            r matches Ok(d) ==> final(self).elapsed() == old(self).elapsed() + d,
            r is Err ==> final(self).elapsed() == old(self).elapsed(),
    {
        let start = self.clock.now_nanos();
        match self.handle.top_securities_by_sector(sector) {
            Ok(()) => (),
            Err(e) => { return Err(e); },
        }
        let end = self.clock.now_nanos();
        Ok(self.account(start, end))
    }

    /// Times `recent_trades_by_account` on the replica.
    pub fn recent_trades_by_account(&mut self, account_id: i32) -> (r: Result<u64, BenchError>)
        requires
            old(self).elapsed() < EXPERIMENT_CAP_NANOS,
        ensures
            r matches Ok(d) ==> final(self).elapsed() == old(self).elapsed() + d,
            r is Err ==> final(self).elapsed() == old(self).elapsed(),
    {
        let start = self.clock.now_nanos();
        match self.handle.recent_trades_by_account(account_id) {
            Ok(()) => (),
            Err(e) => { return Err(e); },
        }
        let end = self.clock.now_nanos();
        Ok(self.account(start, end))
    }

    /// Times `order_fulfillment_rates` on the replica.
    pub fn order_fulfillment_rates(&mut self, customer_id: i32) -> (r: Result<u64, BenchError>)
        requires
            old(self).elapsed() < EXPERIMENT_CAP_NANOS,
        ensures
            r matches Ok(d) ==> final(self).elapsed() == old(self).elapsed() + d,
            r is Err ==> final(self).elapsed() == old(self).elapsed(),
    {
        let start = self.clock.now_nanos();
        match self.handle.order_fulfillment_rates(customer_id) {
            Ok(()) => (),
            Err(e) => { return Err(e); },
        }
        let end = self.clock.now_nanos();
        Ok(self.account(start, end))
    }

    /// Times `sector_order_activity` on the replica.
    pub fn sector_order_activity(&mut self, sector: String) -> (r: Result<u64, BenchError>)
        requires
            old(self).elapsed() < EXPERIMENT_CAP_NANOS,
        ensures
            r matches Ok(d) ==> final(self).elapsed() == old(self).elapsed() + d,
            r is Err ==> final(self).elapsed() == old(self).elapsed(),
    {
        let start = self.clock.now_nanos();
        match self.handle.sector_order_activity(sector) {
            Ok(()) => (),
            Err(e) => { return Err(e); },
        }
        let end = self.clock.now_nanos();
        Ok(self.account(start, end))
    }

    /// Times `cascading_order_cancellation_alert` on the replica.
    pub fn cascading_order_cancellation_alert(&mut self) -> (r: Result<u64, BenchError>)
        requires
            old(self).elapsed() < EXPERIMENT_CAP_NANOS,
        ensures
            r matches Ok(d) ==> final(self).elapsed() == old(self).elapsed() + d,
            r is Err ==> final(self).elapsed() == old(self).elapsed(),
    {
        let start = self.clock.now_nanos();
        match self.handle.cascading_order_cancellation_alert() {
            Ok(()) => (),
            Err(e) => { return Err(e); },
        }
        let end = self.clock.now_nanos();
        Ok(self.account(start, end))
    }
}

/// Runs the timed read-operation loop against a replica capability,
/// reporting each latency sample to the outbound sink. Holds one completion
/// handle and gives it up when its run ends, however it ends.
pub struct ReaderSimulator<R, P, C, S> {
    reader: InstrumentedReader<R, C>,
    primary: P,
    duration_nanos: u64,
    timings: S,
    handle: Option<TaskHandle>,
}

impl<R: ReadReplica, P: PrimaryDatabase, C: Clock, S: SampleSink> ReaderSimulator<R, P, C, S> {
    /// The accumulated experiment time, in nanoseconds.
    pub closed spec fn elapsed(&self) -> int {
        self.reader.elapsed()
    }

    /// The configured experiment duration bound, in nanoseconds.
    pub closed spec fn duration(&self) -> u64 {
        self.duration_nanos
    }

    /// A simulator that will read until the accumulated measured time
    /// reaches `duration_nanos`, holding the given completion handle for
    /// the length of its run.
    pub fn new(
        reader: R,
        primary: P,
        duration_nanos: u64,
        timings: S,
        clock: C,
        handle: TaskHandle,
    ) -> (s: ReaderSimulator<R, P, C, S>)
        ensures
            s.elapsed() == 0,
            s.duration() == duration_nanos,
    {
        ReaderSimulator {
            reader: InstrumentedReader::new(reader, clock),
            primary,
            duration_nanos,
            timings,
            handle: Some(handle),
        }
    }

    /// Fetches the parameter key the operation declares (not timed), then
    /// executes and times the operation itself.
    fn dispatch(&mut self, op: ReadOperation) -> (r: Result<u64, BenchError>)
        requires
            old(self).elapsed() < EXPERIMENT_CAP_NANOS,
        ensures
            final(self).duration() == old(self).duration(),
            r matches Ok(d) ==> final(self).elapsed() == old(self).elapsed() + d,
            r is Err ==> final(self).elapsed() == old(self).elapsed(),
    {
        match op {
            ReadOperation::CustomerPortfolio => {
                let customer_id = match self.primary.get_random_customer_id() {
                    Ok(v) => v,
                    Err(e) => { return Err(e); },
                };
                self.reader.customer_portfolio(customer_id)
            },
            ReadOperation::TopPerformers => self.reader.top_performers(),
            ReadOperation::MarketOverview => {
                let sector = match self.primary.get_random_sector() {
                    Ok(v) => v,
                    Err(e) => { return Err(e); },
                };
                self.reader.market_overview(sector.as_str())
            },
            ReadOperation::RecentLargeTrades => {
                let account_id = match self.primary.get_random_account_id() {
                    Ok(v) => v,
                    Err(e) => { return Err(e); },
                };
                self.reader.recent_large_trades(account_id)
            },
            ReadOperation::CustomerOrderBook => {
                let customer_id = match self.primary.get_random_customer_id() {
                    Ok(v) => v,
                    Err(e) => { return Err(e); },
                };
                self.reader.customer_order_book(customer_id)
            },
            ReadOperation::SectorPerformance => {
                let sector = match self.primary.get_random_sector() {
                    Ok(v) => v,
                    Err(e) => { return Err(e); },
                };
                self.reader.sector_performance(sector)
            },
            ReadOperation::AccountActivitySummary => {
                let account_id = match self.primary.get_random_account_id() {
                    Ok(v) => v,
                    Err(e) => { return Err(e); },
                };
                self.reader.account_activity_summary(account_id)
            },
            ReadOperation::DailyMarketMovements => {
                let security_id = match self.primary.get_random_security_id() {
                    Ok(v) => v,
                    Err(e) => { return Err(e); },
                };
                self.reader.daily_market_movements(security_id)
            },
            ReadOperation::HighValueCustomers => self.reader.high_value_customers(),
            ReadOperation::PendingOrdersSummary => {
                let ticker = match self.primary.get_random_ticker() {
                    Ok(v) => v,
                    Err(e) => { return Err(e); },
                };
                self.reader.pending_orders_summary(ticker.as_str())
            },
            ReadOperation::TradeVolumeByHour => self.reader.trade_volume_by_hour(),
            ReadOperation::TopSecuritiesBySector => {
                let sector = match self.primary.get_random_sector() {
                    Ok(v) => v,
                    Err(e) => { return Err(e); },
                };
                self.reader.top_securities_by_sector(sector)
            },
            ReadOperation::RecentTradesByAccount => {
                let account_id = match self.primary.get_random_account_id() {
                    Ok(v) => v,
                    Err(e) => { return Err(e); },
                };
                self.reader.recent_trades_by_account(account_id)
            },
            ReadOperation::OrderFulfillmentRates => {
                let customer_id = match self.primary.get_random_customer_id() {
                    Ok(v) => v,
                    Err(e) => { return Err(e); },
                };
                self.reader.order_fulfillment_rates(customer_id)
            },
            ReadOperation::SectorOrderActivity => {
                let sector = match self.primary.get_random_sector() {
                    Ok(v) => v,
                    Err(e) => { return Err(e); },
                };
                self.reader.sector_order_activity(sector)
            },
            ReadOperation::CascadingOrderCancellationAlert => self.reader
                .cascading_order_cancellation_alert(),
        }
    }

    /// Runs the reader loop, then gives up the held completion handle:
    /// whether the run ends at its duration bound, on a closed sink, or on
    /// a failure, the handle is released exactly once.
    pub fn run(&mut self, max_samples: usize) -> (r: Result<(), BenchError>)
        ensures
            final(self).duration() == old(self).duration(),
            final(self).elapsed() >= old(self).elapsed(),
            max_samples == 0 || old(self).elapsed() >= old(self).duration() ==> r is Ok
                && final(self).elapsed() == old(self).elapsed(),
    {
        let result = self.run_rounds(max_samples);
        if let Some(h) = self.handle.take() {
            h.release();
        }
        result
    }

    /// The reader loop itself: take the next catalogue entry in round-robin
    /// order, fetch its parameter if it declares one, time the replica call
    /// and add the sample to the accumulated experiment time, and report
    /// the sample to the sink. The loop ends when the accumulated measured
    /// time reaches the duration bound or the sink closes; a capability
    /// failure aborts it. The cap bounds the loop for the machine's sake;
    /// the orchestrator passes the aggregator's sample capacity.
    #[verifier::loop_isolation(false)]
    fn run_rounds(&mut self, max_samples: usize) -> (r: Result<(), BenchError>)
        ensures
            final(self).duration() == old(self).duration(),
            final(self).elapsed() >= old(self).elapsed(),
            max_samples == 0 || old(self).elapsed() >= old(self).duration() ==> r is Ok
                && final(self).elapsed() == old(self).elapsed(),
    {
        let mut cycle = RoundRobin::new();
        let mut taken: usize = 0;
        while taken < max_samples
            invariant
                taken <= max_samples,
                cycle.wf(),
                self.duration() == old(self).duration(),
                self.elapsed() >= old(self).elapsed(),
                old(self).elapsed() >= old(self).duration() ==> self.elapsed() == old(
                    self,
                ).elapsed(),
                max_samples == 0 ==> self.elapsed() == old(self).elapsed(),
            decreases max_samples - taken,
        {
            if !(self.reader.experiment_nanos() < self.duration_nanos as u128) {
                break;
            }
            let op = cycle.next_operation();
            let sample = match self.dispatch(op) {
                Ok(d) => d,
                Err(e) => { return Err(e); },
            };
            if !self.timings.send(sample) {
                break;
            }
            taken = taken + 1;
        }
        Ok(())
    }
}

/// The first `n` entries of the infinite round-robin schedule a reader
/// walks: position `i` holds catalogue entry `i` modulo the catalogue
/// length.
pub open spec fn round_robin_draws(n: nat) -> Seq<ReadOperation> {
    Seq::new(n, |i: int| catalogue_spec()[i % (CATALOGUE_LEN as int)])
}

/// How many of the first `k` entries of `s` equal `op`.
pub open spec fn occurrences_upto(s: Seq<ReadOperation>, op: ReadOperation, k: int) -> int
    decreases k,
{
    if k <= 0 {
        0
    } else {
        occurrences_upto(s, op, k - 1) + if s[k - 1] == op {
            1int
        } else {
            0int
        }
    }
}

/// How many entries of `s` equal `op`.
pub open spec fn occurrences(s: Seq<ReadOperation>, op: ReadOperation) -> int {
    occurrences_upto(s, op, s.len() as int)
}

/// Counting distributes over concatenation.
proof fn lemma_occurrences_concat(a: Seq<ReadOperation>, b: Seq<ReadOperation>, op: ReadOperation)
    ensures
        occurrences(a + b, op) == occurrences(a, op) + occurrences(b, op),
{
    lemma_occurrences_upto_concat(a, b, op, b.len() as int);
    lemma_occurrences_upto_prefix(a, b, op, a.len() as int);
}

/// Counting the first `a.len() + j` entries of `a + b` counts all of `a`
/// and the first `j` entries of `b`.
proof fn lemma_occurrences_upto_concat(
    a: Seq<ReadOperation>,
    b: Seq<ReadOperation>,
    op: ReadOperation,
    j: int,
)
    requires
        0 <= j <= b.len(),
    ensures
        occurrences_upto(a + b, op, a.len() + j) == occurrences_upto(a + b, op, a.len() as int)
            + occurrences_upto(b, op, j),
    decreases j,
{
    if j > 0 {
        lemma_occurrences_upto_concat(a, b, op, j - 1);
        assert((a + b)[a.len() + j - 1] == b[j - 1]);
    }
}

/// Counting a prefix of `a + b` that lies inside `a` counts `a` alone.
proof fn lemma_occurrences_upto_prefix(
    a: Seq<ReadOperation>,
    b: Seq<ReadOperation>,
    op: ReadOperation,
    k: int,
)
    requires
        0 <= k <= a.len(),
    ensures
        occurrences_upto(a + b, op, k) == occurrences_upto(a, op, k),
    decreases k,
{
    if k > 0 {
        lemma_occurrences_upto_prefix(a, b, op, k - 1);
        assert((a + b)[k - 1] == a[k - 1]);
    }
}

/// Every kind occurs exactly once in one pass over the catalogue.
proof fn lemma_catalogue_occurrences(op: ReadOperation)
    ensures
        occurrences(catalogue_spec(), op) == 1,
{
    reveal_with_fuel(occurrences_upto, 17);
}

/// The first full cycle of the round-robin schedule is exactly the
/// canonical catalogue ordering.
pub proof fn lemma_round_robin_first_cycle()
    ensures
        round_robin_draws(CATALOGUE_LEN as nat) == catalogue_spec(),
{
    assert forall|i: int| 0 <= i < CATALOGUE_LEN implies round_robin_draws(
        CATALOGUE_LEN as nat,
    )[i] == catalogue_spec()[i] by {
        lemma_small_mod(i as nat, CATALOGUE_LEN as nat);
    }
    assert(round_robin_draws(CATALOGUE_LEN as nat) =~= catalogue_spec());
}

/// Over any whole number of catalogue cycles, every kind occurs exactly
/// once per cycle: `k` cycles give each of the sixteen kinds exactly `k`
/// occurrences.
pub proof fn lemma_round_robin_cycle_counts(k: nat)
    ensures
        forall|op: ReadOperation|
            #[trigger] occurrences(round_robin_draws(k * (CATALOGUE_LEN as nat)), op) == k,
    decreases k,
{
    let len = CATALOGUE_LEN as int;
    if k == 0 {
        assert(forall|op: ReadOperation|
            #[trigger] occurrences(round_robin_draws(0), op) == 0);
    } else {
        lemma_round_robin_cycle_counts((k - 1) as nat);
        let a = round_robin_draws(((k - 1) as nat) * (CATALOGUE_LEN as nat));
        let full = round_robin_draws(k * (CATALOGUE_LEN as nat));
        assert(a.len() == (k - 1) * len);
        assert(full.len() == k * len);
        assert((k - 1) * len + len == k * len);
        assert forall|i: int| a.len() <= i < full.len() implies full[i] == catalogue_spec()[i
            - a.len()] by {
            let j = i - a.len();
            lemma_mod_multiples_vanish(k - 1, j, len);
            assert(len * (k - 1) + j == i);
            lemma_small_mod(j as nat, len as nat);
        }
        assert(full =~= a + catalogue_spec());
        assert forall|op: ReadOperation| #[trigger] occurrences(full, op) == k by {
            lemma_occurrences_concat(a, catalogue_spec(), op);
            lemma_catalogue_occurrences(op);
        }
    }
}

/// How many samples a reader with the given time budget takes when its
/// successive timed calls last the given durations: it keeps reading while
/// the accumulated time is still below the budget, and each sample spends
/// its duration from the budget.
pub open spec fn samples_taken(latencies: Seq<u64>, budget: int) -> int
    decreases latencies.len(),
{
    if budget <= 0 || latencies.len() == 0 {
        0
    } else {
        1 + samples_taken(latencies.drop_first(), budget - latencies.first())
    }
}

/// Reader termination: with a duration bound `d` and reads that each take
/// exactly `t`, the reader stops after exactly the rounded-up quotient
/// `ceil(d / t)` samples, and that count is the first at which the
/// accumulated measured time reaches `d`.
pub proof fn lemma_reader_stops_at_ceiling(latencies: Seq<u64>, d: int, t: int)
    requires
        0 < t,
        0 < d,
        forall|i: int| 0 <= i < latencies.len() ==> #[trigger] latencies[i] == t,
        latencies.len() >= (d + t - 1) / t,
    ensures
        samples_taken(latencies, d) == (d + t - 1) / t,
        ((d + t - 1) / t) * t >= d,
        (((d + t - 1) / t) - 1) * t < d,
    decreases latencies.len(),
{
    let k = (d + t - 1) / t;
    lemma_div_plus_one(d - 1, t);
    assert(k == (d - 1) / t + 1);
    lemma_fundamental_div_mod(d - 1, t);
    lemma_mod_bound(d - 1, t);
    let q = (d - 1) / t;
    let r = (d - 1) % t;
    assert(d - 1 == t * q + r);
    assert(k * t == (q + 1) * t);
    assert((q + 1) * t == t * q + t) by (nonlinear_arith);
    assert(q * t == t * q) by (nonlinear_arith);
    if d <= t {
        lemma_basic_div(d - 1, t);
        assert(k == 1);
        assert(latencies.len() >= 1);
        assert(latencies.first() == t);
        assert(samples_taken(latencies, d) == 1 + samples_taken(
            latencies.drop_first(),
            d - t,
        ));
    } else {
        let rest = latencies.drop_first();
        assert(latencies.first() == t);
        lemma_div_plus_one(d - t - 1, t);
        assert((d - 1) / t == (d - t - 1) / t + 1);
        assert(forall|i: int| 0 <= i < rest.len() ==> #[trigger] rest[i] == t);
        lemma_reader_stops_at_ceiling(rest, d - t, t);
        assert(((d - t + t - 1) / t) * t == ((d - 1) / t) * t);
    }
}

} // verus!
