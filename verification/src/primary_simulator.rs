//! The write-traffic generator ("primary simulator"): at a fixed rate,
//! synthesizes and executes randomly chosen write operations against the
//! primary capability until the completion signal reports that every reader
//! has finished.
//!
//! Each cycle classifies the operation by one uniform draw over `[0, 100)`
//! against cumulative thresholds (insert below [`INSERT_THRESHOLD`], update
//! below [`UPDATE_THRESHOLD`], delete above), picks one of the six entities
//! with a second draw, synthesizes the operation — update and delete targets
//! come from the primary's random-id lookups, inserts never link a parent
//! row — executes it, and pauses for one pacing interval. The pacing is
//! fixed-interval: the pause does not shrink after a slow operation.
use vstd::prelude::*;

use crate::data_gen::DataGenerator;
use crate::operations::{
    generated_values_wf,
    insert_leaves_parent_unset,
    write_class_of,
    WriteClass,
    WriteOperation,
};
use crate::rng::{draw_in_range, rng_from_seed};
use crate::task_handle::TaskCompletion;
use crate::{BenchError, Clock, PrimaryDatabase};
use rand::rngs::StdRng;

verus! {

/// Draws below this classify as inserts.
pub const INSERT_THRESHOLD: u32 = 45;

/// Draws from [`INSERT_THRESHOLD`] up to (excluding) this classify as
/// updates; the rest classify as deletes.
pub const UPDATE_THRESHOLD: u32 = 90;

/// How a uniform draw over `[0, 100)` classifies: the three bands partition
/// the draw space, and none of them is empty.
pub open spec fn class_of_draw(draw: int) -> WriteClass {
    if draw < INSERT_THRESHOLD {
        WriteClass::Insert
    } else if draw < UPDATE_THRESHOLD {
        WriteClass::Update
    } else {
        WriteClass::Delete
    }
}

/// Classifies one uniform draw against the cumulative thresholds.
pub fn classify_draw(draw: u32) -> (c: WriteClass)
    ensures
        c == class_of_draw(draw as int),
{
    if draw < INSERT_THRESHOLD {
        WriteClass::Insert
    } else if draw < UPDATE_THRESHOLD {
        WriteClass::Update
    } else {
        WriteClass::Delete
    }
}

/// The threshold partition leaves no class unreachable: some draw in
/// `[0, 100)` lands in each of the three bands. (A configuration whose
/// insert and update thresholds coincide would make the update band empty;
/// these thresholds do not.)
pub proof fn lemma_every_class_reachable()
    ensures
        exists|d: int|
            0 <= d < 100 && #[trigger] class_of_draw(d) == WriteClass::Insert,
        exists|d: int|
            0 <= d < 100 && #[trigger] class_of_draw(d) == WriteClass::Update,
        exists|d: int|
            0 <= d < 100 && #[trigger] class_of_draw(d) == WriteClass::Delete,
{
    assert(0 <= 0 < 100 && class_of_draw(0) == WriteClass::Insert);
    assert(0 <= 45 < 100 && class_of_draw(45) == WriteClass::Update);
    assert(0 <= 90 < 100 && class_of_draw(90) == WriteClass::Delete);
}

/// Drives write traffic against a primary capability at a fixed rate until
/// the completion signal reports done.
pub struct PrimarySimulator<DB: PrimaryDatabase, C: Clock> {
    db: DB,
    tps: u32,
    rng: StdRng,
    generator: DataGenerator,
    clock: C,
    completion_tracker: TaskCompletion,
}

impl<DB: PrimaryDatabase, C: Clock> PrimarySimulator<DB, C> {
    /// The configured write rate, in operations per second.
    pub closed spec fn rate(&self) -> u32 {
        self.tps
    }

    /// A positive rate, so that the pacing interval is defined.
    pub open spec fn wf(&self) -> bool {
        self.rate() >= 1
    }

    /// A simulator that draws reproducibly from the given seed and paces
    /// itself to `tps` operations per second.
    pub fn new(db: DB, tps: u32, seed: u64, completion_tracker: TaskCompletion, clock: C) -> (s:
        Self)
        requires
            tps >= 1,
        ensures
            s.wf(),
            s.rate() == tps,
    {
        PrimarySimulator {
            db,
            tps,
            rng: rng_from_seed(seed),
            generator: DataGenerator::new(seed),
            clock,
            completion_tracker,
        }
    }

    /// The fixed pause between operations: one second divided by the rate.
    pub fn interval_nanos(&self) -> (r: u64)
        requires
            self.wf(),
        ensures
            r == 1_000_000_000int / (self.rate() as int),
    {
        1_000_000_000u64 / (self.tps as u64)
    }

    /// Runs the generator loop: while the completion signal has not fired,
    /// synthesize one write operation, execute it (a failure aborts the
    /// run; an explicitly skipped operation does not), and pause for one
    /// interval. The cap bounds the loop for the machine's sake; the
    /// orchestrator passes a cap far beyond any realistic run length.
    pub fn run(&mut self, max_ops: u64) -> (r: Result<(), BenchError>)
        requires
            old(self).wf(),
        ensures
            final(self).wf(),
            max_ops == 0 ==> r is Ok,
    {
        let interval = self.interval_nanos();
        let mut remaining = max_ops;
        while remaining > 0
            invariant
                self.wf(),
                max_ops == 0 ==> remaining == 0,
            decreases remaining,
        {
            if self.completion_tracker.is_done() {
                return Ok(());
            }
            let op = match self.generate_operation() {
                Ok(op) => op,
                Err(e) => { return Err(e); },
            };
            match self.db.execute_command(op) {
                Ok(_) => (),
                Err(e) => { return Err(e); },
            }
            self.clock.pause_nanos(interval);
            remaining = remaining - 1;
        }
        Ok(())
    }

    /// Synthesizes one write operation: one draw picks the intent class,
    /// a second picks the entity. Inserts never link a parent row.
    fn generate_operation(&mut self) -> (r: Result<WriteOperation, BenchError>)
        ensures
            final(self).rate() == old(self).rate(),
            r matches Ok(op) ==> insert_leaves_parent_unset(op) && generated_values_wf(op),
    {
        let draw = draw_in_range(&mut self.rng, 0, 100);
        match classify_draw(draw) {
            WriteClass::Insert => self.generate_insert(),
            WriteClass::Update => self.generate_update(),
            WriteClass::Delete => self.generate_delete(),
        }
    }

    /// One insert, over the six entities; hierarchical entities leave their
    /// parent id unset.
    fn generate_insert(&mut self) -> (r: Result<WriteOperation, BenchError>)
        ensures
            final(self).rate() == old(self).rate(),
            r matches Ok(op) ==> write_class_of(op) == WriteClass::Insert
                && insert_leaves_parent_unset(op) && generated_values_wf(op),
    {
        let entity = draw_in_range(&mut self.rng, 0, 6);
        let operation = if entity == 0 {
            let customer = self.generator.generate_customer();
            WriteOperation::InsertCustomer { name: customer.name, address: customer.address }
        } else if entity == 1 {
            let customer_id = match self.db.get_random_customer_id() {
                Ok(id) => id,
                Err(e) => { return Err(e); },
            };
            let account = self.generator.generate_account();
            WriteOperation::InsertAccount {
                customer_id,
                account_type: account.account_type,
                balance_cents: account.balance_cents,
                parent_account_id: None,
            }
        } else if entity == 2 {
            let security = self.generator.generate_security();
            WriteOperation::InsertSecurity {
                ticker: security.ticker,
                name: security.name,
                sector: security.sector,
            }
        } else if entity == 3 {
            let account_id = match self.db.get_random_account_id() {
                Ok(id) => id,
                Err(e) => { return Err(e); },
            };
            let security_id = match self.db.get_random_security_id() {
                Ok(id) => id,
                Err(e) => { return Err(e); },
            };
            let trade = self.generator.generate_trade();
            WriteOperation::InsertTrade {
                account_id,
                security_id,
                trade_type: trade.trade_type,
                quantity: trade.quantity,
                price_cents: trade.price_cents,
                parent_trade_id: None,
            }
        } else if entity == 4 {
            let account_id = match self.db.get_random_account_id() {
                Ok(id) => id,
                Err(e) => { return Err(e); },
            };
            let security_id = match self.db.get_random_security_id() {
                Ok(id) => id,
                Err(e) => { return Err(e); },
            };
            let order = self.generator.generate_order();
            WriteOperation::InsertOrder {
                account_id,
                security_id,
                order_type: order.order_type,
                quantity: order.quantity,
                limit_price_cents: order.limit_price_cents,
                status: order.status,
                parent_order_id: None,
            }
        } else {
            let security_id = match self.db.get_random_security_id() {
                Ok(id) => id,
                Err(e) => { return Err(e); },
            };
            let market_data = self.generator.generate_market_data();
            WriteOperation::InsertMarketData {
                security_id,
                price_cents: market_data.price_cents,
                volume: market_data.volume,
            }
        };
        Ok(operation)
    }

    /// One update, over the five updatable entities; the target id comes
    /// from the primary's random-id lookup.
    fn generate_update(&mut self) -> (r: Result<WriteOperation, BenchError>)
        ensures
            final(self).rate() == old(self).rate(),
            r matches Ok(op) ==> write_class_of(op) == WriteClass::Update
                && generated_values_wf(op),
    {
        let entity = draw_in_range(&mut self.rng, 0, 5);
        let operation = if entity == 0 {
            let customer_id = match self.db.get_random_customer_id() {
                Ok(id) => id,
                Err(e) => { return Err(e); },
            };
            let customer = self.generator.generate_customer();
            WriteOperation::UpdateCustomer { customer_id, address: customer.address }
        } else if entity == 1 {
            let account_id = match self.db.get_random_account_id() {
                Ok(id) => id,
                Err(e) => { return Err(e); },
            };
            let account = self.generator.generate_account();
            WriteOperation::UpdateAccount { account_id, balance_cents: account.balance_cents }
        } else if entity == 2 {
            let trade_id = match self.db.get_random_trade_id() {
                Ok(id) => id,
                Err(e) => { return Err(e); },
            };
            let trade = self.generator.generate_trade();
            WriteOperation::UpdateTrade { trade_id, price_cents: trade.price_cents }
        } else if entity == 3 {
            let order_id = match self.db.get_random_order_id() {
                Ok(id) => id,
                Err(e) => { return Err(e); },
            };
            let order = self.generator.generate_order();
            WriteOperation::UpdateOrder {
                order_id,
                status: order.status,
                limit_price_cents: order.limit_price_cents,
            }
        } else {
            let market_data_id = match self.db.get_random_market_data_id() {
                Ok(id) => id,
                Err(e) => { return Err(e); },
            };
            let market_data = self.generator.generate_market_data();
            WriteOperation::UpdateMarketData {
                market_data_id,
                price_cents: market_data.price_cents,
                volume: market_data.volume,
            }
        };
        Ok(operation)
    }

    /// One delete, over the six entities; the target id comes from the
    /// primary's random-id lookup.
    fn generate_delete(&mut self) -> (r: Result<WriteOperation, BenchError>)
        ensures
            final(self).rate() == old(self).rate(),
            r matches Ok(op) ==> write_class_of(op) == WriteClass::Delete
                && generated_values_wf(op),
    {
        let entity = draw_in_range(&mut self.rng, 0, 6);
        let operation = if entity == 0 {
            WriteOperation::DeleteCustomer {
                customer_id: match self.db.get_random_customer_id() {
                    Ok(id) => id,
                    Err(e) => { return Err(e); },
                },
            }
        } else if entity == 1 {
            WriteOperation::DeleteAccount {
                account_id: match self.db.get_random_account_id() {
                    Ok(id) => id,
                    Err(e) => { return Err(e); },
                },
            }
        } else if entity == 2 {
            WriteOperation::DeleteSecurity {
                security_id: match self.db.get_random_security_id() {
                    Ok(id) => id,
                    Err(e) => { return Err(e); },
                },
            }
        } else if entity == 3 {
            WriteOperation::DeleteTrade {
                trade_id: match self.db.get_random_trade_id() {
                    Ok(id) => id,
                    Err(e) => { return Err(e); },
                },
            }
        } else if entity == 4 {
            WriteOperation::DeleteOrder {
                order_id: match self.db.get_random_order_id() {
                    Ok(id) => id,
                    Err(e) => { return Err(e); },
                },
            }
        } else {
            WriteOperation::DeleteMarketData {
                market_data_id: match self.db.get_random_market_data_id() {
                    Ok(id) => id,
                    Err(e) => { return Err(e); },
                },
            }
        };
        Ok(operation)
    }
}

} // verus!
