//! The closed vocabulary of write operations the write-traffic generator may
//! emit, and the fixed, ordered catalogue of analytical read operations the
//! read-traffic generator cycles through.
//!
//! Monetary amounts (balances, prices) are carried as integer cents so that
//! every field of an operation is a plain value the contracts can speak of;
//! adapters convert to their storage engine's numeric type at the edge.
use vstd::prelude::*;

use crate::data_gen::{is_account_type, is_order_status};

verus! {

/// A write intent against one of the six logical entities, in one of three
/// intent classes (insert, update, delete). This is the complete vocabulary
/// the write generator may emit; an executing capability must handle every
/// variant or fail loudly.
#[derive(Clone, Debug)]
pub enum WriteOperation {
    InsertCustomer { name: String, address: String },
    InsertAccount {
        customer_id: i32,
        account_type: String,
        balance_cents: u64,
        parent_account_id: Option<i32>,
    },
    InsertSecurity { ticker: String, name: String, sector: String },
    InsertTrade {
        account_id: i32,
        security_id: i32,
        trade_type: String,
        quantity: i32,
        price_cents: u64,
        parent_trade_id: Option<i32>,
    },
    InsertOrder {
        account_id: i32,
        security_id: i32,
        order_type: String,
        quantity: i32,
        limit_price_cents: u64,
        status: String,
        parent_order_id: Option<i32>,
    },
    InsertMarketData { security_id: i32, price_cents: u64, volume: i32 },
    UpdateCustomer { customer_id: i32, address: String },
    UpdateAccount { account_id: i32, balance_cents: u64 },
    UpdateTrade { trade_id: i32, price_cents: u64 },
    UpdateOrder { order_id: i32, status: String, limit_price_cents: u64 },
    UpdateMarketData { market_data_id: i32, price_cents: u64, volume: i32 },
    DeleteCustomer { customer_id: i32 },
    DeleteAccount { account_id: i32 },
    DeleteSecurity { security_id: i32 },
    DeleteTrade { trade_id: i32 },
    DeleteOrder { order_id: i32 },
    DeleteMarketData { market_data_id: i32 },
}

/// The intent class of a write operation.
#[derive(Clone, Copy, Debug, PartialEq, Eq, Structural)]
pub enum WriteClass {
    Insert,
    Update,
    Delete,
}

/// The intent class a given operation belongs to.
pub open spec fn write_class_of(op: WriteOperation) -> WriteClass {
    match op {
        WriteOperation::InsertCustomer { .. } => WriteClass::Insert,
        WriteOperation::InsertAccount { .. } => WriteClass::Insert,
        WriteOperation::InsertSecurity { .. } => WriteClass::Insert,
        WriteOperation::InsertTrade { .. } => WriteClass::Insert,
        WriteOperation::InsertOrder { .. } => WriteClass::Insert,
        WriteOperation::InsertMarketData { .. } => WriteClass::Insert,
        WriteOperation::UpdateCustomer { .. } => WriteClass::Update,
        WriteOperation::UpdateAccount { .. } => WriteClass::Update,
        WriteOperation::UpdateTrade { .. } => WriteClass::Update,
        WriteOperation::UpdateOrder { .. } => WriteClass::Update,
        WriteOperation::UpdateMarketData { .. } => WriteClass::Update,
        WriteOperation::DeleteCustomer { .. } => WriteClass::Delete,
        WriteOperation::DeleteAccount { .. } => WriteClass::Delete,
        WriteOperation::DeleteSecurity { .. } => WriteClass::Delete,
        WriteOperation::DeleteTrade { .. } => WriteClass::Delete,
        WriteOperation::DeleteOrder { .. } => WriteClass::Delete,
        WriteOperation::DeleteMarketData { .. } => WriteClass::Delete,
    }
}

/// Inserts synthesized by the generator never link a parent row: for the
/// three hierarchical entities the nullable foreign key is left unset.
pub open spec fn insert_leaves_parent_unset(op: WriteOperation) -> bool {
    match op {
        WriteOperation::InsertAccount { parent_account_id, .. } =>
            parent_account_id is None,
        WriteOperation::InsertTrade { parent_trade_id, .. } => parent_trade_id is None,
        WriteOperation::InsertOrder { parent_order_id, .. } => parent_order_id is None,
        _ => true,
    }
}

/// The field ranges the write generator's synthesized values obey: the
/// quantities, prices and balances it fabricates stay in their documented
/// ranges (monetary values in cents), and enumerated fields carry one of
/// their documented values.
pub open spec fn generated_values_wf(op: WriteOperation) -> bool {
    match op {
        WriteOperation::InsertCustomer { .. } => true,
        WriteOperation::InsertAccount { account_type, balance_cents, .. } => is_account_type(
            account_type@,
        ) && balance_cents < 1_000_000,
        WriteOperation::InsertSecurity { ticker, .. } => ticker@.len() == 4,
        WriteOperation::InsertTrade { trade_type, quantity, price_cents, .. } => (
        trade_type@ == "buy"@ || trade_type@ == "sell"@) && 1 <= quantity < 1000 && 10_000
            <= price_cents < 50_000,
        WriteOperation::InsertOrder { order_type, quantity, limit_price_cents, status, .. } => (
        order_type@ == "buy"@ || order_type@ == "sell"@) && is_order_status(status@) && 1
            <= quantity < 1000 && 100 <= limit_price_cents < 100_000 && limit_price_cents
            % 100 == 0,
        WriteOperation::InsertMarketData { price_cents, volume, .. } => 10_000
            <= price_cents < 50_000 && 1000 <= volume < 100_000,
        WriteOperation::UpdateCustomer { .. } => true,
        WriteOperation::UpdateAccount { balance_cents, .. } => balance_cents < 1_000_000,
        WriteOperation::UpdateTrade { price_cents, .. } => 10_000 <= price_cents < 50_000,
        WriteOperation::UpdateOrder { status, limit_price_cents, .. } => is_order_status(
            status@,
        ) && 100 <= limit_price_cents < 100_000 && limit_price_cents % 100 == 0,
        WriteOperation::UpdateMarketData { price_cents, volume, .. } => 10_000
            <= price_cents < 50_000 && 1000 <= volume < 100_000,
        _ => true,
    }
}

/// One named analytical read query of the fixed catalogue, in canonical
/// order.
#[derive(Clone, Copy, Debug, PartialEq, Eq, Structural)]
pub enum ReadOperation {
    CustomerPortfolio,
    TopPerformers,
    MarketOverview,
    RecentLargeTrades,
    CustomerOrderBook,
    SectorPerformance,
    AccountActivitySummary,
    DailyMarketMovements,
    HighValueCustomers,
    PendingOrdersSummary,
    TradeVolumeByHour,
    TopSecuritiesBySector,
    RecentTradesByAccount,
    OrderFulfillmentRates,
    SectorOrderActivity,
    CascadingOrderCancellationAlert,
}

/// Number of entries in the read catalogue.
pub const CATALOGUE_LEN: usize = 16;

/// The canonical ordering of the read catalogue.
pub open spec fn catalogue_spec() -> Seq<ReadOperation> {
    seq![
        ReadOperation::CustomerPortfolio,
        ReadOperation::TopPerformers,
        ReadOperation::MarketOverview,
        ReadOperation::RecentLargeTrades,
        ReadOperation::CustomerOrderBook,
        ReadOperation::SectorPerformance,
        ReadOperation::AccountActivitySummary,
        ReadOperation::DailyMarketMovements,
        ReadOperation::HighValueCustomers,
        ReadOperation::PendingOrdersSummary,
        ReadOperation::TradeVolumeByHour,
        ReadOperation::TopSecuritiesBySector,
        ReadOperation::RecentTradesByAccount,
        ReadOperation::OrderFulfillmentRates,
        ReadOperation::SectorOrderActivity,
        ReadOperation::CascadingOrderCancellationAlert,
    ]
}

/// The catalogue in canonical order, as a vector.
pub fn catalogue() -> (v: Vec<ReadOperation>)
    ensures
        v@ == catalogue_spec(),
        v@.len() == CATALOGUE_LEN,
{
    let v = vec![
        ReadOperation::CustomerPortfolio,
        ReadOperation::TopPerformers,
        ReadOperation::MarketOverview,
        ReadOperation::RecentLargeTrades,
        ReadOperation::CustomerOrderBook,
        ReadOperation::SectorPerformance,
        ReadOperation::AccountActivitySummary,
        ReadOperation::DailyMarketMovements,
        ReadOperation::HighValueCustomers,
        ReadOperation::PendingOrdersSummary,
        ReadOperation::TradeVolumeByHour,
        ReadOperation::TopSecuritiesBySector,
        ReadOperation::RecentTradesByAccount,
        ReadOperation::OrderFulfillmentRates,
        ReadOperation::SectorOrderActivity,
        ReadOperation::CascadingOrderCancellationAlert,
    ];
    proof {
        assert(v@ =~= catalogue_spec());
    }
    v
}

/// The kind of parameter key a read operation needs from the primary
/// capability before it can run, if any.
#[derive(Clone, Copy, Debug, PartialEq, Eq, Structural)]
pub enum ParamKind {
    CustomerId,
    AccountId,
    SecurityId,
    Sector,
    Ticker,
    NoParam,
}

/// Which parameter key each catalogue entry declares.
pub open spec fn param_kind_spec(op: ReadOperation) -> ParamKind {
    match op {
        ReadOperation::CustomerPortfolio => ParamKind::CustomerId,
        ReadOperation::TopPerformers => ParamKind::NoParam,
        ReadOperation::MarketOverview => ParamKind::Sector,
        ReadOperation::RecentLargeTrades => ParamKind::AccountId,
        ReadOperation::CustomerOrderBook => ParamKind::CustomerId,
        ReadOperation::SectorPerformance => ParamKind::Sector,
        ReadOperation::AccountActivitySummary => ParamKind::AccountId,
        ReadOperation::DailyMarketMovements => ParamKind::SecurityId,
        ReadOperation::HighValueCustomers => ParamKind::NoParam,
        ReadOperation::PendingOrdersSummary => ParamKind::Ticker,
        ReadOperation::TradeVolumeByHour => ParamKind::NoParam,
        ReadOperation::TopSecuritiesBySector => ParamKind::Sector,
        ReadOperation::RecentTradesByAccount => ParamKind::AccountId,
        ReadOperation::OrderFulfillmentRates => ParamKind::CustomerId,
        ReadOperation::SectorOrderActivity => ParamKind::Sector,
        ReadOperation::CascadingOrderCancellationAlert => ParamKind::NoParam,
    }
}

/// The parameter key a read operation needs, as executable metadata.
pub fn param_kind(op: ReadOperation) -> (k: ParamKind)
    ensures
        k == param_kind_spec(op),
{
    match op {
        ReadOperation::CustomerPortfolio => ParamKind::CustomerId,
        ReadOperation::TopPerformers => ParamKind::NoParam,
        ReadOperation::MarketOverview => ParamKind::Sector,
        ReadOperation::RecentLargeTrades => ParamKind::AccountId,
        ReadOperation::CustomerOrderBook => ParamKind::CustomerId,
        ReadOperation::SectorPerformance => ParamKind::Sector,
        ReadOperation::AccountActivitySummary => ParamKind::AccountId,
        ReadOperation::DailyMarketMovements => ParamKind::SecurityId,
        ReadOperation::HighValueCustomers => ParamKind::NoParam,
        ReadOperation::PendingOrdersSummary => ParamKind::Ticker,
        ReadOperation::TradeVolumeByHour => ParamKind::NoParam,
        ReadOperation::TopSecuritiesBySector => ParamKind::Sector,
        ReadOperation::RecentTradesByAccount => ParamKind::AccountId,
        ReadOperation::OrderFulfillmentRates => ParamKind::CustomerId,
        ReadOperation::SectorOrderActivity => ParamKind::Sector,
        ReadOperation::CascadingOrderCancellationAlert => ParamKind::NoParam,
    }
}

} // verus!
