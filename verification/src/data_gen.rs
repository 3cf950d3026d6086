//! The synthetic-row generator: fabricates example field values for new
//! rows (names, addresses, tickers, prices) from a deterministic seeded
//! random source.
//!
//! Free-text fields come from the `fake` fakers and are arbitrary strings;
//! everything else carries an exact contract: enumerated fields are one of
//! their documented values, and numeric fields stay in their documented
//! ranges (monetary amounts in integer cents).
use vstd::prelude::*;

use crate::rng::{draw_alphanumeric, draw_in_range, rng_from_seed};
use fake::Fake;
use fake::faker::address::raw::StreetName;
use fake::faker::company::raw::{CompanyName, Industry};
use fake::faker::name::raw::Name;
use fake::locales::EN;
use rand::rngs::StdRng;

verus! {

/// An ASCII letter or digit.
pub open spec fn is_alnum(c: char) -> bool {
    (97 <= c as u32 && c as u32 <= 122) || (65 <= c as u32 && c as u32 <= 90) || (48
        <= c as u32 && c as u32 <= 57)
}

/// Example field values for a new customer row.
pub struct Customer {
    pub name: String,
    pub address: String,
}

/// Example field values for a new account row.
pub struct Account {
    pub account_type: String,
    pub balance_cents: u64,
}

/// Example field values for a new security row.
pub struct Security {
    pub ticker: String,
    pub name: String,
    pub sector: String,
}

/// Example field values for a new trade row.
pub struct Trade {
    pub trade_type: String,
    pub quantity: i32,
    pub price_cents: u64,
}

/// Example field values for a new order row.
pub struct Order {
    pub order_type: String,
    pub quantity: i32,
    pub limit_price_cents: u64,
    pub status: String,
}

/// Example field values for a new market-data row.
pub struct MarketData {
    pub price_cents: u64,
    pub volume: i32,
}

/// Fabricates example field values from a deterministic seeded source.
pub struct DataGenerator {
    rng: StdRng,
}

impl DataGenerator {
    /// A generator whose draws are reproducible from the seed.
    pub fn new(seed: u64) -> DataGenerator {
        DataGenerator { rng: rng_from_seed(seed) }
    }

    /// A new customer: a fabricated name and street address.
    pub fn generate_customer(&mut self) -> Customer {
        Customer {
            name: fake_person_name(&mut self.rng),
            address: fake_street_name(&mut self.rng),
        }
    }

    /// A new account: one of the four account types, and a balance below
    /// ten thousand (in cents).
    pub fn generate_account(&mut self) -> (a: Account)
        ensures
            a.balance_cents < 1_000_000,
            is_account_type(a.account_type@),
    {
        Account {
            account_type: self.generate_account_type(),
            balance_cents: draw_in_range(&mut self.rng, 0, 1_000_000) as u64,
        }
    }

    /// A new security: a four-character alphanumeric ticker and fabricated
    /// company name and sector.
    pub fn generate_security(&mut self) -> (s: Security)
        ensures
            s.ticker@.len() == 4,
            forall|i: int| 0 <= i < 4 ==> is_alnum(#[trigger] s.ticker@[i]),
    {
        Security {
            ticker: self.generate_ticker(),
            name: fake_company_name(&mut self.rng),
            sector: fake_industry(&mut self.rng),
        }
    }

    /// A new trade: buy or sell, a quantity in `[1, 1000)`, and a price in
    /// `[100, 500)` dollars, in cents.
    pub fn generate_trade(&mut self) -> (t: Trade)
        ensures
            t.trade_type@ == "buy"@ || t.trade_type@ == "sell"@,
            1 <= t.quantity < 1000,
            10_000 <= t.price_cents < 50_000,
    {
        Trade {
            trade_type: self.generate_trade_type(),
            quantity: draw_in_range(&mut self.rng, 1, 1000) as i32,
            price_cents: draw_in_range(&mut self.rng, 10_000, 50_000) as u64,
        }
    }

    /// A new order: buy or sell, a quantity in `[1, 1000)`, a whole-dollar
    /// limit price in `[1, 1000)` dollars (in cents), and one of the three
    /// order statuses.
    pub fn generate_order(&mut self) -> (o: Order)
        ensures
            o.order_type@ == "buy"@ || o.order_type@ == "sell"@,
            1 <= o.quantity < 1000,
            100 <= o.limit_price_cents < 100_000,
            o.limit_price_cents % 100 == 0,
            is_order_status(o.status@),
    {
        Order {
            order_type: self.generate_order_type(),
            quantity: draw_in_range(&mut self.rng, 1, 1000) as i32,
            limit_price_cents: (draw_in_range(&mut self.rng, 1, 1000) as u64) * 100,
            status: self.generate_status(),
        }
    }

    /// New market data: a price in `[100, 500)` dollars (in cents) and a
    /// volume in `[1000, 100000)`.
    pub fn generate_market_data(&mut self) -> (m: MarketData)
        ensures
            10_000 <= m.price_cents < 50_000,
            1000 <= m.volume < 100_000,
    {
        MarketData {
            price_cents: draw_in_range(&mut self.rng, 10_000, 50_000) as u64,
            volume: draw_in_range(&mut self.rng, 1000, 100_000) as i32,
        }
    }

    /// A four-character alphanumeric ticker symbol.
    fn generate_ticker(&mut self) -> (t: String)
        ensures
            t@.len() == 4,
            forall|i: int| 0 <= i < 4 ==> is_alnum(#[trigger] t@[i]),
    {
        let mut t = String::new();
        let mut i: usize = 0;
        while i < 4
            invariant
                i <= 4,
                t@.len() == i,
                forall|k: int| 0 <= k < i ==> is_alnum(#[trigger] t@[k]),
            decreases 4 - i,
        {
            let c = draw_alphanumeric(&mut self.rng);
            string_push_char(&mut t, c);
            i += 1;
        }
        t
    }

    /// Either `"buy"` or `"sell"`.
    fn generate_trade_type(&mut self) -> (s: String)
        ensures
            s@ == "buy"@ || s@ == "sell"@,
    {
        if draw_in_range(&mut self.rng, 0, 2) == 0 {
            "buy".to_owned()
        } else {
            "sell".to_owned()
        }
    }

    /// Either `"buy"` or `"sell"`.
    fn generate_order_type(&mut self) -> (s: String)
        ensures
            s@ == "buy"@ || s@ == "sell"@,
    {
        if draw_in_range(&mut self.rng, 0, 2) == 0 {
            "buy".to_owned()
        } else {
            "sell".to_owned()
        }
    }

    /// One of the four account types.
    fn generate_account_type(&mut self) -> (s: String)
        ensures
            is_account_type(s@),
    {
        let k = draw_in_range(&mut self.rng, 0, 4);
        if k == 0 {
            "Savings".to_owned()
        } else if k == 1 {
            "Checking".to_owned()
        } else if k == 2 {
            "Brokerage".to_owned()
        } else {
            "Investment".to_owned()
        }
    }

    /// One of the three order statuses.
    fn generate_status(&mut self) -> (s: String)
        ensures
            is_order_status(s@),
    {
        let k = draw_in_range(&mut self.rng, 0, 3);
        if k == 0 {
            "pending".to_owned()
        } else if k == 1 {
            "completed".to_owned()
        } else {
            "canceled".to_owned()
        }
    }
}

/// One of the four account types a generated account may carry.
pub open spec fn is_account_type(s: Seq<char>) -> bool {
    s == "Savings"@ || s == "Checking"@ || s == "Brokerage"@ || s == "Investment"@
}

/// One of the three statuses a generated order may carry.
pub open spec fn is_order_status(s: Seq<char>) -> bool {
    s == "pending"@ || s == "completed"@ || s == "canceled"@
}

/// Relies on `String::push`: appends exactly the given character.
#[verifier::external_body]
fn string_push_char(s: &mut String, c: char)
    ensures
        final(s)@ == old(s)@.push(c),
{
    s.push(c)
}

/// Relies on fake's `Name` faker: an arbitrary synthetic person name.
#[verifier::external_body]
fn fake_person_name(rng: &mut StdRng) -> String {
    Name(EN).fake_with_rng(rng)
}

/// Relies on fake's `StreetName` faker: an arbitrary synthetic street name.
#[verifier::external_body]
fn fake_street_name(rng: &mut StdRng) -> String {
    StreetName(EN).fake_with_rng(rng)
}

/// Relies on fake's `CompanyName` faker: an arbitrary synthetic company
/// name.
#[verifier::external_body]
fn fake_company_name(rng: &mut StdRng) -> String {
    CompanyName(EN).fake_with_rng(rng)
}

/// Relies on fake's `Industry` faker: an arbitrary synthetic industry name.
#[verifier::external_body]
fn fake_industry(rng: &mut StdRng) -> String {
    Industry(EN).fake_with_rng(rng)
}

} // verus!
