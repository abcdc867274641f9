//! Bookkeeping for a radio club's sales events.
//!
//! The surplus sale is an auction: members bring equipment, lots go under
//! the hammer, and afterwards every seller and buyer settles with the club,
//! which keeps a share of each hammer price. The hamfest table is a plain
//! till: items are rung up on a receipt and paid for.
//!
//! Everything here is plain data and arithmetic on it. Money is kept as an
//! exact decimal; what a contract says about money it says about the
//! [`amount::Amount`] a decimal stands for.

pub mod amount;
pub mod decimal;
pub mod types;
pub mod clock;
pub mod currency;
pub mod surplus_sale;
pub mod hamfest_table;
pub mod sheet;
pub mod text;
