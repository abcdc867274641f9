//! The hamfest table: a till for the club's stand, where items are rung up
//! on a receipt and paid for in cash, by card, by bank transfer or by cheque.

pub mod types;
pub mod export;
