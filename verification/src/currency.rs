//! Currencies.

use vstd::prelude::*;

verus! {

/// A currency, by its ISO 4217 number. The books are kept in one currency,
/// which is named wherever an amount is put on record.
#[derive(Clone, Copy, PartialEq, Eq, Structural, Debug)]
pub struct Currency {
    /// The ISO 4217 number: 826 for pound sterling, 978 for the euro.
    pub numeric: u16,
}

impl Currency {
    /// The currency with the ISO 4217 number `numeric`.
    pub fn from_numeric(numeric: u16) -> (r: Currency)
        ensures
            r == (Currency { numeric }),
    {
        Currency { numeric }
    }

    /// The ISO 4217 number of this currency.
    pub fn numeric(&self) -> (r: u16)
        ensures
            r == self.numeric,
    {
        self.numeric
    }

    /// Pound sterling.
    pub fn gbp() -> (r: Currency)
        ensures
            r == (Currency { numeric: 826 }),
    {
        Currency { numeric: 826 }
    }
}

} // verus!
