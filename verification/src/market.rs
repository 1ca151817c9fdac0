//! Names of exchange accounts, currencies and currency pairs.
use vstd::prelude::*;

verus! {

/// An account on an exchange: the exchange's name and the number of the account there.
#[derive(Debug, Default, PartialEq, Eq, Hash)]
pub struct ExchangeAccountId {
    pub exchange_id: String,
    pub account_number: u8,
}

impl ExchangeAccountId {
    /// The account `account_number` on the exchange `exchange_id`.
    pub fn new(exchange_id: &str, account_number: u8) -> (id: ExchangeAccountId)
        ensures
            id.exchange_id@ == exchange_id@,
            id.account_number == account_number,
    {
        ExchangeAccountId { exchange_id: exchange_id.to_owned(), account_number }
    }
}

impl Clone for ExchangeAccountId {
    fn clone(&self) -> (copy: Self)
        ensures
            copy == *self,
    {
        ExchangeAccountId {
            exchange_id: self.exchange_id.clone(),
            account_number: self.account_number,
        }
    }
}

/// The code of a currency.
#[derive(Debug, Default, PartialEq, Eq, Hash)]
pub struct CurrencyCode {
    pub code: String,
}

impl CurrencyCode {
    /// The currency `code`.
    pub fn new(code: &str) -> (currency: CurrencyCode)
        ensures
            currency.code@ == code@,
    {
        CurrencyCode { code: code.to_owned() }
    }
}

impl Clone for CurrencyCode {
    fn clone(&self) -> (copy: Self)
        ensures
            copy == *self,
    {
        CurrencyCode { code: self.code.clone() }
    }
}

/// Two currencies, of which the base is traded for the quote.
#[derive(Debug, Default, PartialEq, Eq, Hash)]
pub struct CurrencyPair {
    pub base: CurrencyCode,
    pub quote: CurrencyCode,
}

impl CurrencyPair {
    /// The pair of `base` and `quote`.
    pub fn from_codes(base: CurrencyCode, quote: CurrencyCode) -> (pair: CurrencyPair)
        ensures
            pair == (CurrencyPair { base, quote }),
    {
        CurrencyPair { base, quote }
    }
}

impl Clone for CurrencyPair {
    fn clone(&self) -> (copy: Self)
        ensures
            copy == *self,
    {
        CurrencyPair { base: self.base.clone(), quote: self.quote.clone() }
    }
}

} // verus!
