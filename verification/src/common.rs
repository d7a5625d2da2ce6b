use vstd::prelude::*;
use vstd::string::StringExecFns;

verus! {

/// An account on an exchange: the exchange's name and the number of the account
/// there.
#[derive(Clone, Debug)]
pub struct ExchangeAccountId {
    pub exchange_id: String,
    pub account_number: u8,
}

/// A currency pair in the unified notation, such as `btc/usdt`.
#[derive(Clone, Debug)]
pub struct CurrencyPair {
    pub code: String,
}

impl ExchangeAccountId {
    /// The account with the given exchange name and number.
    pub fn new(exchange_id: String, account_number: u8) -> (r: Self)
        ensures
            r.exchange_id@ == exchange_id@,
            r.account_number == account_number,
    {
        ExchangeAccountId { exchange_id, account_number }
    }
}

impl CurrencyPair {
    /// The pair of the base and quote currency codes: `base/quote`.
    pub fn from_codes(base: &str, quote: &str) -> (r: Self)
        ensures
            r.code@ == base@ + seq!['/'] + quote@,
    {
        let mut code = base.to_owned();
        let delimiter = "/";
        proof {
            reveal_strlit("/");
        }
        code.append(delimiter);
        code.append(quote);
        CurrencyPair { code }
    }

    /// The pair with the given code.
    pub fn from_code(code: String) -> (r: Self)
        ensures
            r.code@ == code@,
    {
        CurrencyPair { code }
    }
}

} // verus!
