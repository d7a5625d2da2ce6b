use vstd::prelude::*;

verus! {

/// The kinds of requests sent to an exchange.
#[derive(Clone, Debug, PartialEq, Eq, Structural)]
pub enum RequestType {
    CreateOrder,
    CancelOrder,
    GetOrderInfo,
    GetBalance,
    GetOpenOrders,
    GetMarkets,
    GetCurrencies,
    GetOrderBook,
    GetTrades,
    GetCancelStick,
    GetActivePositions,
    ClosePosition,
    GetOrderTrades,
    GetListenKey,
    UpdateListenKey,
    GetLastTrades,
    GetFundingInfo,
    GetBalanceAndPosition,
    GetLastPrints,
    GetProfileId,
    GetMyTrades,
    SetLeverage,
}

} // verus!
