//! What is said of an order: its side, role, type and identifiers.
use crate::decimal::{Amount, Decimal, Price};
use crate::market::CurrencyPair;
use vstd::prelude::*;

verus! {

/// Which way an order trades.
#[derive(Debug, Clone, Copy, PartialEq, Eq, Hash, Structural)]
pub enum OrderSide {
    Buy,
    Sell,
}

impl OrderSide {
    /// The other side.
    pub open spec fn opposite(self) -> OrderSide {
        match self {
            OrderSide::Buy => OrderSide::Sell,
            OrderSide::Sell => OrderSide::Buy,
        }
    }

    /// The other side.
    pub fn change_side(&self) -> (side: OrderSide)
        ensures
            side == self.opposite(),
    {
        match *self {
            OrderSide::Buy => OrderSide::Sell,
            OrderSide::Sell => OrderSide::Buy,
        }
    }
}

/// Whether an order waited in the book or was matched against it.
#[derive(Debug, Clone, Copy, PartialEq, Eq, Hash, Structural)]
pub enum OrderRole {
    Maker,
    Taker,
}

/// How an order is priced.
#[derive(Debug, Clone, Copy, PartialEq, Eq, Hash, Structural)]
pub enum OrderType {
    Limit,
    Market,
}

/// Whether an order may be matched at once.
#[derive(Debug, Clone, Copy, PartialEq, Eq, Hash, Structural)]
pub enum OrderExecutionType {
    Unrestricted,
    MakerOnly,
}

/// What stays the same over the life of an order.
#[derive(Debug, Clone, PartialEq, Eq)]
pub struct OrderHeader {
    pub client_order_id: String,
    pub currency_pair: CurrencyPair,
    pub side: OrderSide,
    pub order_type: OrderType,
    pub execution_type: OrderExecutionType,
    pub amount: Amount,
}

/// An order that is to be placed.
#[derive(Debug, Clone, PartialEq, Eq)]
pub struct OrderCreating {
    pub header: OrderHeader,
    pub price: Price,
}

/// An order that is to be withdrawn.
#[derive(Debug, Clone, PartialEq, Eq)]
pub struct OrderCancelling {
    pub header: OrderHeader,
    pub exchange_order_id: String,
}

/// A position in a derivative.
#[derive(Debug, Clone, PartialEq, Eq)]
pub struct DerivativePosition {
    /// The currency pair in print.
    pub currency_pair: String,
    /// The side, where it is known.
    pub side: Option<OrderSide>,
    pub position: Decimal,
    pub leverage: Decimal,
}

/// A position that is open.
#[derive(Debug, Clone, PartialEq, Eq)]
pub struct ActivePosition {
    pub derivative: DerivativePosition,
}

/// The other side of the other side is the side itself, and never the other one.
pub proof fn law_change_side_twice(side: OrderSide)
    ensures
        side.opposite().opposite() == side,
        side.opposite() != side,
{
}

} // verus!
