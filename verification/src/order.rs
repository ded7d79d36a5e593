//! Orders, the receipts of their execution, and the ways an operation of the
//! ledger can fail.

use crate::amount::{decimal_product, Amount};
use crate::clock::Timestamp;
use vstd::prelude::*;

verus! {

/// The direction of a trade.
#[derive(Clone, Copy, Debug, PartialEq, Eq, Structural)]
pub enum TransactionType {
    Buy,
    Sell,
}

/// Where an order stands in its life. An order is created `Pending` and
/// becomes `Filled` when it is executed; the ledger moves no order into
/// `Cancelled` or `Partial`.
#[derive(Clone, Copy, Debug, PartialEq, Eq, Structural)]
pub enum OrderStatus {
    Pending,
    Filled,
    Cancelled,
    Partial,
}

/// Why the ledger refused an operation.
#[derive(Clone, Copy, Debug, PartialEq, Eq, Structural)]
pub enum OrderError {
    /// No wallet has the identifier.
    WalletNotFound,
    /// No order has the identifier.
    OrderNotFound,
    /// The wallet does not hold what the trade costs.
    InsufficientFunds,
    /// The order is not pending.
    InvalidState,
}

/// A request to trade `amount` ETH at `price` USD each on behalf of a wallet.
#[derive(Clone, Copy, Debug)]
pub struct Order {
    pub id: u128,
    pub wallet_id: u128,
    pub order_type: TransactionType,
    pub amount: Amount,
    pub price: Amount,
    pub status: OrderStatus,
    pub created_at: Timestamp,
    pub filled_at: Option<Timestamp>,
}

/// The receipt of an executed order.
#[derive(Clone, Copy, Debug)]
pub struct Transaction {
    pub id: u128,
    pub wallet_id: u128,
    pub order_id: u128,
    pub transaction_type: TransactionType,
    pub amount: Amount,
    pub price: Amount,
    pub total_value: Amount,
    pub timestamp: Timestamp,
}

impl Order {
    /// Amount and price are above zero, a pending order has no fill time and
    /// a filled one has.
    pub open spec fn wf(self) -> bool {
        &&& self.amount.is_positive()
        &&& self.price.is_positive()
        &&& self.status == OrderStatus::Pending ==> self.filled_at is None
        &&& self.status == OrderStatus::Filled ==> self.filled_at is Some
    }

    /// The order as it is created.
    pub open spec fn pending(
        id: u128,
        wallet_id: u128,
        order_type: TransactionType,
        amount: Amount,
        price: Amount,
        created_at: Timestamp,
    ) -> Order {
        Order {
            id,
            wallet_id,
            order_type,
            amount,
            price,
            status: OrderStatus::Pending,
            created_at,
            filled_at: None,
        }
    }

    /// The order once it has been executed at `filled_at`.
    pub open spec fn filled(self, filled_at: Timestamp) -> Order {
        Order { status: OrderStatus::Filled, filled_at: Some(filled_at), ..self }
    }
}

impl Transaction {
    /// Amount and price are above zero and the total is their product.
    pub open spec fn wf(self) -> bool {
        &&& self.amount.is_positive()
        &&& self.price.is_positive()
        &&& decimal_product(self.amount, self.price) == Some(self.total_value)
    }

    /// The receipt for `order`, executed at `timestamp`.
    pub open spec fn receipt(id: u128, order: Order, timestamp: Timestamp) -> Transaction {
        Transaction {
            id,
            wallet_id: order.wallet_id,
            order_id: order.id,
            transaction_type: order.order_type,
            amount: order.amount,
            price: order.price,
            total_value: decimal_product(order.amount, order.price).unwrap(),
            timestamp,
        }
    }
}

} // verus!
