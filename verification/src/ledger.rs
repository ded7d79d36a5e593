//! The ledger: every wallet, every order, the log of executed trades and the
//! current price of ETH.
//!
//! Contracts are stated over [`LedgerState`], the mathematical content of a
//! [`TradingSystem`]. Identifiers are drawn at random and instants are read
//! from the clock; each operation that needs them has a sibling, named
//! `.._with`, that takes them as arguments and says exactly what it does with
//! them.

use crate::amount::{decimal_product, decimal_quotient, decimal_sum, Amount};
use crate::clock::{clock_hash, fresh_id, Timestamp};
use crate::order::{Order, OrderError, OrderStatus, Transaction, TransactionType};
use crate::wallet::Wallet;
use std::collections::HashMap;
use vstd::prelude::*;
use vstd::std_specs::iter::IteratorSpec;

verus! {

broadcast use vstd::std_specs::hash::group_hash_axioms;

/// The price of ETH in a new ledger.
pub const INITIAL_ETH_PRICE: i64 = 2500;

/// The lowest price the simulation lets ETH reach.
pub const PRICE_FLOOR: i64 = 1000;

/// The highest price the simulation lets ETH reach.
pub const PRICE_CEILING: i64 = 5000;

/// A price moves by `factor / PRICE_STEP_DIVISOR` of itself in one step.
pub const PRICE_STEP_DIVISOR: i64 = 10000;

/// The factor of a simulated step lies in
/// `-MAX_PRICE_STEP_FACTOR .. MAX_PRICE_STEP_FACTOR`: one step moves the
/// price by at most one percent.
pub const MAX_PRICE_STEP_FACTOR: i64 = 100;

/// The number of factors a simulated step chooses from.
pub const PRICE_STEP_FACTORS: u64 = 200;

/// Whether `price` lies between the floor and the ceiling.
pub open spec fn price_in_band(price: Amount) -> bool {
    &&& price.spec_ge(Amount::whole(PRICE_FLOOR as int))
    &&& Amount::whole(PRICE_CEILING as int).spec_ge(price)
}

/// The nearest price to `price` that lies between the floor and the ceiling.
pub open spec fn clamp_price(price: Amount) -> Amount {
    if !price.spec_ge(Amount::whole(PRICE_FLOOR as int)) {
        Amount::whole(PRICE_FLOOR as int)
    } else if !Amount::whole(PRICE_CEILING as int).spec_ge(price) {
        Amount::whole(PRICE_CEILING as int)
    } else {
        price
    }
}

/// The price one step on, before it is clamped:
/// `price + price * (factor / PRICE_STEP_DIVISOR)`; `None` where the
/// arithmetic overflows.
pub open spec fn price_step(price: Amount, factor: i64) -> Option<Amount> {
    match decimal_quotient(Amount::whole(factor as int), Amount::whole(PRICE_STEP_DIVISOR as int)) {
        Some(change_percent) => match decimal_product(price, change_percent) {
            Some(price_change) => decimal_sum(price, price_change),
            None => None,
        },
        None => None,
    }
}

/// What a ledger holds.
pub struct LedgerState {
    pub wallets: Map<u128, Wallet>,
    pub orders: Map<u128, Order>,
    pub transactions: Seq<Transaction>,
    pub current_eth_price: Amount,
}

/// The ledger.
#[derive(Debug, Clone)]
pub struct TradingSystem {
    pub wallets: HashMap<u128, Wallet>,
    pub orders: HashMap<u128, Order>,
    pub transactions: Vec<Transaction>,
    pub current_eth_price: Amount,
}

impl View for TradingSystem {
    type V = LedgerState;

    open spec fn view(&self) -> LedgerState {
        LedgerState {
            wallets: self.wallets@,
            orders: self.orders@,
            transactions: self.transactions@,
            current_eth_price: self.current_eth_price,
        }
    }
}

impl LedgerState {
    /// The empty ledger at the initial price.
    pub open spec fn initial() -> LedgerState {
        LedgerState {
            wallets: Map::empty(),
            orders: Map::empty(),
            transactions: Seq::empty(),
            current_eth_price: Amount::whole(INITIAL_ETH_PRICE as int),
        }
    }

    /// The invariant of the ledger.
    ///
    /// Every wallet is filed under its own identifier and has no negative
    /// balance. Every order is filed under its own identifier, is well formed
    /// and belongs to a wallet of the ledger. Every transaction is well formed
    /// and names a wallet and an order of the ledger. The price lies between
    /// the floor and the ceiling.
    pub open spec fn wf(self) -> bool {
        &&& forall|id: u128| #[trigger]
            self.wallets.contains_key(id) ==> self.wallets[id].id == id && self.wallets[id].wf()
        &&& forall|id: u128| #[trigger]
            self.orders.contains_key(id) ==> {
                &&& self.orders[id].id == id
                &&& self.orders[id].wf()
                &&& self.wallets.contains_key(self.orders[id].wallet_id)
            }
        &&& forall|i: int|
            0 <= i < self.transactions.len() ==> {
                &&& (#[trigger] self.transactions[i]).wf()
                &&& self.wallets.contains_key(self.transactions[i].wallet_id)
                &&& self.orders.contains_key(self.transactions[i].order_id)
            }
        &&& price_in_band(self.current_eth_price)
    }

    /// The ledger with a newly opened wallet filed under `id`.
    pub open spec fn after_create_wallet(self, id: u128, created_at: Timestamp) -> LedgerState {
        LedgerState { wallets: self.wallets.insert(id, Wallet::opened(id, created_at)), ..self }
    }

    /// Whether the wallet `wallet_id` covers an order of this kind.
    pub open spec fn covers(
        self,
        wallet_id: u128,
        order_type: TransactionType,
        amount: Amount,
        price: Amount,
    ) -> bool {
        match order_type {
            TransactionType::Buy => self.wallets[wallet_id].spec_can_afford_buy(amount, price),
            TransactionType::Sell => self.wallets[wallet_id].spec_can_afford_sell(amount),
        }
    }

    /// Whether the arithmetic of creating the order stays in range: the cost
    /// of a purchase can be computed.
    pub open spec fn create_order_defined(
        self,
        wallet_id: u128,
        order_type: TransactionType,
        amount: Amount,
        price: Amount,
    ) -> bool {
        self.wallets.contains_key(wallet_id) && order_type == TransactionType::Buy
            ==> decimal_product(amount, price) is Some
    }

    /// Why the order cannot be created, or `None` where it can.
    pub open spec fn create_order_error(
        self,
        wallet_id: u128,
        order_type: TransactionType,
        amount: Amount,
        price: Amount,
    ) -> Option<OrderError> {
        if !self.wallets.contains_key(wallet_id) {
            Some(OrderError::WalletNotFound)
        } else if !self.covers(wallet_id, order_type, amount, price) {
            Some(OrderError::InsufficientFunds)
        } else {
            None
        }
    }

    /// The ledger with a new pending order filed under `order_id`.
    pub open spec fn after_create_order(
        self,
        order_id: u128,
        created_at: Timestamp,
        wallet_id: u128,
        order_type: TransactionType,
        amount: Amount,
        price: Amount,
    ) -> LedgerState {
        LedgerState {
            orders: self.orders.insert(
                order_id,
                Order::pending(order_id, wallet_id, order_type, amount, price, created_at),
            ),
            ..self
        }
    }

    /// Whether the arithmetic of executing the order stays in range.
    pub open spec fn execute_defined(self, order_id: u128) -> bool {
        let order = self.orders[order_id];
        let wallet = self.wallets[order.wallet_id];
        self.orders.contains_key(order_id) && order.status == OrderStatus::Pending
            && self.wallets.contains_key(order.wallet_id) ==> match order.order_type {
            TransactionType::Buy => wallet.buy_defined(order.amount, order.price),
            TransactionType::Sell => wallet.sell_defined(order.amount, order.price),
        }
    }

    /// Why the order cannot be executed, or `None` where it can.
    pub open spec fn execute_error(self, order_id: u128) -> Option<OrderError> {
        let order = self.orders[order_id];
        if !self.orders.contains_key(order_id) {
            Some(OrderError::OrderNotFound)
        } else if order.status != OrderStatus::Pending {
            Some(OrderError::InvalidState)
        } else if !self.wallets.contains_key(order.wallet_id) {
            Some(OrderError::WalletNotFound)
        } else if !self.covers(order.wallet_id, order.order_type, order.amount, order.price) {
            Some(OrderError::InsufficientFunds)
        } else {
            None
        }
    }

    /// The ledger after the order has been executed: the wallet has traded,
    /// the receipt is the last entry of the log and the order is filled.
    pub open spec fn after_execute(
        self,
        order_id: u128,
        transaction_id: u128,
        executed_at: Timestamp,
        filled_at: Timestamp,
    ) -> LedgerState {
        let order = self.orders[order_id];
        let wallet = self.wallets[order.wallet_id];
        let traded = match order.order_type {
            TransactionType::Buy => wallet.after_buy(order.amount, order.price),
            TransactionType::Sell => wallet.after_sell(order.amount, order.price),
        };
        LedgerState {
            wallets: self.wallets.insert(order.wallet_id, traded),
            orders: self.orders.insert(order_id, order.filled(filled_at)),
            transactions: self.transactions.push(
                Transaction::receipt(transaction_id, order, executed_at),
            ),
            current_eth_price: self.current_eth_price,
        }
    }

    /// Whether the value of the wallet `wallet_id` can be computed.
    pub open spec fn balance_defined(self, wallet_id: u128) -> bool {
        self.wallets.contains_key(wallet_id) ==> self.wallets[wallet_id].spec_total_value(
            self.current_eth_price,
        ) is Some
    }

    /// The USD balance, the ETH balance and the value in USD of the wallet
    /// `wallet_id`; `None` where the ledger has no such wallet.
    pub open spec fn balance_of(self, wallet_id: u128) -> Option<(Amount, Amount, Amount)> {
        if self.wallets.contains_key(wallet_id) {
            let wallet = self.wallets[wallet_id];
            Some(
                (
                    wallet.usd_balance,
                    wallet.eth_balance,
                    wallet.spec_total_value(self.current_eth_price).unwrap(),
                ),
            )
        } else {
            None
        }
    }

    /// The transactions of the wallet `wallet_id`, in the order in which they
    /// were executed.
    pub open spec fn history_of(self, wallet_id: u128) -> Seq<Transaction> {
        self.transactions.filter(|t: Transaction| t.wallet_id == wallet_id)
    }

    /// The identifiers among `ids` whose order is filled.
    pub open spec fn filled_among(self, ids: Set<u128>) -> Set<u128> {
        ids.filter(|id: u128| self.orders[id].status == OrderStatus::Filled)
    }

    /// The identifiers of the filled orders.
    pub open spec fn filled_orders(self) -> Set<u128> {
        self.filled_among(self.orders.dom())
    }

    /// The ledger after one step of the price by `factor`.
    pub open spec fn after_price_change(self, factor: i64) -> LedgerState {
        LedgerState {
            current_eth_price: clamp_price(price_step(self.current_eth_price, factor).unwrap()),
            ..self
        }
    }
}

impl TradingSystem {
    /// An empty ledger at the initial price.
    pub fn new() -> (system: TradingSystem)
        ensures
            system@ == LedgerState::initial(),
            system@.wf(),
    {
        let system = TradingSystem {
            wallets: HashMap::new(),
            orders: HashMap::new(),
            transactions: Vec::new(),
            current_eth_price: Amount::from_i64(INITIAL_ETH_PRICE),
        };
        proof {
            lemma_band_constants();
        }
        system
    }

    /// Opens a wallet under a fresh identifier and returns the identifier.
    pub fn create_wallet(&mut self) -> (wallet_id: u128)
        ensures
            exists|created_at: Timestamp|
                #[trigger] old(self)@.after_create_wallet(wallet_id, created_at) == final(self)@,
            old(self)@.wf() ==> final(self)@.wf(),
    {
        let wallet = Wallet::new();
        self.create_wallet_with(wallet.id, wallet.created_at)
    }

    /// Opens a wallet under `wallet_id`, created at `created_at`, and returns
    /// the identifier. A wallet already filed under it is replaced.
    pub fn create_wallet_with(&mut self, wallet_id: u128, created_at: Timestamp) -> (r: u128)
        ensures
            r == wallet_id,
            final(self)@ == old(self)@.after_create_wallet(wallet_id, created_at),
            old(self)@.wf() ==> final(self)@.wf(),
    {
        let wallet = Wallet::open(wallet_id, created_at);
        self.wallets.insert(wallet_id, wallet);
        proof {
            if old(self)@.wf() {
                old(self)@.lemma_create_wallet_keeps_wf(wallet_id, created_at);
            }
        }
        wallet_id
    }

    /// Creates a pending order under a fresh identifier and returns the
    /// identifier. Fails, and changes nothing, where the ledger has no such
    /// wallet or the wallet does not cover the order at this moment. Nothing
    /// is set aside for the order: it is checked again when it is executed.
    pub fn create_order(
        &mut self,
        wallet_id: u128,
        order_type: TransactionType,
        amount: Amount,
        price: Amount,
    ) -> (r: Result<u128, OrderError>)
        requires
            old(self)@.create_order_defined(wallet_id, order_type, amount, price),
        ensures
            match r {
                Ok(order_id) => {
                    &&& old(self)@.create_order_error(wallet_id, order_type, amount, price) is None
                    &&& exists|created_at: Timestamp|
                        #[trigger] old(self)@.after_create_order(
                            order_id,
                            created_at,
                            wallet_id,
                            order_type,
                            amount,
                            price,
                        ) == final(self)@
                },
                Err(e) => {
                    &&& old(self)@.create_order_error(wallet_id, order_type, amount, price) == Some(
                        e,
                    )
                    &&& final(self)@ == old(self)@
                },
            },
            old(self)@.wf() && amount.is_positive() && price.is_positive() ==> final(self)@.wf(),
    {
        self.create_order_with(fresh_id(), Timestamp::now(), wallet_id, order_type, amount, price)
    }

    /// Creates a pending order under `order_id`, created at `created_at`, as
    /// [`create_order`](TradingSystem::create_order) does. An order already
    /// filed under the identifier is replaced.
    pub fn create_order_with(
        &mut self,
        order_id: u128,
        created_at: Timestamp,
        wallet_id: u128,
        order_type: TransactionType,
        amount: Amount,
        price: Amount,
    ) -> (r: Result<u128, OrderError>)
        requires
            old(self)@.create_order_defined(wallet_id, order_type, amount, price),
        ensures
            match r {
                Ok(id) => {
                    &&& id == order_id
                    &&& old(self)@.create_order_error(wallet_id, order_type, amount, price) is None
                    &&& final(self)@ == old(self)@.after_create_order(
                        order_id,
                        created_at,
                        wallet_id,
                        order_type,
                        amount,
                        price,
                    )
                },
                Err(e) => {
                    &&& old(self)@.create_order_error(wallet_id, order_type, amount, price) == Some(
                        e,
                    )
                    &&& final(self)@ == old(self)@
                },
            },
            old(self)@.wf() && amount.is_positive() && price.is_positive() ==> final(self)@.wf(),
    {
        let covered = match self.wallets.get(&wallet_id) {
            None => {
                return Err(OrderError::WalletNotFound);
            },
            Some(wallet) => match order_type {
                TransactionType::Buy => wallet.can_afford_buy(amount, price),
                TransactionType::Sell => wallet.can_afford_sell(amount),
            },
        };
        if !covered {
            return Err(OrderError::InsufficientFunds);
        }
        let order = Order {
            id: order_id,
            wallet_id,
            order_type,
            amount,
            price,
            status: OrderStatus::Pending,
            created_at,
            filled_at: None,
        };
        self.orders.insert(order_id, order);
        proof {
            if old(self)@.wf() && amount.is_positive() && price.is_positive() {
                old(self)@.lemma_create_order_keeps_wf(
                    order_id,
                    created_at,
                    wallet_id,
                    order_type,
                    amount,
                    price,
                );
            }
        }
        Ok(order_id)
    }

    /// Creates an order as [`create_order`](TradingSystem::create_order)
    /// does; `None`, with the ledger as it was, where the cost of the
    /// purchase overflows.
    pub fn try_create_order(
        &mut self,
        wallet_id: u128,
        order_type: TransactionType,
        amount: Amount,
        price: Amount,
    ) -> (r: Option<Result<u128, OrderError>>)
        ensures
            r is Some <==> old(self)@.create_order_defined(wallet_id, order_type, amount, price),
            match r {
                Some(Ok(order_id)) => {
                    &&& old(self)@.create_order_error(wallet_id, order_type, amount, price) is None
                    &&& exists|created_at: Timestamp|
                        #[trigger] old(self)@.after_create_order(
                            order_id,
                            created_at,
                            wallet_id,
                            order_type,
                            amount,
                            price,
                        ) == final(self)@
                },
                Some(Err(e)) => {
                    &&& old(self)@.create_order_error(wallet_id, order_type, amount, price) == Some(
                        e,
                    )
                    &&& final(self)@ == old(self)@
                },
                None => final(self)@ == old(self)@,
            },
            old(self)@.wf() && amount.is_positive() && price.is_positive() ==> final(self)@.wf(),
    {
        let is_buy = match order_type {
            TransactionType::Buy => true,
            TransactionType::Sell => false,
        };
        if is_buy && self.wallets.contains_key(&wallet_id) && amount.checked_mul(price).is_none() {
            None
        } else {
            Some(self.create_order(wallet_id, order_type, amount, price))
        }
    }

    /// Executes a pending order: the wallet trades, a receipt joins the log
    /// and the order becomes filled. Fails, and changes nothing, where the
    /// ledger has no such order, the order is not pending, its wallet is
    /// missing, or the wallet no longer covers it.
    pub fn execute_order(&mut self, order_id: u128) -> (r: Result<(), OrderError>)
        requires
            old(self)@.execute_defined(order_id),
        ensures
            match r {
                Ok(()) => {
                    &&& old(self)@.execute_error(order_id) is None
                    &&& exists|transaction_id: u128, executed_at: Timestamp, filled_at: Timestamp|
                        #[trigger] old(self)@.after_execute(
                            order_id,
                            transaction_id,
                            executed_at,
                            filled_at,
                        ) == final(self)@
                },
                Err(e) => {
                    &&& old(self)@.execute_error(order_id) == Some(e)
                    &&& final(self)@ == old(self)@
                },
            },
            old(self)@.wf() ==> final(self)@.wf(),
    {
        let transaction_id = fresh_id();
        let executed_at = Timestamp::now();
        let filled_at = Timestamp::now();
        self.execute_order_with(order_id, transaction_id, executed_at, filled_at)
    }

    /// Executes a pending order as
    /// [`execute_order`](TradingSystem::execute_order) does, with the
    /// identifier of the receipt, its time and the fill time given.
    pub fn execute_order_with(
        &mut self,
        order_id: u128,
        transaction_id: u128,
        executed_at: Timestamp,
        filled_at: Timestamp,
    ) -> (r: Result<(), OrderError>)
        requires
            old(self)@.execute_defined(order_id),
        ensures
            match r {
                Ok(()) => {
                    &&& old(self)@.execute_error(order_id) is None
                    &&& final(self)@ == old(self)@.after_execute(
                        order_id,
                        transaction_id,
                        executed_at,
                        filled_at,
                    )
                },
                Err(e) => {
                    &&& old(self)@.execute_error(order_id) == Some(e)
                    &&& final(self)@ == old(self)@
                },
            },
            old(self)@.wf() ==> final(self)@.wf(),
    {
        let order = match self.orders.get(&order_id) {
            None => {
                return Err(OrderError::OrderNotFound);
            },
            Some(order) => *order,
        };
        match order.status {
            OrderStatus::Pending => {},
            _ => {
                return Err(OrderError::InvalidState);
            },
        }
        let mut wallet = match self.wallets.get(&order.wallet_id) {
            None => {
                return Err(OrderError::WalletNotFound);
            },
            Some(wallet) => *wallet,
        };
        let traded = match order.order_type {
            TransactionType::Buy => wallet.buy_eth(order.amount, order.price),
            TransactionType::Sell => wallet.sell_eth(order.amount, order.price),
        };
        if traded.is_err() {
            return Err(OrderError::InsufficientFunds);
        }
        let total_value = order.amount.checked_mul(order.price).unwrap();
        let transaction = Transaction {
            id: transaction_id,
            wallet_id: order.wallet_id,
            order_id: order.id,
            transaction_type: order.order_type,
            amount: order.amount,
            price: order.price,
            total_value,
            timestamp: executed_at,
        };
        self.wallets.insert(order.wallet_id, wallet);
        self.transactions.push(transaction);
        self.orders.insert(
            order_id,
            Order { status: OrderStatus::Filled, filled_at: Some(filled_at), ..order },
        );
        proof {
            if old(self)@.wf() {
                old(self)@.lemma_execute_keeps_wf(
                    order_id,
                    transaction_id,
                    executed_at,
                    filled_at,
                    wallet,
                );
            }
        }
        Ok(())
    }

    /// Executes an order as [`execute_order`](TradingSystem::execute_order)
    /// does; `None`, with the ledger as it was, where the arithmetic of the
    /// trade overflows.
    pub fn try_execute_order(&mut self, order_id: u128) -> (r: Option<Result<(), OrderError>>)
        ensures
            r is Some <==> old(self)@.execute_defined(order_id),
            match r {
                Some(Ok(())) => {
                    &&& old(self)@.execute_error(order_id) is None
                    &&& exists|transaction_id: u128, executed_at: Timestamp, filled_at: Timestamp|
                        #[trigger] old(self)@.after_execute(
                            order_id,
                            transaction_id,
                            executed_at,
                            filled_at,
                        ) == final(self)@
                },
                Some(Err(e)) => {
                    &&& old(self)@.execute_error(order_id) == Some(e)
                    &&& final(self)@ == old(self)@
                },
                None => final(self)@ == old(self)@,
            },
            old(self)@.wf() ==> final(self)@.wf(),
    {
        if self.execution_in_range(order_id) {
            Some(self.execute_order(order_id))
        } else {
            None
        }
    }

    /// Whether the arithmetic of executing the order stays in range. The
    /// trade is tried on a copy of the wallet; the ledger is not touched.
    pub fn execution_in_range(&self, order_id: u128) -> (r: bool)
        ensures
            r == self@.execute_defined(order_id),
    {
        let order = match self.orders.get(&order_id) {
            None => {
                return true;
            },
            Some(order) => *order,
        };
        match order.status {
            OrderStatus::Pending => {},
            _ => {
                return true;
            },
        }
        let mut probe = match self.wallets.get(&order.wallet_id) {
            None => {
                return true;
            },
            Some(wallet) => *wallet,
        };
        match order.order_type {
            TransactionType::Buy => probe.try_buy_eth(order.amount, order.price).is_some(),
            TransactionType::Sell => probe.try_sell_eth(order.amount, order.price).is_some(),
        }
    }

    /// The USD balance, the ETH balance and the value in USD at the current
    /// price of the wallet `wallet_id`; `None` where the ledger has no such
    /// wallet.
    pub fn get_wallet_balance(&self, wallet_id: u128) -> (r: Option<(Amount, Amount, Amount)>)
        requires
            self@.balance_defined(wallet_id),
        ensures
            r == self@.balance_of(wallet_id),
    {
        match self.wallets.get(&wallet_id) {
            None => None,
            Some(wallet) => {
                let total_value = wallet.get_total_value_usd(self.current_eth_price);
                Some((wallet.usd_balance, wallet.eth_balance, total_value))
            },
        }
    }

    /// The balances as [`get_wallet_balance`](TradingSystem::get_wallet_balance)
    /// gives them, inside `Some`; `None` where the value of the wallet
    /// overflows.
    pub fn try_get_wallet_balance(&self, wallet_id: u128) -> (r: Option<
        Option<(Amount, Amount, Amount)>,
    >)
        ensures
            r is Some <==> self@.balance_defined(wallet_id),
            r matches Some(balance) ==> balance == self@.balance_of(wallet_id),
    {
        let in_range = match self.wallets.get(&wallet_id) {
            None => true,
            Some(wallet) => wallet.try_get_total_value_usd(self.current_eth_price).is_some(),
        };
        if in_range {
            Some(self.get_wallet_balance(wallet_id))
        } else {
            None
        }
    }

    /// The transactions of the wallet `wallet_id`, in the order in which they
    /// were executed.
    pub fn get_transaction_history(&self, wallet_id: u128) -> (history: Vec<&Transaction>)
        ensures
            history@.unref() == self@.history_of(wallet_id),
    {
        let ghost belongs = |t: Transaction| t.wallet_id == wallet_id;
        let mut history: Vec<&Transaction> = Vec::new();
        let mut i: usize = 0;
        while i < self.transactions.len()
            invariant
                i <= self.transactions.len(),
                belongs == (|t: Transaction| t.wallet_id == wallet_id),
                history@.unref() == self.transactions@.take(i as int).filter(belongs),
            decreases self.transactions.len() - i,
        {
            let transaction = &self.transactions[i];
            proof {
                let seen = self.transactions@.take(i as int);
                seen.lemma_filter_push(*transaction, belongs);
                assert(self.transactions@.take(i + 1) =~= seen.push(*transaction));
            }
            if transaction.wallet_id == wallet_id {
                let ghost before = history@;
                history.push(transaction);
                assert(history@.unref() =~= before.unref().push(*transaction));
            }
            i += 1;
        }
        assert(self.transactions@.take(i as int) =~= self.transactions@);
        history
    }

    /// The current price, the number of orders and the number of filled
    /// orders.
    pub fn get_market_summary(&self) -> (summary: (Amount, usize, usize))
        ensures
            summary.0 == self@.current_eth_price,
            summary.1 == self@.orders.dom().len(),
            summary.2 == self@.filled_orders().len(),
    {
        let total_orders = self.orders.len();
        let mut filled_orders: usize = 0;
        let ghost ids = vstd::std_specs::hash::spec_keys_iter(&self.orders).remaining().unref();
        proof {
            vstd::std_specs::hash::axiom_spec_keys_iter(&self.orders);
            assert(ids.no_duplicates()) by {
                let refs = vstd::std_specs::hash::spec_keys_iter(&self.orders).remaining();
                assert forall|i: int, j: int|
                    0 <= i < ids.len() && 0 <= j < ids.len() && i != j implies ids[i] != ids[j] by {
                    assert(refs[i] != refs[j]);
                }
            }
            assert(ids.take(0).to_set() =~= Set::<u128>::empty());
            assert(self@.filled_among(Set::<u128>::empty()) =~= Set::<u128>::empty());
        }
        for id in it: self.orders.keys()
            invariant
                it.seq().unref() == ids,
                ids.no_duplicates(),
                ids.to_set() == self.orders@.dom(),
                ids.len() == total_orders,
                filled_orders <= it.index(),
                filled_orders == self@.filled_among(ids.take(it.index()).to_set()).len(),
        {
            let order = self.orders.get(id);
            proof {
                self@.lemma_filled_among_next(ids, it.index());
            }
            assert(*id == ids[it.index()]);
            assert(ids.to_set().contains(*id));
            match order {
                Some(order) => match order.status {
                    OrderStatus::Filled => {
                        filled_orders += 1;
                    },
                    _ => {},
                },
                None => {},
            }
        }
        assert(ids.take(ids.len() as int) =~= ids);
        (self.current_eth_price, total_orders, filled_orders)
    }

    /// Moves the price one step: by a factor drawn from the clock, at most
    /// one percent up or down, and then back between the floor and the
    /// ceiling. Returns whether the price was recomputed; it is not, and the
    /// ledger stays as it was, where the arithmetic overflows for the factor
    /// that was drawn. So the price is recomputed wherever the arithmetic
    /// stays in range for every factor that can be drawn.
    pub fn simulate_price_change(&mut self) -> (changed: bool)
        ensures
            exists|factor: i64|
                {
                    &&& -MAX_PRICE_STEP_FACTOR <= factor < MAX_PRICE_STEP_FACTOR
                    &&& changed == (#[trigger] price_step(
                        old(self)@.current_eth_price,
                        factor,
                    ) is Some)
                    &&& changed ==> final(self)@ == old(self)@.after_price_change(factor)
                },
            (forall|factor: i64|
                -MAX_PRICE_STEP_FACTOR <= factor < MAX_PRICE_STEP_FACTOR ==> #[trigger] price_step(
                    old(self)@.current_eth_price,
                    factor,
                ) is Some) ==> changed,
            changed ==> price_in_band(final(self)@.current_eth_price),
            !changed ==> final(self)@ == old(self)@,
            old(self)@.wf() ==> final(self)@.wf(),
    {
        let reading = Timestamp::now();
        let hash = clock_hash(reading.secs);
        let random_factor: i64 = (hash % PRICE_STEP_FACTORS) as i64 - MAX_PRICE_STEP_FACTOR;
        self.try_apply_price_change(random_factor)
    }

    /// Moves the price one step by `factor` where the arithmetic stays in
    /// range, and says whether it did. Otherwise the ledger stays as it was.
    pub fn try_apply_price_change(&mut self, factor: i64) -> (changed: bool)
        ensures
            changed == price_step(old(self)@.current_eth_price, factor) is Some,
            changed ==> final(self)@ == old(self)@.after_price_change(factor),
            changed ==> price_in_band(final(self)@.current_eth_price),
            !changed ==> final(self)@ == old(self)@,
            old(self)@.wf() ==> final(self)@.wf(),
    {
        let change_percent = Amount::from_i64(factor).checked_div(
            Amount::from_i64(PRICE_STEP_DIVISOR),
        );
        let in_range = match change_percent {
            None => false,
            Some(change_percent) => match self.current_eth_price.checked_mul(change_percent) {
                None => false,
                Some(price_change) => self.current_eth_price.checked_add(price_change).is_some(),
            },
        };
        if in_range {
            self.apply_price_change(factor);
        }
        in_range
    }

    /// Moves the price one step by `factor`: to
    /// `price + price * (factor / PRICE_STEP_DIVISOR)`, and then back between
    /// the floor and the ceiling.
    pub fn apply_price_change(&mut self, factor: i64)
        requires
            price_step(old(self)@.current_eth_price, factor) is Some,
        ensures
            final(self)@ == old(self)@.after_price_change(factor),
            price_in_band(final(self)@.current_eth_price),
            old(self)@.wf() ==> final(self)@.wf(),
    {
        let change_percent = Amount::from_i64(factor).checked_div(
            Amount::from_i64(PRICE_STEP_DIVISOR),
        ).unwrap();
        let price_change = self.current_eth_price.checked_mul(change_percent).unwrap();
        let stepped = self.current_eth_price.checked_add(price_change).unwrap();
        let floor = Amount::from_i64(PRICE_FLOOR);
        let ceiling = Amount::from_i64(PRICE_CEILING);
        proof {
            lemma_clamp_in_band(stepped);
        }
        if !stepped.ge(&floor) {
            self.current_eth_price = floor;
        } else if !ceiling.ge(&stepped) {
            self.current_eth_price = ceiling;
        } else {
            self.current_eth_price = stepped;
        }
    }
}

impl LedgerState {
    /// Counting the filled orders one identifier at a time: the next
    /// identifier of a list without repetitions adds one to the count where
    /// its order is filled, and nothing where it is not.
    pub proof fn lemma_filled_among_next(self, ids: Seq<u128>, i: int)
        requires
            ids.no_duplicates(),
            0 <= i < ids.len(),
        ensures
            self.filled_among(ids.take(i).to_set()).finite(),
            self.filled_among(ids.take(i + 1).to_set()).len() == self.filled_among(
                ids.take(i).to_set(),
            ).len() + if self.orders[ids[i]].status == OrderStatus::Filled {
                1nat
            } else {
                0nat
            },
    {
        let seen = ids.take(i).to_set();
        let next = ids.take(i + 1).to_set();
        vstd::seq_lib::seq_to_set_is_finite(ids.take(i));
        assert(ids.take(i + 1) =~= ids.take(i).push(ids[i]));
        ids.take(i).lemma_push_to_set_commute(ids[i]);
        assert(next == seen.insert(ids[i]));
        assert(!seen.contains(ids[i])) by {
            if seen.contains(ids[i]) {
                let j = choose|j: int| 0 <= j < ids.take(i).len() && ids.take(i)[j] == ids[i];
                assert(ids[j] == ids[i]);
            }
        }
        if self.orders[ids[i]].status == OrderStatus::Filled {
            assert(self.filled_among(next) =~= self.filled_among(seen).insert(ids[i]));
        } else {
            assert(self.filled_among(next) =~= self.filled_among(seen));
        }
    }

    /// Opening a wallet keeps the invariant of the ledger, also where it
    /// replaces a wallet.
    pub proof fn lemma_create_wallet_keeps_wf(self, wallet_id: u128, created_at: Timestamp)
        requires
            self.wf(),
        ensures
            self.after_create_wallet(wallet_id, created_at).wf(),
    {
        let after = self.after_create_wallet(wallet_id, created_at);
        Amount::lemma_parts(crate::wallet::SEED_USD as int, 0);
        Amount::lemma_parts(0, 0);
        assert forall|id: u128| #[trigger] after.wallets.contains_key(id) implies {
            &&& after.wallets[id].id == id
            &&& after.wallets[id].wf()
        } by {
            if id != wallet_id {
                assert(self.wallets.contains_key(id));
            }
        }
        assert forall|id: u128| #[trigger] after.orders.contains_key(id) implies {
            &&& after.orders[id].id == id
            &&& after.orders[id].wf()
            &&& after.wallets.contains_key(after.orders[id].wallet_id)
        } by {
            assert(self.orders.contains_key(id));
        }
        assert forall|i: int| 0 <= i < after.transactions.len() implies {
            &&& (#[trigger] after.transactions[i]).wf()
            &&& after.wallets.contains_key(after.transactions[i].wallet_id)
            &&& after.orders.contains_key(after.transactions[i].order_id)
        } by {
            assert(self.transactions[i].wf());
        }
    }

    /// Creating an order of a positive amount at a positive price keeps the
    /// invariant of the ledger.
    pub proof fn lemma_create_order_keeps_wf(
        self,
        order_id: u128,
        created_at: Timestamp,
        wallet_id: u128,
        order_type: TransactionType,
        amount: Amount,
        price: Amount,
    )
        requires
            self.wf(),
            self.wallets.contains_key(wallet_id),
            amount.is_positive(),
            price.is_positive(),
        ensures
            self.after_create_order(order_id, created_at, wallet_id, order_type, amount, price).wf(),
    {
        let after = self.after_create_order(
            order_id,
            created_at,
            wallet_id,
            order_type,
            amount,
            price,
        );
        assert forall|id: u128| #[trigger] after.orders.contains_key(id) implies {
            &&& after.orders[id].id == id
            &&& after.orders[id].wf()
            &&& after.wallets.contains_key(after.orders[id].wallet_id)
        } by {
            if id != order_id {
                assert(self.orders.contains_key(id));
            }
        }
        assert forall|i: int| 0 <= i < after.transactions.len() implies {
            &&& (#[trigger] after.transactions[i]).wf()
            &&& after.wallets.contains_key(after.transactions[i].wallet_id)
            &&& after.orders.contains_key(after.transactions[i].order_id)
        } by {
            assert(self.transactions[i].wf());
        }
    }

    /// Executing an order keeps the invariant of the ledger, given that the
    /// wallet it leaves behind has no negative balance.
    pub proof fn lemma_execute_keeps_wf(
        self,
        order_id: u128,
        transaction_id: u128,
        executed_at: Timestamp,
        filled_at: Timestamp,
        traded: Wallet,
    )
        requires
            self.wf(),
            self.execute_error(order_id) is None,
            decimal_product(self.orders[order_id].amount, self.orders[order_id].price) is Some,
            traded.wf(),
            traded.id == self.orders[order_id].wallet_id,
            self.after_execute(order_id, transaction_id, executed_at, filled_at).wallets
                == self.wallets.insert(self.orders[order_id].wallet_id, traded),
        ensures
            self.after_execute(order_id, transaction_id, executed_at, filled_at).wf(),
    {
        let after = self.after_execute(order_id, transaction_id, executed_at, filled_at);
        let order = self.orders[order_id];
        assert(self.orders.contains_key(order_id));
        assert forall|id: u128| #[trigger] after.wallets.contains_key(id) implies {
            &&& after.wallets[id].id == id
            &&& after.wallets[id].wf()
        } by {
            if id != order.wallet_id {
                assert(self.wallets.contains_key(id));
            }
        }
        assert forall|id: u128| #[trigger] after.orders.contains_key(id) implies {
            &&& after.orders[id].id == id
            &&& after.orders[id].wf()
            &&& after.wallets.contains_key(after.orders[id].wallet_id)
        } by {
            if id != order_id {
                assert(self.orders.contains_key(id));
            }
        }
        assert forall|i: int| 0 <= i < after.transactions.len() implies {
            &&& (#[trigger] after.transactions[i]).wf()
            &&& after.wallets.contains_key(after.transactions[i].wallet_id)
            &&& after.orders.contains_key(after.transactions[i].order_id)
        } by {
            if i < self.transactions.len() {
                assert(self.transactions[i].wf());
            }
        }
    }
}

/// Whatever the price, clamping it gives one between the floor and the
/// ceiling.
pub proof fn lemma_clamp_in_band(price: Amount)
    ensures
        price_in_band(clamp_price(price)),
{
    lemma_band_constants();
}

/// The initial price lies between the floor and the ceiling, and so do the
/// floor and the ceiling themselves.
pub proof fn lemma_band_constants()
    ensures
        price_in_band(Amount::whole(INITIAL_ETH_PRICE as int)),
        price_in_band(Amount::whole(PRICE_FLOOR as int)),
        price_in_band(Amount::whole(PRICE_CEILING as int)),
{
    Amount::lemma_parts(INITIAL_ETH_PRICE as int, 0);
    Amount::lemma_parts(PRICE_FLOOR as int, 0);
    Amount::lemma_parts(PRICE_CEILING as int, 0);
    reveal_with_fuel(crate::amount::pow10, 2);
}

} // verus!
