//! Wallets: a USD balance, an ETH balance, and the two trades that move
//! value between them.

use crate::amount::{decimal_difference, decimal_product, decimal_sum, Amount};
use crate::clock::{fresh_id, Timestamp};
use vstd::prelude::*;

verus! {

/// The USD balance a wallet is opened with.
pub const SEED_USD: i64 = 10000;

/// A trade was refused because the wallet does not hold enough to pay for it.
#[derive(Clone, Copy, Debug, PartialEq, Eq, Structural)]
pub struct InsufficientFunds;

/// A wallet. The balances of a well-formed wallet are never negative.
#[derive(Clone, Copy, Debug)]
pub struct Wallet {
    pub id: u128,
    pub usd_balance: Amount,
    pub eth_balance: Amount,
    pub created_at: Timestamp,
}

impl Wallet {
    /// Neither balance is negative.
    pub open spec fn wf(self) -> bool {
        &&& self.usd_balance.is_nonnegative()
        &&& self.eth_balance.is_nonnegative()
    }

    /// The wallet as it is opened: the seed balance in USD and no ETH.
    pub open spec fn opened(id: u128, created_at: Timestamp) -> Wallet {
        Wallet {
            id,
            usd_balance: Amount::whole(SEED_USD as int),
            eth_balance: Amount::whole(0),
            created_at,
        }
    }

    /// Whether the USD balance covers `amount * price`. A product that
    /// overflows is covered by no balance.
    pub open spec fn spec_can_afford_buy(self, amount: Amount, price: Amount) -> bool {
        match decimal_product(amount, price) {
            Some(cost) => self.usd_balance.spec_ge(cost),
            None => false,
        }
    }

    /// Whether the ETH balance covers `amount`.
    pub open spec fn spec_can_afford_sell(self, amount: Amount) -> bool {
        self.eth_balance.spec_ge(amount)
    }

    /// Whether the arithmetic of a purchase stays in range: the cost can be
    /// computed and, where the wallet can pay it, so can both new balances.
    pub open spec fn buy_defined(self, amount: Amount, price: Amount) -> bool {
        match decimal_product(amount, price) {
            Some(cost) => self.usd_balance.spec_ge(cost) ==> {
                &&& decimal_difference(self.usd_balance, cost) is Some
                &&& decimal_sum(self.eth_balance, amount) is Some
            },
            None => false,
        }
    }

    /// The wallet after a purchase: `amount * price` leaves the USD balance
    /// and `amount` joins the ETH balance.
    pub open spec fn after_buy(self, amount: Amount, price: Amount) -> Wallet {
        let cost = decimal_product(amount, price).unwrap();
        Wallet {
            usd_balance: decimal_difference(self.usd_balance, cost).unwrap(),
            eth_balance: decimal_sum(self.eth_balance, amount).unwrap(),
            ..self
        }
    }

    /// Whether the arithmetic of a sale stays in range: where the wallet holds
    /// the ETH, the proceeds and both new balances can be computed.
    pub open spec fn sell_defined(self, amount: Amount, price: Amount) -> bool {
        self.eth_balance.spec_ge(amount) ==> {
            &&& decimal_difference(self.eth_balance, amount) is Some
            &&& decimal_product(amount, price) matches Some(proceeds) && decimal_sum(
                self.usd_balance,
                proceeds,
            ) is Some
        }
    }

    /// The wallet after a sale: `amount` leaves the ETH balance and
    /// `amount * price` joins the USD balance.
    pub open spec fn after_sell(self, amount: Amount, price: Amount) -> Wallet {
        let proceeds = decimal_product(amount, price).unwrap();
        Wallet {
            usd_balance: decimal_sum(self.usd_balance, proceeds).unwrap(),
            eth_balance: decimal_difference(self.eth_balance, amount).unwrap(),
            ..self
        }
    }

    /// What the wallet is worth in USD at `eth_price`: the USD balance plus
    /// the ETH balance times the price; `None` where that overflows.
    pub open spec fn spec_total_value(self, eth_price: Amount) -> Option<Amount> {
        match decimal_product(self.eth_balance, eth_price) {
            Some(eth_value) => decimal_sum(self.usd_balance, eth_value),
            None => None,
        }
    }

    /// Opens a wallet under a fresh identifier, stamped with the current time.
    pub fn new() -> (w: Wallet)
        ensures
            w == Wallet::opened(w.id, w.created_at),
            w.wf(),
    {
        Wallet::open(fresh_id(), Timestamp::now())
    }

    /// Opens a wallet under the given identifier and creation time.
    pub fn open(id: u128, created_at: Timestamp) -> (w: Wallet)
        ensures
            w == Wallet::opened(id, created_at),
            w.wf(),
    {
        proof {
            Amount::lemma_parts(SEED_USD as int, 0);
            Amount::lemma_parts(0, 0);
        }
        Wallet {
            id,
            usd_balance: Amount::from_i64(SEED_USD),
            eth_balance: Amount::zero(),
            created_at,
        }
    }

    /// Whether the USD balance covers `amount * price`.
    pub fn can_afford_buy(&self, amount: Amount, price: Amount) -> (r: bool)
        requires
            decimal_product(amount, price) is Some,
        ensures
            r == self.spec_can_afford_buy(amount, price),
    {
        let total_cost = amount.checked_mul(price).unwrap();
        self.usd_balance.ge(&total_cost)
    }

    /// Whether the USD balance covers `amount * price`; `None` where the
    /// product overflows.
    pub fn try_can_afford_buy(&self, amount: Amount, price: Amount) -> (r: Option<bool>)
        ensures
            r is Some <==> decimal_product(amount, price) is Some,
            r matches Some(b) ==> b == self.spec_can_afford_buy(amount, price),
    {
        if amount.checked_mul(price).is_some() {
            Some(self.can_afford_buy(amount, price))
        } else {
            None
        }
    }

    /// Whether the ETH balance covers `amount`.
    pub fn can_afford_sell(&self, amount: Amount) -> (r: bool)
        ensures
            r == self.spec_can_afford_sell(amount),
    {
        self.eth_balance.ge(&amount)
    }

    /// Buys `amount` ETH at `price` USD each. Fails, and leaves the wallet as
    /// it was, where the USD balance does not cover the cost.
    pub fn buy_eth(&mut self, amount: Amount, price: Amount) -> (r: Result<(), InsufficientFunds>)
        requires
            old(self).buy_defined(amount, price),
        ensures
            r is Ok <==> old(self).spec_can_afford_buy(amount, price),
            r is Ok ==> *final(self) == old(self).after_buy(amount, price),
            r is Err ==> *final(self) == *old(self),
            r is Ok && old(self).wf() && amount.is_nonnegative() ==> final(self).wf(),
    {
        let total_cost = amount.checked_mul(price).unwrap();
        if !self.usd_balance.ge(&total_cost) {
            return Err(InsufficientFunds);
        }
        let usd_balance = self.usd_balance.checked_sub(total_cost).unwrap();
        let eth_balance = self.eth_balance.checked_add(amount).unwrap();
        self.usd_balance = usd_balance;
        self.eth_balance = eth_balance;
        Ok(())
    }

    /// Buys as [`buy_eth`](Wallet::buy_eth) does; `None`, with the wallet as
    /// it was, where the arithmetic overflows.
    pub fn try_buy_eth(&mut self, amount: Amount, price: Amount) -> (r: Option<
        Result<(), InsufficientFunds>,
    >)
        ensures
            r is Some <==> old(self).buy_defined(amount, price),
            r is None ==> *final(self) == *old(self),
            r matches Some(outcome) ==> {
                &&& outcome is Ok <==> old(self).spec_can_afford_buy(amount, price)
                &&& outcome is Ok ==> *final(self) == old(self).after_buy(amount, price)
                &&& outcome is Err ==> *final(self) == *old(self)
                &&& outcome is Ok && old(self).wf() && amount.is_nonnegative()
                    ==> final(self).wf()
            },
    {
        match amount.checked_mul(price) {
            None => None,
            Some(total_cost) => {
                if self.usd_balance.ge(&total_cost) && (self.usd_balance.checked_sub(
                    total_cost,
                ).is_none() || self.eth_balance.checked_add(amount).is_none()) {
                    None
                } else {
                    Some(self.buy_eth(amount, price))
                }
            },
        }
    }

    /// Sells `amount` ETH at `price` USD each. Fails, and leaves the wallet as
    /// it was, where the ETH balance does not cover the amount.
    pub fn sell_eth(&mut self, amount: Amount, price: Amount) -> (r: Result<(), InsufficientFunds>)
        requires
            old(self).sell_defined(amount, price),
        ensures
            r is Ok <==> old(self).spec_can_afford_sell(amount),
            r is Ok ==> *final(self) == old(self).after_sell(amount, price),
            r is Err ==> *final(self) == *old(self),
            r is Ok && old(self).wf() && amount.is_nonnegative() && price.is_nonnegative()
                ==> final(self).wf(),
    {
        if !self.eth_balance.ge(&amount) {
            return Err(InsufficientFunds);
        }
        let eth_balance = self.eth_balance.checked_sub(amount).unwrap();
        let proceeds = amount.checked_mul(price).unwrap();
        let usd_balance = self.usd_balance.checked_add(proceeds).unwrap();
        self.eth_balance = eth_balance;
        self.usd_balance = usd_balance;
        Ok(())
    }

    /// Sells as [`sell_eth`](Wallet::sell_eth) does; `None`, with the wallet
    /// as it was, where the arithmetic overflows.
    pub fn try_sell_eth(&mut self, amount: Amount, price: Amount) -> (r: Option<
        Result<(), InsufficientFunds>,
    >)
        ensures
            r is Some <==> old(self).sell_defined(amount, price),
            r is None ==> *final(self) == *old(self),
            r matches Some(outcome) ==> {
                &&& outcome is Ok <==> old(self).spec_can_afford_sell(amount)
                &&& outcome is Ok ==> *final(self) == old(self).after_sell(amount, price)
                &&& outcome is Err ==> *final(self) == *old(self)
                &&& outcome is Ok && old(self).wf() && amount.is_nonnegative()
                    && price.is_nonnegative() ==> final(self).wf()
            },
    {
        if self.eth_balance.ge(&amount) {
            if self.eth_balance.checked_sub(amount).is_none() {
                return None;
            }
            match amount.checked_mul(price) {
                None => {
                    return None;
                },
                Some(proceeds) => {
                    if self.usd_balance.checked_add(proceeds).is_none() {
                        return None;
                    }
                },
            }
        }
        Some(self.sell_eth(amount, price))
    }

    /// What the wallet is worth in USD at `eth_price`.
    pub fn get_total_value_usd(&self, eth_price: Amount) -> (r: Amount)
        requires
            self.spec_total_value(eth_price) is Some,
        ensures
            Some(r) == self.spec_total_value(eth_price),
            self.wf() && eth_price.is_nonnegative() ==> r.is_nonnegative(),
    {
        let eth_value = self.eth_balance.checked_mul(eth_price).unwrap();
        self.usd_balance.checked_add(eth_value).unwrap()
    }

    /// What the wallet is worth in USD at `eth_price`; `None` where the
    /// arithmetic overflows.
    pub fn try_get_total_value_usd(&self, eth_price: Amount) -> (r: Option<Amount>)
        ensures
            r == self.spec_total_value(eth_price),
            self.wf() && eth_price.is_nonnegative() ==> (r matches Some(v) ==> v.is_nonnegative()),
    {
        match self.eth_balance.checked_mul(eth_price) {
            None => None,
            Some(eth_value) => {
                if self.usd_balance.checked_add(eth_value).is_some() {
                    Some(self.get_total_value_usd(eth_price))
                } else {
                    None
                }
            },
        }
    }
}

} // verus!
