//! Laws that relate the operations of the wallet and of the ledger to one
//! another, stated over the same spec functions as their contracts.

use crate::amount::{decimal_difference, decimal_product, decimal_sum, Amount};
use crate::clock::Timestamp;
use crate::ledger::{lemma_clamp_in_band, price_in_band, price_step, LedgerState};
use crate::order::{OrderError, OrderStatus, Transaction};
use crate::wallet::Wallet;
use vstd::prelude::*;

verus! {

/// Whether adding `y` back to `x - y` gives `x` again, as a number: true
/// unless `rust_decimal` had to round one of the two results.
pub open spec fn add_undoes_sub(x: Amount, y: Amount) -> bool {
    match decimal_difference(x, y) {
        Some(d) => decimal_sum(d, y) matches Some(back) && back.same_value(x),
        None => false,
    }
}

/// Whether taking `y` from `x + y` gives `x` again, as a number: true unless
/// `rust_decimal` had to round one of the two results.
pub open spec fn sub_undoes_add(x: Amount, y: Amount) -> bool {
    match decimal_sum(x, y) {
        Some(s) => decimal_difference(s, y) matches Some(back) && back.same_value(x),
        None => false,
    }
}

/// Buying and at once selling the same amount at the same price leaves the
/// wallet with the balances it had, as numbers, wherever neither round trip
/// through the arithmetic was rounded. Identity and creation time never
/// change.
pub proof fn lemma_buy_then_sell_round_trip(wallet: Wallet, amount: Amount, price: Amount)
    requires
        decimal_product(amount, price) is Some,
        add_undoes_sub(wallet.usd_balance, decimal_product(amount, price).unwrap()),
        sub_undoes_add(wallet.eth_balance, amount),
    ensures
        ({
            let back = wallet.after_buy(amount, price).after_sell(amount, price);
            &&& back.usd_balance.same_value(wallet.usd_balance)
            &&& back.eth_balance.same_value(wallet.eth_balance)
            &&& back.id == wallet.id
            &&& back.created_at == wallet.created_at
        }),
{
}

/// The balances after buying and at once selling the same amount at the same
/// price, whatever was rounded on the way: the cost is taken from the USD
/// balance and added back, and the amount is added to the ETH balance and
/// taken back.
pub proof fn lemma_buy_then_sell_balances(wallet: Wallet, amount: Amount, price: Amount)
    requires
        decimal_product(amount, price) is Some,
    ensures
        ({
            let cost = decimal_product(amount, price).unwrap();
            let back = wallet.after_buy(amount, price).after_sell(amount, price);
            &&& back.usd_balance == decimal_sum(
                decimal_difference(wallet.usd_balance, cost).unwrap(),
                cost,
            ).unwrap()
            &&& back.eth_balance == decimal_difference(
                decimal_sum(wallet.eth_balance, amount).unwrap(),
                amount,
            ).unwrap()
        }),
{
}

/// Executing an order is not idempotent: once it has succeeded, executing the
/// same order again is refused with `InvalidState`, whichever identifiers and
/// instants the first execution used. A refused execution changes nothing, so
/// the trade is applied once.
pub proof fn lemma_execute_twice_is_refused(
    ledger: LedgerState,
    order_id: u128,
    transaction_id: u128,
    executed_at: Timestamp,
    filled_at: Timestamp,
)
    requires
        ledger.execute_error(order_id) is None,
    ensures
        ledger.after_execute(order_id, transaction_id, executed_at, filled_at).execute_error(
            order_id,
        ) == Some(OrderError::InvalidState),
        ledger.after_execute(order_id, transaction_id, executed_at, filled_at).execute_defined(
            order_id,
        ),
        ledger.after_execute(
            order_id,
            transaction_id,
            executed_at,
            filled_at,
        ).transactions.len() == ledger.transactions.len() + 1,
{
}

/// A filled order stays filled when an order is executed, and no order that
/// was not pending changes its status.
pub proof fn lemma_execute_keeps_filled_orders(
    ledger: LedgerState,
    order_id: u128,
    transaction_id: u128,
    executed_at: Timestamp,
    filled_at: Timestamp,
    other: u128,
)
    requires
        ledger.execute_error(order_id) is None,
        ledger.orders.contains_key(other),
    ensures
        ({
            let after = ledger.after_execute(order_id, transaction_id, executed_at, filled_at);
            &&& after.orders.contains_key(other)
            &&& ledger.orders[other].status == OrderStatus::Filled ==> after.orders[other].status
                == OrderStatus::Filled
            &&& other != order_id ==> after.orders[other] == ledger.orders[other]
            &&& after.orders[order_id].status == OrderStatus::Filled
        }),
{
}

/// The history of a wallet grows by exactly the receipts of its own orders,
/// at the end: executing an order appends its receipt to the history of the
/// order's wallet and leaves the history of every other wallet as it was.
pub proof fn lemma_history_after_execute(
    ledger: LedgerState,
    order_id: u128,
    transaction_id: u128,
    executed_at: Timestamp,
    filled_at: Timestamp,
    wallet_id: u128,
)
    ensures
        ({
            let after = ledger.after_execute(order_id, transaction_id, executed_at, filled_at);
            let receipt = Transaction::receipt(
                transaction_id,
                ledger.orders[order_id],
                executed_at,
            );
            after.history_of(wallet_id) == if ledger.orders[order_id].wallet_id == wallet_id {
                ledger.history_of(wallet_id).push(receipt)
            } else {
                ledger.history_of(wallet_id)
            }
        }),
{
    let receipt = Transaction::receipt(transaction_id, ledger.orders[order_id], executed_at);
    ledger.transactions.lemma_filter_push(receipt, |t: Transaction| t.wallet_id == wallet_id);
}

/// The history of a wallet holds only transactions of that wallet, and holds
/// them in the order of the log: it is a subsequence of the log that keeps
/// every transaction of the wallet.
pub proof fn lemma_history_is_ordered_selection(ledger: LedgerState, wallet_id: u128)
    ensures
        forall|i: int|
            0 <= i < ledger.history_of(wallet_id).len() ==> (#[trigger] ledger.history_of(
                wallet_id,
            )[i]).wallet_id == wallet_id,
        forall|i: int|
            0 <= i < ledger.transactions.len() && ledger.transactions[i].wallet_id == wallet_id
                ==> ledger.history_of(wallet_id).contains(#[trigger] ledger.transactions[i]),
        exists|positions: Seq<int>|
            is_selection(ledger.transactions, ledger.history_of(wallet_id), positions),
{
    let belongs = |t: Transaction| t.wallet_id == wallet_id;
    broadcast use vstd::seq_lib::group_filter_ensures;
    lemma_filter_is_selection(ledger.transactions, belongs);
}

/// Whether `picked` lists the entries of `log` at `positions`, and the
/// positions rise: `picked` is then a subsequence of `log`, in the order of
/// `log`.
pub open spec fn is_selection<T>(log: Seq<T>, picked: Seq<T>, positions: Seq<int>) -> bool {
    &&& positions.len() == picked.len()
    &&& forall|i: int|
        0 <= i < positions.len() ==> 0 <= #[trigger] positions[i] < log.len() && picked[i]
            == log[positions[i]]
    &&& forall|i: int, j: int|
        0 <= i < j < positions.len() ==> #[trigger] positions[i] < #[trigger] positions[j]
}

/// Filtering a sequence selects entries of it at rising positions.
pub proof fn lemma_filter_is_selection<T>(log: Seq<T>, keep: spec_fn(T) -> bool)
    ensures
        exists|positions: Seq<int>| is_selection(log, log.filter(keep), positions),
    decreases log.len(),
{
    reveal(Seq::filter);
    if log.len() == 0 {
        assert(is_selection(log, log.filter(keep), Seq::<int>::empty()));
    } else {
        let front = log.drop_last();
        lemma_filter_is_selection(front, keep);
        let positions = choose|positions: Seq<int>|
            is_selection(front, front.filter(keep), positions);
        if keep(log.last()) {
            let longer = positions.push(log.len() - 1);
            assert(is_selection(log, log.filter(keep), longer));
        } else {
            assert(is_selection(log, log.filter(keep), positions));
        }
    }
}

/// Whatever the step, the price after it lies between the floor and the
/// ceiling, and every other part of the ledger is as it was.
pub proof fn lemma_price_stays_in_band(ledger: LedgerState, factor: i64)
    ensures
        price_in_band(ledger.after_price_change(factor).current_eth_price),
        ledger.after_price_change(factor).wallets == ledger.wallets,
        ledger.after_price_change(factor).orders == ledger.orders,
        ledger.after_price_change(factor).transactions == ledger.transactions,
{
    lemma_clamp_in_band(price_step(ledger.current_eth_price, factor).unwrap());
}

} // verus!
