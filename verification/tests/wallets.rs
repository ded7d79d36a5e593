use trading_ledger::amount::{Amount, MAX_MANTISSA};
use trading_ledger::clock::Timestamp;
use trading_ledger::wallet::{InsufficientFunds, Wallet, SEED_USD};

fn at(secs: i64) -> Timestamp {
    Timestamp { secs, nanos: 0 }
}

fn whole(v: i64) -> Amount {
    Amount::from_i64(v)
}

fn same(a: Amount, b: Amount) -> bool {
    a.eq_value(&b)
}

#[test]
fn a_wallet_opens_with_the_seed_balance() {
    let w = Wallet::open(7, at(100));
    assert_eq!(w.id, 7);
    assert_eq!(w.created_at, at(100));
    assert_eq!((w.usd_balance.mantissa(), w.usd_balance.scale()), (SEED_USD as i128, 0));
    assert_eq!((w.eth_balance.mantissa(), w.eth_balance.scale()), (0, 0));
}

#[test]
fn new_wallets_get_the_seed_balance() {
    let w = Wallet::new();
    assert!(same(w.usd_balance, whole(10000)));
    assert!(same(w.eth_balance, whole(0)));
    let v = Wallet::new();
    assert_ne!(w.id, v.id);
}

#[test]
fn affordability_of_a_purchase() {
    let w = Wallet::open(1, at(0));
    assert!(w.can_afford_buy(whole(4), whole(2500)));
    assert!(!w.can_afford_buy(whole(5), whole(2500)));
    assert!(!w.can_afford_buy(whole(4), whole(2501)));
    assert_eq!(w.try_can_afford_buy(whole(4), whole(2500)), Some(true));
    assert_eq!(w.try_can_afford_buy(whole(4), whole(2501)), Some(false));
    let huge = Amount::new(MAX_MANTISSA, 0).unwrap();
    assert_eq!(w.try_can_afford_buy(huge, whole(2)), None);
}

#[test]
fn affordability_of_a_sale() {
    let mut w = Wallet::open(1, at(0));
    assert!(!w.can_afford_sell(whole(1)));
    assert!(w.can_afford_sell(whole(0)));
    w.buy_eth(whole(2), whole(2500)).unwrap();
    assert!(w.can_afford_sell(whole(2)));
    assert!(!w.can_afford_sell(whole(3)));
}

#[test]
fn buying_moves_both_balances() {
    let mut w = Wallet::open(1, at(0));
    assert_eq!(w.buy_eth(whole(2), whole(2500)), Ok(()));
    assert!(same(w.usd_balance, whole(5000)));
    assert!(same(w.eth_balance, whole(2)));
    assert_eq!(w.id, 1);
}

#[test]
fn buying_beyond_the_balance_changes_nothing() {
    let mut w = Wallet::open(1, at(0));
    assert_eq!(w.buy_eth(whole(5), whole(2500)), Err(InsufficientFunds));
    assert!(same(w.usd_balance, whole(10000)));
    assert!(same(w.eth_balance, whole(0)));
}

#[test]
fn buying_the_whole_balance_is_allowed() {
    let mut w = Wallet::open(1, at(0));
    assert_eq!(w.buy_eth(whole(4), whole(2500)), Ok(()));
    assert!(same(w.usd_balance, whole(0)));
    assert!(same(w.eth_balance, whole(4)));
}

#[test]
fn selling_moves_both_balances() {
    let mut w = Wallet::open(1, at(0));
    w.buy_eth(whole(2), whole(2500)).unwrap();
    assert_eq!(w.sell_eth(whole(1), whole(3000)), Ok(()));
    assert!(same(w.usd_balance, whole(8000)));
    assert!(same(w.eth_balance, whole(1)));
}

#[test]
fn selling_beyond_the_balance_changes_nothing() {
    let mut w = Wallet::open(1, at(0));
    w.buy_eth(whole(2), whole(2500)).unwrap();
    assert_eq!(w.sell_eth(whole(5), whole(2500)), Err(InsufficientFunds));
    assert!(same(w.usd_balance, whole(5000)));
    assert!(same(w.eth_balance, whole(2)));
}

#[test]
fn buy_then_sell_returns_the_balances() {
    let mut w = Wallet::open(1, at(0));
    let amount = Amount::new(15, 1).unwrap();
    let price = Amount::new(250075, 2).unwrap();
    assert_eq!(w.buy_eth(amount, price), Ok(()));
    assert!(same(w.usd_balance, Amount::new(62488750, 4).unwrap()));
    assert_eq!(w.sell_eth(amount, price), Ok(()));
    assert!(same(w.usd_balance, whole(10000)));
    assert!(same(w.eth_balance, whole(0)));
}

#[test]
fn balances_stay_nonnegative_over_many_trades() {
    let mut w = Wallet::open(1, at(0));
    let price = Amount::new(333333, 2).unwrap();
    let amount = Amount::new(7, 1).unwrap();
    for round in 0..20 {
        let _ = if round % 3 == 2 {
            w.try_sell_eth(amount, price).unwrap()
        } else {
            w.try_buy_eth(amount, price).unwrap()
        };
        assert!(w.usd_balance.is_sign_nonnegative());
        assert!(w.eth_balance.is_sign_nonnegative());
    }
}

#[test]
fn try_buy_reports_overflow_and_changes_nothing() {
    let mut w = Wallet::open(1, at(0));
    let huge = Amount::new(MAX_MANTISSA, 0).unwrap();
    assert_eq!(w.try_buy_eth(huge, whole(2)), None);
    assert!(same(w.usd_balance, whole(10000)));
    w.eth_balance = huge;
    assert_eq!(w.try_buy_eth(whole(1), whole(1)), None);
    assert!(same(w.usd_balance, whole(10000)));
    assert!(same(w.eth_balance, huge));
    assert_eq!(w.try_buy_eth(whole(1), whole(20000)), Some(Err(InsufficientFunds)));
}

#[test]
fn try_buy_trades_where_the_arithmetic_fits() {
    let mut w = Wallet::open(1, at(0));
    assert_eq!(w.try_buy_eth(whole(2), whole(2500)), Some(Ok(())));
    assert!(same(w.usd_balance, whole(5000)));
    assert!(same(w.eth_balance, whole(2)));
}

#[test]
fn try_sell_reports_overflow_and_changes_nothing() {
    let mut w = Wallet::open(1, at(0));
    let huge = Amount::new(MAX_MANTISSA, 0).unwrap();
    w.eth_balance = huge;
    assert_eq!(w.try_sell_eth(huge, whole(2)), None);
    assert!(same(w.eth_balance, huge));
    assert!(same(w.usd_balance, whole(10000)));
    assert_eq!(w.try_sell_eth(huge, whole(1)), None);
    assert!(same(w.eth_balance, huge));
    let mut v = Wallet::open(2, at(0));
    assert_eq!(v.try_sell_eth(huge, whole(2)), Some(Err(InsufficientFunds)));
    assert_eq!(v.try_sell_eth(whole(0), whole(2)), Some(Ok(())));
}

#[test]
fn total_value_adds_the_eth_at_the_price() {
    let mut w = Wallet::open(1, at(0));
    w.buy_eth(whole(2), whole(2500)).unwrap();
    let v = w.get_total_value_usd(whole(3000));
    assert!(same(v, whole(11000)));
    assert!(same(w.try_get_total_value_usd(whole(2500)).unwrap(), whole(10000)));
}

#[test]
fn total_value_reports_overflow() {
    let mut w = Wallet::open(1, at(0));
    let huge = Amount::new(MAX_MANTISSA, 0).unwrap();
    w.eth_balance = huge;
    assert!(w.try_get_total_value_usd(whole(2)).is_none());
    assert!(w.try_get_total_value_usd(whole(1)).is_none());
    w.usd_balance = whole(0);
    assert!(same(w.try_get_total_value_usd(whole(1)).unwrap(), huge));
}
