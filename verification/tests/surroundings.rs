use trading_ledger::clock::{NANOS_LIMIT, UUID_KIND_MASK, UUID_RANDOM_KIND};
use trading_ledger::ledger::TradingSystem;
use trading_ledger::order::TransactionType;
use trading_ledger::amount::Amount;
use trading_ledger::wallet::Wallet;

#[test]
fn fresh_identifiers_are_random_uuids() {
    for _ in 0..50 {
        let id = Wallet::new().id;
        assert_eq!(id & UUID_KIND_MASK, UUID_RANDOM_KIND);
        let uuid = uuid::Uuid::from_u128(id);
        assert_eq!(uuid.get_version_num(), 4);
        assert_eq!(uuid.get_variant(), uuid::Variant::RFC4122);
    }
}

#[test]
fn the_identifiers_of_orders_and_receipts_are_random_uuids() {
    let mut ts = TradingSystem::new();
    let wallet = ts.create_wallet();
    let order = ts
        .create_order(wallet, TransactionType::Buy, Amount::from_i64(1), Amount::from_i64(100))
        .unwrap();
    ts.execute_order(order).unwrap();
    assert_eq!(wallet & UUID_KIND_MASK, UUID_RANDOM_KIND);
    assert_eq!(order & UUID_KIND_MASK, UUID_RANDOM_KIND);
    assert_eq!(ts.transactions[0].id & UUID_KIND_MASK, UUID_RANDOM_KIND);
}

#[test]
fn readings_of_the_clock_are_times_of_day() {
    let mut ts = TradingSystem::new();
    let wallet = ts.create_wallet();
    let created = ts.wallets.get(&wallet).unwrap().created_at;
    assert!(created.nanos < NANOS_LIMIT);
    assert!(created.secs > 1_600_000_000);
    let order = ts
        .create_order(wallet, TransactionType::Buy, Amount::from_i64(1), Amount::from_i64(100))
        .unwrap();
    ts.execute_order(order).unwrap();
    let filled = ts.orders.get(&order).unwrap().filled_at.unwrap();
    assert!(filled.nanos < NANOS_LIMIT);
    assert!(filled.secs >= created.secs);
    assert!(ts.transactions[0].timestamp.nanos < NANOS_LIMIT);
}

#[test]
fn the_price_is_recomputed_where_every_factor_is_in_range() {
    for start in [1000, 2500, 5000] {
        let mut probe = TradingSystem::new();
        probe.current_eth_price = Amount::from_i64(start);
        for factor in -100..100 {
            let mut one = probe.clone();
            assert!(one.try_apply_price_change(factor));
        }
        assert!(probe.simulate_price_change());
    }
}

#[test]
fn the_simulated_step_is_one_of_the_steps_in_range() {
    let mut ts = TradingSystem::new();
    let before = ts.clone();
    assert!(ts.simulate_price_change());
    let found = (-100..100).any(|factor| {
        let mut one = before.clone();
        one.apply_price_change(factor);
        let same = one.current_eth_price.mantissa() == ts.current_eth_price.mantissa()
            && one.current_eth_price.scale() == ts.current_eth_price.scale();
        same
    });
    assert!(found);
}
