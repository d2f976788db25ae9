use price_oracle::address::{Address, AddressKind};
use price_oracle::data_key::{AssetPriceKey, DataKey};
use price_oracle::env::{copy_addresses, get_x_price, prices, visited_slots, Env, Series};
use price_oracle::error::Error;
use price_oracle::oracle::{all_distinct, is_valid, PriceOracle};
use price_oracle::price_oracle::PriceOracleContract;
use price_oracle::price_oracle_plus::PriceOracleContract as PaidOracleContract;
use price_oracle::price_data::PriceData;
use price_oracle::table::{Key, Table};

fn asset(i: u128) -> Address {
    Address::contract(7, i)
}

#[test]
fn addresses_are_told_apart_by_kind_and_identifier() {
    let a = Address::account(1, 2);
    assert_eq!(a, Address { kind: AddressKind::Account, hi: 1, lo: 2 });
    assert!(a.is_account());
    assert!(!Address::contract(1, 2).is_account());
    assert_ne!(a, Address::contract(1, 2));
    assert_ne!(a, Address::account(2, 1));
    assert_ne!(a, Address::account(1, 3));
    assert!(a.same(&Address::account(1, 2)));
    assert!(!a.same(&Address::contract(1, 2)));
}

#[test]
fn table_keeps_the_last_value_under_each_key() {
    let mut table: Table<DataKey, i128> = Table::new();
    let k1 = DataKey::Balance(asset(1));
    let k2 = DataKey::Price(AssetPriceKey { asset: asset(1), timestamp: 5 });
    let k3 = DataKey::Price(AssetPriceKey { asset: asset(1), timestamp: 6 });
    assert!(!table.has(k1));
    assert_eq!(table.get(k1), None);
    table.set(k1, 10);
    table.set(k2, 20);
    assert!(table.has(k1) && table.has(k2) && !table.has(k3));
    assert_eq!(table.get(k1), Some(10));
    assert_eq!(table.get(k2), Some(20));
    assert_eq!(table.get(k3), None);
    table.set(k1, 11);
    table.set(k3, 30);
    table.set(k2, 21);
    assert_eq!(table.get(k1), Some(11));
    assert_eq!(table.get(k2), Some(21));
    assert_eq!(table.get(k3), Some(30));
    assert_eq!(table.get(DataKey::BaseFee), None);
    assert!(k1.same(&DataKey::Balance(asset(1))));
    assert!(!k2.same(&k3));
}

#[test]
fn settings_are_absent_until_set() {
    let mut env = Env::new();
    for key in [
        DataKey::Admin,
        DataKey::Base,
        DataKey::Timestamp,
        DataKey::Decimals,
        DataKey::RdmPeriod,
        DataKey::Resolution,
        DataKey::Assets,
        DataKey::BaseFee,
        DataKey::Balance(asset(0)),
        DataKey::Price(AssetPriceKey { asset: asset(0), timestamp: 0 }),
    ] {
        assert!(!env.has(key));
    }
    assert!(!env.is_initialized());
    assert!(!env.is_authorized(&asset(0)));
    assert_eq!(env.get_admin(), None);
    assert_eq!(env.get_base(), None);
    assert_eq!(env.get_decimals(), None);
    assert_eq!(env.get_resolution(), None);
    assert_eq!(env.get_rdm_period(), None);
    assert_eq!(env.get_last_timestamp(), None);
    assert_eq!(env.get_assets(), vec![]);
    assert_eq!(env.get_base_fee(), None);
    assert_eq!(env.get_balance(asset(0)), None);

    let admin = Address::account(1, 1);
    env.set_admin(&admin);
    env.set_base(asset(9));
    env.set_decimals(7);
    env.set_resolution(60);
    env.set_rdm_period(3600);
    env.set_last_timestamp(120);
    env.set_assets(vec![asset(0), asset(1)]);
    env.set_base_fee(5);
    env.set_price(asset(0), 42, 120);
    assert!(env.is_initialized());
    assert!(env.is_authorized(&admin));
    assert!(!env.is_authorized(&asset(9)));
    assert_eq!(env.get_admin(), Some(admin));
    assert_eq!(env.get_base(), Some(asset(9)));
    assert_eq!(env.get_decimals(), Some(7));
    assert_eq!(env.get_resolution(), Some(60));
    assert_eq!(env.get_rdm_period(), Some(3600));
    assert_eq!(env.get_last_timestamp(), Some(120));
    assert_eq!(env.get_assets(), vec![asset(0), asset(1)]);
    assert_eq!(env.get_base_fee(), Some(5));
    assert_eq!(env.get_price(asset(0), 120), Some(42));
    assert_eq!(env.get_price(asset(0), 60), None);
    assert_eq!(env.get_price(asset(1), 120), None);
    assert!(env.has(DataKey::Admin) && env.has(DataKey::Assets) && env.has(DataKey::BaseFee));
    assert!(env.has(DataKey::Price(AssetPriceKey { asset: asset(0), timestamp: 120 })));
    assert!(!env.has(DataKey::Price(AssetPriceKey { asset: asset(0), timestamp: 121 })));
    assert!(!env.has(DataKey::Balance(asset(0))));
}

#[test]
fn balances_never_go_negative_or_past_the_largest_value() {
    let mut env = Env::new();
    let account = Address::account(3, 3);
    assert!(!env.try_inc_balance(account, -1));
    assert_eq!(env.get_balance(account), None);
    assert!(env.try_inc_balance(account, 10));
    assert_eq!(env.get_balance(account), Some(10));
    assert!(!env.try_inc_balance(account, -11));
    assert!(!env.try_inc_balance(account, i128::MIN));
    assert!(!env.try_inc_balance(account, i128::MAX));
    assert_eq!(env.get_balance(account), Some(10));
    assert!(env.try_inc_balance(account, -10));
    assert_eq!(env.get_balance(account), Some(0));
    assert!(env.try_inc_balance(account, 0));
    assert!(env.try_inc_balance(account, i128::MAX));
    assert_eq!(env.get_balance(account), Some(i128::MAX));
    assert!(env.has(DataKey::Balance(account)));
}

#[test]
fn cross_price_on_raw_records() {
    let mut env = Env::new();
    env.set_price(asset(0), 7, 100);
    env.set_price(asset(1), 2, 100);
    env.set_price(asset(2), 0, 100);
    env.set_price(asset(3), -7, 100);
    assert_eq!(get_x_price(&env, &asset(0), &asset(1), 100, 0), Ok(Some(3)));
    assert_eq!(get_x_price(&env, &asset(0), &asset(1), 100, 2), Ok(Some(350)));
    assert_eq!(get_x_price(&env, &asset(3), &asset(1), 100, 0), Ok(Some(-4)));
    assert_eq!(get_x_price(&env, &asset(2), &asset(1), 100, 5), Ok(Some(0)));
    // a quote price of zero has no quotient
    assert_eq!(get_x_price(&env, &asset(0), &asset(2), 100, 0), Err(Error::InvalidPriceValue));
    assert_eq!(get_x_price(&env, &asset(0), &asset(0), 100, 0), Err(Error::InvalidAssetPair));
    assert_eq!(get_x_price(&env, &asset(0), &asset(1), 99, 0), Ok(None));
    assert_eq!(get_x_price(&env, &asset(0), &asset(9), 100, 0), Ok(None));
    assert_eq!(get_x_price(&env, &asset(9), &asset(0), 100, 0), Ok(None));
    // without a number of decimals the state gives no cross price
    assert_eq!(env.get_x_price(asset(0), asset(1), 100), Ok(None));
    env.set_decimals(1);
    assert_eq!(env.get_x_price(asset(0), asset(1), 100), Ok(Some(35)));
    assert_eq!(env.lookup(Series::Asset(asset(0)), 100), Ok(Some(7)));
    assert_eq!(
        env.lookup(Series::Cross { base: asset(0), quote: asset(1), decimals: 3 }, 100),
        Ok(Some(3500))
    );
}

#[test]
fn scan_walks_back_from_the_last_write() {
    let mut env = Env::new();
    assert_eq!(prices(&env, Series::Asset(asset(0)), 5, 10), Ok(None));
    for (timestamp, price) in [(5u64, 1i128), (15, 2), (35, 4), (45, 5)] {
        env.set_price(asset(0), price, timestamp);
    }
    env.set_last_timestamp(45);
    // 45, 35, 25, 15, 5: the slot at 25 has no record
    assert_eq!(
        prices(&env, Series::Asset(asset(0)), 5, 10),
        Ok(Some(vec![
            PriceData { price: 5, timestamp: 45 },
            PriceData { price: 4, timestamp: 35 },
            PriceData { price: 2, timestamp: 15 },
            PriceData { price: 1, timestamp: 5 },
        ]))
    );
    // the walk ends before time zero
    assert_eq!(prices(&env, Series::Asset(asset(0)), 50, 10).map(|p| p.unwrap().len()), Ok(4));
    assert_eq!(
        prices(&env, Series::Asset(asset(0)), 3, 10),
        Ok(Some(vec![PriceData { price: 5, timestamp: 45 }, PriceData { price: 4, timestamp: 35 }]))
    );
    assert_eq!(
        prices(&env, Series::Asset(asset(0)), 2, 20),
        Ok(Some(vec![PriceData { price: 5, timestamp: 45 }]))
    );
    assert_eq!(prices(&env, Series::Asset(asset(0)), 0, 10), Ok(None));
    assert_eq!(prices(&env, Series::Asset(asset(1)), 5, 10), Ok(None));
    env.set_last_timestamp(25);
    assert_eq!(
        prices(&env, Series::Asset(asset(0)), 2, 10),
        Ok(Some(vec![PriceData { price: 2, timestamp: 15 }]))
    );
    assert_eq!(prices(&env, Series::Asset(asset(0)), 1, 10), Ok(None));
    // without resolution and decimals the state gives no series
    assert_eq!(env.get_prices(asset(0), 3), None);
    assert_eq!(env.get_x_prices(asset(0), asset(1), 3), Ok(None));
    env.set_resolution(10);
    assert_eq!(env.get_prices(asset(0), 3), None);
    env.set_decimals(0);
    assert_eq!(
        env.get_prices(asset(0), 3),
        Some(vec![PriceData { price: 2, timestamp: 15 }, PriceData { price: 1, timestamp: 5 }])
    );
    env.set_price(asset(1), 2, 5);
    assert_eq!(
        env.get_x_prices(asset(0), asset(1), 3),
        Ok(Some(vec![PriceData { price: 0, timestamp: 5 }]))
    );
    env.set_price(asset(1), 0, 15);
    assert_eq!(env.get_x_prices(asset(0), asset(1), 3), Err(Error::InvalidPriceValue));
    assert_eq!(env.get_x_prices(asset(0), asset(1), 1), Ok(None));
}

#[test]
fn lists_of_addresses() {
    let list = vec![asset(0), asset(1), asset(2)];
    assert_eq!(copy_addresses(&list), list);
    assert_eq!(copy_addresses(&vec![]), vec![]);
    assert!(all_distinct(&list));
    assert!(all_distinct(&vec![]));
    assert!(!all_distinct(&vec![asset(0), asset(1), asset(0)]));
    assert!(!all_distinct(&vec![asset(1), asset(1)]));
    assert!(all_distinct(&vec![Address::account(7, 0), Address::contract(7, 0)]));
}

#[test]
fn oracle_rules_on_a_handed_state() {
    let mut env = Env::new();
    let admin = Address::account(1, 1);
    assert_eq!(PriceOracle::set_price(&mut env, admin, vec![], 5), Err(Error::Unauthorized));
    assert_eq!(PriceOracle::add_assets(&mut env, admin, vec![asset(0)]), Err(Error::Unauthorized));
    let config = price_oracle::config_data::ConfigData {
        admin,
        period: 1,
        assets: vec![asset(0)],
        base_fee: 0,
        base_asset: asset(9),
        decimals: 1,
        resolution: 4,
    };
    assert_eq!(PriceOracle::config(&mut env, admin, config), Ok(()));
    assert_eq!(PriceOracle::set_price(&mut env, admin, vec![9], 7), Ok(()));
    assert_eq!(env.get_last_timestamp(), Some(4));
    assert_eq!(env.get_price(asset(0), 4), Some(9));
    assert_eq!(PriceOracle::price(&env, asset(0), 5), Some(PriceData { price: 9, timestamp: 4 }));
    assert_eq!(PriceOracle::lastprice(&env, asset(0)), Some(PriceData { price: 9, timestamp: 4 }));
    assert_eq!(PriceOracle::twap(&env, asset(0), 2), Some(9));
    assert_eq!(PriceOracle::admin(&env), Some(admin));
    assert_eq!(PriceOracle::assets(&env), Some(vec![asset(0)]));
}

#[test]
fn visited_slots_step_back_to_time_zero() {
    assert_eq!(visited_slots(45, 10, 3), vec![45, 35, 25]);
    assert_eq!(visited_slots(45, 10, 5), vec![45, 35, 25, 15, 5]);
    assert_eq!(visited_slots(45, 10, 50), vec![45, 35, 25, 15, 5]);
    assert_eq!(visited_slots(40, 10, 50), vec![40, 30, 20, 10, 0]);
    assert_eq!(visited_slots(45, 10, 0), Vec::<u64>::new());
    assert_eq!(visited_slots(0, 10, 4), vec![0]);
    assert_eq!(visited_slots(9, 10, 4), vec![9]);
    assert_eq!(visited_slots(7, 0, 3), vec![7, 7, 7]);
    assert_eq!(visited_slots(u64::MAX, u64::MAX, 3), vec![u64::MAX, 0]);
}

#[test]
fn only_a_state_an_oracle_can_be_in_is_opened() {
    assert!(is_valid(&Env::new()));
    assert!(PriceOracleContract::open(Env::new()).is_some());

    // half configured
    let mut env = Env::new();
    env.set_admin(&Address::account(1, 1));
    assert!(!is_valid(&env));
    assert!(PriceOracleContract::open(env).is_none());

    // a marker without settings
    let mut env = Env::new();
    env.set_last_timestamp(5);
    assert!(!is_valid(&env));

    let configured = |resolution: u32, assets: Vec<Address>| {
        let mut env = Env::new();
        env.set_admin(&Address::account(1, 1));
        env.set_base(asset(9));
        env.set_decimals(7);
        env.set_resolution(resolution);
        env.set_rdm_period(3600);
        env.set_assets(assets);
        env
    };
    assert!(is_valid(&configured(60, vec![asset(0), asset(1)])));
    assert!(is_valid(&configured(60, vec![])));
    assert!(!is_valid(&configured(0, vec![asset(0)])));
    assert!(!is_valid(&configured(60, vec![asset(0), asset(0)])));

    let mut env = configured(60, vec![asset(0)]);
    env.set_price(asset(0), 5, 120);
    env.set_last_timestamp(120);
    let oracle = PriceOracleContract::open(env).unwrap();
    assert_eq!(oracle.lastprice(asset(0)), Some(PriceData { price: 5, timestamp: 120 }));
    let env = oracle.close();
    assert_eq!(env.get_price(asset(0), 120), Some(5));
    assert_eq!(env.get_resolution(), Some(60));
}

#[test]
fn a_paid_oracle_continues_from_a_stored_state() {
    let mut env = Env::new();
    let account = Address::account(3, 3);
    assert!(env.try_inc_balance(account, 50));
    env.set_base_fee(20);
    let mut oracle = PaidOracleContract::open(env, asset(5)).unwrap();
    assert_eq!(oracle.fee_asset(), asset(5));
    assert_eq!(oracle.base_fee(), Some(20));
    assert_eq!(oracle.balance(account), Some(50));
    assert_eq!(oracle.price(Some(account), asset(0), 7), Ok(None));
    assert_eq!(
        oracle.x_price(Some(account), asset(0), asset(1), 7),
        Err(Error::InsufficientBalance)
    );
    assert_eq!(oracle.price(Some(account), asset(0), 7), Ok(None));
    assert_eq!(oracle.price(Some(account), asset(0), 7), Err(Error::InsufficientBalance));
    let env = oracle.close();
    assert_eq!(env.get_balance(account), Some(10));
    let mut half = Env::new();
    half.set_resolution(5);
    assert!(PaidOracleContract::open(half, asset(5)).is_none());
}
