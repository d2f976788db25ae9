use price_oracle::address::Address;
use price_oracle::config_data::ConfigData;
use price_oracle::error::Error;
use price_oracle::i128_extensions::normalize_price;
use price_oracle::price_data::PriceData;
use price_oracle::price_oracle::PriceOracleContract;
use price_oracle::timestamp::quantize;

struct InitData {
    admin: Address,
    base: Address,
    decimals: u32,
    resolution: u32,
    period: u64,
    assets: Vec<Address>,
}

fn generate_assets(count: usize) -> Vec<Address> {
    let mut assets = Vec::new();
    for i in 0..count {
        assets.push(Address::contract(7, i as u128));
    }
    assets
}

fn get_updates(assets: &Vec<Address>, price: i128) -> Vec<i128> {
    let mut updates = Vec::new();
    for _ in assets.iter() {
        updates.push(price);
    }
    updates
}

fn init_contract_with_admin() -> (PriceOracleContract, InitData) {
    let init_data = InitData {
        admin: Address::account(1, 1),
        base: Address::contract(2, 2),
        decimals: 14,
        resolution: 300_000,
        period: 14,
        assets: generate_assets(10),
    };
    let mut client = PriceOracleContract::new();
    let config = ConfigData {
        admin: init_data.admin,
        period: init_data.period,
        assets: init_data.assets.clone(),
        base_fee: 0,
        base_asset: init_data.base,
        decimals: init_data.decimals,
        resolution: init_data.resolution,
    };
    assert_eq!(client.config(init_data.admin, config), Ok(()));
    (client, init_data)
}

#[test]
fn init_test() {
    let (client, init_data) = init_contract_with_admin();

    let address = client.admin().unwrap();
    assert_eq!(address, init_data.admin.clone());

    let base = client.base().unwrap();
    assert_eq!(base, init_data.base.clone());

    let resolution = client.resolution().unwrap();
    assert_eq!(resolution, init_data.resolution);

    let period = client.period().unwrap();
    assert_eq!(period, init_data.period);

    let decimals = client.decimals().unwrap();
    assert_eq!(decimals, init_data.decimals);

    let assets = client.assets().unwrap();
    assert_eq!(assets, init_data.assets);
}

#[test]
fn last_price_test() {
    let (mut client, init_data) = init_contract_with_admin();

    let admin = init_data.admin;
    let assets = init_data.assets;

    let timestamp = 600_000;
    let updates = get_updates(&assets, normalize_price(100, init_data.decimals));

    //set prices for assets
    assert_eq!(client.set_price(admin, updates, timestamp), Ok(()));

    let timestamp = 900_000;
    let updates = get_updates(&assets, normalize_price(200, init_data.decimals));

    //set prices for assets
    assert_eq!(client.set_price(admin, updates, timestamp), Ok(()));

    //check last prices
    let result = client.lastprice(assets[1]);
    assert_ne!(result, Option::None);
    assert_eq!(
        result,
        Option::Some(PriceData {
            price: normalize_price(200, init_data.decimals),
            timestamp: 900_000 as u64
        })
    );
}

#[test]
fn get_price_test() {
    let (mut client, init_data) = init_contract_with_admin();

    let admin = init_data.admin;
    let assets = init_data.assets;

    let timestamp = 600_000;
    let updates = get_updates(&assets, normalize_price(100, init_data.decimals));

    assert_eq!(client.set_price(admin, updates, timestamp), Ok(()));

    let timestamp = 900_000;
    let updates = get_updates(&assets, normalize_price(200, init_data.decimals));

    assert_eq!(client.set_price(admin, updates, timestamp), Ok(()));

    //check last prices
    let mut result = client.lastprice(assets[1]);
    assert_ne!(result, Option::None);
    assert_eq!(
        result,
        Option::Some(PriceData {
            price: normalize_price(200, init_data.decimals),
            timestamp: 900_000 as u64
        })
    );

    //check price at 899_000
    result = client.price(assets[1], 899_000);
    assert_ne!(result, Option::None);
    assert_eq!(
        result,
        Option::Some(PriceData {
            price: normalize_price(100, init_data.decimals),
            timestamp: 600_000 as u64
        })
    );
}

#[test]
fn get_x_lt_price_test() {
    let (mut client, init_data) = init_contract_with_admin();

    let admin = init_data.admin;
    let assets = init_data.assets;

    let timestamp = 600_000;
    let updates = get_updates(&assets, normalize_price(100, init_data.decimals));

    assert_eq!(client.set_price(admin, updates, timestamp), Ok(()));

    //check last x price
    let result = client.x_last_price(assets[1], assets[2]).unwrap();
    assert_ne!(result, Option::None);
    assert_eq!(
        result,
        Option::Some(PriceData {
            price: normalize_price(1, init_data.decimals),
            timestamp: 600_000 as u64
        })
    );
}

#[test]
fn get_x_price_test() {
    let (mut client, init_data) = init_contract_with_admin();

    let admin = init_data.admin;
    let assets = init_data.assets;

    let timestamp = 600_000;
    let updates = get_updates(&assets, normalize_price(100, init_data.decimals));

    //set prices for assets
    assert_eq!(client.set_price(admin, updates, timestamp), Ok(()));

    let timestamp = 900_000;
    let updates = get_updates(&assets, normalize_price(200, init_data.decimals));

    //set prices for assets
    assert_eq!(client.set_price(admin, updates, timestamp), Ok(()));

    //check last prices
    let mut result = client.x_last_price(assets[1], assets[2]).unwrap();
    assert_ne!(result, Option::None);
    assert_eq!(
        result,
        Option::Some(PriceData {
            price: normalize_price(1, init_data.decimals),
            timestamp: 900_000 as u64
        })
    );

    //check price at 899_000
    result = client.x_price(assets[1], assets[2], 899_000).unwrap();
    assert_ne!(result, Option::None);
    assert_eq!(
        result,
        Option::Some(PriceData {
            price: normalize_price(1, init_data.decimals),
            timestamp: 600_000 as u64
        })
    );
}

#[test]
fn twap_test() {
    let (mut client, init_data) = init_contract_with_admin();

    let admin = init_data.admin;
    let assets = init_data.assets;

    let timestamp = 600_000;
    let updates = get_updates(&assets, normalize_price(100, init_data.decimals));

    //set prices for assets
    assert_eq!(client.set_price(admin, updates, timestamp), Ok(()));

    let timestamp = 900_000;
    let updates = get_updates(&assets, normalize_price(200, init_data.decimals));

    //set prices for assets
    assert_eq!(client.set_price(admin, updates, timestamp), Ok(()));

    let result = client.twap(assets[1], 2);

    assert_ne!(result, Option::None);
    assert_eq!(result.unwrap(), normalize_price(150, init_data.decimals));
}

#[test]
fn x_twap_test() {
    let (mut client, init_data) = init_contract_with_admin();

    let admin = init_data.admin;
    let assets = init_data.assets;

    let timestamp = 600_000;
    let updates = get_updates(&assets, normalize_price(100, init_data.decimals));

    //set prices for assets
    assert_eq!(client.set_price(admin, updates, timestamp), Ok(()));

    let timestamp = 900_000;
    let updates = get_updates(&assets, normalize_price(200, init_data.decimals));

    //set prices for assets
    assert_eq!(client.set_price(admin, updates, timestamp), Ok(()));

    let result = client.x_twap(assets[1], assets[2], 2).unwrap();

    assert_ne!(result, Option::None);
    assert_eq!(result.unwrap(), normalize_price(1, init_data.decimals));
}

#[test]
fn get_non_registered_asset_price_test() {
    let (client, _) = init_contract_with_admin();

    //try to get price for unknown asset
    let result = client.lastprice(Address::contract(99, 99));
    assert_eq!(result, Option::None);
}

#[test]
#[should_panic]
fn unauthorized_test() {
    let (mut client, init_data) = init_contract_with_admin();

    let assets = init_data.assets;

    let updates = get_updates(&assets, 100);

    let account = Address::account(5, 5);
    let timestamp = quantize(112331 as u64, init_data.resolution.into());
    //set prices for assets
    client.set_price(account, updates, timestamp).unwrap();
}

#[test]
fn set_price_by_stranger_is_refused_and_changes_nothing() {
    let (mut client, init_data) = init_contract_with_admin();
    let updates = get_updates(&init_data.assets, 100);
    let stranger = Address::account(5, 5);
    assert_eq!(client.set_price(stranger, updates, 112331), Err(Error::Unauthorized));
    assert_eq!(client.get_last_timestamp(), None);
    assert_eq!(client.price(init_data.assets[0], 112331), None);
}

#[test]
fn set_price_round_trips_each_asset() {
    let (mut client, init_data) = init_contract_with_admin();
    let updates: Vec<i128> = (1..=10).map(|i| i * 1000).collect();
    assert_eq!(client.set_price(init_data.admin, updates.clone(), 1_234_567), Ok(()));
    assert_eq!(client.get_last_timestamp(), Some(1_200_000));
    for i in 0..10 {
        assert_eq!(
            client.price(init_data.assets[i], 1_234_567),
            Some(PriceData { price: updates[i], timestamp: 1_200_000 })
        );
        assert_eq!(
            client.price(init_data.assets[i], 1_200_000),
            Some(PriceData { price: updates[i], timestamp: 1_200_000 })
        );
        assert_eq!(client.price(init_data.assets[i], 1_199_999), None);
        assert_eq!(client.price(init_data.assets[i], 1_500_000), None);
    }
}

#[test]
fn set_price_overwrites_the_slot() {
    let (mut client, init_data) = init_contract_with_admin();
    let assets = init_data.assets;
    assert_eq!(client.set_price(init_data.admin, get_updates(&assets, 5), 600_000), Ok(()));
    assert_eq!(client.set_price(init_data.admin, get_updates(&assets, 9), 600_001), Ok(()));
    assert_eq!(client.price(assets[3], 600_000), Some(PriceData { price: 9, timestamp: 600_000 }));
    assert_eq!(client.prices(assets[3], 5), Some(vec![PriceData { price: 9, timestamp: 600_000 }]));
}

#[test]
fn set_price_wrong_length_is_refused() {
    let (mut client, init_data) = init_contract_with_admin();
    assert_eq!(
        client.set_price(init_data.admin, vec![1, 2, 3], 600_000),
        Err(Error::InvalidUpdatesLength)
    );
    assert_eq!(
        client.set_price(init_data.admin, vec![1; 11], 600_000),
        Err(Error::InvalidUpdatesLength)
    );
    assert_eq!(client.get_last_timestamp(), None);
}

#[test]
fn set_price_non_positive_price_is_refused() {
    let (mut client, init_data) = init_contract_with_admin();
    let mut updates = get_updates(&init_data.assets, 100);
    updates[9] = 0;
    assert_eq!(
        client.set_price(init_data.admin, updates.clone(), 600_000),
        Err(Error::InvalidPriceValue)
    );
    updates[9] = -1;
    assert_eq!(
        client.set_price(init_data.admin, updates, 600_000),
        Err(Error::InvalidPriceValue)
    );
    assert_eq!(client.get_last_timestamp(), None);
    assert_eq!(client.price(init_data.assets[0], 600_000), None);
}

#[test]
fn marker_follows_the_last_write_even_backwards() {
    let (mut client, init_data) = init_contract_with_admin();
    let assets = init_data.assets;
    assert_eq!(client.set_price(init_data.admin, get_updates(&assets, 1), 900_000), Ok(()));
    assert_eq!(client.get_last_timestamp(), Some(900_000));
    assert_eq!(client.set_price(init_data.admin, get_updates(&assets, 2), 300_001), Ok(()));
    assert_eq!(client.get_last_timestamp(), Some(300_000));
    assert_eq!(client.lastprice(assets[0]), Some(PriceData { price: 2, timestamp: 300_000 }));
    // the later record is still on file, but a scan from the marker misses it
    assert_eq!(client.price(assets[0], 900_000), Some(PriceData { price: 1, timestamp: 900_000 }));
    assert_eq!(client.prices(assets[0], 10), Some(vec![PriceData { price: 2, timestamp: 300_000 }]));
}

#[test]
fn prices_pass_over_gaps_newest_first() {
    let (mut client, init_data) = init_contract_with_admin();
    let assets = init_data.assets;
    // every other slot: 300_000, 900_000, 1_500_000
    assert_eq!(client.set_price(init_data.admin, get_updates(&assets, 10), 300_000), Ok(()));
    assert_eq!(client.set_price(init_data.admin, get_updates(&assets, 30), 900_000), Ok(()));
    assert_eq!(client.set_price(init_data.admin, get_updates(&assets, 50), 1_500_000), Ok(()));
    assert_eq!(
        client.prices(assets[0], 5),
        Some(vec![
            PriceData { price: 50, timestamp: 1_500_000 },
            PriceData { price: 30, timestamp: 900_000 },
            PriceData { price: 10, timestamp: 300_000 },
        ])
    );
    assert_eq!(
        client.prices(assets[0], 3),
        Some(vec![
            PriceData { price: 50, timestamp: 1_500_000 },
            PriceData { price: 30, timestamp: 900_000 },
        ])
    );
    assert_eq!(client.prices(assets[0], 1), Some(vec![PriceData { price: 50, timestamp: 1_500_000 }]));
    assert_eq!(client.prices(assets[0], 0), None);
    // more rounds than slots back to time zero
    assert_eq!(client.prices(assets[0], 1000).unwrap().len(), 3);
    assert_eq!(client.prices(Address::contract(99, 99), 5), None);
    assert_eq!(client.twap(assets[0], 5), Some(30));
    assert_eq!(client.twap(assets[0], 3), Some(40));
    assert_eq!(client.twap(assets[0], 0), None);
}

#[test]
fn queries_before_anything_is_written_are_absent() {
    let (client, init_data) = init_contract_with_admin();
    let assets = init_data.assets;
    assert_eq!(client.get_last_timestamp(), None);
    assert_eq!(client.lastprice(assets[0]), None);
    assert_eq!(client.prices(assets[0], 3), None);
    assert_eq!(client.twap(assets[0], 3), None);
    assert_eq!(client.x_last_price(assets[0], assets[1]), Ok(None));
    assert_eq!(client.x_prices(assets[0], assets[1], 3), Ok(None));
    assert_eq!(client.x_twap(assets[0], assets[1], 3), Ok(None));
}

#[test]
fn queries_on_a_blank_oracle_are_absent() {
    let client = PriceOracleContract::new();
    let a = Address::contract(1, 1);
    let b = Address::contract(1, 2);
    assert_eq!(client.admin(), None);
    assert_eq!(client.base(), None);
    assert_eq!(client.decimals(), None);
    assert_eq!(client.resolution(), None);
    assert_eq!(client.period(), None);
    assert_eq!(client.assets(), None);
    assert_eq!(client.price(a, 5), None);
    assert_eq!(client.lastprice(a), None);
    assert_eq!(client.prices(a, 5), None);
    assert_eq!(client.x_price(a, b, 5), Ok(None));
    assert_eq!(client.x_price(a, a, 5), Err(Error::InvalidAssetPair));
}

#[test]
fn slot_zero_holds_a_record_once_written() {
    let (mut client, init_data) = init_contract_with_admin();
    let assets = init_data.assets;
    assert_eq!(client.price(assets[0], 0), None);
    assert_eq!(client.set_price(init_data.admin, get_updates(&assets, 77), 299_999), Ok(()));
    assert_eq!(client.get_last_timestamp(), Some(0));
    assert_eq!(client.price(assets[0], 12), Some(PriceData { price: 77, timestamp: 0 }));
    assert_eq!(client.lastprice(assets[0]), Some(PriceData { price: 77, timestamp: 0 }));
    assert_eq!(client.prices(assets[0], 4), Some(vec![PriceData { price: 77, timestamp: 0 }]));
}

#[test]
fn cross_price_is_the_floor_of_the_scaled_quotient() {
    let (mut client, init_data) = init_contract_with_admin();
    let assets = init_data.assets;
    let mut updates = get_updates(&assets, 1);
    updates[0] = 10;
    updates[1] = 3;
    assert_eq!(client.set_price(init_data.admin, updates, 600_000), Ok(()));
    // floor(10 * 10^14 / 3)
    assert_eq!(
        client.x_price(assets[0], assets[1], 600_000),
        Ok(Some(PriceData { price: 333_333_333_333_333, timestamp: 600_000 }))
    );
    // floor(3 * 10^14 / 10)
    assert_eq!(
        client.x_price(assets[1], assets[0], 600_299),
        Ok(Some(PriceData { price: 30_000_000_000_000, timestamp: 600_000 }))
    );
    assert_eq!(client.x_price(assets[0], assets[1], 300_000), Ok(None));
    assert_eq!(client.x_price(assets[0], Address::contract(99, 99), 600_000), Ok(None));
    assert_eq!(client.x_price(Address::contract(99, 99), assets[0], 600_000), Ok(None));
}

#[test]
fn cross_price_of_an_asset_against_itself_is_refused() {
    let (mut client, init_data) = init_contract_with_admin();
    let assets = init_data.assets;
    assert_eq!(client.x_price(assets[0], assets[0], 600_000), Err(Error::InvalidAssetPair));
    assert_eq!(client.x_last_price(assets[0], assets[0]), Err(Error::InvalidAssetPair));
    assert_eq!(client.x_prices(assets[0], assets[0], 3), Err(Error::InvalidAssetPair));
    assert_eq!(client.x_twap(assets[0], assets[0], 3), Err(Error::InvalidAssetPair));
    assert_eq!(client.set_price(init_data.admin, get_updates(&assets, 4), 600_000), Ok(()));
    assert_eq!(client.x_price(assets[0], assets[0], 600_000), Err(Error::InvalidAssetPair));
    assert_eq!(client.x_prices(assets[0], assets[0], 0), Err(Error::InvalidAssetPair));
}

#[test]
fn cross_price_that_does_not_fit_is_refused() {
    let (mut client, init_data) = init_contract_with_admin();
    let assets = init_data.assets;
    let mut updates = get_updates(&assets, 1);
    updates[0] = i128::MAX;
    assert_eq!(client.set_price(init_data.admin, updates, 600_000), Ok(()));
    assert_eq!(client.x_price(assets[0], assets[1], 600_000), Err(Error::InvalidPriceValue));
    assert_eq!(client.x_last_price(assets[0], assets[1]), Err(Error::InvalidPriceValue));
    assert_eq!(client.x_prices(assets[0], assets[1], 2), Err(Error::InvalidPriceValue));
    assert_eq!(client.x_twap(assets[0], assets[1], 2), Err(Error::InvalidPriceValue));
    // the other way round the quotient is zero
    assert_eq!(
        client.x_price(assets[1], assets[0], 600_000),
        Ok(Some(PriceData { price: 0, timestamp: 600_000 }))
    );
}

#[test]
fn cross_prices_pass_over_slots_where_a_leg_is_absent() {
    let mut client = PriceOracleContract::new();
    let admin = Address::account(1, 1);
    let a = Address::contract(7, 0);
    let b = Address::contract(7, 1);
    let config = ConfigData {
        admin,
        period: 100,
        assets: vec![a],
        base_fee: 0,
        base_asset: Address::contract(2, 2),
        decimals: 2,
        resolution: 10,
    };
    assert_eq!(client.config(admin, config), Ok(()));
    // only `a` is priced at slot 100
    assert_eq!(client.set_price(admin, vec![500], 100), Ok(()));
    assert_eq!(client.add_assets(admin, vec![b]), Ok(()));
    assert_eq!(client.set_price(admin, vec![600, 200], 110), Ok(()));
    assert_eq!(client.set_price(admin, vec![900, 400], 130), Ok(()));
    assert_eq!(
        client.x_prices(a, b, 4),
        Ok(Some(vec![
            PriceData { price: 225, timestamp: 130 },
            PriceData { price: 300, timestamp: 110 },
        ]))
    );
    assert_eq!(client.x_twap(a, b, 4), Ok(Some(262)));
    assert_eq!(client.x_prices(a, b, 1), Ok(Some(vec![PriceData { price: 225, timestamp: 130 }])));
    assert_eq!(client.prices(a, 4).unwrap().len(), 3);
    assert_eq!(client.prices(b, 4).unwrap().len(), 2);
}

#[test]
fn add_assets_by_stranger_is_refused_and_changes_nothing() {
    let (mut client, init_data) = init_contract_with_admin();
    let stranger = Address::account(5, 5);
    assert_eq!(
        client.add_assets(stranger, vec![Address::contract(8, 8)]),
        Err(Error::Unauthorized)
    );
    assert_eq!(client.assets(), Some(init_data.assets));
}

#[test]
fn add_assets_existing_asset_is_refused_and_changes_nothing() {
    let (mut client, init_data) = init_contract_with_admin();
    assert_eq!(
        client.add_assets(init_data.admin, vec![init_data.assets[4]]),
        Err(Error::AssetAlreadyPresented)
    );
    assert_eq!(
        client.add_assets(init_data.admin, vec![Address::contract(8, 8), init_data.assets[0]]),
        Err(Error::AssetAlreadyPresented)
    );
    assert_eq!(
        client.add_assets(init_data.admin, vec![Address::contract(8, 8), Address::contract(8, 8)]),
        Err(Error::AssetAlreadyPresented)
    );
    assert_eq!(client.assets(), Some(init_data.assets));
}

#[test]
fn add_assets_appends_in_order() {
    let (mut client, init_data) = init_contract_with_admin();
    let more = vec![Address::contract(8, 1), Address::contract(8, 2)];
    assert_eq!(client.add_assets(init_data.admin, more.clone()), Ok(()));
    let mut expected = init_data.assets.clone();
    expected.extend(more);
    assert_eq!(client.assets(), Some(expected));
    assert_eq!(client.add_assets(init_data.admin, vec![]), Ok(()));
    assert_eq!(client.assets().unwrap().len(), 12);
    // one update per asset is now twelve
    assert_eq!(
        client.set_price(init_data.admin, vec![1; 10], 600_000),
        Err(Error::InvalidUpdatesLength)
    );
    assert_eq!(client.set_price(init_data.admin, vec![1; 12], 600_000), Ok(()));
}

#[test]
fn config_is_open_once_then_reserved_to_the_admin() {
    let (mut client, init_data) = init_contract_with_admin();
    let stranger = Address::account(5, 5);
    let takeover = ConfigData {
        admin: stranger,
        period: 1,
        assets: vec![],
        base_fee: 0,
        base_asset: init_data.base,
        decimals: 2,
        resolution: 60,
    };
    assert_eq!(client.config(stranger, takeover.clone()), Err(Error::Unauthorized));
    assert_eq!(client.admin(), Some(init_data.admin));
    assert_eq!(client.resolution(), Some(300_000));
    assert_eq!(client.config(init_data.admin, takeover), Ok(()));
    assert_eq!(client.admin(), Some(stranger));
    assert_eq!(client.resolution(), Some(60));
    assert_eq!(client.decimals(), Some(2));
    assert_eq!(client.period(), Some(1));
    assert_eq!(client.assets(), Some(vec![]));
}

#[test]
fn config_with_zero_resolution_is_refused() {
    let mut client = PriceOracleContract::new();
    let admin = Address::account(1, 1);
    let config = ConfigData {
        admin,
        period: 1,
        assets: vec![],
        base_fee: 0,
        base_asset: Address::contract(2, 2),
        decimals: 2,
        resolution: 0,
    };
    assert_eq!(client.config(admin, config), Err(Error::InvalidResolution));
    assert_eq!(client.admin(), None);
    assert_eq!(client.resolution(), None);
}

#[test]
fn config_with_an_asset_twice_is_refused() {
    let mut client = PriceOracleContract::new();
    let admin = Address::account(1, 1);
    let config = ConfigData {
        admin,
        period: 1,
        assets: vec![Address::contract(3, 3), Address::contract(4, 4), Address::contract(3, 3)],
        base_fee: 0,
        base_asset: Address::contract(2, 2),
        decimals: 2,
        resolution: 5,
    };
    assert_eq!(client.config(admin, config), Err(Error::AssetAlreadyPresented));
    assert_eq!(client.admin(), None);
    assert_eq!(client.assets(), None);
}
