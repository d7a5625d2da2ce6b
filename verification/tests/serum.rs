use mmb::common::CurrencyPair;
use mmb::decimal::DecimalValue;
use mmb::serum_market::{
    convert64_to_pubkey, load_market_parameters, market_to_load, remove_dex_account_padding,
    FieldError, MarketListing, MarketParameters, SerumError,
};
use mmb::serum_support::Serum;
use mmb::symbol::{
    can_compute_symbol, check_limits_fit, pow10_u64, symbol_from_market, symbol_limits, Precision,
};
use rust_decimal::Decimal;
use std::str::FromStr;

fn decimal(text: &str) -> DecimalValue {
    let d = Decimal::from_str(text).unwrap();
    DecimalValue { mantissa: d.mantissa(), scale: d.scale() }
}

fn value(d: DecimalValue) -> Decimal {
    Decimal::from_i128_with_scale(d.mantissa, d.scale)
}

fn market_account(words: usize, flags: u64, coin_lot: u64, pc_lot: u64) -> Vec<u8> {
    let mut data = b"serum".to_vec();
    let mut state = vec![0u8; words * 8];
    state[0..8].copy_from_slice(&flags.to_le_bytes());
    for i in 0..32 {
        state[48 + i] = i as u8 + 1;
        state[80 + i] = 100 + i as u8;
    }
    state[344..352].copy_from_slice(&coin_lot.to_le_bytes());
    state[352..360].copy_from_slice(&pc_lot.to_le_bytes());
    data.extend(state);
    data.extend(b"padding");
    data
}

fn mint_account(decimals: u8) -> Vec<u8> {
    let mut data = vec![0u8; 82];
    data[44] = decimals;
    data[45] = 1;
    data
}

fn listing(deprecated: Option<bool>, name: Option<&str>, address: Option<&str>) -> MarketListing {
    MarketListing {
        deprecated,
        name: name.map(|s| s.to_string()).ok_or(FieldError::Missing),
        address: address.map(|s| s.to_string()).ok_or(FieldError::Missing),
    }
}

#[test]
fn powers_of_ten() {
    assert_eq!(pow10_u64(0), 1);
    assert_eq!(pow10_u64(6), 1_000_000);
    assert_eq!(pow10_u64(19), 10_000_000_000_000_000_000);
}

#[test]
fn limits_of_a_market() {
    // 9 coin decimals, 6 price decimals, coin lot 0.1 coin, price lot 100 units.
    let limits = symbol_limits(9, 6, 100_000_000, 100);
    assert_eq!(value(limits.min_price), Decimal::from_str("0.001").unwrap());
    assert_eq!(value(limits.min_amount), Decimal::from_str("0.1").unwrap());
    assert_eq!(value(limits.min_cost), Decimal::from_str("0.0001").unwrap());
    assert_eq!(limits.max_price, DecimalValue { mantissa: u64::MAX as i128, scale: 0 });
    assert_eq!(limits.max_amount, DecimalValue { mantissa: u64::MAX as i128, scale: 0 });
}

#[test]
fn limits_round_a_repeating_quotient() {
    let limits = symbol_limits(0, 0, 3, 1);
    assert_eq!(value(limits.min_price), Decimal::ONE / Decimal::from(3));
    assert_eq!(limits.min_price, decimal("0.3333333333333333333333333333"));
    assert_eq!(value(limits.min_amount), Decimal::from(3));
    assert_eq!(value(limits.min_cost), (Decimal::ONE / Decimal::from(3)) * Decimal::from(3));
}

#[test]
fn padding_is_stripped_to_whole_words() {
    let mut data = b"serum".to_vec();
    data.extend([1u8, 2, 3, 4, 5, 6, 7, 8, 9, 10]);
    data.extend(b"padding");
    assert_eq!(remove_dex_account_padding(&data), Ok(&[1u8, 2, 3, 4, 5, 6, 7, 8][..]));
}

#[test]
fn padding_errors() {
    assert_eq!(remove_dex_account_padding(b"serumpaddin"), Err(SerumError::AccountTooSmall));
    assert_eq!(remove_dex_account_padding(b"serxmpadding"), Err(SerumError::HeadPaddingMismatch));
    assert_eq!(remove_dex_account_padding(b"serumpaddinx"), Err(SerumError::TailPaddingMismatch));
    assert_eq!(remove_dex_account_padding(b"serumpadding"), Ok(&[][..]));
}

#[test]
fn key_from_words_is_little_endian() {
    let key = convert64_to_pubkey([0x0807060504030201, 0, u64::MAX, 0x10]);
    assert_eq!(&key[0..8], &[1, 2, 3, 4, 5, 6, 7, 8]);
    assert_eq!(&key[8..16], &[0; 8]);
    assert_eq!(&key[16..24], &[255; 8]);
    assert_eq!(&key[24..32], &[0x10, 0, 0, 0, 0, 0, 0, 0]);
}

#[test]
fn market_parameters_of_a_market() {
    let data = market_account(47, 3, 100_000, 10);
    let p = load_market_parameters(&data).unwrap();
    let coin: Vec<u8> = (1..=32).collect();
    let pc: Vec<u8> = (100..132).collect();
    assert_eq!(p.coin_mint.to_vec(), coin);
    assert_eq!(p.pc_mint.to_vec(), pc);
    assert_eq!(p.coin_lot_size, 100_000);
    assert_eq!(p.pc_lot_size, 10);
}

#[test]
fn market_parameters_of_a_permissioned_market() {
    let data = market_account(183, 0x603, 7, 9);
    let p = load_market_parameters(&data).unwrap();
    assert_eq!(p.coin_mint[0], 1);
    assert_eq!(p.pc_mint[31], 131);
    assert_eq!(p.coin_lot_size, 7);
    assert_eq!(p.pc_lot_size, 9);
}

#[test]
fn market_parameters_errors() {
    assert_eq!(load_market_parameters(b"serum").err(), Some(SerumError::AccountTooSmall));
    assert_eq!(load_market_parameters(b"serumpadding").err(), Some(SerumError::InvalidMarketFlags));
    let unknown_flag = market_account(47, 3 | 0x800, 1, 1);
    assert_eq!(load_market_parameters(&unknown_flag).err(), Some(SerumError::InvalidMarketFlags));
    let wrong_size = market_account(46, 3, 1, 1);
    assert_eq!(load_market_parameters(&wrong_size).err(), Some(SerumError::InvalidMarketStateSize));
    let permissioned_but_short = market_account(47, 0x203, 1, 1);
    assert_eq!(
        load_market_parameters(&permissioned_but_short).err(),
        Some(SerumError::InvalidMarketStateSize)
    );
    let disabled = market_account(47, 3 | 0x80, 1, 1);
    assert_eq!(load_market_parameters(&disabled).err(), Some(SerumError::InvalidMarketState));
    let mut bad_tail = market_account(47, 3, 1, 1);
    let last = bad_tail.len() - 1;
    bad_tail[last] = b'x';
    assert_eq!(load_market_parameters(&bad_tail).err(), Some(SerumError::TailPaddingMismatch));
}

#[test]
fn listed_markets() {
    let key = "11111111111111111111111111111111";
    let m = market_to_load(&listing(Some(false), Some("SRM/USDC"), Some(key))).unwrap().unwrap();
    assert_eq!(m.name, "SRM/USDC");
    assert_eq!(m.address, [0u8; 32]);
    let dex = market_to_load(&listing(
        Some(false),
        Some("SOL/USDC"),
        Some("9xQeWvG816bUx9EPjHmaT23yvVM2ZWbrrpZb9PusVFin"),
    ))
    .unwrap()
    .unwrap();
    assert_ne!(dex.address, [0u8; 32]);
    assert!(market_to_load(&listing(Some(true), None, None)).unwrap().is_none());
}

#[test]
fn listed_market_errors() {
    let key = "11111111111111111111111111111111";
    assert_eq!(
        market_to_load(&listing(None, Some("A/B"), Some(key))).err(),
        Some(SerumError::UnableToGetDeprecatedState)
    );
    assert_eq!(
        market_to_load(&listing(Some(false), None, Some(key))).err(),
        Some(SerumError::UnableToGetName(FieldError::Missing))
    );
    assert_eq!(
        market_to_load(&listing(Some(false), Some("A/B"), None)).err(),
        Some(SerumError::UnableToGetAddress(FieldError::Missing))
    );
    let not_text = MarketListing {
        deprecated: Some(false),
        name: Ok("A/B".to_string()),
        address: Err(FieldError::NotString),
    };
    assert_eq!(
        market_to_load(&not_text).err(),
        Some(SerumError::UnableToGetAddress(FieldError::NotString))
    );
    assert_eq!(
        market_to_load(&listing(Some(false), Some("A/B"), Some("0OIl"))).err(),
        Some(SerumError::InvalidPubkey)
    );
    assert_eq!(
        market_to_load(&listing(Some(false), Some("A/B"), Some("1111"))).err(),
        Some(SerumError::InvalidPubkey)
    );
}

#[test]
fn symbol_of_a_market() {
    let market = MarketParameters {
        coin_mint: [1; 32],
        pc_mint: [2; 32],
        coin_lot_size: 100_000_000,
        pc_lot_size: 100,
    };
    let s = symbol_from_market("SRM/USDC", &market, &mint_account(9), &mint_account(6)).unwrap();
    assert!(s.is_active);
    assert!(!s.is_derivative);
    assert_eq!(s.base_currency_id, "SRM");
    assert_eq!(s.base_currency_code, "SRM");
    assert_eq!(s.quote_currency_id, "USDC");
    assert_eq!(s.quote_currency_code, "USDC");
    assert_eq!(s.amount_currency_code, "SRM");
    assert_eq!(s.balance_currency_code.as_deref(), Some("SRM"));
    assert_eq!(value(s.min_price.unwrap()), Decimal::from_str("0.001").unwrap());
    assert_eq!(value(s.min_amount.unwrap()), Decimal::from_str("0.1").unwrap());
    assert_eq!(value(s.min_cost.unwrap()), Decimal::from_str("0.0001").unwrap());
    assert_eq!(s.max_price, Some(DecimalValue { mantissa: u64::MAX as i128, scale: 0 }));
    assert_eq!(s.price_precision, Precision::ByMantissa { precision: 1 });
    assert_eq!(s.amount_precision, Precision::ByMantissa { precision: 1 });
}

#[test]
fn symbol_splits_at_first_slash() {
    let market = MarketParameters { coin_mint: [0; 32], pc_mint: [0; 32], coin_lot_size: 1, pc_lot_size: 1 };
    let s = symbol_from_market("A/B/C", &market, &mint_account(0), &mint_account(0)).unwrap();
    assert_eq!(s.base_currency_id, "A");
    assert_eq!(s.quote_currency_id, "B/C");
}

#[test]
fn symbol_errors() {
    let market = MarketParameters { coin_mint: [0; 32], pc_mint: [0; 32], coin_lot_size: 1, pc_lot_size: 1 };
    let mut bad_mint = mint_account(6);
    bad_mint[45] = 2;
    assert_eq!(
        symbol_from_market("A/B", &market, &bad_mint, &mint_account(6)).err(),
        Some(SerumError::InvalidMintData)
    );
    let mut bad_tag = mint_account(6);
    bad_tag[0] = 2;
    assert_eq!(
        symbol_from_market("AB", &market, &mint_account(6), &bad_tag).err(),
        Some(SerumError::InvalidMintData)
    );
    assert_eq!(
        symbol_from_market("AB", &market, &mint_account(6), &mint_account(6)).err(),
        Some(SerumError::InvalidMarketName)
    );
}

#[test]
fn recorded_pairs_read_back() {
    let market = MarketParameters { coin_mint: [0; 32], pc_mint: [0; 32], coin_lot_size: 1, pc_lot_size: 1 };
    let s = symbol_from_market("SRM/USDC", &market, &mint_account(6), &mint_account(6)).unwrap();
    let mut serum = Serum::new();
    serum.register_symbol("SRM/USDC", &s);
    let unified = CurrencyPair::from_codes("SRM", "USDC");
    assert_eq!(unified.code, "SRM/USDC");
    assert_eq!(serum.get_specific_currency_pair(&unified), "SRM/USDC");
    serum.insert_specific_currency_pair(CurrencyPair::from_codes("SRM", "USDC"), "SRM-USDC".to_string());
    serum.insert_specific_currency_pair(CurrencyPair::from_codes("SOL", "USDC"), "SOL/USDC".to_string());
    assert_eq!(serum.get_specific_currency_pair(&unified), "SRM-USDC");
    assert_eq!(serum.get_specific_currency_pair(&CurrencyPair::from_code("SOL/USDC".to_string())), "SOL/USDC");
}

#[test]
fn serum_logs_execution_reports_only() {
    let serum = Serum::new();
    assert!(serum.should_log_message("{\"e\":\"executionReport\"}"));
    assert!(!serum.should_log_message("{\"e\":\"trade\"}"));
    assert!(!serum.is_websocket_enabled());
}

#[test]
fn limits_with_extreme_decimals() {
    let limits = symbol_limits(19, 0, 1, 7_000_000_000);
    assert_eq!(value(limits.min_price), Decimal::from_str("70000000000000000000000000000").unwrap());
    assert_eq!(value(limits.min_amount), Decimal::from_str("0.0000000000000000001").unwrap());
    assert_eq!(value(limits.min_cost), Decimal::from(7_000_000_000u64));
}

#[test]
fn limits_that_can_be_computed() {
    assert!(check_limits_fit(9, 6, 100_000_000, 100));
    assert!(check_limits_fit(19, 0, 1, 7_000_000_000));
    assert!(!check_limits_fit(19, 0, 1, 8_000_000_000));
    assert!(!check_limits_fit(20, 0, 1, 1));
    assert!(!check_limits_fit(6, 6, 0, 1));
    assert!(!check_limits_fit(0, 19, 8_000_000_000, 1));
}

#[test]
fn symbol_can_be_computed() {
    let market = MarketParameters { coin_mint: [0; 32], pc_mint: [0; 32], coin_lot_size: 0, pc_lot_size: 1 };
    assert!(!can_compute_symbol("A/B", &market, &mint_account(6), &vec![0u8; 81]));
    assert!(!can_compute_symbol("A/B", &market, &mint_account(6), &mint_account(6)));
    assert!(can_compute_symbol("AB", &market, &mint_account(6), &mint_account(6)));
    let mut bad_mint = mint_account(6);
    bad_mint[45] = 7;
    assert!(can_compute_symbol("A/B", &market, &bad_mint, &mint_account(6)));
}

#[test]
fn market_list_from_response() {
    let key = "11111111111111111111111111111111";
    let content = format!(
        r#"[{{"deprecated":false,"name":"SRM/USDC","address":"{key}"}},
            {{"deprecated":true}},
            {{"deprecated":false,"name":"SOL/USDC","address":"{key}"}}]"#
    );
    let to_load = mmb::serum_market::markets_to_load(&content).unwrap();
    assert_eq!(to_load.markets.len(), 2);
    assert_eq!(to_load.markets[0].name, "SRM/USDC");
    assert_eq!(to_load.markets[1].name, "SOL/USDC");
    assert_eq!(to_load.markets[1].address, [0u8; 32]);
    assert_eq!(to_load.error, None);
}

#[test]
fn market_list_stops_at_first_unusable_market() {
    let key = "11111111111111111111111111111111";
    let content = format!(
        r#"[{{"deprecated":false,"name":"SRM/USDC","address":"{key}"}},
            {{"deprecated":"no","name":"X/Y","address":"{key}"}},
            {{"deprecated":false,"name":"SOL/USDC","address":"{key}"}}]"#
    );
    let to_load = mmb::serum_market::markets_to_load(&content).unwrap();
    assert_eq!(to_load.markets.len(), 1);
    assert_eq!(to_load.markets[0].name, "SRM/USDC");
    assert_eq!(to_load.error, Some(SerumError::UnableToGetDeprecatedState));
    let no_name = r#"[{"deprecated":false,"name":7,"address":"x"}]"#;
    assert_eq!(
        mmb::serum_market::markets_to_load(no_name).unwrap().error,
        Some(SerumError::UnableToGetName(FieldError::NotString))
    );
    let missing_name = r#"[{"deprecated":false,"address":"x"}]"#;
    assert_eq!(
        mmb::serum_market::markets_to_load(missing_name).unwrap().error,
        Some(SerumError::UnableToGetName(FieldError::Missing))
    );
    let address_not_text = r#"[{"deprecated":false,"name":"A/B","address":[1]}]"#;
    assert_eq!(
        mmb::serum_market::markets_to_load(address_not_text).unwrap().error,
        Some(SerumError::UnableToGetAddress(FieldError::NotString))
    );
}

#[test]
fn error_messages() {
    assert_eq!(
        SerumError::UnableToDeserializeMarkets.message(),
        "Unable to deserialize response from Serum markets list"
    );
    assert_eq!(SerumError::MarketsNotArray.message(), "Unable to get markets array from Serum");
    assert_eq!(
        SerumError::UnableToGetName(FieldError::Missing).message(),
        "Unable to get name market from Serum: Unable to get name from JSON value"
    );
    assert_eq!(
        SerumError::UnableToGetAddress(FieldError::NotString).message(),
        "Unable to get market address: Unable to get address as string from JSON value"
    );
    assert_eq!(SerumError::InvalidPubkey.message(), "Invalid pubkey constant string specified");
}

#[test]
fn invalid_coin_mint_leaves_price_mint_unread() {
    let market = MarketParameters { coin_mint: [0; 32], pc_mint: [0; 32], coin_lot_size: 1, pc_lot_size: 1 };
    let mut bad_mint = mint_account(6);
    bad_mint[0] = 9;
    assert!(can_compute_symbol("A/B", &market, &bad_mint, &[]));
    assert_eq!(
        symbol_from_market("A/B", &market, &bad_mint, &[]).err(),
        Some(SerumError::InvalidMintData)
    );
    assert!(!can_compute_symbol("A/B", &market, &mint_account(6), &[]));
    assert!(!can_compute_symbol("A/B", &market, &[0u8; 81], &mint_account(6)));
}

#[test]
fn market_list_errors() {
    assert_eq!(
        mmb::serum_market::markets_to_load("not json").err(),
        Some(SerumError::UnableToDeserializeMarkets)
    );
    assert_eq!(
        mmb::serum_market::markets_to_load(r#"{"markets":[]}"#).err(),
        Some(SerumError::MarketsNotArray)
    );
}

#[test]
fn last_recorded_market_wins() {
    let market = MarketParameters { coin_mint: [0; 32], pc_mint: [0; 32], coin_lot_size: 1, pc_lot_size: 1 };
    let first = symbol_from_market("SRM/USDC", &market, &mint_account(6), &mint_account(6)).unwrap();
    let second = symbol_from_market("SOL/USDC", &market, &mint_account(6), &mint_account(6)).unwrap();
    let mut serum = Serum::new();
    serum.register_symbols(&vec![
        ("SRM/USDC".to_string(), first.clone()),
        ("SOL/USDC".to_string(), second),
        ("SRM-USDC-v2".to_string(), first),
    ]);
    assert_eq!(serum.get_specific_currency_pair(&CurrencyPair::from_codes("SRM", "USDC")), "SRM-USDC-v2");
    assert_eq!(serum.get_specific_currency_pair(&CurrencyPair::from_codes("SOL", "USDC")), "SOL/USDC");
    assert!(!serum.has_specific_currency_pair(&CurrencyPair::from_codes("BTC", "USDC")));
    assert!(serum.is_rest_error_code("{}").is_ok());
    assert!(serum.on_connecting().is_ok());
}
