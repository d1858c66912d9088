use std::str::FromStr;

use injective_staker::constants::{FEE_PRECISION, ONE_INJ, SHARE_PRICE_SCALING_FACTOR};
use injective_staker::error::ContractError;
use injective_staker::math::{
    convert_to_assets, convert_to_shares, internal_share_price, u256_from_u128, U256,
};

fn u256_str(s: &str) -> U256 {
    let v = cosmwasm_std::Uint256::from_str(s).unwrap();
    let b = v.to_be_bytes();
    U256 {
        hi: u128::from_be_bytes(b[..16].try_into().unwrap()),
        lo: u128::from_be_bytes(b[16..].try_into().unwrap()),
    }
}

fn u256_mul(a: U256, b: U256) -> U256 {
    let av = cosmwasm_std::Uint256::from_be_bytes(to_bytes(a));
    let bv = cosmwasm_std::Uint256::from_be_bytes(to_bytes(b));
    let p = av.checked_mul(bv).unwrap();
    let bytes = p.to_be_bytes();
    U256 {
        hi: u128::from_be_bytes(bytes[..16].try_into().unwrap()),
        lo: u128::from_be_bytes(bytes[16..].try_into().unwrap()),
    }
}

fn to_bytes(a: U256) -> [u8; 32] {
    let mut b = [0u8; 32];
    b[..16].copy_from_slice(&a.hi.to_be_bytes());
    b[16..].copy_from_slice(&a.lo.to_be_bytes());
    b
}

#[test]
fn test_share_price_with_zero_shares_supply() {
    let price = internal_share_price(0, 0, 0, 0, 0);
    assert_eq!(price.num, u256_from_u128(SHARE_PRICE_SCALING_FACTOR));
    assert_eq!(price.denom, u256_from_u128(1));
}

#[test]
fn test_share_price_with_total_staked_matching_share_supply() {
    let total_staked: u128 = 100 * ONE_INJ;
    let shares_supply: u128 = 100 * ONE_INJ;
    let price = internal_share_price(total_staked, 0, 0, shares_supply, 0);

    let expected_num = u256_mul(
        u256_mul(u256_from_u128(total_staked), u256_from_u128(FEE_PRECISION as u128)),
        u256_from_u128(SHARE_PRICE_SCALING_FACTOR),
    );
    let expected_denom = u256_mul(
        u256_from_u128(shares_supply),
        u256_from_u128(FEE_PRECISION as u128),
    );
    assert_eq!(price.num, expected_num);
    assert_eq!(price.denom, expected_denom);
}

#[test]
fn test_share_price_with_total_staked_and_total_assets() {
    let total_staked: u128 = 226 * ONE_INJ;
    let total_assets: u128 = 20 * ONE_INJ;
    let shares_supply: u128 = 200 * ONE_INJ;
    let price = internal_share_price(total_staked, total_assets, 0, shares_supply, 0);

    let expected_num = u256_mul(
        u256_mul(
            u256_from_u128(total_staked + total_assets),
            u256_from_u128(FEE_PRECISION as u128),
        ),
        u256_from_u128(SHARE_PRICE_SCALING_FACTOR),
    );
    let expected_denom = u256_mul(
        u256_from_u128(shares_supply),
        u256_from_u128(FEE_PRECISION as u128),
    );
    assert_eq!(price.num, expected_num);
    assert_eq!(price.denom, expected_denom);
    // the share price is 1.23
    let ratio = cosmwasm_std::Uint256::from_be_bytes(to_bytes(price.num))
        / cosmwasm_std::Uint256::from_be_bytes(to_bytes(price.denom));
    assert_eq!(ratio, cosmwasm_std::Uint256::new(1_230_000_000_000_000_000u128));
}

#[test]
fn test_share_price_with_fees() {
    let total_staked: u128 = 326 * ONE_INJ;
    let total_assets: u128 = 20 * ONE_INJ;
    let total_rewards: u128 = 100 * ONE_INJ;
    let shares_supply: u128 = 200 * ONE_INJ;
    let fee: u16 = 500; // 5%
    let price = internal_share_price(total_staked, total_assets, total_rewards, shares_supply, fee);

    let expected_fees = 5 * ONE_INJ;
    let expected_num = u256_mul(
        u256_mul(
            u256_from_u128(total_staked + total_assets + total_rewards - expected_fees),
            u256_from_u128(FEE_PRECISION as u128),
        ),
        u256_from_u128(SHARE_PRICE_SCALING_FACTOR),
    );
    assert_eq!(price.num, expected_num);

    let expected_denom = u256_mul(
        u256_from_u128(shares_supply),
        u256_from_u128(FEE_PRECISION as u128),
    );
    assert_eq!(price.denom, expected_denom);

    // the share price is 2.205
    let ratio = cosmwasm_std::Uint256::from_be_bytes(to_bytes(price.num))
        / cosmwasm_std::Uint256::from_be_bytes(to_bytes(price.denom));
    assert_eq!(ratio, cosmwasm_std::Uint256::new(2_205_000_000_000_000_000u128));
}

#[test]
fn test_convert_to_shares() {
    let result = convert_to_shares(ONE_INJ, &u256_from_u128(ONE_INJ), &u256_from_u128(1)).unwrap();
    assert_eq!(result, ONE_INJ);
}

#[test]
fn test_convert_to_shares_higher_share_price() {
    // 2.0 share price
    let share_price_num = u256_str("200000000000000000000000000000000000000000");
    let share_price_denom = u256_from_u128(100000000000000000000000u128);
    let result = convert_to_shares(ONE_INJ, &share_price_num, &share_price_denom).unwrap();
    assert_eq!(result, 500000000000000000); // 0.5 shares
}

#[test]
fn test_convert_to_shares_large_amount() {
    let inj_amount: u128 = 100000000000000000000000000; // 100,000,000 whole units
    let share_price_num =
        u256_str("20000000000000000000000000000000000000000000000000000");
    let share_price_denom = u256_from_u128(10000000000000000000000000000000000u128);
    // the full product overflows 256 bits but the wide intermediate step
    // keeps the division exact
    let result = convert_to_shares(inj_amount, &share_price_num, &share_price_denom).unwrap();
    assert_eq!(result, 50000000000000000000000000); // 50,000,000 shares
}

#[test]
fn test_convert_to_shares_zero_amount() {
    let result = convert_to_shares(0, &u256_from_u128(ONE_INJ), &u256_from_u128(ONE_INJ)).unwrap();
    assert_eq!(result, 0);
}

#[test]
fn test_convert_to_shares_overflow() {
    let share_price_num = u256_str("20000000000");
    let share_price_denom = u256_str("200000000000000000000000000000000000000000000000000");
    let err = convert_to_shares(ONE_INJ, &share_price_num, &share_price_denom).unwrap_err();
    assert_eq!(err, ContractError::Overflow);
}

#[test]
fn test_convert_to_shares_zero_share_price_num() {
    let err = convert_to_shares(ONE_INJ, &u256_from_u128(0), &u256_from_u128(ONE_INJ)).unwrap_err();
    assert_eq!(err, ContractError::ZeroDiv);
}

#[test]
fn test_convert_to_assets_with_initial_share_price() {
    let share_price_num = u256_from_u128(SHARE_PRICE_SCALING_FACTOR);
    let share_price_denom = u256_from_u128(1);
    let result = convert_to_assets(123, &share_price_num, &share_price_denom, false).unwrap();
    assert_eq!(result, 123);
}

#[test]
fn test_convert_to_assets_with_round_share_price() {
    let share_price_num = u256_mul(
        u256_from_u128(1024),
        u256_from_u128(SHARE_PRICE_SCALING_FACTOR),
    );
    let share_price_denom = u256_from_u128(512);
    let result = convert_to_assets(124, &share_price_num, &share_price_denom, false).unwrap();
    assert_eq!(result, 248);

    let result = convert_to_assets(124, &share_price_num, &share_price_denom, true).unwrap();
    assert_eq!(result, 248);
}

#[test]
fn test_convert_to_assets_with_odd_share_price() {
    // 200 * scaling + 1
    let base = u256_mul(
        u256_from_u128(200),
        u256_from_u128(SHARE_PRICE_SCALING_FACTOR),
    );
    let share_price_num = U256 { hi: base.hi, lo: base.lo + 1 };
    let share_price_denom = u256_from_u128(100);
    let result = convert_to_assets(124, &share_price_num, &share_price_denom, false).unwrap();
    assert_eq!(result, 248);

    let result = convert_to_assets(124, &share_price_num, &share_price_denom, true).unwrap();
    assert_eq!(result, 249);
}

#[test]
fn test_convert_to_assets_large_numbers() {
    // 100,000,000 shares
    let shares = 100_000_000 * ONE_INJ;

    // share price of 2.0 with very large numerator and denominator
    let share_price_num = u256_mul(
        u256_from_u128(20_000_000_000_000_000 * ONE_INJ),
        u256_from_u128(SHARE_PRICE_SCALING_FACTOR),
    );
    let share_price_denom = u256_from_u128(10_000_000_000_000_000 * ONE_INJ);
    let assets = convert_to_assets(shares, &share_price_num, &share_price_denom, false).unwrap();
    assert_eq!(assets, 2 * shares);
}

#[test]
fn round_trip_at_price_one_returns_amount() {
    // price exactly 1.0: converting to shares and back is the identity
    let num = u256_mul(
        u256_from_u128(77),
        u256_from_u128(SHARE_PRICE_SCALING_FACTOR),
    );
    let denom = u256_from_u128(77);
    let x: u128 = 123456789123456789;
    let shares = convert_to_shares(x, &num, &denom).unwrap();
    assert_eq!(shares, x);
    let assets = convert_to_assets(shares, &num, &denom, false).unwrap();
    assert_eq!(assets, x);
}

#[test]
fn rounding_up_never_below_rounding_down() {
    let num = u256_str("3000000000000000001");
    let denom = u256_from_u128(3);
    for shares in [0u128, 1, 2, 3, 1000, 999999999] {
        let down = convert_to_assets(shares, &num, &denom, false).unwrap();
        let up = convert_to_assets(shares, &num, &denom, true).unwrap();
        assert!(up >= down);
        assert!(up - down <= 1);
    }
    // exact division: both roundings agree
    let exact_num = u256_mul(u256_from_u128(2), u256_from_u128(SHARE_PRICE_SCALING_FACTOR));
    let exact_denom = u256_from_u128(1);
    let down = convert_to_assets(21, &exact_num, &exact_denom, false).unwrap();
    let up = convert_to_assets(21, &exact_num, &exact_denom, true).unwrap();
    assert_eq!(down, 42);
    assert_eq!(up, 42);
}
