//! Fixed-point share-price arithmetic.
//!
//! The exchange rate between the base asset and receipt shares is a rational
//! number kept as a 256-bit numerator and denominator. Conversions multiply
//! before dividing, in 512-bit intermediates, so no precision is lost; the
//! wide steps are carried out by `cosmwasm_std`'s unsigned integers behind
//! trusted wrappers whose contracts state the exact integer arithmetic.

use vstd::prelude::*;

use crate::constants::{FEE_PRECISION, SHARE_PRICE_SCALING_FACTOR};
use crate::error::ContractError;
use cosmwasm_std::{Uint128, Uint256, Uint512};

verus! {

/// An unsigned 256-bit value, kept as two 128-bit limbs.
/// Its mathematical value is `hi * 2^128 + lo`.
#[derive(Clone, Copy, Debug, PartialEq, Eq, Structural)]
pub struct U256 {
    pub hi: u128,
    pub lo: u128,
}

pub open spec fn pow2_128() -> int {
    0x100000000000000000000000000000000int
}

pub open spec fn pow2_256() -> int {
    0x10000000000000000000000000000000000000000000000000000000000000000int
}

impl U256 {
    /// The integer this pair of limbs stands for.
    pub open spec fn val(self) -> int {
        self.hi as int * pow2_128() + self.lo as int
    }
}

/// Embeds a 128-bit value.
pub fn u256_from_u128(x: u128) -> (r: U256)
    ensures
        r.val() == x as int,
{
    U256 { hi: 0, lo: x }
}

/// Whether `a` stands for at least the value of `b`.
pub fn u256_ge(a: &U256, b: &U256) -> (r: bool)
    ensures
        r == (a.val() >= b.val()),
{
    if a.hi != b.hi {
        a.hi > b.hi
    } else {
        a.lo >= b.lo
    }
}

/// 256-bit addition with carry between the limbs.
pub fn u256_checked_add(a: &U256, b: &U256) -> (r: Option<U256>)
    ensures
        match r {
            Some(s) => s.val() == a.val() + b.val(),
            None => a.val() + b.val() >= pow2_256(),
        },
{
    let (lo, carry): (u128, u128) = if a.lo <= u128::MAX - b.lo {
        (a.lo + b.lo, 0)
    } else {
        (a.lo - (u128::MAX - b.lo) - 1, 1)
    };
    let hi_partial: Option<u128> = a.hi.checked_add(b.hi);
    match hi_partial {
        Some(h) => {
            match h.checked_add(carry) {
                Some(hi) => Some(U256 { hi, lo }),
                None => None,
            }
        },
        None => None,
    }
}

// The declarations below let the wide cosmwasm integers appear in the
// signatures of the conversion helpers; Verus treats their values as opaque.

#[verifier::external_type_specification]
#[verifier::external_body]
pub struct ExUint128(cosmwasm_std::Uint128);

#[verifier::external_type_specification]
#[verifier::external_body]
pub struct ExUint256(cosmwasm_std::Uint256);

#[verifier::external_type_specification]
#[verifier::external_body]
pub struct ExUint512(cosmwasm_std::Uint512);

/// Relies on cosmwasm_std::Uint256::from_be_bytes: joins the two limbs.
/// Only the trusted arithmetic wrappers below consume the result.
#[verifier::external_body]
fn cw256(a: &U256) -> cosmwasm_std::Uint256 {
    let mut b = [0u8; 32];
    b[..16].copy_from_slice(&a.hi.to_be_bytes());
    b[16..].copy_from_slice(&a.lo.to_be_bytes());
    Uint256::from_be_bytes(b)
}

/// Relies on cosmwasm_std::Uint512::from_be_bytes: joins the two limbs.
/// Only the trusted arithmetic wrappers below consume the result.
#[verifier::external_body]
fn cw512(a: &U256) -> cosmwasm_std::Uint512 {
    let mut b = [0u8; 64];
    b[32..48].copy_from_slice(&a.hi.to_be_bytes());
    b[48..].copy_from_slice(&a.lo.to_be_bytes());
    Uint512::from_be_bytes(b)
}

/// Relies on cosmwasm_std::Uint256::to_be_bytes: splits back into limbs.
/// Only the trusted arithmetic wrappers below produce the argument.
#[verifier::external_body]
fn from_cw256(v: cosmwasm_std::Uint256) -> U256 {
    let b = v.to_be_bytes();
    U256 {
        hi: u128::from_be_bytes(b[..16].try_into().unwrap()),
        lo: u128::from_be_bytes(b[16..].try_into().unwrap()),
    }
}

/// Relies on cosmwasm_std::Uint256::checked_mul: the full 256-bit product,
/// or None when it does not fit in 256 bits.
#[verifier::external_body]
pub fn u256_checked_mul(a: &U256, b: &U256) -> (r: Option<U256>)
    ensures
        match r {
            Some(p) => p.val() == a.val() * b.val(),
            None => a.val() * b.val() >= pow2_256(),
        },
{
    match cw256(a).checked_mul(cw256(b)) {
        Ok(p) => Some(from_cw256(p)),
        Err(_) => None,
    }
}

/// Relies on cosmwasm_std::Uint256's integer division: the quotient rounded
/// towards zero. Division by zero panics there, so it is excluded here.
#[verifier::external_body]
pub fn u256_div(a: &U256, b: &U256) -> (r: U256)
    requires
        b.val() != 0,
    ensures
        r.val() == a.val() / b.val(),
{
    from_cw256(cw256(a) / cw256(b))
}

/// Relies on cosmwasm_std::Uint512 multiplication, checked_div and the
/// conversion back to Uint256: computes `x * y * z / w` exactly (the product
/// of a 256-bit and two 128-bit factors always fits in 512 bits).
#[verifier::external_body]
pub fn wide_mul_div(x: &U256, y: u128, z: u128, w: &U256) -> (r: Result<
    U256,
    ContractError,
>)
    ensures
        match r {
            Ok(q) => w.val() != 0 && q.val() == x.val() * y as int * z as int / w.val(),
            Err(ContractError::ZeroDiv) => w.val() == 0,
            Err(ContractError::Overflow) => w.val() != 0 && x.val() * y as int * z as int / w.val()
                >= pow2_256(),
            Err(_) => false,
        },
{
    let prod = cw512(x) * Uint512::new(y) * Uint512::new(z);
    let q = match prod.checked_div(cw512(w)) {
        Ok(q) => q,
        Err(_) => return Err(ContractError::ZeroDiv),
    };
    match Uint256::try_from(q) {
        Ok(v) => Ok(from_cw256(v)),
        Err(_) => Err(ContractError::Overflow),
    }
}

/// Relies on cosmwasm_std::Uint512 multiplication, division and remainder,
/// and the conversion to Uint128: computes the quotient `x * y / (z * s)`
/// together with whether the division left a remainder.
#[verifier::external_body]
pub fn wide_mul_divrem(x: u128, y: &U256, z: &U256, s: u128) -> (r: Result<
    (u128, bool),
    ContractError,
>)
    requires
        z.val() != 0,
        s != 0,
    ensures
        match r {
            Ok((q, rem_nonzero)) => q as int == x as int * y.val() / (z.val() * s as int)
                && rem_nonzero == (x as int * y.val() % (z.val() * s as int) != 0),
            Err(ContractError::Overflow) => x as int * y.val() / (z.val() * s as int)
                > u128::MAX as int,
            Err(_) => false,
        },
{
    let div = cw512(z) * Uint512::new(s);
    let prod = Uint512::new(x) * cw512(y);
    let q = prod / div;
    let rem = prod % div;
    match Uint128::try_from(q) {
        Ok(v) => Ok((v.u128(), !rem.is_zero())),
        Err(_) => Err(ContractError::Overflow),
    }
}

/// Relies on cosmwasm_std::Uint512 multiplication, division and subtraction,
/// and the conversion to Uint128: computes
/// `a*d1*s/n1 - a*d2*s/n2`, each quotient rounded down. Subtraction there
/// panics on underflow and division panics on a zero divisor, so both are
/// excluded here.
#[verifier::external_body]
pub fn wide_ratio_diff(a: u128, d1: &U256, n1: &U256, d2: &U256, n2: &U256, s: u128) -> (r: Result<
    u128,
    ContractError,
>)
    requires
        n1.val() != 0,
        n2.val() != 0,
        a as int * d1.val() * s as int / n1.val() >= a as int * d2.val() * s as int / n2.val(),
    ensures
        match r {
            Ok(v) => v as int == a as int * d1.val() * s as int / n1.val() - a as int * d2.val()
                * s as int / n2.val(),
            Err(ContractError::Overflow) => a as int * d1.val() * s as int / n1.val() - a as int
                * d2.val() * s as int / n2.val() > u128::MAX as int,
            Err(_) => false,
        },
{
    let lhs = Uint512::new(a) * cw512(d1) * Uint512::new(s) / cw512(n1);
    let rhs = Uint512::new(a) * cw512(d2) * Uint512::new(s) / cw512(n2);
    match Uint128::try_from(lhs - rhs) {
        Ok(v) => Ok(v.u128()),
        Err(_) => Err(ContractError::Overflow),
    }
}

/// The share price: how much of the base asset one receipt share is worth,
/// as the exact rational `num / (denom * SHARE_PRICE_SCALING_FACTOR)`.
#[derive(Clone, Copy, Debug, PartialEq, Eq, Structural)]
pub struct SharePrice {
    pub num: U256,
    pub denom: U256,
}

/// Numerator of the share price computed from the pool totals. The
/// compounding fee is discounted from the rewards portion, so holders never
/// pay it twice when it is later minted to the treasury.
pub open spec fn spec_share_price_num(
    total_staked: int,
    total_assets: int,
    total_rewards: int,
    shares_supply: int,
    fee: int,
) -> int {
    if shares_supply == 0 {
        SHARE_PRICE_SCALING_FACTOR as int
    } else {
        ((total_staked + total_assets) * (FEE_PRECISION as int) + total_rewards * (
        FEE_PRECISION as int - fee)) * (SHARE_PRICE_SCALING_FACTOR as int)
    }
}

/// Denominator of the share price computed from the pool totals.
pub open spec fn spec_share_price_denom(shares_supply: int) -> int {
    if shares_supply == 0 {
        1
    } else {
        shares_supply * (FEE_PRECISION as int)
    }
}

/// Shares equivalent to `amount` of the base asset at the given price,
/// rounded down.
pub open spec fn spec_shares_for_assets(amount: int, num: int, denom: int) -> int {
    denom * amount * (SHARE_PRICE_SCALING_FACTOR as int) / num
}

/// Base-asset amount equivalent to `shares` at the given price, rounded down.
pub open spec fn spec_assets_for_shares_down(shares: int, num: int, denom: int) -> int {
    shares * num / (denom * (SHARE_PRICE_SCALING_FACTOR as int))
}

/// Remainder left by the division in `spec_assets_for_shares_down`.
pub open spec fn spec_assets_rem(shares: int, num: int, denom: int) -> int {
    shares * num % (denom * (SHARE_PRICE_SCALING_FACTOR as int))
}

/// Base-asset amount equivalent to `shares`, rounded up exactly when asked
/// for and the division is not exact.
pub open spec fn spec_assets_for_shares(shares: int, num: int, denom: int, round_up: bool) -> int {
    if round_up && spec_assets_rem(shares, num, denom) != 0 {
        spec_assets_for_shares_down(shares, num, denom) + 1
    } else {
        spec_assets_for_shares_down(shares, num, denom)
    }
}

/// Calculates the share price from the pool totals.
///
/// While any share is in circulation the price is
/// `(total_staked + total_assets) + total_rewards * (1 - fee)` per
/// `shares_supply`, carried exactly as a scaled rational; with no shares the
/// price is one, whatever the other totals are.
pub fn internal_share_price(
    total_staked: u128,
    total_assets: u128,
    total_rewards: u128,
    shares_supply: u128,
    fee: u16,
) -> (r: SharePrice)
    requires
        shares_supply != 0 ==> fee <= FEE_PRECISION,
        shares_supply != 0 ==> total_staked + total_assets <= u128::MAX,
    ensures
        r.num.val() == spec_share_price_num(
            total_staked as int,
            total_assets as int,
            total_rewards as int,
            shares_supply as int,
            fee as int,
        ),
        r.denom.val() == spec_share_price_denom(shares_supply as int),
        r.denom.val() > 0,
{
    if shares_supply == 0 {
        return SharePrice {
            num: u256_from_u128(SHARE_PRICE_SCALING_FACTOR),
            denom: u256_from_u128(1),
        };
    }
    let capital_base = total_staked + total_assets;
    let precision = u256_from_u128(FEE_PRECISION as u128);
    let lhs = u256_checked_mul(&u256_from_u128(capital_base), &precision);
    proof {
        assert(capital_base as int * (FEE_PRECISION as int) < pow2_256()) by (nonlinear_arith)
            requires
                capital_base as int <= u128::MAX as int,
        ;
    }
    let lhs = lhs.unwrap();
    let net_precision = u256_from_u128((FEE_PRECISION - fee) as u128);
    let rhs = u256_checked_mul(&u256_from_u128(total_rewards), &net_precision);
    proof {
        assert(total_rewards as int * ((FEE_PRECISION - fee) as int) < pow2_128() * (
        FEE_PRECISION as int)) by (nonlinear_arith)
            requires
                (total_rewards as int) < pow2_128(),
                0 <= (FEE_PRECISION - fee) as int <= FEE_PRECISION as int,
        ;
    }
    let rhs = rhs.unwrap();
    let total_capital = u256_checked_add(&lhs, &rhs).unwrap();
    let scaling = u256_from_u128(SHARE_PRICE_SCALING_FACTOR);
    let price_num = u256_checked_mul(&total_capital, &scaling);
    proof {
        assert(total_capital.val() * (SHARE_PRICE_SCALING_FACTOR as int) < pow2_256())
            by (nonlinear_arith)
            requires
                0 <= total_capital.val() <= pow2_128() * (2 * FEE_PRECISION as int),
        ;
    }
    let price_num = price_num.unwrap();
    let price_denom = u256_checked_mul(&u256_from_u128(shares_supply), &precision);
    proof {
        assert(shares_supply as int * (FEE_PRECISION as int) < pow2_256()) by (nonlinear_arith)
            requires
                shares_supply as int <= u128::MAX as int,
        ;
    }
    let price_denom = price_denom.unwrap();
    SharePrice { num: price_num, denom: price_denom }
}

/// Converts an amount of the base asset to the equivalent receipt-share
/// amount at the given price, rounding down.
pub fn convert_to_shares(
    inj_amount: u128,
    share_price_num: &U256,
    share_price_denom: &U256,
) -> (r: Result<u128, ContractError>)
    ensures
        match r {
            Ok(v) => share_price_num.val() != 0 && v as int == spec_shares_for_assets(
                inj_amount as int,
                share_price_num.val(),
                share_price_denom.val(),
            ),
            Err(ContractError::ZeroDiv) => share_price_num.val() == 0,
            Err(ContractError::Overflow) => share_price_num.val() != 0 && spec_shares_for_assets(
                inj_amount as int,
                share_price_num.val(),
                share_price_denom.val(),
            ) > u128::MAX as int,
            Err(_) => false,
        },
{
    match wide_mul_div(
        share_price_denom,
        inj_amount,
        SHARE_PRICE_SCALING_FACTOR,
        share_price_num,
    ) {
        Ok(q) => {
            if q.hi == 0 {
                Ok(q.lo)
            } else {
                Err(ContractError::Overflow)
            }
        },
        Err(e) => Err(e),
    }
}

/// Converts an amount of receipt shares to the equivalent base-asset amount
/// at the given price, with the requested rounding. Rounding up is used only
/// where rounding down could under-deliver to the user.
pub fn convert_to_assets(
    shares: u128,
    share_price_num: &U256,
    share_price_denom: &U256,
    rounding_up: bool,
) -> (r: Result<u128, ContractError>)
    requires
        share_price_denom.val() > 0,
    ensures
        match r {
            Ok(v) => v as int == spec_assets_for_shares(
                shares as int,
                share_price_num.val(),
                share_price_denom.val(),
                rounding_up,
            ),
            Err(ContractError::Overflow) => spec_assets_for_shares(
                shares as int,
                share_price_num.val(),
                share_price_denom.val(),
                rounding_up,
            ) > u128::MAX as int,
            Err(_) => false,
        },
{
    match wide_mul_divrem(shares, share_price_num, share_price_denom, SHARE_PRICE_SCALING_FACTOR) {
        Ok((q, rem_nonzero)) => {
            if rounding_up && rem_nonzero {
                match q.checked_add(1) {
                    Some(v) => Ok(v),
                    None => Err(ContractError::Overflow),
                }
            } else {
                Ok(q)
            }
        },
        Err(e) => Err(e),
    }
}

/// The canonical limb pair of a 256-bit integer.
pub open spec fn u256_of(v: int) -> U256 {
    U256 { hi: (v / pow2_128()) as u128, lo: (v % pow2_128()) as u128 }
}

/// Limb pairs are unique: any pair standing for a value is the canonical one.
pub proof fn lemma_u256_canonical(x: U256, v: int)
    requires
        x.val() == v,
    ensures
        x == u256_of(v),
{
    vstd::arithmetic::div_mod::lemma_fundamental_div_mod_converse(
        v,
        pow2_128(),
        x.hi as int,
        x.lo as int,
    );
}

/// Round trip without rewards or fee: at a share price of exactly one,
/// converting an amount to shares after converting it to assets (or the
/// other way round) returns the amount unchanged.
pub proof fn lemma_round_trip_at_price_one(x: int, num: int, denom: int)
    requires
        x >= 0,
        denom > 0,
        num == denom * (SHARE_PRICE_SCALING_FACTOR as int),
    ensures
        spec_shares_for_assets(
            spec_assets_for_shares(x, num, denom, false),
            num,
            denom,
        ) == x,
        spec_assets_for_shares(spec_shares_for_assets(x, num, denom), num, denom, false) == x,
{
    let s = SHARE_PRICE_SCALING_FACTOR as int;
    assert(num > 0) by (nonlinear_arith)
        requires
            denom > 0,
            num == denom * s,
            s > 0,
    ;
    assert(x * num / (denom * s) == x) by (nonlinear_arith)
        requires
            num > 0,
            x >= 0,
            num == denom * s,
    {
        vstd::arithmetic::div_mod::lemma_div_multiples_vanish(x, num);
    }
    assert(x * num % (denom * s) == 0) by (nonlinear_arith)
        requires
            num > 0,
            x >= 0,
            num == denom * s,
    {
        vstd::arithmetic::div_mod::lemma_mod_multiples_basic(x, num);
    }
    assert(denom * x * s == x * num) by (nonlinear_arith)
        requires
            num == denom * s,
    ;
    assert(x * num / num == x) by {
        vstd::arithmetic::div_mod::lemma_div_multiples_vanish(x, num);
    }
}

/// Rounding direction: rounding up never yields less than rounding down,
/// and the two agree exactly when the division leaves no remainder.
pub proof fn lemma_rounding_direction(shares: int, num: int, denom: int)
    ensures
        spec_assets_for_shares(shares, num, denom, true) >= spec_assets_for_shares(
            shares,
            num,
            denom,
            false,
        ),
        (spec_assets_for_shares(shares, num, denom, true) == spec_assets_for_shares(
            shares,
            num,
            denom,
            false,
        )) <==> spec_assets_rem(shares, num, denom) == 0,
{
}

} // verus!
