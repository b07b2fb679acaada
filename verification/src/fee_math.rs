//! Basis-point fee arithmetic: conversions, rounding divisions, fee validation,
//! the three-way fee split and time-based fee decay.
use vstd::prelude::*;
use crate::text::{decimal, push_decimal, push_decimal_u128};

verus! {

/// One hundred percent, in basis points.
pub const MAX_FEE_BPS: u32 = 10_000;

/// Decay of a fee per elapsed second.
pub const DECAY_RATE: i128 = 1;

/// Floor below which a decayed fee never falls.
pub const MIN_FEE: i128 = 10;

/// Ceiling of a decayed fee.
pub const MAX_FEE: i128 = 100;

/// Division that rounds toward zero, as Rust's `/` and `checked_div` do on signed integers.
pub open spec fn trunc_div(x: int, d: int) -> int {
    if x == 0 {
        0
    } else if x > 0 && d > 0 {
        x / d
    } else if x < 0 && d < 0 {
        (-x) / (-d)
    } else if x < 0 {
        -((-x) / d)
    } else {
        -(x / (-d))
    }
}

/// Whether `v` fits in an `i128`.
pub open spec fn fits_i128(v: int) -> bool {
    i128::MIN <= v <= i128::MAX
}

/// Errors of the fee configuration and escrow helpers.
#[derive(Copy, Clone, Debug, PartialEq, Eq, Structural)]
pub enum FeeContractError {
    NotInitialized,
    AlreadyInitialized,
    Unauthorized,
    InvalidAmount,
    InvalidConfig,
    Overflow,
    NoPendingFees,
    InsufficientEscrow,
}

/// Error returned when an amount is negative.
#[derive(Copy, Clone, Debug, PartialEq, Eq, Structural)]
pub enum NegativeAmountError {
    NegativeAmount,
}

/// Error returned when a subtraction would go below zero.
#[derive(Copy, Clone, Debug, PartialEq, Eq, Structural)]
pub enum SafeSubError {
    Underflow,
}

/// Converts basis points to the percentage scale used for display (1 bps = 0.01%).
pub fn bps_to_percentage(bps: u32) -> (r: u32)
    ensures
        r == bps,
{
    bps
}

/// Fee on `amount` at `fee_bps` basis points, rounded toward zero.
pub fn apply_bps_fee(amount: i128, fee_bps: u32) -> (r: i128)
    requires
        fits_i128(amount * fee_bps),
    ensures
        r == trunc_div(amount * fee_bps, 10_000),
{
    (amount * fee_bps as i128) / 10_000
}

/// Renders `prefix: <fee_bps> bps`.
pub fn format_fee_label(prefix: &str, fee_bps: u32) -> (r: String)
    ensures
        r@ == prefix@ + ": "@ + decimal(fee_bps as nat) + " bps"@,
{
    let mut out = String::from_str(prefix);
    out.append(": ");
    push_decimal(&mut out, fee_bps as u64);
    out.append(" bps");
    out
}

/// Renders basis points as a percentage with two decimals, e.g. 150 -> "1.50%".
pub fn fee_bps_to_display(bps: u32) -> (r: String)
    ensures
        r@ == decimal((bps / 100) as nat) + "."@ + (if bps % 100 < 10 { "0"@ } else { Seq::<char>::empty() })
            + decimal((bps % 100) as nat) + "%"@,
{
    let whole = bps / 100;
    let frac = bps % 100;
    let mut out = String::new();
    push_decimal(&mut out, whole as u64);
    out.append(".");
    if frac < 10 {
        out.append("0");
    }
    push_decimal(&mut out, frac as u64);
    out.append("%");
    out
}

/// Fee percentage on the basis-point scale (the rate itself).
pub fn get_fee_percentage(bps: u32) -> (r: u32)
    ensures
        r == bps,
{
    bps
}

/// Fails when `amount` is negative.
pub fn check_not_negative(amount: i128) -> (r: Result<(), NegativeAmountError>)
    ensures
        r is Ok <==> amount >= 0,
        r is Err ==> r == Err::<(), NegativeAmountError>(NegativeAmountError::NegativeAmount),
{
    if amount < 0 {
        return Err(NegativeAmountError::NegativeAmount);
    }
    Ok(())
}

/// `a - b`, refused when `b` exceeds `a`.
pub fn safe_sub(a: i128, b: i128) -> (r: Result<i128, SafeSubError>)
    requires
        b <= a ==> a - b <= i128::MAX,
    ensures
        b > a ==> r == Err::<i128, SafeSubError>(SafeSubError::Underflow),
        b <= a ==> r == Ok::<i128, SafeSubError>((a - b) as i128),
{
    if b > a {
        return Err(SafeSubError::Underflow);
    }
    Ok(a - b)
}

/// `n / d` rounded down, toward negative infinity (for a non-zero `d`).
pub open spec fn floor_div(n: int, d: int) -> int {
    if d > 0 { n / d } else { (-n) / (-d) }
}

/// `n / d` rounded up, toward positive infinity (for a non-zero `d`).
pub open spec fn ceil_div(n: int, d: int) -> int {
    -floor_div(-n, d)
}

/// Remainder of the division that rounds toward zero, as Rust's `%` and `checked_rem` give it.
pub open spec fn trunc_rem(x: int, d: int) -> int {
    if x == 0 {
        0
    } else if x > 0 && d > 0 {
        x % d
    } else if x < 0 && d < 0 {
        -((-x) % (-d))
    } else if x < 0 {
        -((-x) % d)
    } else {
        x % (-d)
    }
}

/// Dividing the negation of `a` by `b`, rounding down: minus `a / b`, one lower when `b` does
/// not divide `a`.
proof fn lemma_neg_floor(a: int, b: int)
    requires
        a >= 0,
        b > 0,
    ensures
        (-a) / b == (if a % b == 0 { -(a / b) } else { -(a / b) - 1 }),
{
    vstd::arithmetic::div_mod::lemma_fundamental_div_mod(a, b);
    vstd::arithmetic::div_mod::lemma_mod_bound(a, b);
    let q = a / b;
    let r = a % b;
    if r == 0 {
        assert(-a == (-q) * b + 0) by (nonlinear_arith) requires a == b * q + r, r == 0;
        vstd::arithmetic::div_mod::lemma_fundamental_div_mod_converse(-a, b, -q, 0);
    } else {
        assert(-a == (-q - 1) * b + (b - r)) by (nonlinear_arith) requires a == b * q + r;
        vstd::arithmetic::div_mod::lemma_fundamental_div_mod_converse(-a, b, -q - 1, b - r);
    }
}

/// For a positive divisor, the floor and the ceiling bracket the exact quotient.
pub proof fn lemma_floor_ceil_bounds(n: int, d: int)
    requires
        d > 0,
    ensures
        floor_div(n, d) * d <= n < (floor_div(n, d) + 1) * d,
        (ceil_div(n, d) - 1) * d < n <= ceil_div(n, d) * d,
{
    vstd::arithmetic::div_mod::lemma_fundamental_div_mod(n, d);
    vstd::arithmetic::div_mod::lemma_mod_bound(n, d);
    vstd::arithmetic::div_mod::lemma_fundamental_div_mod(-n, d);
    vstd::arithmetic::div_mod::lemma_mod_bound(-n, d);
    let f = n / d;
    let g = (-n) / d;
    assert(f * d <= n < (f + 1) * d) by (nonlinear_arith)
        requires n == d * f + n % d, 0 <= n % d < d;
    assert((-g - 1) * d < n <= (-g) * d) by (nonlinear_arith)
        requires -n == d * g + (-n) % d, 0 <= (-n) % d < d;
}

/// How the floor and the ceiling follow from the quotient and remainder rounded toward zero,
/// and that the adjusted quotient stays within `i128` exactly when the one rounded toward zero
/// does.
proof fn lemma_floor_ceil_from_trunc(n: int, d: int)
    requires
        d != 0,
        fits_i128(n),
        fits_i128(d),
    ensures
        floor_div(n, d) == (if trunc_rem(n, d) != 0 && ((trunc_rem(n, d) < 0) != (d < 0)) {
            trunc_div(n, d) - 1
        } else {
            trunc_div(n, d)
        }),
        ceil_div(n, d) == (if trunc_rem(n, d) != 0 && ((trunc_rem(n, d) < 0) == (d < 0)) {
            trunc_div(n, d) + 1
        } else {
            trunc_div(n, d)
        }),
        trunc_rem(n, d) != 0 ==> i128::MIN < trunc_div(n, d) < i128::MAX,
        fits_i128(floor_div(n, d)) <==> fits_i128(trunc_div(n, d)),
        fits_i128(ceil_div(n, d)) <==> fits_i128(trunc_div(n, d)),
{
    let a: int = if n >= 0 { n } else { -n };
    let b: int = if d > 0 { d } else { -d };
    vstd::arithmetic::div_mod::lemma_fundamental_div_mod(a, b);
    vstd::arithmetic::div_mod::lemma_mod_bound(a, b);
    let qa = a / b;
    let ra = a % b;
    assert(qa >= 0) by (nonlinear_arith) requires a == b * qa + ra, a >= 0, b > 0, ra < b;
    assert(qa <= a) by (nonlinear_arith) requires a == b * qa + ra, qa >= 0, b >= 1, ra >= 0;
    if ra != 0 {
        assert(2 * qa <= a) by (nonlinear_arith) requires a == b * qa + ra, qa >= 0, b >= 2, ra >= 0;
    }
    lemma_neg_floor(a, b);
    if n == 0 {
        vstd::arithmetic::div_mod::lemma_fundamental_div_mod_converse(0, b, 0, 0);
        assert(qa == 0 && ra == 0);
    } else if n > 0 && d > 0 {
        assert(floor_div(n, d) == qa);
        assert(floor_div(-n, d) == (-a) / b);
    } else if n < 0 && d < 0 {
        assert(floor_div(n, d) == qa);
        assert(floor_div(-n, d) == (-a) / b);
    } else if n < 0 {
        assert(floor_div(n, d) == (-a) / b);
        assert(floor_div(-n, d) == qa);
    } else {
        assert(floor_div(n, d) == (-a) / b);
        assert(floor_div(-n, d) == qa);
    }
}

/// `numerator / denominator` rounded up, toward positive infinity; `None` for a zero divisor,
/// when `numerator + (denominator - 1)` leaves `i128`, or for a quotient outside `i128`.
pub fn round_up_div(numerator: i128, denominator: i128) -> (r: Option<i128>)
    ensures
        denominator == 0 ==> r is None,
        denominator != 0 ==> r == (if fits_i128(numerator + denominator - 1)
            && fits_i128(ceil_div(numerator as int, denominator as int)) {
            Some(ceil_div(numerator as int, denominator as int) as i128)
        } else {
            None
        }),
        denominator > 0 ==> (r matches Some(q) ==> (q - 1) * denominator < numerator <= q * denominator),
{
    if denominator == 0 {
        return None;
    }
    let sum_fits = if denominator > 0 {
        numerator <= i128::MAX - (denominator - 1)
    } else {
        match numerator.checked_sub(1) {
            Some(m) => m.checked_add(denominator).is_some(),
            None => false,
        }
    };
    if !sum_fits {
        return None;
    }
    proof {
        lemma_floor_ceil_from_trunc(numerator as int, denominator as int);
        if denominator > 0 {
            lemma_floor_ceil_bounds(numerator as int, denominator as int);
        }
    }
    let q = match numerator.checked_div(denominator) {
        Some(q) => q,
        None => { return None; },
    };
    let rem = match numerator.checked_rem(denominator) {
        Some(v) => v,
        None => {
            assert(numerator == i128::MIN && denominator == -1);
            proof { vstd::arithmetic::div_mod::lemma_div_basics(-(numerator as int)); }
            assert(!fits_i128(trunc_div(numerator as int, denominator as int)));
            return None;
        },
    };
    if rem != 0 && ((rem < 0) == (denominator < 0)) {
        Some(q + 1)
    } else {
        Some(q)
    }
}

/// `numerator / denominator` rounded down, toward negative infinity; `None` for a zero divisor
/// or a quotient outside `i128`.
pub fn round_down_div(numerator: i128, denominator: i128) -> (r: Option<i128>)
    ensures
        denominator == 0 ==> r is None,
        denominator != 0 ==> r == (if fits_i128(floor_div(numerator as int, denominator as int)) {
            Some(floor_div(numerator as int, denominator as int) as i128)
        } else {
            None
        }),
        denominator > 0 ==> (r matches Some(q) ==> q * denominator <= numerator < (q + 1) * denominator),
{
    if denominator == 0 {
        return None;
    }
    proof {
        lemma_floor_ceil_from_trunc(numerator as int, denominator as int);
        if denominator > 0 {
            lemma_floor_ceil_bounds(numerator as int, denominator as int);
        }
    }
    let q = match numerator.checked_div(denominator) {
        Some(q) => q,
        None => { return None; },
    };
    let rem = match numerator.checked_rem(denominator) {
        Some(v) => v,
        None => {
            assert(numerator == i128::MIN && denominator == -1);
            proof { vstd::arithmetic::div_mod::lemma_div_basics(-(numerator as int)); }
            assert(!fits_i128(trunc_div(numerator as int, denominator as int)));
            return None;
        },
    };
    if rem != 0 && ((rem < 0) != (denominator < 0)) {
        Some(q - 1)
    } else {
        Some(q)
    }
}

/// Fee at `fee_bps` rounded up: `None` for a rate above 100%, zero for a non-positive amount or
/// a zero rate, otherwise the ceiling of `amount * fee_bps / 10_000`, `None` when the product,
/// or the product plus the `9_999` added to round it up, overflows.
pub fn calculate_fee_round_up(amount: i128, fee_bps: u32) -> (r: Option<i128>)
    ensures
        fee_bps > MAX_FEE_BPS ==> r is None,
        fee_bps <= MAX_FEE_BPS && (amount <= 0 || fee_bps == 0) ==> r == Some(0i128),
        amount > 0 && 0 < fee_bps <= MAX_FEE_BPS ==> r == (if amount * fee_bps + 9_999 <= i128::MAX {
            Some(ceil_div(amount * fee_bps, 10_000) as i128)
        } else {
            None
        }),
{
    if fee_bps > MAX_FEE_BPS {
        return None;
    }
    if amount <= 0 || fee_bps == 0 {
        return Some(0);
    }
    match amount.checked_mul(fee_bps as i128) {
        Some(numerator) => {
            proof { lemma_round_up_within_one_of_round_down(amount as int, fee_bps as int); }
            round_up_div(numerator, 10_000)
        },
        None => None,
    }
}

/// Fee at `fee_bps` rounded down: `None` for a rate above 100%, zero for a non-positive amount
/// or a zero rate, otherwise the floor of `amount * fee_bps / 10_000`, `None` when the product
/// overflows.
pub fn calculate_fee_round_down(amount: i128, fee_bps: u32) -> (r: Option<i128>)
    ensures
        r == calculate_fee_round_down_spec(amount, fee_bps),
{
    if fee_bps > MAX_FEE_BPS {
        return None;
    }
    if amount <= 0 || fee_bps == 0 {
        return Some(0);
    }
    match amount.checked_mul(fee_bps as i128) {
        Some(numerator) => {
            proof { lemma_round_up_within_one_of_round_down(amount as int, fee_bps as int); }
            round_down_div(numerator, 10_000)
        },
        None => None,
    }
}

/// For a positive amount and a rate of at most 100%, the fee rounded up is the fee rounded
/// down or one more, and neither is negative or exceeds the amount.
pub proof fn lemma_round_up_within_one_of_round_down(amount: int, fee_bps: int)
    requires
        amount > 0,
        0 < fee_bps <= MAX_FEE_BPS,
    ensures
        floor_div(amount * fee_bps, 10_000) <= ceil_div(amount * fee_bps, 10_000)
            <= floor_div(amount * fee_bps, 10_000) + 1,
        ceil_div(amount * fee_bps, 10_000) <= amount,
        0 <= floor_div(amount * fee_bps, 10_000),
{
    let p = amount * fee_bps;
    assert(0 < p <= amount * 10_000) by (nonlinear_arith)
        requires amount > 0, 0 < fee_bps <= 10_000, p == amount * fee_bps;
    lemma_floor_ceil_bounds(p, 10_000);
    let f = floor_div(p, 10_000);
    let c = ceil_div(p, 10_000);
    assert(f <= c <= f + 1) by (nonlinear_arith)
        requires f * 10_000 <= p < (f + 1) * 10_000, (c - 1) * 10_000 < p <= c * 10_000;
    assert(c <= amount) by (nonlinear_arith)
        requires (c - 1) * 10_000 < p, p <= amount * 10_000;
    assert(0 <= f) by (nonlinear_arith)
        requires p < (f + 1) * 10_000, p > 0;
}

/// Same as [`calculate_fee_round_down`].
pub fn compute_fee(amount: i128, bps: u32) -> (r: Option<i128>)
    ensures
        r == calculate_fee_round_down_spec(amount, bps),
{
    calculate_fee_round_down(amount, bps)
}

/// The result of [`calculate_fee_round_down`].
pub open spec fn calculate_fee_round_down_spec(amount: i128, fee_bps: u32) -> Option<i128> {
    if fee_bps > MAX_FEE_BPS {
        None
    } else if amount <= 0 || fee_bps == 0 {
        Some(0i128)
    } else if amount * fee_bps <= i128::MAX {
        Some(floor_div(amount * fee_bps, 10_000) as i128)
    } else {
        None
    }
}

/// `amount * bps / 10_000` rounded toward zero; `None` when the product overflows.
pub fn mul_bps(amount: i128, bps: i128) -> (r: Option<i128>)
    ensures
        r == (if fits_i128(amount * bps) {
            Some(trunc_div(amount * bps, 10_000) as i128)
        } else {
            None
        }),
{
    match amount.checked_mul(bps) {
        Some(p) => {
            let q = p.checked_div(10_000);
            proof {
                let x = p as int;
                if x > 0 {
                    assert(x / 10_000 <= x) by (nonlinear_arith) requires x > 0;
                } else if x < 0 {
                    assert((-x) / 10_000 <= -x) by (nonlinear_arith) requires x < 0;
                }
            }
            q
        },
        None => None,
    }
}

/// Accepts a fee rate in `1..=10_000` basis points.
pub fn validate_fee_bps(fee_bps: u32) -> (r: Result<(), FeeContractError>)
    ensures
        r is Ok <==> 0 < fee_bps <= MAX_FEE_BPS,
        r is Err ==> r == Err::<(), FeeContractError>(FeeContractError::InvalidConfig),
{
    if fee_bps == 0 || fee_bps > MAX_FEE_BPS {
        Err(FeeContractError::InvalidConfig)
    } else {
        Ok(())
    }
}

/// Accepts a non-negative minimum fee.
pub fn validate_min_fee(min_fee: i128) -> (r: Result<(), FeeContractError>)
    ensures
        r is Ok <==> min_fee >= 0,
        r is Err ==> r == Err::<(), FeeContractError>(FeeContractError::InvalidConfig),
{
    if min_fee < 0 {
        Err(FeeContractError::InvalidConfig)
    } else {
        Ok(())
    }
}

/// Accepts a discounted rate when both it and the base rate are valid rates and the discount
/// does not exceed the base.
pub fn validate_discount_vs_base(base_bps: u32, discount_bps: u32) -> (r: Result<(), FeeContractError>)
    ensures
        r is Ok <==> 0 < base_bps <= MAX_FEE_BPS && 0 < discount_bps <= MAX_FEE_BPS && discount_bps <= base_bps,
        r is Err ==> r == Err::<(), FeeContractError>(FeeContractError::InvalidConfig),
{
    match validate_fee_bps(base_bps) {
        Err(e) => { return Err(e); },
        Ok(()) => {},
    }
    match validate_fee_bps(discount_bps) {
        Err(e) => { return Err(e); },
        Ok(()) => {},
    }
    if discount_bps > base_bps {
        return Err(FeeContractError::InvalidConfig);
    }
    Ok(())
}

/// Accepts a non-negative maximum fee that is not below the minimum fee.
pub fn validate_max_fee(max_fee: i128, min_fee: i128) -> (r: Result<(), FeeContractError>)
    ensures
        r is Ok <==> max_fee >= 0 && max_fee >= min_fee,
        r is Err ==> r == Err::<(), FeeContractError>(FeeContractError::InvalidConfig),
{
    if max_fee < 0 {
        Err(FeeContractError::InvalidConfig)
    } else if max_fee < min_fee {
        Err(FeeContractError::InvalidConfig)
    } else {
        Ok(())
    }
}

/// Accepts a strictly positive amount.
pub fn validate_amount_positive(amount: i128) -> (r: Result<(), FeeContractError>)
    ensures
        r is Ok <==> amount > 0,
        r is Err ==> r == Err::<(), FeeContractError>(FeeContractError::InvalidAmount),
{
    if amount <= 0 {
        Err(FeeContractError::InvalidAmount)
    } else {
        Ok(())
    }
}

/// Split of a fee between treasury, protocol and stakeholders, in basis points.
#[derive(Debug, Clone)]
pub struct DistributionConfig {
    pub treasury_bps: u16,
    pub protocol_bps: u16,
    pub stakeholder_bps: u16,
}

impl DistributionConfig {
    /// Accepts the configuration when the three shares add up to exactly 100%.
    pub fn validate(&self) -> (r: Result<(), &'static str>)
        requires
            self.treasury_bps + self.protocol_bps + self.stakeholder_bps <= u16::MAX,
        ensures
            r is Ok <==> self.treasury_bps + self.protocol_bps + self.stakeholder_bps == 10_000,
            r is Err ==> r == Err::<(), &'static str>("distribution percentages must equal 100%"),
    {
        let total = self.treasury_bps + self.protocol_bps + self.stakeholder_bps;
        if total != 10_000 {
            return Err("distribution percentages must equal 100%");
        }
        Ok(())
    }
}

/// Amounts paid to each party by [`distribute_fees`].
#[derive(Debug, PartialEq, Eq, Structural)]
pub struct DistributionResult {
    pub treasury: u64,
    pub protocol: u64,
    pub stakeholder: u64,
}

/// Splits `amount` by `config`: treasury and protocol shares are rounded down,
/// and the stakeholders receive the remainder, so nothing is lost or created.
pub fn distribute_fees(amount: u64, config: &DistributionConfig) -> (r: Result<DistributionResult, &'static str>)
    requires
        config.treasury_bps + config.protocol_bps + config.stakeholder_bps <= u16::MAX,
        config.treasury_bps + config.protocol_bps + config.stakeholder_bps == 10_000
            ==> amount * config.treasury_bps <= u64::MAX && amount * config.protocol_bps <= u64::MAX,
    ensures
        r is Ok <==> config.treasury_bps + config.protocol_bps + config.stakeholder_bps == 10_000,
        r is Err ==> r == Err::<DistributionResult, &'static str>("distribution percentages must equal 100%"),
        r matches Ok(d) ==> {
            &&& d.treasury == amount * config.treasury_bps / 10_000
            &&& d.protocol == amount * config.protocol_bps / 10_000
            &&& d.treasury + d.protocol + d.stakeholder == amount
        },
{
    match config.validate() {
        Err(e) => { return Err(e); },
        Ok(()) => {},
    }
    let treasury = amount * config.treasury_bps as u64 / 10_000;
    let protocol = amount * config.protocol_bps as u64 / 10_000;
    proof {
        let a = amount as int;
        let t = config.treasury_bps as int;
        let p = config.protocol_bps as int;
        assert(a * t / 10_000 + a * p / 10_000 <= a) by (nonlinear_arith)
            requires a >= 0, t >= 0, p >= 0, t + p <= 10_000;
    }
    let stakeholder = amount - treasury - protocol;
    Ok(DistributionResult { treasury, protocol, stakeholder })
}

/// The decayed fee: `base_fee` while no time has passed, otherwise
/// `base_fee` less one unit per elapsed second, never below [`MIN_FEE`].
pub fn calculate_fee_decay(base_fee: i128, last_active: u64, current_time: u64) -> (r: i128)
    ensures
        current_time <= last_active ==> r == base_fee,
        current_time > last_active ==> r == (if base_fee - (current_time - last_active) < MIN_FEE {
            MIN_FEE as int
        } else {
            base_fee - (current_time - last_active)
        }),
{
    if current_time <= last_active {
        return base_fee;
    }
    let time_elapsed = (current_time - last_active) as i128;
    let decay = match time_elapsed.checked_mul(DECAY_RATE) {
        Some(d) => d,
        None => base_fee,
    };
    let decayed_fee = match base_fee.checked_sub(decay) {
        Some(d) => d,
        None => MIN_FEE,
    };
    if decayed_fee < MIN_FEE {
        MIN_FEE
    } else {
        decayed_fee
    }
}

/// The signed decimal rendering of `n`: a minus sign before the digits of a negative number.
pub open spec fn signed_decimal(n: int) -> Seq<char> {
    if n < 0 { seq!['-'] + decimal((-n) as nat) } else { decimal(n as nat) }
}

/// Renders `amount` in canonical decimal form.
pub fn format_amount(amount: i128) -> (r: String)
    ensures
        r@ == signed_decimal(amount as int),
{
    let mut out = String::new();
    if amount < 0 {
        out.append("-");
        proof { reveal_strlit("-"); }
        let magnitude: u128 = (-(amount + 1)) as u128 + 1;
        push_decimal_u128(&mut out, magnitude);
        assert(out@ =~= seq!['-'] + decimal((-amount) as nat));
    } else {
        push_decimal_u128(&mut out, amount as u128);
        assert(out@ =~= decimal(amount as nat));
    }
    out
}

} // verus!
