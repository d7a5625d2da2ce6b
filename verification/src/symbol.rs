use crate::decimal::{
    abs, decimal_div, decimal_from_u64, decimal_mul, decimal_product, decimal_quotient, pow10,
    within_one_unit, DecimalValue, MAX_MANTISSA,
};
use crate::serum_market::{mint_decimals, mint_ok, MarketParameters, SerumError};
use crate::text::{contains, first_occurrence, occurs_in, split_once};
use vstd::prelude::*;

verus! {

/// How prices or amounts of a symbol are rounded.
#[derive(Clone, Copy, Debug, PartialEq, Eq, Structural)]
pub enum Precision {
    /// To a multiple of the tick.
    ByTick { tick: DecimalValue },
    /// To the given number of digits.
    ByMantissa { precision: i8 },
}

/// The limits of prices, amounts and cost of a symbol.
#[derive(Clone, Copy, Debug)]
pub struct SymbolLimits {
    pub min_price: DecimalValue,
    pub max_price: DecimalValue,
    pub min_amount: DecimalValue,
    pub max_amount: DecimalValue,
    pub min_cost: DecimalValue,
}

/// What can be traded on a market: its currencies, limits and precisions.
#[derive(Clone, Debug)]
pub struct Symbol {
    pub is_active: bool,
    pub is_derivative: bool,
    pub base_currency_id: String,
    pub base_currency_code: String,
    pub quote_currency_id: String,
    pub quote_currency_code: String,
    pub min_price: Option<DecimalValue>,
    pub max_price: Option<DecimalValue>,
    pub min_amount: Option<DecimalValue>,
    pub max_amount: Option<DecimalValue>,
    pub min_cost: Option<DecimalValue>,
    pub amount_currency_code: String,
    pub balance_currency_code: Option<String>,
    pub price_precision: Precision,
    pub amount_precision: Precision,
}

/// The smallest price step: `10^coin_decimals * pc_lot_size` divided by
/// `10^pc_decimals * coin_lot_size`, as the decimal division rounds it.
pub open spec fn min_price_of(
    coin_decimals: nat,
    pc_decimals: nat,
    coin_lot_size: nat,
    pc_lot_size: nat,
) -> (int, int) {
    decimal_quotient(pow10(coin_decimals) * pc_lot_size, 0, pow10(pc_decimals) * coin_lot_size, 0)
}

/// The smallest amount step: `coin_lot_size` divided by `10^coin_decimals`, as the
/// decimal division rounds it.
pub open spec fn min_amount_of(coin_decimals: nat, coin_lot_size: nat) -> (int, int) {
    decimal_quotient(coin_lot_size as int, 0, pow10(coin_decimals), 0)
}

/// The smallest cost: the smallest price step times the smallest amount step,
/// as the decimal multiplication rounds it.
pub open spec fn min_cost_of(
    coin_decimals: nat,
    pc_decimals: nat,
    coin_lot_size: nat,
    pc_lot_size: nat,
) -> (int, int) {
    let price = min_price_of(coin_decimals, pc_decimals, coin_lot_size, pc_lot_size);
    let amount = min_amount_of(coin_decimals, coin_lot_size);
    decimal_product(price.0, price.1, amount.0, amount.1)
}

/// The limits of a market can be computed: the powers of ten fit in 64 bits, the
/// coin lot size is not zero, and both products of a power of ten and a lot
/// size fit in a decimal.
pub open spec fn limits_fit(
    coin_decimals: nat,
    pc_decimals: nat,
    coin_lot_size: nat,
    pc_lot_size: nat,
) -> bool {
    &&& coin_decimals <= 19
    &&& pc_decimals <= 19
    &&& coin_lot_size > 0
    &&& pow10(coin_decimals) * pc_lot_size <= MAX_MANTISSA
    &&& pow10(pc_decimals) * coin_lot_size <= MAX_MANTISSA
}

/// The limits hold the values named for the market's decimals and lot sizes:
/// the price step is `10^coin_decimals * pc_lot_size / (10^pc_decimals *
/// coin_lot_size)` up to one unit of its last digit; the amount step, a lot of
/// the coin in whole coins, is exact; the smallest cost is the decimal product
/// of the two steps.
pub open spec fn limits_are(
    l: SymbolLimits,
    coin_decimals: nat,
    pc_decimals: nat,
    coin_lot_size: nat,
    pc_lot_size: nat,
) -> bool {
    &&& (l.min_price.mantissa as int, l.min_price.scale as int) == min_price_of(
        coin_decimals,
        pc_decimals,
        coin_lot_size,
        pc_lot_size,
    )
    &&& l.max_price == DecimalValue::integer(u64::MAX as int)
    &&& (l.min_amount.mantissa as int, l.min_amount.scale as int) == min_amount_of(
        coin_decimals,
        coin_lot_size,
    )
    &&& l.min_amount.mantissa * pow10(coin_decimals) == coin_lot_size * pow10(
        l.min_amount.scale as nat,
    )
    &&& l.max_amount == DecimalValue::integer(u64::MAX as int)
    &&& (l.min_cost.mantissa as int, l.min_cost.scale as int) == min_cost_of(
        coin_decimals,
        pc_decimals,
        coin_lot_size,
        pc_lot_size,
    )
    &&& within_one_unit(
        l.min_price,
        pow10(coin_decimals) * pc_lot_size,
        pow10(pc_decimals) * coin_lot_size,
    )
    &&& (l.min_cost.mantissa as int, l.min_cost.scale as int) == decimal_product(
        l.min_price.mantissa as int,
        l.min_price.scale as int,
        l.min_amount.mantissa as int,
        l.min_amount.scale as int,
    )
}

/// Ten to the power `exponent`.
pub fn pow10_u64(exponent: u8) -> (r: u64)
    requires
        exponent <= 19,
    ensures
        r == pow10(exponent as nat),
{
    let mut r: u64 = 1;
    let mut i: u8 = 0;
    while i < exponent
        invariant
            i <= exponent <= 19,
            r == pow10(i as nat),
        decreases exponent - i,
    {
        proof {
            lemma_pow10_monotone(i as nat, 19);
            reveal_with_fuel(pow10, 20);
        }
        r = r * 10;
        i = i + 1;
    }
    r
}

/// Powers of ten grow with the exponent and are positive.
pub proof fn lemma_pow10_monotone(a: nat, b: nat)
    requires
        a <= b,
    ensures
        1 <= pow10(a) <= pow10(b),
    decreases b,
{
    if b > 0 {
        if a < b {
            lemma_pow10_monotone(a, (b - 1) as nat);
        } else {
            lemma_pow10_monotone(0, (b - 1) as nat);
        }
    }
}

/// Powers of ten multiply by adding their exponents.
pub proof fn lemma_pow10_add(a: nat, b: nat)
    ensures
        pow10(a + b) == pow10(a) * pow10(b),
    decreases a,
{
    if a > 0 {
        lemma_pow10_add((a - 1) as nat, b);
        assert(pow10(a + b) == 10 * pow10((a - 1 + b) as nat));
        assert(10 * (pow10((a - 1) as nat) * pow10(b)) == (10 * pow10((a - 1) as nat)) * pow10(b)) by (nonlinear_arith);
    }
}

/// The smallest cost fits in a decimal: the price step is at most one above
/// the exact quotient, the amount step is exact, and their exact product is the
/// price currency lot in whole units, far below the largest mantissa.
proof fn lemma_cost_fits(
    a: int,
    b: int,
    num: int,
    den: int,
    coin_lot: int,
    pc_lot: int,
    t: int,
    pt: int,
    p: int,
    q: int,
    m: int,
)
    requires
        1 <= t,
        1 <= pt,
        1 <= coin_lot <= 0xFFFF_FFFF_FFFF_FFFF,
        0 <= pc_lot <= 0xFFFF_FFFF_FFFF_FFFF,
        num == t * pc_lot,
        den == pt * coin_lot,
        2 * 0xFFFF_FFFF_FFFF_FFFF <= m,
        0 <= a,
        0 <= b,
        1 <= p,
        1 <= q,
        a * den <= (num + den) * p,
        b * t == coin_lot * q,
    ensures
        a * b <= m * (p * q),
{
    let u: int = 0xFFFF_FFFF_FFFF_FFFF;
    assert(t * pc_lot <= t * u) by (nonlinear_arith)
        requires
            1 <= t,
            pc_lot <= u,
    ;
    assert(pt * coin_lot <= pt * u) by (nonlinear_arith)
        requires
            1 <= pt,
            coin_lot <= u,
    ;
    assert(t * u + pt * u <= m * pt * t) by (nonlinear_arith)
        requires
            1 <= t,
            1 <= pt,
            2 * u <= m,
            0 <= u,
    ;
    assert(num + den <= m * pt * t);
    assert((num + den) * coin_lot <= m * den * t) by (nonlinear_arith)
        requires
            num + den <= m * pt * t,
            den == pt * coin_lot,
            1 <= coin_lot,
    ;
    assert(a * den * (b * t) <= (num + den) * p * (b * t)) by (nonlinear_arith)
        requires
            a * den <= (num + den) * p,
            0 <= b * t,
    ;
    assert((num + den) * p * (b * t) == (num + den) * coin_lot * (p * q)) by (nonlinear_arith)
        requires
            b * t == coin_lot * q,
    ;
    assert(1 <= p * q) by (nonlinear_arith)
        requires
            1 <= p,
            1 <= q,
    ;
    assert((num + den) * coin_lot * (p * q) <= m * den * t * (p * q)) by (nonlinear_arith)
        requires
            (num + den) * coin_lot <= m * den * t,
            1 <= p * q,
    ;
    assert(a * b * (den * t) <= m * (p * q) * (den * t)) by (nonlinear_arith)
        requires
            a * den * (b * t) <= m * den * t * (p * q),
    ;
    assert(1 <= den * t) by (nonlinear_arith)
        requires
            1 <= pt,
            1 <= coin_lot,
            1 <= t,
            den == pt * coin_lot,
    ;
    assert(a * b <= m * (p * q)) by (nonlinear_arith)
        requires
            a * b * (den * t) <= m * (p * q) * (den * t),
            1 <= den * t,
    ;
}

/// The limits of prices, amounts and cost of a market with the given decimals of
/// its coin and price currency mints and the given lot sizes.
pub fn symbol_limits(coin_decimals: u8, pc_decimals: u8, coin_lot_size: u64, pc_lot_size: u64) -> (r:
    SymbolLimits)
    requires
        limits_fit(coin_decimals as nat, pc_decimals as nat, coin_lot_size as nat, pc_lot_size as nat),
    ensures
        limits_are(r, coin_decimals as nat, pc_decimals as nat, coin_lot_size as nat, pc_lot_size as nat),
{
    let coin_power = pow10_u64(coin_decimals);
    let pc_power = pow10_u64(pc_decimals);
    let d_coin_power = match decimal_from_u64(coin_power) {
        Some(d) => d,
        None => DecimalValue { mantissa: 0, scale: 0 },
    };
    let d_pc_power = match decimal_from_u64(pc_power) {
        Some(d) => d,
        None => DecimalValue { mantissa: 0, scale: 0 },
    };
    let d_pc_lot = match decimal_from_u64(pc_lot_size) {
        Some(d) => d,
        None => DecimalValue { mantissa: 0, scale: 0 },
    };
    let d_coin_lot = match decimal_from_u64(coin_lot_size) {
        Some(d) => d,
        None => DecimalValue { mantissa: 0, scale: 0 },
    };
    proof {
        lemma_pow10_monotone(0, coin_decimals as nat);
        lemma_pow10_monotone(0, pc_decimals as nat);
        assert(pow10(0) == 1);
    }
    let numerator = decimal_mul(d_coin_power, d_pc_lot);
    let denominator = decimal_mul(d_pc_power, d_coin_lot);
    let ghost num = pow10(coin_decimals as nat) * pc_lot_size;
    let ghost den = pow10(pc_decimals as nat) * coin_lot_size;
    let ghost t = pow10(coin_decimals as nat);
    proof {
        assert(num >= 0 && den > 0) by (nonlinear_arith)
            requires
                pow10(coin_decimals as nat) >= 1,
                pow10(pc_decimals as nat) >= 1,
                num == pow10(coin_decimals as nat) * pc_lot_size,
                den == pow10(pc_decimals as nat) * coin_lot_size,
                coin_lot_size > 0,
        ;
        assert(numerator.mantissa == num && numerator.scale == 0);
        assert(denominator.mantissa == den && denominator.scale == 0);
        assert(num <= MAX_MANTISSA * den) by (nonlinear_arith)
            requires
                num <= MAX_MANTISSA,
                den >= 1,
        ;
        assert(coin_lot_size <= MAX_MANTISSA * t) by (nonlinear_arith)
            requires
                coin_lot_size <= u64::MAX,
                t >= 1,
        ;
    }
    let min_price = decimal_div(numerator, denominator);
    let min_amount = decimal_div(d_coin_lot, d_coin_power);
    proof {
        let p = pow10(min_price.scale as nat);
        let q = pow10(min_amount.scale as nat);
        lemma_pow10_monotone(0, min_price.scale as nat);
        lemma_pow10_monotone(0, min_amount.scale as nat);
        lemma_pow10_add(min_price.scale as nat, min_amount.scale as nat);
        let a = abs(min_price.mantissa as int);
        assert(abs(denominator.mantissa as int) == den);
        assert(abs(numerator.mantissa as int) == num);
        assert(a * den <= (num + den) * p);
        assert(d_coin_power.mantissa == pow10(coin_decimals as nat));
        assert(min_amount.mantissa * pow10((0 + coin_decimals) as nat) == coin_lot_size * q);
        assert(min_amount.mantissa >= 0) by (nonlinear_arith)
            requires
                min_amount.mantissa * t == coin_lot_size * q,
                t >= 1,
                q >= 1,
                coin_lot_size >= 0,
        ;
        let b = min_amount.mantissa as int;
        lemma_cost_fits(
            a,
            b,
            num,
            den,
            coin_lot_size as int,
            pc_lot_size as int,
            t,
            pow10(pc_decimals as nat),
            p,
            q,
            MAX_MANTISSA as int,
        );
        assert(abs(min_price.mantissa * min_amount.mantissa) == a * b) by (nonlinear_arith)
            requires
                a == abs(min_price.mantissa as int),
                b == min_amount.mantissa,
                b >= 0,
        ;
    }
    let min_cost = decimal_mul(min_price, min_amount);
    let max_value = match decimal_from_u64(u64::MAX) {
        Some(d) => d,
        None => DecimalValue { mantissa: 0, scale: 0 },
    };
    SymbolLimits { min_price, max_price: max_value, min_amount, max_amount: max_value, min_cost }
}

/// The limits of a market follow from its mint decimals and lot sizes alone:
/// the price step times `10^pc_decimals * coin_lot_size` is
/// `10^coin_decimals * pc_lot_size` up to that many units of the step's last
/// digit; the amount step is `coin_lot_size / 10^coin_decimals` exactly; the
/// smallest cost is the decimal product of the price and amount steps; the
/// maximum price and amount are the largest `u64`.
pub proof fn lemma_limits_follow_lots(
    l: SymbolLimits,
    coin_decimals: nat,
    pc_decimals: nat,
    coin_lot_size: nat,
    pc_lot_size: nat,
)
    requires
        limits_are(l, coin_decimals, pc_decimals, coin_lot_size, pc_lot_size),
    ensures
        pow10(coin_decimals) * pc_lot_size * pow10(l.min_price.scale as nat) - pow10(pc_decimals)
            * coin_lot_size <= l.min_price.mantissa * (pow10(pc_decimals) * coin_lot_size),
        l.min_price.mantissa * (pow10(pc_decimals) * coin_lot_size) <= pow10(coin_decimals)
            * pc_lot_size * pow10(l.min_price.scale as nat) + pow10(pc_decimals) * coin_lot_size,
        l.min_amount.mantissa * pow10(coin_decimals) == coin_lot_size * pow10(
            l.min_amount.scale as nat,
        ),
        (l.min_cost.mantissa as int, l.min_cost.scale as int) == decimal_product(
            l.min_price.mantissa as int,
            l.min_price.scale as int,
            l.min_amount.mantissa as int,
            l.min_amount.scale as int,
        ),
        l.max_price == (DecimalValue { mantissa: 0xFFFF_FFFF_FFFF_FFFF, scale: 0 }),
        l.max_amount == (DecimalValue { mantissa: 0xFFFF_FFFF_FFFF_FFFF, scale: 0 }),
{
}

/// The delimiter between the two currencies of a market name.
pub open spec fn name_delimiter() -> Seq<char> {
    seq!['/']
}

/// `sym` is the symbol of the market named `name`, whose coin and price currency
/// mints have the given decimals, with the given lot sizes: the base currency is
/// the part of the name before the first `/` and the quote currency the part
/// after it; the market is active and no derivative; the limits are those of
/// `limits_are`, the maximums bounded; amounts and balance are in the base
/// currency; prices and amounts are rounded to one digit.
pub open spec fn symbol_of_market(
    sym: Symbol,
    name: Seq<char>,
    coin_decimals: nat,
    pc_decimals: nat,
    coin_lot_size: nat,
    pc_lot_size: nat,
) -> bool {
    &&& exists|i: int|
        {
            &&& first_occurrence(name, name_delimiter(), i)
            &&& sym.base_currency_id@ == name.subrange(0, i)
            &&& sym.quote_currency_id@ == name.subrange(i + 1, name.len() as int)
        }
    &&& sym.base_currency_code@ == sym.base_currency_id@
    &&& sym.quote_currency_code@ == sym.quote_currency_id@
    &&& sym.amount_currency_code@ == sym.base_currency_id@
    &&& sym.balance_currency_code matches Some(code) && code@ == sym.base_currency_id@
    &&& sym.is_active
    &&& !sym.is_derivative
    &&& sym.min_price matches Some(min_price) && sym.max_price matches Some(max_price) && sym.min_amount matches Some(min_amount)
        && sym.max_amount matches Some(max_amount) && sym.min_cost matches Some(min_cost)
        && limits_are(
        SymbolLimits { min_price, max_price, min_amount, max_amount, min_cost },
        coin_decimals,
        pc_decimals,
        coin_lot_size,
        pc_lot_size,
    )
    &&& sym.price_precision == (Precision::ByMantissa { precision: 1 })
    &&& sym.amount_precision == (Precision::ByMantissa { precision: 1 })
}

/// The symbol of a market from its name, its parameters and the account data of
/// its two mints: fails when a mint account holds no valid mint, or when the
/// name holds no `/`.
pub fn symbol_from_market(
    market_name: &str,
    market: &MarketParameters,
    coin_mint_data: &[u8],
    pc_mint_data: &[u8],
) -> (r: Result<Symbol, SerumError>)
    requires
        coin_mint_data@.len() >= 82,
        mint_ok(coin_mint_data@) ==> pc_mint_data@.len() >= 82,
        mint_ok(coin_mint_data@) && mint_ok(pc_mint_data@) && occurs_in(
            market_name@,
            name_delimiter(),
        ) ==> limits_fit(
            coin_mint_data@[44] as nat,
            pc_mint_data@[44] as nat,
            market.coin_lot_size as nat,
            market.pc_lot_size as nat,
        ),
    ensures
        (r is Ok) <==> (mint_ok(coin_mint_data@) && mint_ok(pc_mint_data@) && occurs_in(
            market_name@,
            name_delimiter(),
        )),
        r matches Err(e) ==> e == (if mint_ok(coin_mint_data@) && mint_ok(pc_mint_data@) {
            SerumError::InvalidMarketName
        } else {
            SerumError::InvalidMintData
        }),
        r matches Ok(sym) ==> symbol_of_market(
            sym,
            market_name@,
            coin_mint_data@[44] as nat,
            pc_mint_data@[44] as nat,
            market.coin_lot_size as nat,
            market.pc_lot_size as nat,
        ),
{
    let coin_decimals = match mint_decimals(coin_mint_data) {
        Ok(decimals) => decimals,
        Err(_) => {
            return Err(SerumError::InvalidMintData);
        },
    };
    let pc_decimals = match mint_decimals(pc_mint_data) {
        Ok(decimals) => decimals,
        Err(_) => {
            return Err(SerumError::InvalidMintData);
        },
    };
    let delimiter = "/";
    proof {
        reveal_strlit("/");
        assert(delimiter@ =~= name_delimiter());
    }
    let (base, quote) = match split_once(market_name, delimiter) {
        Some(parts) => parts,
        None => {
            return Err(SerumError::InvalidMarketName);
        },
    };
    let limits = symbol_limits(coin_decimals, pc_decimals, market.coin_lot_size, market.pc_lot_size);
    let sym = Symbol {
        is_active: true,
        is_derivative: false,
        base_currency_id: base.to_owned(),
        base_currency_code: base.to_owned(),
        quote_currency_id: quote.to_owned(),
        quote_currency_code: quote.to_owned(),
        min_price: Some(limits.min_price),
        max_price: Some(limits.max_price),
        min_amount: Some(limits.min_amount),
        max_amount: Some(limits.max_amount),
        min_cost: Some(limits.min_cost),
        amount_currency_code: base.to_owned(),
        balance_currency_code: Some(base.to_owned()),
        price_precision: Precision::ByMantissa { precision: 1 },
        amount_precision: Precision::ByMantissa { precision: 1 },
    };
    Ok(sym)
}

/// Whether the limits of a market with these decimals and lot sizes can be
/// computed (see `limits_fit`).
pub fn check_limits_fit(coin_decimals: u8, pc_decimals: u8, coin_lot_size: u64, pc_lot_size: u64) -> (r:
    bool)
    ensures
        r == limits_fit(coin_decimals as nat, pc_decimals as nat, coin_lot_size as nat, pc_lot_size as nat),
{
    if coin_decimals > 19 || pc_decimals > 19 || coin_lot_size == 0 {
        return false;
    }
    let t = pow10_u64(coin_decimals) as u128;
    let pt = pow10_u64(pc_decimals) as u128;
    proof {
        lemma_pow10_monotone(coin_decimals as nat, 19);
        lemma_pow10_monotone(pc_decimals as nat, 19);
        reveal_with_fuel(pow10, 20);
        assert(pow10(19) == 10_000_000_000_000_000_000);
        assert(t * pc_lot_size <= 10_000_000_000_000_000_000 * 0xFFFF_FFFF_FFFF_FFFFu64) by (nonlinear_arith)
            requires
                t <= 10_000_000_000_000_000_000,
                pc_lot_size <= 0xFFFF_FFFF_FFFF_FFFFu64,
        ;
        assert(pt * coin_lot_size <= 10_000_000_000_000_000_000 * 0xFFFF_FFFF_FFFF_FFFFu64) by (nonlinear_arith)
            requires
                pt <= 10_000_000_000_000_000_000,
                coin_lot_size <= 0xFFFF_FFFF_FFFF_FFFFu64,
        ;
        assert(pt * coin_lot_size >= 1) by (nonlinear_arith)
            requires
                pt >= 1,
                coin_lot_size >= 1,
        ;
    }
    let numerator = t * (pc_lot_size as u128);
    let denominator = pt * (coin_lot_size as u128);
    let max = MAX_MANTISSA as u128;
    numerator <= max && denominator <= max
}

/// Whether `symbol_from_market` can be asked for the symbol of this market: the
/// coin mint account holds at least the 82 bytes of a mint, so does the price
/// currency mint account when the coin mint is valid, and the limits can be
/// computed whenever both mints are valid and the name holds a `/`.
pub fn can_compute_symbol(
    market_name: &str,
    market: &MarketParameters,
    coin_mint_data: &[u8],
    pc_mint_data: &[u8],
) -> (r: bool)
    ensures
        r == (coin_mint_data@.len() >= 82 && (mint_ok(coin_mint_data@) ==> pc_mint_data@.len()
            >= 82) && (mint_ok(coin_mint_data@) && mint_ok(pc_mint_data@) && occurs_in(
            market_name@,
            name_delimiter(),
        ) ==> limits_fit(
            coin_mint_data@[44] as nat,
            pc_mint_data@[44] as nat,
            market.coin_lot_size as nat,
            market.pc_lot_size as nat,
        ))),
{
    if coin_mint_data.len() < 82 {
        return false;
    }
    let coin_decimals = match mint_decimals(coin_mint_data) {
        Ok(decimals) => decimals,
        Err(_) => {
            return true;
        },
    };
    if pc_mint_data.len() < 82 {
        return false;
    }
    let pc_decimals = match mint_decimals(pc_mint_data) {
        Ok(decimals) => decimals,
        Err(_) => {
            return true;
        },
    };
    let delimiter = "/";
    proof {
        reveal_strlit("/");
        assert(delimiter@ =~= name_delimiter());
    }
    if !contains(market_name, delimiter) {
        return true;
    }
    check_limits_fit(coin_decimals, pc_decimals, market.coin_lot_size, market.pc_lot_size)
}

} // verus!
