use vstd::prelude::*;
use vstd::arithmetic::div_mod::*;
use vstd::arithmetic::mul::*;

use crate::constants::MAX_FEE_BPS;
use crate::errors::{amm_err, AmmError, ProgramError};

verus! {

/// What a swap moves: `deposit` in, `withdraw` out, and the `fee` kept from
/// the deposit.
#[derive(Clone, Copy, PartialEq, Eq, Debug)]
pub struct SwapResult {
    pub deposit: u64,
    pub withdraw: u64,
    pub fee: u64,
}

/// The fee taken from `amount_in`, rounded down: `amount_in * fee_bps / 10_000`.
pub open spec fn swap_fee(amount_in: u64, fee_bps: u16) -> int {
    (amount_in as int) * (fee_bps as int) / (MAX_FEE_BPS as int)
}

/// The part of `amount_in` that reaches the pool.
pub open spec fn swap_net(amount_in: u64, fee_bps: u16) -> int {
    amount_in - swap_fee(amount_in, fee_bps)
}

/// Constant-product output, rounded down:
/// `reserve_out * net / (reserve_in + net)`.
pub open spec fn swap_output(reserve_in: u64, reserve_out: u64, amount_in: u64, fee_bps: u16) -> int {
    let net = swap_net(amount_in, fee_bps);
    (reserve_out as int) * net / ((reserve_in as int) + net)
}

/// What [`swap`] returns for its arguments.
pub open spec fn swap_outcome(
    reserve_in: u64,
    reserve_out: u64,
    amount_in: u64,
    fee_bps: u16,
    min_out: u64,
) -> Result<SwapResult, ProgramError> {
    if reserve_in == 0 || reserve_out == 0 {
        Err(amm_err(AmmError::ZeroBalance))
    } else if amount_in == 0 {
        Err(amm_err(AmmError::InvalidAmount))
    } else if swap_fee(amount_in, fee_bps) > amount_in {
        Err(amm_err(AmmError::Underflow))
    } else if swap_output(reserve_in, reserve_out, amount_in, fee_bps) == 0 {
        Err(amm_err(AmmError::InvalidAmount))
    } else if swap_output(reserve_in, reserve_out, amount_in, fee_bps) < min_out {
        Err(amm_err(AmmError::SlippageExceeded))
    } else {
        Ok(
            SwapResult {
                deposit: amount_in,
                withdraw: swap_output(reserve_in, reserve_out, amount_in, fee_bps) as u64,
                fee: swap_fee(amount_in, fee_bps) as u64,
            },
        )
    }
}

/// `a * b / d <= a` when `b <= d`, and `a * b / d < a` when moreover `b < d`
/// and `a > 0`.
proof fn lemma_scaled_down(a: int, b: int, d: int)
    requires
        a >= 0,
        0 <= b <= d,
        d > 0,
    ensures
        a * b / d <= a,
        a > 0 && b < d ==> a * b / d < a,
{
    lemma_mul_inequality(b, d, a);
    lemma_mul_is_commutative(a, b);
    lemma_mul_is_commutative(a, d);
    lemma_div_is_ordered(a * b, a * d, d);
    lemma_div_by_multiple(a, d);
    if a > 0 && b < d {
        lemma_fundamental_div_mod(a * b, d);
        lemma_mod_bound(a * b, d);
        assert(a * b < a * d) by (nonlinear_arith)
            requires
                a > 0,
                b < d,
        ;
        assert(d * (a * b / d) <= a * b) by (nonlinear_arith)
            requires
                a * b == d * (a * b / d) + (a * b) % d,
                0 <= (a * b) % d,
        ;
        assert(a * b / d < a) by (nonlinear_arith)
            requires
                d * (a * b / d) <= a * b,
                a * b < a * d,
                d > 0,
        ;
    }
}

/// The pieces of a swap stay in range: the fee fits in the deposit and the
/// output is less than the reserve it comes from.
pub proof fn lemma_swap_ranges(reserve_in: u64, reserve_out: u64, amount_in: u64, fee_bps: u16)
    requires
        reserve_in > 0,
        reserve_out > 0,
        swap_fee(amount_in, fee_bps) <= amount_in,
    ensures
        0 <= swap_fee(amount_in, fee_bps),
        0 <= swap_net(amount_in, fee_bps) <= amount_in,
        0 <= swap_output(reserve_in, reserve_out, amount_in, fee_bps) < reserve_out,
{
    let f = swap_fee(amount_in, fee_bps);
    assert(0 <= (amount_in as int) * (fee_bps as int)) by (nonlinear_arith);
    lemma_div_pos_is_pos((amount_in as int) * (fee_bps as int), MAX_FEE_BPS as int);
    let net = swap_net(amount_in, fee_bps);
    let den = (reserve_in as int) + net;
    lemma_scaled_down(reserve_out as int, net, den);
    assert(0 <= (reserve_out as int) * net) by (nonlinear_arith)
        requires
            net >= 0,
    ;
    lemma_div_pos_is_pos((reserve_out as int) * net, den);
}

/// Constant product swap: output = reserve_out * amount_net / (reserve_in + amount_net)
pub fn swap(
    reserve_in: u64,
    reserve_out: u64,
    amount_in: u64,
    fee_bps: u16,
    min_out: u64,
) -> (r: Result<SwapResult, ProgramError>)
    ensures
        r == swap_outcome(reserve_in, reserve_out, amount_in, fee_bps, min_out),
{
    if reserve_in == 0 || reserve_out == 0 {
        return Err(AmmError::ZeroBalance.to_program_error());
    }
    if amount_in == 0 {
        return Err(AmmError::InvalidAmount.to_program_error());
    }

    let amount_in_128 = amount_in as u128;
    let reserve_in_128 = reserve_in as u128;
    let reserve_out_128 = reserve_out as u128;

    assert((amount_in as int) * (fee_bps as int) <= 0xffff_ffff_ffff_ffff * 0xffff) by (nonlinear_arith);
    let fee_product = match amount_in_128.checked_mul(fee_bps as u128) {
        Some(p) => p,
        None => return Err(AmmError::Overflow.to_program_error()),
    };
    let fee_amount = fee_product / (MAX_FEE_BPS as u128);

    let amount_net = match amount_in_128.checked_sub(fee_amount) {
        Some(v) => v,
        None => return Err(AmmError::Underflow.to_program_error()),
    };

    proof {
        lemma_swap_ranges(reserve_in, reserve_out, amount_in, fee_bps);
    }
    assert((reserve_out as int) * (amount_net as int) <= 0xffff_ffff_ffff_ffff * 0xffff_ffff_ffff_ffff)
        by (nonlinear_arith)
        requires
            amount_net <= amount_in,
    ;
    let numerator = match reserve_out_128.checked_mul(amount_net) {
        Some(v) => v,
        None => return Err(AmmError::Overflow.to_program_error()),
    };

    let denominator = match reserve_in_128.checked_add(amount_net) {
        Some(v) => v,
        None => return Err(AmmError::Overflow.to_program_error()),
    };

    let output = numerator / denominator;

    if fee_amount > u64::MAX as u128 {
        return Err(AmmError::Overflow.to_program_error());
    }
    let fee_u64 = fee_amount as u64;
    if output > u64::MAX as u128 {
        return Err(AmmError::Overflow.to_program_error());
    }
    let withdraw_u64 = output as u64;

    if withdraw_u64 == 0 {
        return Err(AmmError::InvalidAmount.to_program_error());
    }

    if withdraw_u64 < min_out {
        return Err(AmmError::SlippageExceeded.to_program_error());
    }

    Ok(SwapResult { deposit: amount_in, withdraw: withdraw_u64, fee: fee_u64 })
}

/// Law: a swap never lowers the pool's constant product. Once the deposit is
/// added to one reserve and the output taken from the other, their product is
/// at least what it was; the output is positive, at least `min_out`, and less
/// than the reserve it is paid from; the fee fits in the deposit.
pub proof fn lemma_swap_keeps_product(
    reserve_in: u64,
    reserve_out: u64,
    amount_in: u64,
    fee_bps: u16,
    min_out: u64,
)
    requires
        swap_outcome(reserve_in, reserve_out, amount_in, fee_bps, min_out) is Ok,
    ensures
        ({
            let res = swap_outcome(reserve_in, reserve_out, amount_in, fee_bps, min_out)->Ok_0;
            &&& res.deposit == amount_in
            &&& 0 < res.withdraw < reserve_out
            &&& res.withdraw >= min_out
            &&& res.fee <= res.deposit
            &&& ((reserve_in as int) + res.deposit) * ((reserve_out as int) - res.withdraw)
                >= (reserve_in as int) * (reserve_out as int)
        }),
{
    lemma_swap_ranges(reserve_in, reserve_out, amount_in, fee_bps);
    let res = swap_outcome(reserve_in, reserve_out, amount_in, fee_bps, min_out)->Ok_0;
    let ri = reserve_in as int;
    let ro = reserve_out as int;
    let d = amount_in as int;
    let net = swap_net(amount_in, fee_bps);
    let w = swap_output(reserve_in, reserve_out, amount_in, fee_bps);
    assert(res.withdraw == w);
    lemma_fundamental_div_mod(ro * net, ri + net);
    lemma_mod_bound(ro * net, ri + net);
    assert(w * (ri + net) <= ro * net) by (nonlinear_arith)
        requires
            ro * net == (ri + net) * w + (ro * net) % (ri + net),
            0 <= (ro * net) % (ri + net),
    ;
    assert((ri + d) * (ro - w) >= ri * ro) by (nonlinear_arith)
        requires
            w * (ri + net) <= ro * net,
            0 <= net <= d,
            0 <= w < ro,
            ri > 0,
    ;
}

/// Law: a swap against funded reserves, of a positive amount, at a fee
/// within the cap, is accepted whenever its constant-product output
/// `reserve_out * net / (reserve_in + net)` (with `net = amount_in -
/// amount_in * fee_bps / 10_000`) is positive and at least `min_out`; it then
/// pays exactly that output and keeps exactly that fee. No `u64` inputs make
/// it fail with `Overflow`.
pub proof fn lemma_swap_accepts(
    reserve_in: u64,
    reserve_out: u64,
    amount_in: u64,
    fee_bps: u16,
    min_out: u64,
)
    requires
        reserve_in > 0,
        reserve_out > 0,
        amount_in > 0,
        fee_bps <= 10_000,
        ({
            let fee = (amount_in as int) * (fee_bps as int) / 10_000;
            let net = amount_in - fee;
            let out = (reserve_out as int) * net / ((reserve_in as int) + net);
            out > 0 && out >= min_out
        }),
    ensures
        ({
            let fee = (amount_in as int) * (fee_bps as int) / 10_000;
            let net = amount_in - fee;
            let out = (reserve_out as int) * net / ((reserve_in as int) + net);
            &&& 0 <= fee <= amount_in
            &&& 0 < out < reserve_out
            &&& swap_outcome(reserve_in, reserve_out, amount_in, fee_bps, min_out) == Ok::<
                SwapResult,
                ProgramError,
            >(SwapResult { deposit: amount_in, withdraw: out as u64, fee: fee as u64 })
        }),
{
    lemma_fee_within_cap(amount_in, fee_bps);
    lemma_swap_ranges(reserve_in, reserve_out, amount_in, fee_bps);
}

/// Law: a fee within the cap (at most 100%) never exceeds the deposit, so a
/// swap never fails with `Underflow` then.
pub proof fn lemma_fee_within_cap(amount_in: u64, fee_bps: u16)
    requires
        fee_bps <= MAX_FEE_BPS,
    ensures
        0 <= swap_fee(amount_in, fee_bps) <= amount_in,
{
    let a = amount_in as int;
    let f = fee_bps as int;
    assert(0 <= a * f) by (nonlinear_arith)
        requires
            a >= 0,
            f >= 0,
    ;
    lemma_div_pos_is_pos(a * f, MAX_FEE_BPS as int);
    lemma_scaled_down(a, f, MAX_FEE_BPS as int);
}

/// `x / d <= y / d'` whenever `x * d' <= y * d` (positive divisors).
proof fn lemma_div_cross_ordered(x: int, d: int, y: int, e: int)
    requires
        x >= 0,
        y >= 0,
        d > 0,
        e > 0,
        x * e <= y * d,
    ensures
        x / d <= y / e,
{
    let q = x / d;
    lemma_fundamental_div_mod(x, d);
    lemma_mod_bound(x, d);
    lemma_fundamental_div_mod(y, e);
    lemma_mod_bound(y, e);
    assert(q * d <= x) by (nonlinear_arith)
        requires
            x == d * q + x % d,
            0 <= x % d,
    ;
    assert(q * d * e <= y * d) by (nonlinear_arith)
        requires
            q * d <= x,
            x * e <= y * d,
            e > 0,
    ;
    assert(q * e <= y) by (nonlinear_arith)
        requires
            q * d * e <= y * d,
            d > 0,
    ;
    assert(q <= y / e) by (nonlinear_arith)
        requires
            q * e <= y,
            y == e * (y / e) + y % e,
            y % e < e,
            e > 0,
    ;
}

/// The net deposit grows with the amount and shrinks with the fee, while
/// the fee is within the cap.
proof fn lemma_net_monotone(a1: u64, a2: u64, f1: u16, f2: u16)
    requires
        a1 <= a2,
        f2 <= f1 <= MAX_FEE_BPS,
    ensures
        swap_net(a1, f1) <= swap_net(a2, f2),
{
    let d = MAX_FEE_BPS as int;
    let x1 = a1 as int;
    let x2 = a2 as int;
    // A lower fee on the same amount takes no more.
    assert(x1 * (f2 as int) <= x1 * (f1 as int)) by (nonlinear_arith)
        requires
            x1 >= 0,
            f2 <= f1,
    ;
    lemma_div_is_ordered(x1 * (f2 as int), x1 * (f1 as int), d);
    // A larger amount takes at most the difference more.
    assert(x2 * (f2 as int) <= x1 * (f2 as int) + (x2 - x1) * d) by (nonlinear_arith)
        requires
            x1 <= x2,
            0 <= f2 <= d,
    ;
    assert(0 <= x1 * (f2 as int)) by (nonlinear_arith)
        requires
            x1 >= 0,
            f2 >= 0,
    ;
    lemma_div_is_ordered(x2 * (f2 as int), x1 * (f2 as int) + (x2 - x1) * d, d);
    assert((x1 * (f2 as int) + (x2 - x1) * d) / d == x1 * (f2 as int) / d + (x2 - x1)) by {
        lemma_div_plus_multiple(x1 * (f2 as int), x2 - x1, d);
    }
}

/// `x + k * d` divided by `d` is `x / d + k`.
proof fn lemma_div_plus_multiple(x: int, k: int, d: int)
    requires
        x >= 0,
        k >= 0,
        d > 0,
    ensures
        (x + k * d) / d == x / d + k,
{
    lemma_fundamental_div_mod(x, d);
    lemma_mod_bound(x, d);
    lemma_fundamental_div_mod(x + k * d, d);
    lemma_mod_bound(x + k * d, d);
    assert((x + k * d) / d == x / d + k) by (nonlinear_arith)
        requires
            x == d * (x / d) + x % d,
            0 <= x % d < d,
            x + k * d == d * ((x + k * d) / d) + (x + k * d) % d,
            0 <= (x + k * d) % d < d,
            d > 0,
    ;
}

/// Law: more input, or a lower fee (within the cap), never yields less swap
/// output from the same reserves.
pub proof fn lemma_swap_output_monotone(
    reserve_in: u64,
    reserve_out: u64,
    a1: u64,
    a2: u64,
    f1: u16,
    f2: u16,
    min_out: u64,
)
    requires
        reserve_in > 0,
        reserve_out > 0,
        a1 <= a2,
        f2 <= f1 <= MAX_FEE_BPS,
    ensures
        swap_output(reserve_in, reserve_out, a1, f1) <= swap_output(reserve_in, reserve_out, a2, f2),
        swap_outcome(reserve_in, reserve_out, a1, f1, min_out) is Ok && swap_outcome(
            reserve_in,
            reserve_out,
            a2,
            f2,
            min_out,
        ) is Ok ==> swap_outcome(reserve_in, reserve_out, a1, f1, min_out)->Ok_0.withdraw
            <= swap_outcome(reserve_in, reserve_out, a2, f2, min_out)->Ok_0.withdraw,
{
    lemma_fee_within_cap(a1, f1);
    lemma_fee_within_cap(a2, f2);
    lemma_net_monotone(a1, a2, f1, f2);
    lemma_swap_ranges(reserve_in, reserve_out, a1, f1);
    lemma_swap_ranges(reserve_in, reserve_out, a2, f2);
    let ri = reserve_in as int;
    let ro = reserve_out as int;
    let n1 = swap_net(a1, f1);
    let n2 = swap_net(a2, f2);
    assert((ro * n1) * (ri + n2) <= (ro * n2) * (ri + n1)) by (nonlinear_arith)
        requires
            0 <= n1 <= n2,
            ri > 0,
            ro > 0,
    ;
    assert(0 <= ro * n1) by (nonlinear_arith)
        requires
            n1 >= 0,
            ro > 0,
    ;
    lemma_div_cross_ordered(ro * n1, ri + n1, ro * n2, ri + n2);
}

/// One Newton step never falls below the integer square root: for any
/// `x >= 1`, `y = (x + n / x) / 2` has `(y + 1) * (y + 1) > n`.
proof fn lemma_newton_step_stays_above(n: int, x: int)
    requires
        n >= 0,
        x >= 1,
    ensures
        ((x + n / x) / 2 + 1) * ((x + n / x) / 2 + 1) > n,
        n >= 1 ==> (x + n / x) / 2 >= 1,
{
    let q = n / x;
    let y = (x + q) / 2;
    let t = y + 1;
    lemma_fundamental_div_mod(n, x);
    lemma_mod_bound(n, x);
    lemma_div_pos_is_pos(n, x);
    assert(n < x * (q + 1)) by (nonlinear_arith)
        requires
            n == x * q + n % x,
            n % x < x,
    ;
    if t * t <= n {
        assert(x + q <= 2 * t - 1);
        assert(x * (q + 1) <= x * (2 * t - x)) by (nonlinear_arith)
            requires
                q + 1 <= 2 * t - x,
                x >= 1,
        ;
        assert(false) by (nonlinear_arith)
            requires
                t * t <= n,
                n < x * (2 * t - x),
        ;
    }
    if x >= 2 {
        assert(y >= 1);
    } else {
        assert(x == 1);
        lemma_div_basics(n);
    }
}

/// `(a + b) / 2`, computed without overflow.
fn half_sum(a: u128, b: u128) -> (r: u128)
    ensures
        r == (a + b) / 2,
{
    a / 2 + b / 2 + (a % 2 + b % 2) / 2
}

/// Integer sqrt via Newton's method.
pub fn integer_sqrt(n: u128) -> (r: u128)
    ensures
        r * r <= n < (r + 1) * (r + 1),
{
    if n == 0 {
        return 0;
    }
    let mut x = n;
    let mut y = half_sum(x, n / x);
    proof {
        lemma_div_by_self(n as int);
        assert(n < (n + 1) * (n + 1)) by (nonlinear_arith)
            requires
                n >= 1,
        ;
    }
    while y < x
        invariant
            1 <= x <= n,
            y == (x + n / x) / 2,
            n < (x + 1) * (x + 1),
        decreases x,
    {
        proof {
            lemma_newton_step_stays_above(n as int, x as int);
        }
        x = y;
        y = half_sum(x, n / x);
    }
    proof {
        let q = n / x;
        lemma_fundamental_div_mod(n as int, x as int);
        lemma_mod_bound(n as int, x as int);
        if x * x > n {
            assert(q < x) by (nonlinear_arith)
                requires
                    n == x * q + n % x,
                    0 <= n % x,
                    x * x > n,
                    x >= 1,
            ;
        }
    }
    x
}

} // verus!
