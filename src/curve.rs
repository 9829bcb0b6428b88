//! Curve model: what a pool hands out for a given input.

use vstd::prelude::*;
use vstd::arithmetic::div_mod::lemma_fundamental_div_mod;
use spl_token_swap::curve::base::{CurveType as SplCurveType, SwapCurve};
use spl_token_swap::curve::calculator::TradeDirection;
use spl_token_swap::curve::fees::Fees;
use spl_token_swap::curve::stable::StableCurve;

verus! {

/// The invariant a pool trades along.
#[derive(Clone, Copy, Debug, PartialEq, Eq, Structural)]
pub enum CurveType {
    /// Stable-swap invariant with the given amplification coefficient.
    Stable(u64),
    /// `x * y = k`.
    ConstantProduct,
}

/// Trade and owner fee of a pool, each a numerator over a denominator.
#[derive(Clone, Copy, Debug, PartialEq, Eq, Structural)]
pub struct FeeSchedule {
    pub trade_fee_numerator: u64,
    pub trade_fee_denominator: u64,
    pub owner_trade_fee_numerator: u64,
    pub owner_trade_fee_denominator: u64,
}

/// Fee charged on `amount`: nothing on a zero fee or a zero amount, otherwise
/// `amount * num / den` rounded down but at least one unit; undefined when the
/// product leaves `u128` or the denominator is zero.
pub open spec fn fee_on(amount: int, num: int, den: int) -> Option<int> {
    if num == 0 || amount == 0 {
        Some(0)
    } else if amount * num > u128::MAX || den == 0 {
        None
    } else if amount * num / den == 0 {
        Some(1)
    } else {
        Some(amount * num / den)
    }
}

/// Division rounded up, together with the smallest divisor that still gives that
/// quotient; undefined when the plain quotient is zero.
pub open spec fn ceil_div(x: int, y: int) -> Option<(int, int)> {
    if y == 0 || x / y == 0 {
        None
    } else if x % y == 0 {
        Some((x / y, y))
    } else {
        let q = x / y + 1;
        Some((q, if x % q == 0 { x / q } else { x / q + 1 }))
    }
}

/// Constant-product exchange without fees, as `(consumed, out)`.
pub open spec fn product_swap_without_fees(amount: int, rin: int, rout: int) -> Option<(int, int)> {
    if rin * rout > u128::MAX || rin + amount > u128::MAX {
        None
    } else {
        match ceil_div(rin * rout, rin + amount) {
            None => None,
            Some((new_out, new_in)) => {
                if new_in < rin || rout - new_out <= 0 {
                    None
                } else {
                    Some((new_in - rin, rout - new_out))
                }
            },
        }
    }
}

/// Constant-product exchange net of fees, as `(out, consumed)`; `consumed`
/// includes the fees.
pub open spec fn product_swap(fees: FeeSchedule, amount: int, rin: int, rout: int) -> Option<(int, int)> {
    let trade = fee_on(amount, fees.trade_fee_numerator as int, fees.trade_fee_denominator as int);
    let owner = fee_on(amount, fees.owner_trade_fee_numerator as int, fees.owner_trade_fee_denominator as int);
    if trade.is_none() || owner.is_none() {
        None
    } else {
        let total = trade.unwrap() + owner.unwrap();
        if total > u128::MAX || total > amount {
            None
        } else {
            match product_swap_without_fees(amount - total, rin, rout) {
                None => None,
                Some((consumed, out)) => {
                    if consumed + total > u128::MAX || rin + consumed + total > u128::MAX {
                        None
                    } else {
                        Some((out, consumed + total))
                    }
                },
            }
        }
    }
}

/// What spl-token-swap's stable curve hands out, as `(out, consumed)`.
pub uninterp spec fn stable_swap_result(
    amp: u64,
    trade_num: u64,
    trade_den: u64,
    owner_num: u64,
    owner_den: u64,
    amount: u128,
    rin: u128,
    rout: u128,
) -> Option<(u128, u128)>;

/// What a pool with `curve` and `fees` hands out for `amount`, as `(out, consumed)`,
/// or `None` where the curve library refuses the trade.
pub open spec fn swap_outcome(curve: CurveType, fees: FeeSchedule, amount: u128, rin: u128, rout: u128) -> Option<(u128, u128)> {
    match curve {
        CurveType::ConstantProduct => match product_swap(fees, amount as int, rin as int, rout as int) {
            None => None,
            Some((out, consumed)) => Some((out as u128, consumed as u128)),
        },
        CurveType::Stable(amp) => stable_swap_result(
            amp,
            fees.trade_fee_numerator,
            fees.trade_fee_denominator,
            fees.owner_trade_fee_numerator,
            fees.owner_trade_fee_denominator,
            amount,
            rin,
            rout,
        ),
    }
}

/// Relies on spl_token_swap's `SwapCurve::swap` over the default (constant-product)
/// calculator: fees are taken from the input first, then `x * y = k` is solved with
/// the new destination reserve rounded up; `None` on overflow or a zero output.
#[verifier::external_body]
fn product_curve_swap(fees: &FeeSchedule, amount: u128, rin: u128, rout: u128) -> (r: Option<(u128, u128)>)
    ensures
        r == swap_outcome(CurveType::ConstantProduct, *fees, amount, rin, rout),
{
    let f = Fees {
        trade_fee_numerator: fees.trade_fee_numerator,
        trade_fee_denominator: fees.trade_fee_denominator,
        owner_trade_fee_numerator: fees.owner_trade_fee_numerator,
        owner_trade_fee_denominator: fees.owner_trade_fee_denominator,
        owner_withdraw_fee_numerator: 0,
        owner_withdraw_fee_denominator: 0,
        host_fee_numerator: 0,
        host_fee_denominator: 0,
    };
    let r = SwapCurve::default().swap(amount, rin, rout, TradeDirection::AtoB, &f);
    r.map(|s| (s.destination_amount_swapped, s.source_amount_swapped))
}

/// Relies on spl_token_swap's `SwapCurve::swap` over `StableCurve { amp }`: the
/// result depends on the arguments alone; the destination reserve covers what is
/// handed out (the call subtracts it from the reserve, checked); the whole input is
/// consumed (the curve swaps all of it, fees added back); and a zero reserve on one
/// side only is refused (the invariant divides by each reserve).
#[verifier::external_body]
fn stable_curve_swap(amp: u64, fees: &FeeSchedule, amount: u128, rin: u128, rout: u128) -> (r: Option<(u128, u128)>)
    ensures
        r == stable_swap_result(
            amp,
            fees.trade_fee_numerator,
            fees.trade_fee_denominator,
            fees.owner_trade_fee_numerator,
            fees.owner_trade_fee_denominator,
            amount,
            rin,
            rout,
        ),
        r matches Some(v) ==> v.0 <= rout && v.1 == amount,
        (rin == 0) != (rout == 0) ==> r is None,
{
    let f = Fees {
        trade_fee_numerator: fees.trade_fee_numerator,
        trade_fee_denominator: fees.trade_fee_denominator,
        owner_trade_fee_numerator: fees.owner_trade_fee_numerator,
        owner_trade_fee_denominator: fees.owner_trade_fee_denominator,
        owner_withdraw_fee_numerator: 0,
        owner_withdraw_fee_denominator: 0,
        host_fee_numerator: 0,
        host_fee_denominator: 0,
    };
    let c = SwapCurve { curve_type: SplCurveType::Stable, calculator: Box::new(StableCurve { amp }) };
    let r = c.swap(amount, rin, rout, TradeDirection::AtoB, &f);
    r.map(|s| (s.destination_amount_swapped, s.source_amount_swapped))
}

/// What a swap of `amount_in` against reserves `(reserve_in, reserve_out)` hands out,
/// as `(amount_out, amount_consumed)`; `(0, 0)` where the curve refuses the trade
/// (zero reserves, overflow, nothing to hand out).
pub open spec fn predicted_swap(curve: CurveType, fees: FeeSchedule, amount_in: u128, reserve_in: u128, reserve_out: u128) -> (u128, u128) {
    match swap_outcome(curve, fees, amount_in, reserve_in, reserve_out) {
        Some(r) => r,
        None => (0, 0),
    }
}

/// Predicts a swap on the given curve.
pub fn predict_swap(curve: CurveType, fees: &FeeSchedule, amount_in: u128, reserve_in: u128, reserve_out: u128) -> (r: (u128, u128))
    ensures
        r == predicted_swap(curve, *fees, amount_in, reserve_in, reserve_out),
        r.0 <= reserve_out,
{
    let outcome = match curve {
        CurveType::ConstantProduct => product_curve_swap(fees, amount_in, reserve_in, reserve_out),
        CurveType::Stable(amp) => stable_curve_swap(amp, fees, amount_in, reserve_in, reserve_out),
    };
    match outcome {
        Some(r) => r,
        None => (0, 0),
    }
}

/// Without fees, a constant-product swap keeps the invariant up to rounding: the
/// reserves after the trade multiply to at least what they did before, and to less
/// than that plus the new destination reserve.
pub proof fn lemma_product_invariant(fees: FeeSchedule, amount: int, rin: int, rout: int)
    requires
        fees.trade_fee_numerator == 0,
        fees.owner_trade_fee_numerator == 0,
        0 <= amount,
        0 <= rin,
        0 <= rout,
    ensures
        product_swap(fees, amount, rin, rout) matches Some((out, consumed)) ==> {
            &&& rin * rout <= (rin + consumed) * (rout - out)
            &&& (rin + consumed) * (rout - out) < rin * rout + (rout - out)
        },
{
    if let Some((out, consumed)) = product_swap(fees, amount, rin, rout) {
        let x = rin * rout;
        let y = rin + amount;
        assert(rin * rout >= 0) by (nonlinear_arith)
            requires rin >= 0, rout >= 0;
        let (nd, ns) = ceil_div(x, y).unwrap();
        assert(rin + consumed == ns);
        assert(rout - out == nd);
        lemma_fundamental_div_mod(x, y);
        if x % y == 0 {
            assert(ns * nd == x) by (nonlinear_arith)
                requires x == y * (x / y) + x % y, x % y == 0, ns == y, nd == x / y;
        } else {
            let q = x / y + 1;
            assert(q > 0);
            lemma_fundamental_div_mod(x, q);
            assert(0 <= x % q < q);
            if x % q == 0 {
                assert(ns * nd == x) by (nonlinear_arith)
                    requires x == q * (x / q) + x % q, x % q == 0, ns == x / q, nd == q;
            } else {
                assert(x < ns * nd < x + nd) by (nonlinear_arith)
                    requires x == q * (x / q) + x % q, 0 < x % q < q, ns == x / q + 1, nd == q;
            }
        }
    }
}

} // verus!
