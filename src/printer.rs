//! Pricing of cycles: direct simulation through the price cache, the choice of the
//! trade size, and the per-leg plan of an execution.

use vstd::prelude::*;
use crate::curve::predicted_swap;
use crate::pool::{Config, Currency, Cycle, Pool, PPM};
use crate::price::{lemma_pow10_bounds, pow10, power_of_ten, PoolPrice, MAX_DECIMALS};

verus! {

/// The arbitrage engine's static data: the wallet balance it trades from, the
/// currencies, the pools and the cycles through them.
pub struct Printer {
    pub money: u64,
    pub debug: bool,
    pub currencies: Vec<Currency>,
    pub pools: Vec<Pool>,
    pub cycles: Vec<Cycle>,
}

/// Every pool's two legs are different currencies of `currencies`, and every precision
/// is within bounds.
pub open spec fn pools_wf(currencies: Seq<Currency>, pools: Seq<Pool>) -> bool {
    &&& forall|p: int| 0 <= p < pools.len() ==> (#[trigger] pools[p]).wf()
    &&& forall|c: int| 0 <= c < currencies.len() ==> (#[trigger] currencies[c]).decimals <= MAX_DECIMALS
    &&& forall|p: int, d: int| 0 <= p < pools.len() && 0 <= d < 2 ==> (#[trigger] pools[p].currency(d)) < currencies.len()
}

/// Every leg of the path names a pool of `pools` and one of its two legs.
pub open spec fn path_wf(npools: nat, path: Seq<(usize, usize)>) -> bool {
    forall|k: int| 0 <= k < path.len() ==> (#[trigger] path[k]).0 < npools && path[k].1 < 2
}

/// One snapshot per pool, each well formed.
pub open spec fn prices_wf(npools: nat, prices: Seq<PoolPrice>) -> bool {
    &&& prices.len() == npools
    &&& forall|p: int| 0 <= p < prices.len() ==> (#[trigger] prices[p]).wf()
}

/// `x` taken from `from` to `to` decimal digits: multiplied up (saturating at the
/// largest `u128`) or divided down.
pub open spec fn rescale(x: nat, from: nat, to: nat) -> nat {
    if to >= from {
        let v = x * pow10((to - from) as nat);
        if v > u128::MAX { u128::MAX as nat } else { v }
    } else {
        x / pow10((from - to) as nat)
    }
}

/// What is left of `x` after the slippage margin, rounded down.
pub open spec fn after_slippage(x: nat, slippage_ppm: nat) -> nat {
    x * ((PPM - slippage_ppm) as nat) / (PPM as nat)
}

/// Precision of currency `c`.
pub open spec fn decimals_of(currencies: Seq<Currency>, c: usize) -> nat {
    currencies[c as int].decimals as nat
}

/// Quote of leg `leg` for `toys` against the cached reserves.
pub open spec fn leg_quote(pools: Seq<Pool>, prices: Seq<PoolPrice>, leg: (usize, usize), toys: nat) -> (u128, u128) {
    let pool = pools[leg.0 as int];
    let pp = prices[leg.0 as int];
    predicted_swap(
        pool.curve_spec(),
        pool.fees_spec(),
        toys as u128,
        pp.scaled_reserve(leg.1 as int) as u128,
        pp.scaled_reserve(1 - leg.1 as int) as u128,
    )
}

/// What runs on from leg `k` with `toys` in hand, the amounts so far counted in
/// `decs` digits (zero: not yet known): each leg's quote net of slippage, taken to the
/// precision of its output currency; zero as soon as a leg's snapshot is not sane.
pub open spec fn potential_from(
    currencies: Seq<Currency>,
    pools: Seq<Pool>,
    prices: Seq<PoolPrice>,
    slippage_ppm: nat,
    path: Seq<(usize, usize)>,
    k: int,
    toys: nat,
    decs: nat,
) -> nat
    decreases path.len() - k,
{
    if k < 0 || k >= path.len() {
        toys
    } else {
        let leg = path[k];
        if !prices[leg.0 as int].sanity {
            0
        } else {
            let ndecs = decimals_of(currencies, pools[leg.0 as int].currency(1 - leg.1 as int));
            let d = if decs == 0 { decimals_of(currencies, pools[leg.0 as int].currency(leg.1 as int)) } else { decs };
            let out = after_slippage(leg_quote(pools, prices, leg, toys).0 as nat, slippage_ppm);
            let next = if d != 0 && d != ndecs { rescale(out, d, ndecs) } else { out };
            potential_from(currencies, pools, prices, slippage_ppm, path, k + 1, next, ndecs)
        }
    }
}

/// One swap of an execution bundle: the pool, its input leg, the amount put in and
/// the least output accepted.
#[derive(Clone, Copy, Debug, PartialEq, Eq, Structural)]
pub struct LegOrder {
    pub pool: usize,
    pub direction: usize,
    pub amount_in: u128,
    pub minimum_amount_out: u128,
}

/// The orders of an execution from leg `k` on, with `toys` in hand counted in `decs`
/// digits (zero: not yet known). Each leg puts in what the simulation of the previous
/// legs hands on (net of slippage, in the output currency's precision); only the last
/// leg asks for a minimum output, the original size `gamble`. Planning stops before a
/// leg whose quote would consume more than is put in.
pub open spec fn plan_from(
    currencies: Seq<Currency>,
    pools: Seq<Pool>,
    prices: Seq<PoolPrice>,
    slippage_ppm: nat,
    path: Seq<(usize, usize)>,
    gamble: u64,
    k: int,
    toys: nat,
    decs: nat,
) -> Seq<LegOrder>
    decreases path.len() - k,
{
    if k < 0 || k >= path.len() {
        Seq::empty()
    } else {
        let leg = path[k];
        let ndecs = decimals_of(currencies, pools[leg.0 as int].currency(1 - leg.1 as int));
        let d = if decs == 0 { decimals_of(currencies, pools[leg.0 as int].currency(leg.1 as int)) } else { decs };
        let q = leg_quote(pools, prices, leg, toys);
        if q.1 > toys {
            Seq::empty()
        } else {
            let out = after_slippage(q.0 as nat, slippage_ppm);
            let next = if d != 0 && d != ndecs { rescale(out, d, ndecs) } else { out };
            let order = LegOrder {
                pool: leg.0,
                direction: leg.1,
                amount_in: toys as u128,
                minimum_amount_out: if k + 1 < path.len() { 0 } else { gamble as u128 },
            };
            seq![order] + plan_from(currencies, pools, prices, slippage_ppm, path, gamble, k + 1, next, ndecs)
        }
    }
}

/// `x` times `(PPM - slippage)` over `PPM`, for an `x` of at most a reserve's size.
pub(crate) fn apply_slippage(x: u128, slippage_ppm: u64) -> (r: u128)
    requires
        slippage_ppm <= PPM,
        x <= u64::MAX as int * 1_000_000_000_000,
    ensures
        r == after_slippage(x as nat, slippage_ppm as nat),
{
    let keep = (PPM - slippage_ppm) as u128;
    assert(x * keep <= u64::MAX as int * 1_000_000_000_000 * 1_000_000) by (nonlinear_arith)
        requires x <= u64::MAX as int * 1_000_000_000_000, keep <= 1_000_000;
    x * keep / (PPM as u128)
}

/// `x` taken from `from` to `to` decimal digits.
pub(crate) fn rescale_exec(x: u128, from: u8, to: u8) -> (r: u128)
    requires
        from <= MAX_DECIMALS,
        to <= MAX_DECIMALS,
    ensures
        r == rescale(x as nat, from as nat, to as nat),
{
    if to >= from {
        let f = power_of_ten(to - from);
        match x.checked_mul(f) {
            Some(v) => v,
            None => u128::MAX,
        }
    } else {
        let f = power_of_ten(from - to);
        proof {
            lemma_pow10_bounds((from - to) as nat);
        }
        x / f
    }
}

impl Printer {
    /// Pools name known currencies, precisions are within bounds, and every cycle's
    /// legs name pools.
    pub open spec fn wf(&self) -> bool {
        &&& pools_wf(self.currencies@, self.pools@)
        &&& forall|c: int| 0 <= c < self.cycles.len() ==> path_wf(self.pools.len() as nat, (#[trigger] self.cycles[c]).path@)
    }

    /// Sets up the engine over a wallet balance of `money` raw units.
    pub fn init(money: u64, currencies: Vec<Currency>, pools: Vec<Pool>, cycles: Vec<Cycle>, debug: bool) -> (r: Printer)
        ensures
            r == (Printer { money, debug, currencies, pools, cycles }),
    {
        Printer { money, debug, currencies, pools, cycles }
    }

    /// The most the engine may risk: the safety fraction of the balance, rounded down.
    pub fn get_gamble_money(&self, config: &Config) -> (r: u64)
        requires
            config.wf(),
        ensures
            r == self.money as int * config.safety_ppm as int / PPM as int,
    {
        let m = self.money as u128;
        let s = config.safety_ppm as u128;
        assert(m * s <= u64::MAX as int * 1_000_000) by (nonlinear_arith)
            requires m <= u64::MAX, s <= 1_000_000;
        assert(m * s / 1_000_000 <= m) by (nonlinear_arith)
            requires s <= 1_000_000;
        (m * s / (PPM as u128)) as u64
    }

    /// The trade size to try, from `optimum`, the unscaled closed-form optimum rounded
    /// down. A negative optimum (no profitable size) gives the safety bound. Otherwise
    /// the optimum is scaled by the greed fraction (rounding down); where that falls
    /// below the minimum trade or above the safety bound, the safety bound instead.
    pub fn get_best_gamble_money(&self, config: &Config, optimum: i64) -> (r: u64)
        requires
            config.wf(),
        ensures
            ({
                let max = self.money as int * config.safety_ppm as int / PPM as int;
                let g = greedy_size(optimum as int, config.greed_ppm as int);
                r == (if optimum < 0 || g < config.minimum_money || g > max { max } else { g })
            }),
    {
        let max_gamble_money = self.get_gamble_money(config);
        if optimum < 0 {
            return max_gamble_money;
        }
        let g = scale_by_greed(optimum as u64, config.greed_ppm);
        if g < config.minimum_money || g > max_gamble_money {
            max_gamble_money
        } else {
            g
        }
    }

    /// Output of the cycle for an input of `gamble_money`, simulated leg by leg through
    /// the price cache (see `potential_from`); zero if a leg's snapshot is not sane.
    pub fn compute_potential(&self, config: &Config, cycle: &Cycle, pool_prices: &Vec<PoolPrice>, gamble_money: u64) -> (r: u128)
        requires
            self.wf(),
            config.wf(),
            path_wf(self.pools.len() as nat, cycle.path@),
            prices_wf(self.pools.len() as nat, pool_prices@),
        ensures
            r == potential_from(self.currencies@, self.pools@, pool_prices@, config.slippage_ppm as nat, cycle.path@, 0, gamble_money as nat, 0),
    {
        let path = &cycle.path;
        let mut toys_in: u128 = gamble_money as u128;
        let mut decs: u8 = 0;
        let mut i: usize = 0;
        while i < path.len()
            invariant
                self.wf(),
                config.wf(),
                path == &cycle.path,
                path_wf(self.pools.len() as nat, path@),
                prices_wf(self.pools.len() as nat, pool_prices@),
                i <= path.len(),
                decs <= MAX_DECIMALS,
                potential_from(self.currencies@, self.pools@, pool_prices@, config.slippage_ppm as nat, path@, 0, gamble_money as nat, 0)
                    == potential_from(self.currencies@, self.pools@, pool_prices@, config.slippage_ppm as nat, path@, i as int, toys_in as nat, decs as nat),
            decreases path.len() - i,
        {
            let (curr_pool, dir) = path[i];
            proof {
                assert(path_wf(self.pools.len() as nat, path@));
                assert(path@[i as int].0 < self.pools.len());
            }
            let pool_price = pool_prices[curr_pool];
            if !pool_price.sanity {
                return 0;
            }
            let pool = &self.pools[curr_pool];
            proof {
                assert(pools_wf(self.currencies@, self.pools@));
                assert(self.pools@[curr_pool as int].currency(dir as int) < self.currencies.len());
                assert(self.pools@[curr_pool as int].currency(1 - dir as int) < self.currencies.len());
            }
            let a_idx = pool.get_currency(dir).currency_idx;
            let b_idx = pool.get_currency(1 - dir).currency_idx;
            let ndecs = self.currencies[b_idx].decimals;
            if decs == 0 {
                decs = self.currencies[a_idx].decimals;
            }
            let (toys_out, _) = pool_price.swap(toys_in, dir, pool);
            proof {
                assert(prices_wf(self.pools.len() as nat, pool_prices@));
                assert(pool_prices@[curr_pool as int].wf());
                lemma_scaled_bound(pool_price, 1 - dir as int);
            }
            let toys_out = apply_slippage(toys_out, config.slippage_ppm);
            toys_in = toys_out;
            if decs != 0 && decs != ndecs {
                toys_in = rescale_exec(toys_in, decs, ndecs);
            }
            decs = ndecs;
            i = i + 1;
        }
        toys_in
    }

    /// The swaps that execute `cycle` with `gamble_money` (see `plan_from`).
    pub fn plan_path(&self, config: &Config, cycle: &Cycle, pool_prices: &Vec<PoolPrice>, gamble_money: u64) -> (r: Vec<LegOrder>)
        requires
            self.wf(),
            config.wf(),
            path_wf(self.pools.len() as nat, cycle.path@),
            prices_wf(self.pools.len() as nat, pool_prices@),
        ensures
            r@ == plan_from(self.currencies@, self.pools@, pool_prices@, config.slippage_ppm as nat, cycle.path@,
                gamble_money, 0, gamble_money as nat, 0),
    {
        let path = &cycle.path;
        let mut orders: Vec<LegOrder> = Vec::new();
        let mut toys_in: u128 = gamble_money as u128;
        let mut decs: u8 = 0;
        let mut i: usize = 0;
        while i < path.len()
            invariant
                self.wf(),
                config.wf(),
                path == &cycle.path,
                path_wf(self.pools.len() as nat, path@),
                prices_wf(self.pools.len() as nat, pool_prices@),
                i <= path.len(),
                decs <= MAX_DECIMALS,
                plan_from(self.currencies@, self.pools@, pool_prices@, config.slippage_ppm as nat, path@, gamble_money, 0, gamble_money as nat, 0)
                    == orders@ + plan_from(self.currencies@, self.pools@, pool_prices@, config.slippage_ppm as nat, path@, gamble_money,
                        i as int, toys_in as nat, decs as nat),
            decreases path.len() - i,
        {
            let (curr_pool, dir) = path[i];
            proof {
                assert(path@[i as int].0 < self.pools.len());
                assert(pools_wf(self.currencies@, self.pools@));
                assert(self.pools@[curr_pool as int].currency(dir as int) < self.currencies.len());
                assert(self.pools@[curr_pool as int].currency(1 - dir as int) < self.currencies.len());
                assert(pool_prices@[curr_pool as int].wf());
            }
            let pool_price = pool_prices[curr_pool];
            let pool = &self.pools[curr_pool];
            let a_idx = pool.get_currency(dir).currency_idx;
            let b_idx = pool.get_currency(1 - dir).currency_idx;
            let ndecs = self.currencies[b_idx].decimals;
            if decs == 0 {
                decs = self.currencies[a_idx].decimals;
            }
            let (toys_out, traded) = pool_price.swap(toys_in, dir, pool);
            if traded > toys_in {
                proof {
                    assert(orders@ + Seq::<LegOrder>::empty() =~= orders@);
                }
                return orders;
            }
            proof {
                lemma_scaled_bound(pool_price, 1 - dir as int);
            }
            let toys_out = apply_slippage(toys_out, config.slippage_ppm);
            let mut nout = toys_out;
            if decs != 0 && decs != ndecs {
                nout = rescale_exec(nout, decs, ndecs);
            }
            let out: u128 = if i + 1 < path.len() { 0 } else { gamble_money as u128 };
            let order = LegOrder { pool: curr_pool, direction: dir, amount_in: toys_in, minimum_amount_out: out };
            let ghost before = orders@;
            orders.push(order);
            proof {
                let rest = plan_from(self.currencies@, self.pools@, pool_prices@, config.slippage_ppm as nat, path@, gamble_money,
                    i + 1, nout as nat, ndecs as nat);
                assert(before + (seq![order] + rest) =~= orders@ + rest);
            }
            toys_in = nout;
            decs = ndecs;
            i = i + 1;
        }
        proof {
            assert(orders@ + Seq::<LegOrder>::empty() =~= orders@);
        }
        orders
    }
}

/// A scaled reserve fits in a `u64` amount times the largest power of ten.
pub proof fn lemma_scaled_bound(pp: PoolPrice, d: int)
    requires
        pp.wf(),
        0 <= d < 2,
    ensures
        pp.scaled_reserve(d) <= u64::MAX as int * 1_000_000_000_000,
{
    let common = if pp.decimals(0) >= pp.decimals(1) { pp.decimals(0) } else { pp.decimals(1) };
    lemma_pow10_bounds((common - pp.decimals(d)) as nat);
    let a = pp.amount(d) as nat;
    let f = pow10((common - pp.decimals(d)) as nat);
    assert(a * f <= u64::MAX as int * 1_000_000_000_000) by (nonlinear_arith)
        requires a <= u64::MAX, f <= 1_000_000_000_000;
}

/// A non-negative `optimum` times the greed fraction, rounded down.
pub open spec fn greedy_size(optimum: int, greed_ppm: int) -> int {
    optimum * greed_ppm / (PPM as int)
}

fn scale_by_greed(optimum: u64, greed_ppm: u64) -> (r: u64)
    requires
        greed_ppm <= PPM,
    ensures
        r == greedy_size(optimum as int, greed_ppm as int),
{
    let o = optimum as u128;
    let g = greed_ppm as u128;
    assert(o * g <= u64::MAX as int * 1_000_000) by (nonlinear_arith)
        requires o <= u64::MAX, g <= 1_000_000;
    assert(o * g / 1_000_000 <= o) by (nonlinear_arith)
        requires g <= 1_000_000;
    (o * g / 1_000_000) as u64
}

} // verus!
