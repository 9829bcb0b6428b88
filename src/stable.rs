//! The single-hop strategy: hold whichever currency the wallet has most of, and swap
//! it through the pool that hands out the most, when that beats a gain factor.

use vstd::prelude::*;
use crate::pool::{Config, Currency, Pool, PPM};
use crate::price::{PoolPrice, MAX_DECIMALS};
use crate::printer::{
    after_slippage, apply_slippage, decimals_of, lemma_scaled_bound, leg_quote, pools_wf, prices_wf, rescale,
    rescale_exec, LegOrder,
};

verus! {

/// The single-hop engine: the balance it holds, in which currency, and the pools.
pub struct StablePrinter {
    pub money: u64,
    pub current_currency: usize,
    pub debug: bool,
    pub currencies: Vec<Currency>,
    pub pools: Vec<Pool>,
}

/// Largest of the first `n` balances, and the first index that holds it; zero and
/// `none` when all of them are zero.
pub open spec fn richest(balances: Seq<u64>, n: int, none: usize) -> (u64, usize)
    decreases n,
{
    if n <= 0 {
        (0, none)
    } else {
        let prev = richest(balances, n - 1, none);
        if balances[n - 1] > prev.0 { (balances[n - 1], (n - 1) as usize) } else { prev }
    }
}

/// Best single swap found among the legs `0 .. k` (leg `2 * i + w` is pool `i`
/// entered through leg `w`), starting from `(best output, best output rescaled,
/// pool, direction)`: legs entered with `currency` whose snapshot is sane, compared by
/// their output net of slippage; the first of equal outputs is kept.
pub open spec fn best_swap_scan(
    currencies: Seq<Currency>,
    pools: Seq<Pool>,
    prices: Seq<PoolPrice>,
    slippage_ppm: nat,
    currency: usize,
    gamble: u64,
    k: int,
) -> (nat, nat, usize, usize)
    decreases k,
{
    if k <= 0 {
        (gamble as nat, gamble as nat, pools.len() as usize, 2)
    } else {
        let prev = best_swap_scan(currencies, pools, prices, slippage_ppm, currency, gamble, k - 1);
        let i = (k - 1) / 2;
        let w = (k - 1) % 2;
        let pool = pools[i];
        if pool.currency(w) != currency || !prices[i].sanity {
            prev
        } else {
            let out_n = after_slippage(leg_quote(pools, prices, (i as usize, w as usize), gamble as nat).0 as nat, slippage_ppm);
            let da = decimals_of(currencies, currency);
            let db = decimals_of(currencies, pool.currency(1 - w));
            let out = if da != db { rescale(out_n, da, db) } else { out_n };
            if out_n > prev.0 { (out_n, out, i as usize, w as usize) } else { prev }
        }
    }
}

impl StablePrinter {
    /// Pools name known currencies, precisions are within bounds, and the held
    /// currency is one of them.
    pub open spec fn wf(&self) -> bool {
        &&& pools_wf(self.currencies@, self.pools@)
        &&& self.current_currency < self.currencies.len()
    }

    /// Sets up the engine from the wallet's balance in each currency.
    pub fn init(currencies: Vec<Currency>, pools: Vec<Pool>, debug: bool, balances: &Vec<u64>) -> (r: StablePrinter)
        requires
            balances.len() == currencies.len(),
            pools.len() < usize::MAX,
        ensures
            r.debug == debug,
            r.currencies == currencies,
            r.pools == pools,
            (r.money, r.current_currency) == richest(balances@, balances.len() as int, (pools.len() + 1) as usize),
    {
        let mut res = StablePrinter {
            money: 0,
            current_currency: pools.len() + 1,
            debug,
            currencies,
            pools,
        };
        res.recompute_balance(balances);
        res
    }

    /// Holds the currency the wallet has most of (the first such), with that balance;
    /// with nothing anywhere, a balance of zero in no currency (one past the pools).
    pub fn recompute_balance(&mut self, balances: &Vec<u64>)
        requires
            balances.len() == old(self).currencies.len(),
            old(self).pools.len() < usize::MAX,
        ensures
            (final(self).money, final(self).current_currency)
                == richest(balances@, balances.len() as int, (old(self).pools.len() + 1) as usize),
            final(self).currencies == old(self).currencies,
            final(self).pools == old(self).pools,
            final(self).debug == old(self).debug,
    {
        let none = self.pools.len() + 1;
        let mut max_money: u64 = 0;
        let mut argmax: usize = none;
        let mut i: usize = 0;
        while i < balances.len()
            invariant
                i <= balances.len(),
                (max_money, argmax) == richest(balances@, i as int, none),
            decreases balances.len() - i,
        {
            if balances[i] > max_money {
                max_money = balances[i];
                argmax = i;
            }
            i = i + 1;
        }
        self.current_currency = argmax;
        self.money = max_money;
    }

    /// The most the engine may risk: the safety fraction of the balance, rounded down.
    pub fn get_gamble_money(&self, config: &Config) -> (r: u64)
        requires
            config.wf(),
        ensures
            r == self.money as int * config.safety_ppm as int / PPM as int,
    {
        let m = self.money as u128;
        let s = config.safety_ppm as u128;
        assert(m * s <= u64::MAX as int * 1_000_000) by (nonlinear_arith)
            requires m <= u64::MAX, s <= 1_000_000;
        assert(m * s / 1_000_000 <= m) by (nonlinear_arith)
            requires s <= 1_000_000;
        (m * s / (PPM as u128)) as u64
    }

    /// The swap to make, if any: the best single swap out of the held currency (see
    /// `best_swap_scan`), when its output net of slippage exceeds the trade size times
    /// the gain factor; it asks for at least that output, in the output's precision.
    pub fn choose_swap(&self, config: &Config, prices: &Vec<PoolPrice>) -> (r: Option<LegOrder>)
        requires
            self.wf(),
            config.wf(),
            prices_wf(self.pools.len() as nat, prices@),
            self.pools.len() * 2 <= usize::MAX,
        ensures
            ({
                let gamble = self.money as int * config.safety_ppm as int / PPM as int;
                let best = best_swap_scan(self.currencies@, self.pools@, prices@, config.slippage_ppm as nat,
                    self.current_currency, gamble as u64, 2 * self.pools.len());
                if best.2 < self.pools.len() && best.0 > gamble * config.minimum_gain_ppm as int / PPM as int {
                    r == Some(LegOrder {
                        pool: best.2,
                        direction: best.3,
                        amount_in: gamble as u128,
                        minimum_amount_out: best.1 as u128,
                    })
                } else {
                    r is None
                }
            }),
    {
        let gamble_money = self.get_gamble_money(config);
        let decs_a = self.currencies[self.current_currency].decimals;
        let mut max_value_n: u128 = gamble_money as u128;
        let mut max_value: u128 = gamble_money as u128;
        let mut arg_max: usize = self.pools.len();
        let mut arg_max_dir: usize = 2;
        let mut k: usize = 0;
        while k < 2 * self.pools.len()
            invariant
                self.wf(),
                config.wf(),
                prices_wf(self.pools.len() as nat, prices@),
                self.pools.len() * 2 <= usize::MAX,
                k <= 2 * self.pools.len(),
                decs_a == self.currencies@[self.current_currency as int].decimals,
                (max_value_n as nat, max_value as nat, arg_max, arg_max_dir) == best_swap_scan(self.currencies@, self.pools@,
                    prices@, config.slippage_ppm as nat, self.current_currency, gamble_money, k as int),
            decreases 2 * self.pools.len() - k,
        {
            let i = k / 2;
            let w = k % 2;
            proof {
                assert(self.pools@[i as int].currency(w as int) < self.currencies.len());
                assert(self.pools@[i as int].currency(1 - w as int) < self.currencies.len());
                assert(prices@[i as int].wf());
            }
            let pool = &self.pools[i];
            if pool.get_currency(w).currency_idx == self.current_currency {
                let pool_price = prices[i];
                if pool_price.sanity {
                    let b_idx = pool.get_currency(1 - w).currency_idx;
                    let decs_b = self.currencies[b_idx].decimals;
                    let (toys_out, _) = pool_price.swap(gamble_money as u128, w, pool);
                    proof {
                        lemma_scaled_bound(pool_price, 1 - w as int);
                    }
                    let toys_out_n = apply_slippage(toys_out, config.slippage_ppm);
                    let toys_out_r = if decs_a != decs_b { rescale_exec(toys_out_n, decs_a, decs_b) } else { toys_out_n };
                    if toys_out_n > max_value_n {
                        max_value_n = toys_out_n;
                        max_value = toys_out_r;
                        arg_max = i;
                        arg_max_dir = w;
                    }
                }
            }
            k = k + 1;
        }
        let g = gamble_money as u128;
        let p = config.minimum_gain_ppm as u128;
        assert(g * p <= u64::MAX as int * u64::MAX as int) by (nonlinear_arith)
            requires g <= u64::MAX, p <= u64::MAX;
        if arg_max < self.pools.len() && max_value_n > g * p / (PPM as u128) {
            Some(LegOrder { pool: arg_max, direction: arg_max_dir, amount_in: g, minimum_amount_out: max_value })
        } else {
            None
        }
    }
}

} // verus!
