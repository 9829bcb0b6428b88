//! The recompute scheduler: reacts to reserve updates, marks the cycles they touch,
//! and decides per cycle whether to recompute, to fire again on cached values, or to
//! rest. The caller runs the loop: it feeds events, asks for a pass, and executes the
//! requests that come back.

use vstd::prelude::*;
use bit_vec::BitVec;
use crate::bits::{bit_at, bits_of, new_bits, or_bits, set_bit};
use crate::cycles::{path_has_pool, uses_pool};
use crate::pool::{Config, Pool, PPM};
use crate::price::PoolPrice;
use crate::printer::{greedy_size, path_wf, potential_from, prices_wf, Printer};

verus! {

/// Per-cycle cached decisions and the static pool-to-cycle dependency map.
pub struct Scheduler {
    pub cycle_cooldown: Vec<u64>,
    pub cycle_gain: Vec<u128>,
    pub cycle_money: Vec<u64>,
    pub cycle_needs_update: BitVec,
    pub pool_update: Vec<BitVec>,
}

/// Whether a cached decision is worth executing: the size reaches the minimum trade
/// and the predicted output exceeds it by more than the minimum gain.
pub open spec fn profitable(config: Config, money: int, gain: int) -> bool {
    money >= config.minimum_money && gain > money + config.minimum_gain
}

/// Records a new reserve for leg `leg` of pool `pool` in the price cache: token-swap
/// pools only, and only their two reserve legs; anything else leaves the cache as it is.
pub fn record_reserve(pools: &Vec<Pool>, prices: &mut Vec<PoolPrice>, pool: usize, leg: usize, amount: u64)
    requires
        pool < pools.len(),
        prices_wf(pools.len() as nat, old(prices)@),
    ensures
        prices_wf(pools.len() as nat, final(prices)@),
        forall|q: int| 0 <= q < old(prices).len() && q != pool ==> #[trigger] final(prices)@[q] == old(prices)@[q],
        (pools@[pool as int] is Swap && leg < 2) ==>
            final(prices)@[pool as int].is_update_of(old(prices)@[pool as int], leg as int, amount),
        !(pools@[pool as int] is Swap && leg < 2) ==> final(prices)@ == old(prices)@,
{
    let is_swap = match &pools[pool] {
        Pool::Swap(_) => true,
        Pool::Raydium(_) => false,
    };
    if is_swap && leg < 2 {
        let mut pp = prices[pool];
        pp.update(leg, amount);
        prices.set(pool, pp);
    }
}

/// Whether a size of `money` with a predicted output of `gain` is worth executing.
pub fn is_profitable(config: &Config, money: u64, gain: u128) -> (r: bool)
    ensures
        r == profitable(*config, money as int, gain as int),
{
    if money < config.minimum_money {
        return false;
    }
    match (money as u128).checked_add(config.minimum_gain) {
        Some(t) => gain > t,
        None => false,
    }
}

/// The trade size that `get_best_gamble_money` picks for `optimum`.
pub open spec fn best_size(printer: Printer, config: Config, optimum: int) -> u64 {
    let max = printer.money as int * config.safety_ppm as int / PPM as int;
    let g = greedy_size(optimum, config.greed_ppm as int);
    (if optimum < 0 || g < config.minimum_money || g > max { max } else { g }) as u64
}

/// One cycle's evaluation, from its marks `(needs update, cooldown, size, gain)`:
/// the new marks and the size to execute, if any. `size` is the freshly chosen trade
/// size and `output` what that size yields by direct simulation.
pub open spec fn evaluation(
    config: Config,
    needs: bool,
    cooldown: u64,
    money: u64,
    gain: u128,
    size: u64,
    output: u128,
) -> (bool, u64, u64, u128, Option<u64>) {
    if !needs {
        if cooldown == 0 {
            (false, 0, money, gain, None)
        } else {
            (false, (cooldown - 1) as u64, money, gain,
                if profitable(config, money as int, gain as int) { Some(money) } else { None })
        }
    } else if size == money {
        (false, cooldown, money, gain, None)
    } else if size < config.minimum_money {
        (false, cooldown, size, gain, None)
    } else if output == gain {
        (false, cooldown, size, gain, None)
    } else {
        (false, config.cooldown, size, output,
            if profitable(config, size as int, output as int) { Some(size) } else { None })
    }
}

/// `k` evaluations of an unmarked cycle from cooldown `cooldown`: the cooldown left
/// and the number of requests issued.
pub open spec fn unmarked_run(config: Config, cooldown: u64, money: u64, gain: u128, k: nat) -> (u64, nat)
    decreases k,
{
    if k == 0 {
        (cooldown, 0)
    } else {
        let prev = unmarked_run(config, cooldown, money, gain, (k - 1) as nat);
        let e = evaluation(config, false, prev.0, money, gain, 0, 0);
        (e.1, prev.1 + if e.4 is Some { 1nat } else { 0nat })
    }
}

/// Re-marking a cycle whose chosen trade size comes out as the cached one issues no
/// request and leaves its cache and cooldown as they were: updates that do not move
/// the trade size cost nothing.
pub proof fn lemma_unchanged_size_is_quiet(config: Config, cooldown: u64, money: u64, gain: u128, output: u128)
    ensures
        evaluation(config, true, cooldown, money, gain, money, output) == (false, cooldown, money, gain, None::<u64>),
{
}

/// Without new marks, a cycle issues at most as many requests as its cooldown had
/// left, whatever the number of passes.
pub proof fn lemma_requests_bounded_by_cooldown(config: Config, cooldown: u64, money: u64, gain: u128, k: nat)
    ensures
        unmarked_run(config, cooldown, money, gain, k).1 <= cooldown,
        unmarked_run(config, cooldown, money, gain, k).0 + unmarked_run(config, cooldown, money, gain, k).1 <= cooldown,
    decreases k,
{
    if k > 0 {
        lemma_requests_bounded_by_cooldown(config, cooldown, money, gain, (k - 1) as nat);
    }
}

impl Scheduler {
    /// Lengths match the cycles and pools, and `pool_update[p]` marks exactly the
    /// cycles whose path visits pool `p`.
    pub open spec fn wf(&self, printer: &Printer) -> bool {
        let n = printer.cycles.len();
        &&& self.cycle_cooldown.len() == n
        &&& self.cycle_gain.len() == n
        &&& self.cycle_money.len() == n
        &&& bits_of(self.cycle_needs_update).len() == n
        &&& self.pool_update.len() == printer.pools.len()
        &&& forall|p: int| 0 <= p < self.pool_update.len() ==> bits_of(#[trigger] self.pool_update[p]).len() == n
        &&& forall|p: int, c: int| 0 <= p < self.pool_update.len() && 0 <= c < n ==>
            bits_of(#[trigger] self.pool_update[p])[c] == path_has_pool(#[trigger] printer.cycles[c].path@, p as usize)
    }

    /// Whether cycle `i` is marked for recomputation.
    pub open spec fn needs(&self, i: int) -> bool {
        bits_of(self.cycle_needs_update)[i]
    }

    /// Whether cycle `i` has work in a pass: it is marked, or it cools down with a
    /// cached decision worth executing.
    pub open spec fn pending(&self, config: Config, i: int) -> bool {
        self.needs(i) || (self.cycle_cooldown[i] > 0
            && profitable(config, self.cycle_money[i] as int, self.cycle_gain[i] as int))
    }

    /// Fresh state: every cycle marked for recomputation, cooldown at the configured
    /// value, nothing cached.
    pub fn new(printer: &Printer, config: &Config) -> (r: Scheduler)
        ensures
            r.wf(printer),
            forall|i: int| 0 <= i < printer.cycles.len() ==> #[trigger] r.needs(i),
            forall|i: int| 0 <= i < printer.cycles.len() ==> #[trigger] r.cycle_cooldown[i] == config.cooldown,
            forall|i: int| 0 <= i < printer.cycles.len() ==> #[trigger] r.cycle_gain[i] == 0,
            forall|i: int| 0 <= i < printer.cycles.len() ==> #[trigger] r.cycle_money[i] == 0,
    {
        let n = printer.cycles.len();
        let mut cycle_cooldown: Vec<u64> = Vec::new();
        let mut cycle_gain: Vec<u128> = Vec::new();
        let mut cycle_money: Vec<u64> = Vec::new();
        let mut k: usize = 0;
        while k < n
            invariant
                k <= n,
                n == printer.cycles.len(),
                cycle_cooldown.len() == k,
                cycle_gain.len() == k,
                cycle_money.len() == k,
                forall|i: int| 0 <= i < k ==> #[trigger] cycle_cooldown[i] == config.cooldown,
                forall|i: int| 0 <= i < k ==> #[trigger] cycle_gain[i] == 0,
                forall|i: int| 0 <= i < k ==> #[trigger] cycle_money[i] == 0,
            decreases n - k,
        {
            cycle_cooldown.push(config.cooldown);
            cycle_gain.push(0);
            cycle_money.push(0);
            k = k + 1;
        }
        let cycle_needs_update = new_bits(n, true);
        let mut pool_update: Vec<BitVec> = Vec::new();
        let mut p: usize = 0;
        while p < printer.pools.len()
            invariant
                p <= printer.pools.len(),
                n == printer.cycles.len(),
                pool_update.len() == p,
                forall|q: int| 0 <= q < p ==> bits_of(#[trigger] pool_update[q]).len() == n,
                forall|q: int, c: int| 0 <= q < p && 0 <= c < n ==>
                    bits_of(#[trigger] pool_update[q])[c] == path_has_pool(#[trigger] printer.cycles[c].path@, q as usize),
            decreases printer.pools.len() - p,
        {
            let mut bv = new_bits(n, false);
            let mut c: usize = 0;
            while c < n
                invariant
                    c <= n,
                    n == printer.cycles.len(),
                    bits_of(bv).len() == n,
                    forall|j: int| 0 <= j < n ==>
                        #[trigger] bits_of(bv)[j] == (j < c && path_has_pool(printer.cycles[j].path@, p)),
                decreases n - c,
            {
                if uses_pool(&printer.cycles[c].path, p) {
                    set_bit(&mut bv, c, true);
                }
                c = c + 1;
            }
            pool_update.push(bv);
            p = p + 1;
        }
        Scheduler { cycle_cooldown, cycle_gain, cycle_money, cycle_needs_update, pool_update }
    }

    /// Takes in a new reserve for leg `leg` of pool `pool`: marks every cycle through
    /// that pool for recomputation, and no other, and records the reserve in the price
    /// cache (token-swap pools; other pools' reserves are not tracked).
    pub fn apply_event(&mut self, printer: &Printer, prices: &mut Vec<PoolPrice>, pool: usize, leg: usize, amount: u64)
        requires
            old(self).wf(printer),
            pool < printer.pools.len(),
            prices_wf(printer.pools.len() as nat, old(prices)@),
        ensures
            final(self).wf(printer),
            forall|c: int| 0 <= c < printer.cycles.len() ==>
                #[trigger] final(self).needs(c) == (old(self).needs(c) || path_has_pool(printer.cycles[c].path@, pool)),
            final(self).cycle_cooldown@ == old(self).cycle_cooldown@,
            final(self).cycle_gain@ == old(self).cycle_gain@,
            final(self).cycle_money@ == old(self).cycle_money@,
            final(self).pool_update@ == old(self).pool_update@,
            prices_wf(printer.pools.len() as nat, final(prices)@),
            forall|q: int| 0 <= q < old(prices).len() && q != pool ==> #[trigger] final(prices)@[q] == old(prices)@[q],
            (printer.pools@[pool as int] is Swap && leg < 2) ==>
                final(prices)@[pool as int].is_update_of(old(prices)@[pool as int], leg as int, amount),
            !(printer.pools@[pool as int] is Swap && leg < 2) ==> final(prices)@ == old(prices)@,
    {
        or_bits(&mut self.cycle_needs_update, &self.pool_update[pool]);
        record_reserve(&printer.pools, prices, pool, leg, amount);
    }

    /// Whether cycle `i` is marked for recomputation.
    pub fn needs_recompute(&self, printer: &Printer, i: usize) -> (r: bool)
        requires
            self.wf(printer),
            i < printer.cycles.len(),
        ensures
            r == self.needs(i as int),
    {
        bit_at(&self.cycle_needs_update, i)
    }

    /// Whether an evaluation pass has anything to do: some cycle is marked for
    /// recomputation, or cools down with a cached decision worth executing.
    pub fn has_pending_work(&self, printer: &Printer, config: &Config) -> (r: bool)
        requires
            self.wf(printer),
        ensures
            r == exists|i: int| 0 <= i < printer.cycles.len() && #[trigger] self.pending(*config, i),
    {
        let mut i: usize = 0;
        while i < self.cycle_cooldown.len()
            invariant
                self.wf(printer),
                i <= self.cycle_cooldown.len(),
                forall|j: int| 0 <= j < i ==> !#[trigger] self.pending(*config, j),
            decreases self.cycle_cooldown.len() - i,
        {
            if bit_at(&self.cycle_needs_update, i) {
                assert(self.pending(*config, i as int));
                return true;
            }
            if self.cycle_cooldown[i] > 0 && is_profitable(config, self.cycle_money[i], self.cycle_gain[i]) {
                assert(self.pending(*config, i as int));
                return true;
            }
            i = i + 1;
        }
        false
    }

    /// Evaluates cycle `i` once (see `evaluation`). A marked cycle is unmarked and, with
    /// the trade size chosen from `optimum` (the closed-form optimum, rounded down),
    /// re-simulated; a changed result is cached, the cooldown restarts, and it is
    /// executed if profitable. An unmarked cycle that still cools down counts down and
    /// fires again on its cached values if those are profitable. Returns the size to
    /// execute, if any.
    pub fn evaluate(&mut self, printer: &Printer, config: &Config, prices: &Vec<PoolPrice>, i: usize, optimum: i64) -> (r: Option<u64>)
        requires
            old(self).wf(printer),
            printer.wf(),
            config.wf(),
            i < printer.cycles.len(),
            prices_wf(printer.pools.len() as nat, prices@),
        ensures
            final(self).wf(printer),
            final(self).pool_update@ == old(self).pool_update@,
            ({
                let size = best_size(*printer, *config, optimum as int);
                let output = potential_from(printer.currencies@, printer.pools@, prices@, config.slippage_ppm as nat,
                    printer.cycles[i as int].path@, 0, size as nat, 0) as u128;
                let e = evaluation(*config, old(self).needs(i as int), old(self).cycle_cooldown[i as int],
                    old(self).cycle_money[i as int], old(self).cycle_gain[i as int], size, output);
                &&& bits_of(final(self).cycle_needs_update) == bits_of(old(self).cycle_needs_update).update(i as int, e.0)
                &&& final(self).cycle_cooldown@ == old(self).cycle_cooldown@.update(i as int, e.1)
                &&& final(self).cycle_money@ == old(self).cycle_money@.update(i as int, e.2)
                &&& final(self).cycle_gain@ == old(self).cycle_gain@.update(i as int, e.3)
                &&& r == e.4
            }),
    {
        let ghost old_bits = bits_of(self.cycle_needs_update);
        let nu = bit_at(&self.cycle_needs_update, i);
        let cd = self.cycle_cooldown[i];
        let m = self.cycle_money[i];
        let g = self.cycle_gain[i];
        let ghost size = best_size(*printer, *config, optimum as int);
        let ghost output = potential_from(printer.currencies@, printer.pools@, prices@, config.slippage_ppm as nat,
            printer.cycles[i as int].path@, 0, size as nat, 0) as u128;
        proof {
            assert(self.cycle_cooldown@.update(i as int, cd) =~= self.cycle_cooldown@);
            assert(self.cycle_money@.update(i as int, m) =~= self.cycle_money@);
            assert(self.cycle_gain@.update(i as int, g) =~= self.cycle_gain@);
        }
        if !nu {
            proof {
                assert(old_bits.update(i as int, false) =~= old_bits);
            }
            if cd == 0 {
                return None;
            }
            self.cycle_cooldown.set(i, cd - 1);
            if is_profitable(config, m, g) {
                Some(m)
            } else {
                None
            }
        } else {
            set_bit(&mut self.cycle_needs_update, i, false);
            let size_x = printer.get_best_gamble_money(config, optimum);
            assert(size_x == size);
            if size_x == m {
                return None;
            }
            self.cycle_money.set(i, size_x);
            if size_x < config.minimum_money {
                return None;
            }
            proof {
                assert(path_wf(printer.pools.len() as nat, printer.cycles[i as int].path@));
            }
            let rs = printer.compute_potential(config, &printer.cycles[i], prices, size_x);
            assert(rs == output);
            if rs == g {
                return None;
            }
            self.cycle_gain.set(i, rs);
            self.cycle_cooldown.set(i, config.cooldown);
            if is_profitable(config, size_x, rs) {
                Some(size_x)
            } else {
                None
            }
        }
    }
}

} // verus!
