use hikaru_print::curve::{predict_swap, CurveType, FeeSchedule};
use hikaru_print::cycles::{construct_cycles, uses_pool};
use hikaru_print::pool::{
    curve_of, default_orca_curve, default_orca_fees, default_orca_stable_fees, default_raydium_fees,
    default_swap_fees, swap_pool_fees, Config, Currency, Cycle, Pool, RaydiumPool, SwapPool, Token, PPM,
};
use hikaru_print::price::{power_of_ten, token_account_amount, PoolPrice, TokenPrice};
use hikaru_print::printer::{LegOrder, Printer};
use hikaru_print::scheduler::{is_profitable, Scheduler};
use hikaru_print::stable::StablePrinter;
use solana_program::program_pack::Pack;
use solana_program::pubkey::Pubkey;

fn no_fees() -> FeeSchedule {
    FeeSchedule {
        trade_fee_numerator: 0,
        trade_fee_denominator: 1,
        owner_trade_fee_numerator: 0,
        owner_trade_fee_denominator: 1,
    }
}

fn token(c: usize) -> Token {
    Token { currency_idx: c, account: Pubkey::new_unique(), extra_account: None }
}

fn swap_pool(name: &str, a: usize, b: usize, fees: FeeSchedule, needs_approve: bool) -> Pool {
    Pool::Swap(SwapPool {
        swap_program: Pubkey::new_unique(),
        swap_type: "orca".to_string(),
        name: name.to_string(),
        account: Pubkey::new_unique(),
        authority: Pubkey::new_unique(),
        pool_token_mint: Pubkey::new_unique(),
        fee_account: Pubkey::new_unique(),
        tokens: [token(a), token(b)],
        needs_approve,
        is_step: false,
        curve: CurveType::ConstantProduct,
        fees,
    })
}

fn raydium_pool(name: &str, a: usize, b: usize) -> Pool {
    Pool::Raydium(RaydiumPool {
        name: name.to_string(),
        pool_version: 4,
        account: Pubkey::new_unique(),
        authority: Pubkey::new_unique(),
        open_orders: Pubkey::new_unique(),
        target_orders: Pubkey::new_unique(),
        serum_version: 3,
        serum_market: Pubkey::new_unique(),
        serum_bids: Pubkey::new_unique(),
        serum_asks: Pubkey::new_unique(),
        serum_events: Pubkey::new_unique(),
        serum_signer: Pubkey::new_unique(),
        tokens: [token(a), token(b)],
        curve: CurveType::ConstantProduct,
        fees: default_raydium_fees(),
    })
}

fn currency(name: &str, decimals: u8) -> Currency {
    Currency { name: name.to_string(), mint: Pubkey::new_unique(), decimals, account: Pubkey::new_unique() }
}

fn config(max_cycle_length: u64) -> Config {
    Config {
        start_currency: 0,
        safety_ppm: PPM,
        minimum_gain: 5,
        minimum_gain_ppm: PPM,
        minimum_money: 100,
        slippage_ppm: 0,
        max_cycle_length,
        cooldown: 3,
        greed_ppm: PPM,
        extra_budget: 0,
    }
}

fn price(a: u64, b: u64, decimals: u8) -> PoolPrice {
    PoolPrice::init(TokenPrice::init(a, decimals), TokenPrice::init(b, decimals))
}

fn check_cycle(c: &Cycle, pools: &Vec<Pool>, start: usize, max: usize) {
    assert!(c.path.len() >= 2 && c.path.len() <= max);
    for k in 0..c.path.len() {
        for j in 0..k {
            assert_ne!(c.path[k].0, c.path[j].0);
        }
        if k + 1 < c.path.len() {
            let (p, d) = c.path[k];
            let (q, e) = c.path[k + 1];
            assert_eq!(pools[p].get_currency(1 - d).currency_idx, pools[q].get_currency(e).currency_idx);
        }
    }
    let (p, d) = c.path[0];
    assert_eq!(pools[p].get_currency(d).currency_idx, start);
    let (p, d) = c.path[c.path.len() - 1];
    assert_eq!(pools[p].get_currency(1 - d).currency_idx, start);
}

#[test]
fn cycles_through_two_pools() {
    let pools = vec![swap_pool("A", 0, 1, no_fees(), false), swap_pool("B", 1, 0, no_fees(), true)];
    let cycles = construct_cycles(&config(3), &pools);
    assert_eq!(cycles.len(), 2);
    assert_eq!(cycles[0].path, vec![(0, 0), (1, 0)]);
    assert_eq!(cycles[1].path, vec![(1, 1), (0, 1)]);
    assert!(cycles[0].needs_approval);
    assert!(cycles[1].needs_approval);
}

#[test]
fn cycles_respect_length_and_reuse() {
    let pools = vec![
        swap_pool("A", 0, 1, no_fees(), false),
        swap_pool("B", 1, 2, no_fees(), false),
        swap_pool("C", 2, 0, no_fees(), false),
        swap_pool("D", 0, 1, no_fees(), false),
    ];
    let short = construct_cycles(&config(2), &pools);
    for c in &short {
        check_cycle(c, &pools, 0, 2);
    }
    assert_eq!(short.len(), 2);
    let long = construct_cycles(&config(4), &pools);
    for c in &long {
        check_cycle(c, &pools, 0, 4);
        assert!(!c.needs_approval);
    }
    assert!(long.len() > short.len());
    assert!(long.iter().any(|c| c.path == vec![(0, 0), (1, 0), (2, 0)]));
    assert!(construct_cycles(&config(1), &pools).is_empty());
}

#[test]
fn cycles_skip_raydium_approval() {
    let pools = vec![raydium_pool("R", 0, 1), swap_pool("S", 0, 1, no_fees(), false)];
    let cycles = construct_cycles(&config(2), &pools);
    assert_eq!(cycles.len(), 2);
    assert_eq!(cycles[0].path, vec![(0, 0), (1, 1)]);
    assert!(!cycles[0].needs_approval);
    assert!(uses_pool(&cycles[0].path, 1));
    assert!(!uses_pool(&vec![(0, 0)], 1));
}

#[test]
fn constant_product_without_fees() {
    assert_eq!(predict_swap(CurveType::ConstantProduct, &no_fees(), 1000, 1_000_000, 1_000_000), (999, 1000));
}

#[test]
fn constant_product_keeps_invariant() {
    let (rin, rout) = (1_000_000u128, 1_000_000u128);
    let (out, consumed) = predict_swap(CurveType::ConstantProduct, &no_fees(), 1000, rin, rout);
    let after = (rin + consumed) * (rout - out);
    assert!(after >= rin * rout);
    assert!(after < rin * rout + (rout - out));
}

#[test]
fn constant_product_with_fees() {
    assert_eq!(predict_swap(CurveType::ConstantProduct, &default_swap_fees(), 1000, 1_000_000, 1_000_000), (996, 1000));
    let ray = raydium_pool("R", 0, 1);
    assert_eq!(ray.predict_swap(5000, 2_000_000, 1_000_000), (2487, 4999));
}

#[test]
fn degenerate_reserves_give_nothing() {
    assert_eq!(predict_swap(CurveType::ConstantProduct, &no_fees(), 1000, 0, 1_000_000), (0, 0));
    assert_eq!(predict_swap(CurveType::ConstantProduct, &no_fees(), 0, 1_000_000, 1_000_000), (0, 0));
}

#[test]
fn stable_curve_hands_out_less_than_put_in() {
    let (out, consumed) = predict_swap(CurveType::Stable(100), &default_orca_stable_fees(), 10_000, 1_000_000, 1_000_000);
    assert!(out > 9_000 && out < 10_000);
    assert!(consumed > 0 && consumed <= 10_000);
}

#[test]
fn fee_fraction_kept() {
    let pool = swap_pool("A", 0, 1, default_orca_fees(), false);
    assert_eq!(pool.fees(), (1_000_000_000 - 2_510_000 - 500_000, 1_000_000_000));
}

#[test]
fn pool_descriptions() {
    assert_eq!(default_orca_curve(), "constant-product");
    assert_eq!(curve_of("stable", 85), CurveType::Stable(85));
    assert_eq!(curve_of("constant-product", 85), CurveType::ConstantProduct);
    assert_eq!(swap_pool_fees("stable", "swap"), default_orca_stable_fees());
    assert_eq!(swap_pool_fees("constant-product", "step"), default_orca_fees());
    assert_eq!(swap_pool_fees("constant-product", "swap"), default_swap_fees());
    let pool = swap_pool("A", 0, 1, no_fees(), true);
    assert_eq!(pool.type_label(), "orca");
    assert_eq!(pool.get_name(), "A");
    assert!(pool.needs_approval());
    assert_eq!(raydium_pool("R", 0, 1).type_label(), "RayV4");
    assert!(!raydium_pool("R", 0, 1).needs_approval());
}

#[test]
fn pairing_needs_both_legs() {
    let mut pp = price(10, 20, 6);
    pp.update(0, 11);
    assert!(!pp.sanity);
    assert_eq!(pp.token_updated, [true, false]);
    pp.update(1, 21);
    assert!(pp.sanity);
    assert_eq!(pp.token_updated, [false, false]);
    pp.update(1, 22);
    pp.update(1, 23);
    assert!(!pp.sanity);
    pp.update(0, 12);
    assert!(pp.sanity);
    assert_eq!(pp.token_amount(0), 12);
    assert_eq!(pp.token_amount(1), 23);
}

#[test]
fn pairing_after_a_completed_pair() {
    let mut pp = price(10, 20, 6);
    pp.update(1, 21);
    pp.update(0, 11);
    assert!(pp.sanity);
    pp.update(1, 22);
    assert!(!pp.sanity);
}

#[test]
fn repeated_update_is_idempotent() {
    let mut pp = price(10, 20, 6);
    pp.update(0, 15);
    let once = (pp.sanity, pp.token_updated, pp.token_amount(0), pp.token_amount(1));
    pp.update(0, 15);
    assert_eq!((pp.sanity, pp.token_updated, pp.token_amount(0), pp.token_amount(1)), once);
}

#[test]
fn quote_uses_finer_precision() {
    let pp = PoolPrice::init(TokenPrice::init(1_000, 3), TokenPrice::init(1_000_000, 6));
    assert_eq!(pp.scaled(0), 1_000_000);
    assert_eq!(pp.scaled(1), 1_000_000);
    let pool = swap_pool("A", 0, 1, no_fees(), false);
    assert_eq!(pp.swap(1000, 0, &pool), (999, 1000));
    assert_eq!(power_of_ten(12), 1_000_000_000_000);
}

fn two_pool_setup() -> (Printer, Vec<PoolPrice>) {
    let currencies = vec![currency("BASE", 0), currency("X", 0), currency("Y", 0)];
    let pools = vec![
        swap_pool("A", 0, 1, no_fees(), false),
        swap_pool("B", 1, 0, no_fees(), false),
        swap_pool("C", 1, 2, no_fees(), false),
    ];
    let cycles = construct_cycles(&config(2), &pools);
    let printer = Printer::init(10_000, currencies, pools, cycles, false);
    let prices = vec![price(1_000_000, 1_012_000, 0), price(1_000_000, 1_000_000, 0), price(500, 500, 0)];
    (printer, prices)
}

#[test]
fn potential_of_round_trip() {
    let (printer, prices) = two_pool_setup();
    let cfg = config(2);
    assert_eq!(printer.cycles.len(), 2);
    assert_eq!(printer.compute_potential(&cfg, &printer.cycles[0], &prices, 1000), 1008);
    assert_eq!(printer.compute_potential(&cfg, &printer.cycles[1], &prices, 1000), 986);
    let mut stale = prices.clone();
    stale[1].update(0, 1_000_000);
    assert_eq!(printer.compute_potential(&cfg, &printer.cycles[0], &stale, 1000), 0);
}

#[test]
fn potential_across_precisions() {
    let currencies = vec![currency("BASE", 3), currency("X", 6)];
    let pools = vec![swap_pool("A", 0, 1, no_fees(), false), swap_pool("B", 1, 0, no_fees(), false)];
    let cycles = construct_cycles(&config(2), &pools);
    let printer = Printer::init(10_000, currencies, pools, cycles, false);
    let prices = vec![
        PoolPrice::init(TokenPrice::init(1_000_000, 3), TokenPrice::init(1_000_000_000, 6)),
        PoolPrice::init(TokenPrice::init(1_000_000_000, 6), TokenPrice::init(1_000_000, 3)),
    ];
    // first leg: 1000 in, 999_999 scaled units out, taken to six digits: 999_999_000;
    // second leg out at the finer scale, then back to three digits.
    let r = printer.compute_potential(&config(2), &printer.cycles[0], &prices, 1000);
    assert!(r > 0 && r < 1000);
    let mut slip = config(2);
    slip.slippage_ppm = 500_000;
    let half = printer.compute_potential(&slip, &printer.cycles[0], &prices, 1000);
    assert!(half < r);
}

#[test]
fn slippage_takes_its_share() {
    let (printer, prices) = two_pool_setup();
    let mut cfg = config(2);
    cfg.slippage_ppm = 100_000;
    // 1010 -> 909 after the first leg, 908 * 0.9 after the second
    assert_eq!(printer.compute_potential(&cfg, &printer.cycles[0], &prices, 1000), 817);
}

#[test]
fn trade_size_choice() {
    let (printer, _) = two_pool_setup();
    let mut cfg = config(2);
    assert_eq!(printer.get_gamble_money(&cfg), 10_000);
    assert_eq!(printer.get_best_gamble_money(&cfg, 1000), 1000);
    assert_eq!(printer.get_best_gamble_money(&cfg, 50), 10_000);
    assert_eq!(printer.get_best_gamble_money(&cfg, -7), 10_000);
    assert_eq!(printer.get_best_gamble_money(&cfg, 20_000), 10_000);
    cfg.greed_ppm = 500_000;
    assert_eq!(printer.get_best_gamble_money(&cfg, 1001), 500);
    cfg.safety_ppm = 250_000;
    assert_eq!(printer.get_gamble_money(&cfg), 2_500);
}

#[test]
fn optimum_of_balanced_pool() {
    let currencies = vec![currency("BASE", 0), currency("X", 0)];
    let pools = vec![swap_pool("A", 0, 1, no_fees(), false)];
    let cycle = Cycle { needs_approval: false, path: vec![(0, 0)] };
    let printer = Printer::init(10_000, currencies, pools, vec![cycle.clone()], false);
    let prices = vec![price(1_000_000, 1_000_000, 0)];
    let mut cfg = config(2);
    cfg.minimum_money = 0;
    // the closed form gives (sqrt(1e12) - 1e6) / 1 = 0
    let size = printer.get_best_gamble_money(&cfg, 0);
    assert_eq!(size, 0);
    let profit = |x: u64| printer.compute_potential(&cfg, &cycle, &prices, x) as i128 - x as i128;
    for x in 1..20u64 {
        assert!(profit(size) >= profit(x));
    }
}

#[test]
fn execution_plan() {
    let (printer, prices) = two_pool_setup();
    let plan = printer.plan_path(&config(2), &printer.cycles[0], &prices, 1000);
    assert_eq!(
        plan,
        vec![
            LegOrder { pool: 0, direction: 0, amount_in: 1000, minimum_amount_out: 0 },
            LegOrder { pool: 1, direction: 0, amount_in: 1010, minimum_amount_out: 1000 },
        ]
    );
}

#[test]
fn fan_out_marks_exactly_dependent_cycles() {
    let (printer, mut prices) = two_pool_setup();
    let cfg = config(2);
    let mut sched = Scheduler::new(&printer, &cfg);
    for i in 0..printer.cycles.len() {
        assert!(sched.evaluate(&printer, &cfg, &prices, i, 1000).is_some() || i == 1);
        assert!(!sched.needs_recompute(&printer, i));
    }
    sched.apply_event(&printer, &mut prices, 2, 0, 600);
    assert!(!sched.needs_recompute(&printer, 0));
    assert!(!sched.needs_recompute(&printer, 1));
    sched.apply_event(&printer, &mut prices, 0, 1, 1_012_000);
    assert!(sched.needs_recompute(&printer, 0));
    assert!(sched.needs_recompute(&printer, 1));
    assert!(!prices[0].sanity);
    assert!(!prices[2].sanity);
}

#[test]
fn one_execution_per_cooldown_window() {
    let (printer, mut prices) = two_pool_setup();
    let cfg = config(2);
    let mut sched = Scheduler::new(&printer, &cfg);
    let pass = |sched: &mut Scheduler, prices: &Vec<PoolPrice>| -> usize {
        let mut fired = 0;
        if sched.has_pending_work(&printer, &cfg) {
            for i in 0..printer.cycles.len() {
                if let Some(size) = sched.evaluate(&printer, &cfg, prices, i, 1000) {
                    assert_eq!((i, size), (0, 1000));
                    fired += 1;
                }
            }
        }
        fired
    };
    assert_eq!(pass(&mut sched, &prices), 1);
    let mut total = 0;
    for k in 0..10 {
        sched.apply_event(&printer, &mut prices, k % 2, k % 2, 1_000_000);
        total += pass(&mut sched, &prices);
    }
    assert_eq!(total, 0);
    assert!(is_profitable(&cfg, 1000, 1008));
    assert!(!is_profitable(&cfg, 1000, 1005));
    assert!(!is_profitable(&cfg, 99, 1000));
}

#[test]
fn cooldown_fires_on_cached_values_then_rests() {
    let (printer, mut prices) = two_pool_setup();
    let cfg = config(2);
    let mut sched = Scheduler::new(&printer, &cfg);
    let mut fired = Vec::new();
    for round in 0..6 {
        if round > 0 {
            sched.apply_event(&printer, &mut prices, 2, round % 2, 500);
        }
        if sched.has_pending_work(&printer, &cfg) {
            for i in 0..printer.cycles.len() {
                if sched.evaluate(&printer, &cfg, &prices, i, 1000).is_some() {
                    fired.push(round);
                }
            }
        }
    }
    assert_eq!(fired, vec![0, 1, 2, 3]);
    assert!(!sched.has_pending_work(&printer, &cfg));
    assert_eq!(sched.cycle_cooldown[0], 0);
    assert_eq!(sched.cycle_gain[0], 1008);
    assert_eq!(sched.cycle_money[0], 1000);
}

#[test]
fn richest_currency_is_held() {
    let currencies = vec![currency("A", 6), currency("B", 6), currency("C", 6)];
    let pools = vec![swap_pool("P", 0, 1, no_fees(), false)];
    let sp = StablePrinter::init(currencies.clone(), pools.clone(), false, &vec![5, 9, 9]);
    assert_eq!((sp.money, sp.current_currency), (9, 1));
    let none = StablePrinter::init(currencies.clone(), pools.clone(), false, &vec![0, 0, 0]);
    assert_eq!((none.money, none.current_currency), (0, 2));
}

#[test]
fn stable_swap_choice() {
    let currencies = vec![currency("A", 0), currency("B", 0), currency("C", 0)];
    let pools = vec![
        swap_pool("P", 0, 1, no_fees(), false),
        swap_pool("Q", 2, 0, no_fees(), false),
        swap_pool("R", 1, 2, no_fees(), false),
    ];
    let sp = StablePrinter::init(currencies.clone(), pools.clone(), false, &vec![1000, 0, 0]);
    let prices = vec![price(1_000_000, 1_012_000, 0), price(1_000_000, 1_000_000, 0), price(10, 10, 0)];
    let cfg = config(2);
    assert_eq!(
        sp.choose_swap(&cfg, &prices),
        Some(LegOrder { pool: 0, direction: 0, amount_in: 1000, minimum_amount_out: 1010 })
    );
    let mut strict = config(2);
    strict.minimum_gain_ppm = 1_020_000;
    assert_eq!(sp.choose_swap(&strict, &prices), None);
    assert_eq!(sp.get_gamble_money(&cfg), 1000);
}

#[test]
fn token_swap_route() {
    let currencies = vec![currency("A", 6), currency("B", 6)];
    let pool = swap_pool("P", 0, 1, no_fees(), true);
    let (a, b) = (pool.get_currency(0), pool.get_currency(1));
    match pool.swap(1, &currencies) {
        Ok(hikaru_print::pool::SwapRoute::TokenSwap {
            approve,
            delegate_signs,
            wallet_before_last,
            user_source,
            pool_source,
            pool_destination,
            user_destination,
        }) => {
            assert!(approve && delegate_signs && !wallet_before_last);
            assert_eq!(user_source, currencies[1].account);
            assert_eq!(user_destination, currencies[0].account);
            assert_eq!(pool_source, b.account);
            assert_eq!(pool_destination, a.account);
        }
        other => panic!("unexpected route {:?}", other),
    }
    if let Pool::Swap(p) = &pool {
        assert_eq!(p.get_currency(1).account, b.account);
    }
}

#[test]
fn raydium_route_needs_vaults() {
    let currencies = vec![currency("A", 6), currency("B", 6)];
    let pool = raydium_pool("R", 0, 1);
    assert_eq!(pool.swap(0, &currencies).err(), Some(hikaru_print::pool::SwapError::MissingAccount));
    let mut with_vaults = match pool {
        Pool::Raydium(r) => r,
        _ => unreachable!(),
    };
    let (va, vb) = (Pubkey::new_unique(), Pubkey::new_unique());
    with_vaults.tokens[0].extra_account = Some(va);
    with_vaults.tokens[1].extra_account = Some(vb);
    with_vaults.pool_version = 3;
    assert_eq!(with_vaults.get_currency(0).extra_account, Some(va));
    match Pool::Raydium(with_vaults).swap(0, &currencies) {
        Ok(hikaru_print::pool::SwapRoute::Raydium { liquidity_program, serum_program, coin_vault, pc_vault, .. }) => {
            assert_eq!(liquidity_program, hikaru_print::pool::ProgramVersion::V3);
            assert_eq!(serum_program, hikaru_print::pool::ProgramVersion::V3);
            assert_eq!((coin_vault, pc_vault), (va, vb));
        }
        other => panic!("unexpected route {:?}", other),
    }
}

#[test]
fn empty_configuration() {
    let pools: Vec<Pool> = Vec::new();
    let cycles = construct_cycles(&config(4), &pools);
    assert!(cycles.is_empty());
    let printer = Printer::init(1000, vec![currency("BASE", 0)], pools, cycles, false);
    let sched = Scheduler::new(&printer, &config(4));
    assert!(!sched.has_pending_work(&printer, &config(4)));
    assert!(sched.pool_update.is_empty());
}

#[test]
fn overflowing_reserves_give_nothing() {
    let big = u128::MAX / 2;
    assert_eq!(predict_swap(CurveType::ConstantProduct, &no_fees(), 1000, big, big), (0, 0));
    let pp = price(u64::MAX, u64::MAX, 0);
    let pool = swap_pool("A", 0, 1, no_fees(), false);
    let (out, consumed) = pp.swap(u64::MAX as u128, 0, &pool);
    assert_eq!((out, consumed), (u64::MAX as u128 / 2, u64::MAX as u128 - 1));
}

#[test]
fn token_account_data_updates_reserve() {
    let account = spl_token::state::Account {
        amount: 123_456_789,
        state: spl_token::state::AccountState::Initialized,
        ..Default::default()
    };
    let mut data = vec![0u8; spl_token::state::Account::LEN];
    spl_token::state::Account::pack(account, &mut data).unwrap();
    let mut tp = TokenPrice::init(5, 9);
    assert!(tp.update(&data));
    assert_eq!(tp.token_amount, (123_456_789, 9));
    assert!(!tp.update(&data[..100]));
    assert_eq!(tp.token_amount, (123_456_789, 9));
    let mut broken = data.clone();
    broken[72] = 7;
    assert!(!tp.update(&broken));
    assert_eq!(token_account_amount(&data), Some(123_456_789));
    assert_eq!(token_account_amount(&[]), None);
}

#[test]
fn negative_optimum_takes_safety_bound() {
    let (printer, _) = two_pool_setup();
    let mut cfg = config(2);
    cfg.greed_ppm = 500_000;
    cfg.minimum_money = 0;
    assert_eq!(printer.get_best_gamble_money(&cfg, -1), 10_000);
    assert_eq!(printer.get_best_gamble_money(&cfg, 1), 0);
}

#[test]
fn cycles_in_stable_order() {
    let pools = vec![
        swap_pool("A", 0, 1, no_fees(), false),
        swap_pool("B", 1, 2, no_fees(), false),
        swap_pool("C", 2, 0, no_fees(), false),
        swap_pool("D", 0, 1, no_fees(), false),
        swap_pool("E", 1, 0, no_fees(), false),
    ];
    let cycles = construct_cycles(&config(4), &pools);
    for k in 1..cycles.len() {
        let (a, b) = (&cycles[k - 1].path, &cycles[k].path);
        assert!(a.len() < b.len() || (a.len() == b.len() && a < b));
    }
    let again = construct_cycles(&config(4), &pools);
    assert_eq!(cycles.len(), again.len());
    for k in 0..cycles.len() {
        assert_eq!(cycles[k].path, again[k].path);
    }
}

#[test]
fn token_account_state_checked() {
    let account = spl_token::state::Account {
        amount: 77,
        state: spl_token::state::AccountState::Frozen,
        ..Default::default()
    };
    let mut data = vec![0u8; spl_token::state::Account::LEN];
    spl_token::state::Account::pack(account, &mut data).unwrap();
    assert_eq!(token_account_amount(&data), Some(77));
    let mut bad_state = data.clone();
    bad_state[108] = 3;
    assert_eq!(token_account_amount(&bad_state), None);
    let mut bad_native = data.clone();
    bad_native[110] = 1;
    assert_eq!(token_account_amount(&bad_native), None);
    let mut bad_close = data.clone();
    bad_close[129] = 2;
    assert_eq!(token_account_amount(&bad_close), None);
}

#[test]
fn token_swap_instructions() {
    let currencies = vec![currency("A", 6), currency("B", 6)];
    let (wallet, delegate) = (Pubkey::new_unique(), Pubkey::new_unique());
    let approving = swap_pool("P", 0, 1, no_fees(), true);
    let calls = approving.token_swap_calls(0, &currencies, &spl_token::id(), &wallet, &delegate, 500, 0).unwrap();
    assert_eq!(calls.len(), 2);
    assert_eq!(calls[0].program_id, spl_token::id());
    assert_eq!(calls[0].data, vec![4, 244, 1, 0, 0, 0, 0, 0, 0]);
    assert_eq!(calls[0].accounts[0].pubkey, currencies[0].account);
    assert_eq!(calls[0].accounts[1].pubkey, delegate);
    assert!(calls[0].accounts[2].is_signer && calls[0].accounts[2].pubkey == wallet);
    assert_eq!(calls[1].accounts.len(), 10);
    assert_eq!(calls[1].accounts[2].pubkey, delegate);
    assert!(calls[1].accounts[2].is_signer);
    assert_eq!(calls[1].accounts[9].pubkey, spl_token::id());
    assert_eq!(calls[1].data[0], 1);
    assert_eq!(calls[1].data[1..9], 500u64.to_le_bytes());
    assert_eq!(
        approving.token_swap_calls(0, &currencies, &Pubkey::new_unique(), &wallet, &delegate, 500, 0).err(),
        Some(hikaru_print::pool::SwapError::Refused)
    );
    let mut step = match swap_pool("S", 0, 1, no_fees(), false) {
        Pool::Swap(p) => p,
        _ => unreachable!(),
    };
    step.is_step = true;
    let calls = Pool::Swap(step).token_swap_calls(1, &currencies, &spl_token::id(), &wallet, &delegate, 9, 3).unwrap();
    assert_eq!(calls.len(), 1);
    assert_eq!(calls[0].accounts.len(), 11);
    assert_eq!(calls[0].accounts[2].pubkey, wallet);
    assert_eq!(calls[0].accounts[3].pubkey, currencies[1].account);
    assert_eq!(calls[0].accounts[9].pubkey, wallet);
    assert!(calls[0].accounts[9].is_writable && !calls[0].accounts[9].is_signer);
    assert_eq!(calls[0].accounts[10].pubkey, spl_token::id());
}
