//! Graph entities: currencies, pool legs, pools, cycles and the engine settings.

use vstd::prelude::*;
use solana_program::pubkey::Pubkey;
use crate::curve::{predict_swap, predicted_swap, CurveType, FeeSchedule};

verus! {

/// solana_program's `Pubkey`, carried through as an opaque account id.
#[verifier::external_type_specification]
#[verifier::external_body]
pub struct ExPubkey(Pubkey);

/// Relies on the derived `Clone` of solana_program's `Pubkey`, a `Copy` type of 32
/// bytes: the clone is the same key.
pub assume_specification[ <Pubkey as Clone>::clone ](k: &Pubkey) -> (r: Pubkey)
    ensures
        r == *k,
;

/// Parts per million: the unit of every fraction in [`Config`].
pub const PPM: u64 = 1_000_000;

/// Trade fee of constant-product Orca and Step pools.
pub open spec fn orca_fee_schedule() -> FeeSchedule {
    FeeSchedule {
        trade_fee_numerator: 251,
        trade_fee_denominator: 100000,
        owner_trade_fee_numerator: 5,
        owner_trade_fee_denominator: 10000,
    }
}

/// Trade fee of constant-product Orca and Step pools.
pub fn default_orca_fees() -> (r: FeeSchedule)
    ensures
        r == orca_fee_schedule(),
{
    FeeSchedule {
        trade_fee_numerator: 251,
        trade_fee_denominator: 100000,
        owner_trade_fee_numerator: 5,
        owner_trade_fee_denominator: 10000,
    }
}

/// Trade fee of plain token-swap pools.
pub open spec fn swap_fee_schedule() -> FeeSchedule {
    FeeSchedule {
        trade_fee_numerator: 271,
        trade_fee_denominator: 100000,
        owner_trade_fee_numerator: 5,
        owner_trade_fee_denominator: 10000,
    }
}

/// Trade fee of plain token-swap pools.
pub fn default_swap_fees() -> (r: FeeSchedule)
    ensures
        r == swap_fee_schedule(),
{
    FeeSchedule {
        trade_fee_numerator: 271,
        trade_fee_denominator: 100000,
        owner_trade_fee_numerator: 5,
        owner_trade_fee_denominator: 10000,
    }
}

/// Trade fee of Orca stable pools.
pub open spec fn orca_stable_fee_schedule() -> FeeSchedule {
    FeeSchedule {
        trade_fee_numerator: 70,
        trade_fee_denominator: 100000,
        owner_trade_fee_numerator: 5,
        owner_trade_fee_denominator: 10000,
    }
}

/// Trade fee of Orca stable pools.
pub fn default_orca_stable_fees() -> (r: FeeSchedule)
    ensures
        r == orca_stable_fee_schedule(),
{
    FeeSchedule {
        trade_fee_numerator: 70,
        trade_fee_denominator: 100000,
        owner_trade_fee_numerator: 5,
        owner_trade_fee_denominator: 10000,
    }
}

/// Trade fee of Raydium pools.
pub open spec fn raydium_fee_schedule() -> FeeSchedule {
    FeeSchedule {
        trade_fee_numerator: 221,
        trade_fee_denominator: 100000,
        owner_trade_fee_numerator: 3,
        owner_trade_fee_denominator: 10000,
    }
}

/// Trade fee of Raydium pools.
pub fn default_raydium_fees() -> (r: FeeSchedule)
    ensures
        r == raydium_fee_schedule(),
{
    FeeSchedule {
        trade_fee_numerator: 221,
        trade_fee_denominator: 100000,
        owner_trade_fee_numerator: 3,
        owner_trade_fee_denominator: 10000,
    }
}

/// A currency: its name, mint, decimal precision and the wallet's account for it.
#[derive(Clone, Debug)]
pub struct Currency {
    pub name: String,
    pub mint: Pubkey,
    pub decimals: u8,
    pub account: Pubkey,
}

/// One leg of a pool: the currency (an index into the currency list) and the
/// pool's reserve account for it.
#[derive(Clone, Copy, Debug)]
pub struct Token {
    pub currency_idx: usize,
    pub account: Pubkey,
    pub extra_account: Option<Pubkey>,
}

/// A pool of a token-swap program (Orca, Step, plain swap).
#[derive(Clone, Debug)]
pub struct SwapPool {
    pub swap_program: Pubkey,
    pub swap_type: String,
    pub name: String,
    pub account: Pubkey,
    pub authority: Pubkey,
    pub pool_token_mint: Pubkey,
    pub fee_account: Pubkey,
    pub tokens: [Token; 2],
    pub needs_approve: bool,
    pub is_step: bool,
    pub curve: CurveType,
    pub fees: FeeSchedule,
}

/// A Raydium pool, backed by an order book market.
#[derive(Clone, Debug)]
pub struct RaydiumPool {
    pub name: String,
    pub pool_version: u64,
    pub account: Pubkey,
    pub authority: Pubkey,
    pub open_orders: Pubkey,
    pub target_orders: Pubkey,
    pub serum_version: u64,
    pub serum_market: Pubkey,
    pub serum_bids: Pubkey,
    pub serum_asks: Pubkey,
    pub serum_events: Pubkey,
    pub serum_signer: Pubkey,
    pub tokens: [Token; 2],
    pub curve: CurveType,
    pub fees: FeeSchedule,
}

/// A pool of either kind.
#[derive(Clone, Debug)]
pub enum Pool {
    Raydium(RaydiumPool),
    Swap(SwapPool),
}

/// A closed walk through the pools: `(pool index, index of the input leg)` per step.
#[derive(Clone, Debug)]
pub struct Cycle {
    pub needs_approval: bool,
    pub path: Vec<(usize, usize)>,
}

/// The settings the engine works with. Fractions are in parts per million.
#[derive(Clone, Copy, Debug)]
pub struct Config {
    pub start_currency: usize,
    pub safety_ppm: u64,
    pub minimum_gain: u128,
    pub minimum_gain_ppm: u64,
    pub minimum_money: u64,
    pub slippage_ppm: u64,
    pub max_cycle_length: u64,
    pub cooldown: u64,
    pub greed_ppm: u64,
    pub extra_budget: u64,
}

impl Config {
    /// Every fraction is at most one.
    pub open spec fn wf(self) -> bool {
        &&& self.safety_ppm <= PPM
        &&& self.slippage_ppm <= PPM
        &&& self.greed_ppm <= PPM
    }
}

/// Curve name a token-swap pool has when its description names none.
pub fn default_orca_curve() -> (r: String)
    ensures
        r@ == "constant-product"@,
{
    let r = "constant-product".to_owned();
    proof { reveal_strlit("constant-product"); }
    r
}

fn same_text(a: &str, b: &str) -> (r: bool)
    ensures
        r == (a@ == b@),
{
    let x: String = a.to_owned();
    let y: String = b.to_owned();
    x == y
}

/// The curve a token-swap pool trades along, from its description: `"stable"`
/// with its amplification parameter, anything else constant product.
pub fn curve_of(curve_name: &str, curve_param: u64) -> (r: CurveType)
    ensures
        r == (if curve_name@ == "stable"@ { CurveType::Stable(curve_param) } else { CurveType::ConstantProduct }),
{
    if same_text(curve_name, "stable") {
        CurveType::Stable(curve_param)
    } else {
        CurveType::ConstantProduct
    }
}

/// The fee schedule of a token-swap pool: by its curve, then by the program kind.
pub open spec fn swap_pool_fees_spec(curve_name: Seq<char>, swap_type: Seq<char>) -> FeeSchedule {
    if curve_name == "stable"@ {
        orca_stable_fee_schedule()
    } else if swap_type == "orca"@ || swap_type == "orcaV2"@ || swap_type == "step"@ {
        orca_fee_schedule()
    } else {
        swap_fee_schedule()
    }
}

/// Picks the fee schedule of a token-swap pool.
pub fn swap_pool_fees(curve_name: &str, swap_type: &str) -> (r: FeeSchedule)
    ensures
        r == swap_pool_fees_spec(curve_name@, swap_type@),
{
    if same_text(curve_name, "stable") {
        default_orca_stable_fees()
    } else if same_text(swap_type, "orca") || same_text(swap_type, "orcaV2") || same_text(swap_type, "step") {
        default_orca_fees()
    } else {
        default_swap_fees()
    }
}

impl SwapPool {
    /// Leg `index` of the pool.
    pub fn get_currency(&self, index: usize) -> (r: Token)
        requires
            index < 2,
        ensures
            r == self.tokens@[index as int],
    {
        self.tokens[index]
    }
}

impl RaydiumPool {
    /// Leg `index` of the pool.
    pub fn get_currency(&self, index: usize) -> (r: Token)
        requires
            index < 2,
        ensures
            r == self.tokens@[index as int],
    {
        self.tokens[index]
    }
}

/// Release of a program family that a Raydium swap goes to.
#[derive(Clone, Copy, Debug, PartialEq, Eq, Structural)]
pub enum ProgramVersion {
    V2,
    V3,
    V4,
}

/// Why a swap cannot be routed.
#[derive(Clone, Copy, Debug, PartialEq, Eq, Structural)]
pub enum SwapError {
    /// A Raydium leg lacks the order book vault account.
    MissingAccount,
    /// The token program refused to build an instruction.
    Refused,
}

/// How one swap through a pool is laid out: which accounts it moves funds between,
/// and what the venue needs around it.
#[derive(Clone, Copy, Debug)]
pub enum SwapRoute {
    TokenSwap {
        /// A pre-authorization for the input amount comes first.
        approve: bool,
        /// The swap is signed by the one-shot delegate rather than the wallet.
        delegate_signs: bool,
        /// The wallet goes in as one more account before the last (Step pools).
        wallet_before_last: bool,
        user_source: Pubkey,
        pool_source: Pubkey,
        pool_destination: Pubkey,
        user_destination: Pubkey,
    },
    Raydium {
        liquidity_program: ProgramVersion,
        serum_program: ProgramVersion,
        pool_coin: Pubkey,
        pool_pc: Pubkey,
        coin_vault: Pubkey,
        pc_vault: Pubkey,
        user_source: Pubkey,
        user_destination: Pubkey,
    },
}

impl Pool {
    /// The two legs.
    pub open spec fn tokens_spec(self) -> [Token; 2] {
        match self {
            Pool::Raydium(p) => p.tokens,
            Pool::Swap(p) => p.tokens,
        }
    }

    /// Currency of leg `d`.
    pub open spec fn currency(self, d: int) -> usize {
        self.tokens_spec()@[d].currency_idx
    }

    /// The invariant the pool trades along.
    pub open spec fn curve_spec(self) -> CurveType {
        match self {
            Pool::Raydium(p) => p.curve,
            Pool::Swap(p) => p.curve,
        }
    }

    /// The pool's fee schedule.
    pub open spec fn fees_spec(self) -> FeeSchedule {
        match self {
            Pool::Raydium(p) => p.fees,
            Pool::Swap(p) => p.fees,
        }
    }

    /// A pool's two legs are different currencies.
    pub open spec fn wf(self) -> bool {
        self.currency(0) != self.currency(1)
    }

    /// Whether a swap through this pool needs a pre-authorization step.
    pub open spec fn approval(self) -> bool {
        match self {
            Pool::Raydium(_) => false,
            Pool::Swap(p) => p.needs_approve,
        }
    }

    /// Leg `index` of the pool.
    pub fn get_currency(&self, index: usize) -> (r: Token)
        requires
            index < 2,
        ensures
            r == self.tokens_spec()@[index as int],
    {
        match self {
            Pool::Swap(p) => p.tokens[index],
            Pool::Raydium(p) => p.tokens[index],
        }
    }

    /// Whether a swap through this pool needs a pre-authorization step.
    pub fn needs_approval(&self) -> (r: bool)
        ensures
            r == self.approval(),
    {
        match self {
            Pool::Swap(p) => p.needs_approve,
            Pool::Raydium(_) => false,
        }
    }

    /// Short name of the pool's program.
    pub fn type_label(&self) -> (r: &str)
        ensures
            r@ == (match self {
                Pool::Swap(p) => p.swap_type@,
                Pool::Raydium(_) => "RayV4"@,
            }),
    {
        match self {
            Pool::Swap(p) => p.swap_type.as_str(),
            Pool::Raydium(_) => {
                proof { reveal_strlit("RayV4"); }
                "RayV4"
            },
        }
    }

    /// The pool's name.
    pub fn get_name(&self) -> (r: &String)
        ensures
            r == (match self {
                Pool::Swap(p) => &p.name,
                Pool::Raydium(p) => &p.name,
            }),
    {
        match self {
            Pool::Swap(p) => &p.name,
            Pool::Raydium(p) => &p.name,
        }
    }

    /// The part of a trade the pool keeps out of fees, as `(numerator, denominator)`:
    /// `1 - (trade fee + owner fee)`, the two fractions added without compounding.
    pub fn fees(&self) -> (r: (u128, u128))
        requires
            self.fees_spec().trade_fee_denominator > 0,
            self.fees_spec().owner_trade_fee_denominator > 0,
            self.fees_spec().trade_fee_numerator as int * self.fees_spec().owner_trade_fee_denominator as int
                + self.fees_spec().owner_trade_fee_numerator as int * self.fees_spec().trade_fee_denominator as int
                <= self.fees_spec().trade_fee_denominator as int * self.fees_spec().owner_trade_fee_denominator as int,
        ensures
            r.1 == self.fees_spec().trade_fee_denominator as int * self.fees_spec().owner_trade_fee_denominator as int,
            r.0 == r.1 - self.fees_spec().trade_fee_numerator as int * self.fees_spec().owner_trade_fee_denominator as int
                - self.fees_spec().owner_trade_fee_numerator as int * self.fees_spec().trade_fee_denominator as int,
    {
        let f = match self {
            Pool::Swap(p) => p.fees,
            Pool::Raydium(p) => p.fees,
        };
        let td = f.trade_fee_denominator as u128;
        let od = f.owner_trade_fee_denominator as u128;
        let tn = f.trade_fee_numerator as u128;
        let on = f.owner_trade_fee_numerator as u128;
        assert(td * od <= u64::MAX as int * u64::MAX as int) by (nonlinear_arith)
            requires td <= u64::MAX, od <= u64::MAX;
        assert(tn * od <= u64::MAX as int * u64::MAX as int) by (nonlinear_arith)
            requires tn <= u64::MAX, od <= u64::MAX;
        assert(on * td <= u64::MAX as int * u64::MAX as int) by (nonlinear_arith)
            requires on <= u64::MAX, td <= u64::MAX;
        assert(td * od > 0) by (nonlinear_arith)
            requires td > 0, od > 0;
        let den: u128 = td * od;
        let num: u128 = den - tn * od - on * td;
        (num, den)
    }

    /// Predicts a swap of `amount_in` through this pool against the given reserves,
    /// as `(amount_out, amount_consumed)`; `(0, 0)` where the curve refuses it.
    pub fn predict_swap(&self, amount_in: u128, reserve_in: u128, reserve_out: u128) -> (r: (u128, u128))
        ensures
            r == predicted_swap(self.curve_spec(), self.fees_spec(), amount_in, reserve_in, reserve_out),
            r.0 <= reserve_out,
    {
        match self {
            Pool::Swap(p) => predict_swap(p.curve, &p.fees, amount_in, reserve_in, reserve_out),
            Pool::Raydium(p) => predict_swap(p.curve, &p.fees, amount_in, reserve_in, reserve_out),
        }
    }

    /// Lays out a swap entering through leg `direction`: for a token-swap pool, from
    /// the wallet's account of the input currency through the pool's two reserves to
    /// the wallet's account of the output currency, with a pre-authorization and the
    /// delegate as signer where the pool needs approval; for a Raydium pool, the
    /// release by the pool's version (4, 3, else 2) and the market's (3, else 2), and
    /// both legs' order book vaults, which must be known.
    pub fn swap(&self, direction: usize, currencies: &Vec<Currency>) -> (r: Result<SwapRoute, SwapError>)
        requires
            direction < 2,
            self.currency(0) < currencies.len(),
            self.currency(1) < currencies.len(),
        ensures
            ({
                let a = self.tokens_spec()@[direction as int];
                let b = self.tokens_spec()@[1 - direction as int];
                let user_source = currencies@[a.currency_idx as int].account;
                let user_destination = currencies@[b.currency_idx as int].account;
                match *self {
                    Pool::Swap(p) => r == Ok::<SwapRoute, SwapError>(SwapRoute::TokenSwap {
                        approve: p.needs_approve,
                        delegate_signs: p.needs_approve,
                        wallet_before_last: p.is_step,
                        user_source,
                        pool_source: a.account,
                        pool_destination: b.account,
                        user_destination,
                    }),
                    Pool::Raydium(p) => if a.extra_account.is_none() || b.extra_account.is_none() {
                        r == Err::<SwapRoute, SwapError>(SwapError::MissingAccount)
                    } else {
                        r == Ok::<SwapRoute, SwapError>(SwapRoute::Raydium {
                            liquidity_program: if p.pool_version == 4 {
                                ProgramVersion::V4
                            } else if p.pool_version == 3 {
                                ProgramVersion::V3
                            } else {
                                ProgramVersion::V2
                            },
                            serum_program: if p.serum_version == 3 { ProgramVersion::V3 } else { ProgramVersion::V2 },
                            pool_coin: a.account,
                            pool_pc: b.account,
                            coin_vault: a.extra_account.unwrap(),
                            pc_vault: b.extra_account.unwrap(),
                            user_source,
                            user_destination,
                        })
                    },
                }
            }),
    {
        let a = self.get_currency(direction);
        let b = self.get_currency(1 - direction);
        let user_source = currencies[a.currency_idx].account;
        let user_destination = currencies[b.currency_idx].account;
        match self {
            Pool::Swap(p) => Ok(SwapRoute::TokenSwap {
                approve: p.needs_approve,
                delegate_signs: p.needs_approve,
                wallet_before_last: p.is_step,
                user_source,
                pool_source: a.account,
                pool_destination: b.account,
                user_destination,
            }),
            Pool::Raydium(p) => {
                let (coin_vault, pc_vault) = match (a.extra_account, b.extra_account) {
                    (Some(x), Some(y)) => (x, y),
                    _ => return Err(SwapError::MissingAccount),
                };
                let liquidity_program = if p.pool_version == 4 {
                    ProgramVersion::V4
                } else if p.pool_version == 3 {
                    ProgramVersion::V3
                } else {
                    ProgramVersion::V2
                };
                let serum_program = if p.serum_version == 3 { ProgramVersion::V3 } else { ProgramVersion::V2 };
                Ok(SwapRoute::Raydium {
                    liquidity_program,
                    serum_program,
                    pool_coin: a.account,
                    pool_pc: b.account,
                    coin_vault,
                    pc_vault,
                    user_source,
                    user_destination,
                })
            },
        }
    }
}

} // verus!
