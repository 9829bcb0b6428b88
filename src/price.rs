//! Price cache: the reserves of each pool as last reported, with the pairing rule
//! that tells a consistent two-sided snapshot from a half-updated one.

use vstd::prelude::*;
use solana_program::program_pack::Pack;
use spl_token::state::Account;
use crate::bytes::from_le;
use crate::curve::predicted_swap;
use crate::pool::Pool;

verus! {

/// Largest decimal precision a reserve may have.
pub const MAX_DECIMALS: u8 = 12;

/// `10^k`.
pub open spec fn pow10(k: nat) -> nat
    decreases k,
{
    if k == 0 { 1 } else { 10 * pow10((k - 1) as nat) }
}

proof fn lemma_pow10_positive(k: nat)
    ensures
        pow10(k) >= 1,
    decreases k,
{
    if k > 0 {
        lemma_pow10_positive((k - 1) as nat);
    }
}

proof fn lemma_pow10_add(a: nat, b: nat)
    ensures
        pow10(a + b) == pow10(a) * pow10(b),
    decreases a,
{
    if a > 0 {
        lemma_pow10_add((a - 1) as nat, b);
        assert(((a + b) - 1) as nat == ((a - 1) as nat + b) as nat);
        assert(pow10(a + b) == 10 * pow10(((a - 1) as nat + b) as nat));
        assert(pow10(a) == 10 * pow10((a - 1) as nat));
        assert(10 * (pow10((a - 1) as nat) * pow10(b)) == (10 * pow10((a - 1) as nat)) * pow10(b)) by (nonlinear_arith);
        assert(pow10(a + b) == pow10(a) * pow10(b));
    } else {
        assert(pow10(a) == 1);
        assert(a + b == b);
        assert(pow10(a + b) == pow10(b));
    }
}

/// Powers of ten are positive, and at most `10^12` up to twelve digits.
pub proof fn lemma_pow10_bounds(k: nat)
    ensures
        pow10(k) >= 1,
        k <= 12 ==> pow10(k) <= 1_000_000_000_000,
{
    lemma_pow10_positive(k);
    if k <= 12 {
        lemma_pow10_add(k, (12 - k) as nat);
        lemma_pow10_positive((12 - k) as nat);
        reveal_with_fuel(pow10, 13);
        assert(pow10(12) == 1_000_000_000_000);
        assert(pow10(k) <= pow10(k) * pow10((12 - k) as nat)) by (nonlinear_arith)
            requires pow10((12 - k) as nat) >= 1;
    }
}

/// `10^k` for a precision of at most twelve digits.
pub fn power_of_ten(k: u8) -> (r: u128)
    requires
        k <= MAX_DECIMALS,
    ensures
        r == pow10(k as nat),
{
    let mut r: u128 = 1;
    let mut i: u8 = 0;
    while i < k
        invariant
            i <= k <= 12,
            r == pow10(i as nat),
        decreases k - i,
    {
        proof {
            lemma_pow10_bounds(i as nat);
            lemma_pow10_bounds((i + 1) as nat);
        }
        r = r * 10;
        i = i + 1;
    }
    r
}

/// Whether the four bytes at `at` are an option tag spl-token accepts: none
/// (`[0, 0, 0, 0]`) or some (`[1, 0, 0, 0]`).
pub open spec fn option_tag_ok(data: Seq<u8>, at: int) -> bool {
    &&& data[at] == 0 || data[at] == 1
    &&& data[at + 1] == 0
    &&& data[at + 2] == 0
    &&& data[at + 3] == 0
}

/// Whether 165 bytes are a token account spl-token reads: the delegate, native and
/// close-authority option tags (bytes 72, 109 and 129) are valid and the state byte
/// (108) names one of the three account states.
pub open spec fn token_account_ok(data: Seq<u8>) -> bool {
    &&& data.len() == 165
    &&& option_tag_ok(data, 72)
    &&& option_tag_ok(data, 109)
    &&& option_tag_ok(data, 129)
    &&& data[108] <= 2
}

/// The amount of a token account: the little-endian `u64` at bytes 64 to 72, after the
/// mint and the owner.
pub open spec fn token_account_amount_of(data: Seq<u8>) -> u64 {
    from_le(data.subrange(64, 72)) as u64
}

/// Relies on spl_token's `Account::unpack_unchecked`: data of any length but 165 bytes
/// is refused; so are malformed option tags (delegate, native, close authority) and a
/// state byte above 2; otherwise the amount is the little-endian `u64` at bytes 64 to 72.
#[verifier::external_body]
fn unpack_token_amount(data: &[u8]) -> (r: Option<u64>)
    ensures
        r == (if token_account_ok(data@) { Some(token_account_amount_of(data@)) } else { None::<u64> }),
{
    Account::unpack_unchecked(data).ok().map(|a| a.amount)
}

/// The amount a token account holds, read from its data; `None` exactly for data that
/// is not a token account (see `token_account_ok`).
pub fn token_account_amount(data: &[u8]) -> (r: Option<u64>)
    ensures
        r == (if token_account_ok(data@) { Some(token_account_amount_of(data@)) } else { None::<u64> }),
{
    unpack_token_amount(data)
}

/// One leg's reserve as last reported: raw amount and its decimal precision.
#[derive(Clone, Copy, Debug)]
pub struct TokenPrice {
    pub token_amount: (u64, u8),
}

impl TokenPrice {
    /// A reserve of `amount` raw units at `decimals` digits of precision.
    pub fn init(amount: u64, decimals: u8) -> (r: TokenPrice)
        ensures
            r.token_amount == (amount, decimals),
    {
        TokenPrice { token_amount: (amount, decimals) }
    }

    /// Replaces the amount, keeping the precision.
    pub fn set_amount(&mut self, amount: u64)
        ensures
            final(self).token_amount == (amount, old(self).token_amount.1),
    {
        self.token_amount = (amount, self.token_amount.1);
    }

    /// Takes the amount from a token account's data, keeping the precision; data that
    /// is not a token account leaves the reserve as it was. Returns whether it was read.
    pub fn update(&mut self, data: &[u8]) -> (r: bool)
        ensures
            r == token_account_ok(data@),
            !r ==> *final(self) == *old(self),
            r ==> final(self).token_amount == (token_account_amount_of(data@), old(self).token_amount.1),
    {
        match token_account_amount(data) {
            Some(amount) => {
                self.set_amount(amount);
                true
            },
            None => false,
        }
    }
}

/// Both reserves of one pool, with a flag per leg that says it was updated and
/// waits for its counterpart, and whether the two form a consistent snapshot.
#[derive(Clone, Copy, Debug)]
pub struct PoolPrice {
    pub sanity: bool,
    pub token_price: [TokenPrice; 2],
    pub token_updated: [bool; 2],
}

impl PoolPrice {
    /// Precision within bounds; at most one leg waits, and the snapshot is sane
    /// exactly when none does.
    pub open spec fn wf(self) -> bool {
        &&& self.token_price@[0].token_amount.1 <= MAX_DECIMALS
        &&& self.token_price@[1].token_amount.1 <= MAX_DECIMALS
        &&& !(self.token_updated@[0] && self.token_updated@[1])
        &&& self.sanity == !(self.token_updated@[0] || self.token_updated@[1])
    }

    /// Raw reserve of leg `d`.
    pub open spec fn amount(self, d: int) -> u64 {
        self.token_price@[d].token_amount.0
    }

    /// Precision of leg `d`.
    pub open spec fn decimals(self, d: int) -> u8 {
        self.token_price@[d].token_amount.1
    }

    /// Reserve of leg `d` in the finer of the two precisions.
    pub open spec fn scaled_reserve(self, d: int) -> nat {
        let common = if self.decimals(0) >= self.decimals(1) { self.decimals(0) } else { self.decimals(1) };
        self.amount(d) as nat * pow10((common - self.decimals(d)) as nat)
    }

    /// What `update(leg, ..)` does to the flags and the sanity: completes a pair when
    /// the other leg waits, else leaves this leg waiting.
    pub open spec fn paired(self, leg: int) -> (bool, [bool; 2]) {
        if self.token_updated@[1 - leg] {
            (true, [false, false])
        } else if leg == 0 {
            (false, [true, self.token_updated@[1]])
        } else {
            (false, [self.token_updated@[0], true])
        }
    }

    /// `self` is `prev` after `update(leg, amount)`.
    pub open spec fn is_update_of(self, prev: PoolPrice, leg: int, amount: u64) -> bool {
        &&& self.amount(leg) == amount
        &&& self.decimals(leg) == prev.decimals(leg)
        &&& self.token_price@[1 - leg] == prev.token_price@[1 - leg]
        &&& self.sanity == prev.paired(leg).0
        &&& self.token_updated@ == prev.paired(leg).1@
    }

    /// A snapshot just fetched: both legs consistent.
    pub fn init(a: TokenPrice, b: TokenPrice) -> (r: PoolPrice)
        ensures
            r.sanity,
            r.token_price@ == seq![a, b],
            r.token_updated@ == seq![false, false],
    {
        let r = PoolPrice { sanity: true, token_price: [a, b], token_updated: [false, false] };
        proof {
            assert(r.token_price@ =~= seq![a, b]);
            assert(r.token_updated@ =~= seq![false, false]);
        }
        r
    }

    /// Records a new reserve for leg `leg`. If the other leg waits, the two now form a
    /// pair: both flags clear and the snapshot is sane. Otherwise this leg waits and the
    /// snapshot is not sane.
    pub fn update(&mut self, leg: usize, amount: u64)
        requires
            leg < 2,
            old(self).wf(),
        ensures
            final(self).wf(),
            final(self).is_update_of(*old(self), leg as int, amount),
    {
        let mut tp = self.token_price[leg];
        tp.set_amount(amount);
        self.token_price = if leg == 0 { [tp, self.token_price[1]] } else { [self.token_price[0], tp] };
        if self.token_updated[1 - leg] {
            self.token_updated = [false, false];
            self.sanity = true;
        } else {
            self.token_updated = if leg == 0 { [true, self.token_updated[1]] } else { [self.token_updated[0], true] };
            self.sanity = false;
        }
    }

    /// Raw reserve of leg `direction`.
    pub fn token_amount(&self, direction: usize) -> (r: u64)
        requires
            direction < 2,
        ensures
            r == self.amount(direction as int),
    {
        self.token_price[direction].token_amount.0
    }

    /// Reserve of leg `d` in the finer of the two precisions.
    pub fn scaled(&self, d: usize) -> (r: u128)
        requires
            d < 2,
            self.wf(),
        ensures
            r == self.scaled_reserve(d as int),
    {
        let a = self.token_price[0].token_amount.1;
        let b = self.token_price[1].token_amount.1;
        let common = if a >= b { a } else { b };
        let own = self.token_price[d].token_amount.1;
        let f = power_of_ten(common - own);
        let amt = self.token_price[d].token_amount.0 as u128;
        proof {
            lemma_pow10_bounds((common - own) as nat);
            assert(amt * f <= u64::MAX as int * 1_000_000_000_000) by (nonlinear_arith)
                requires amt <= u64::MAX, f <= 1_000_000_000_000;
        }
        amt * f
    }

    /// Quotes a swap of `toys_in` entering through leg `direction` of `pool_info`
    /// against the cached reserves, both in the finer precision of the two; as
    /// `(amount_out, amount_consumed)`.
    pub fn swap(&self, toys_in: u128, direction: usize, pool_info: &Pool) -> (r: (u128, u128))
        requires
            direction < 2,
            self.wf(),
        ensures
            r == predicted_swap(
                pool_info.curve_spec(),
                pool_info.fees_spec(),
                toys_in,
                self.scaled_reserve(direction as int) as u128,
                self.scaled_reserve(1 - direction as int) as u128,
            ),
            r.0 <= self.scaled_reserve(1 - direction as int),
    {
        let a = self.scaled(direction);
        let b = self.scaled(1 - direction);
        pool_info.predict_swap(toys_in, a, b)
    }
}

/// Two updates in a row, the first of which does not complete a pair left open
/// before it, leave a consistent snapshot exactly when they went to different legs.
pub proof fn lemma_pairing(pp: PoolPrice, a: usize, b: usize)
    requires
        pp.wf(),
        a < 2,
        b < 2,
        !pp.token_updated@[1 - a as int],
    ensures
        ({
            let (s1, f1) = pp.paired(a as int);
            let mid = PoolPrice { sanity: s1, token_price: pp.token_price, token_updated: f1 };
            mid.paired(b as int).0 == (a != b)
        }),
{
}

/// The same update applied twice in a row leaves the state the first left, unless
/// the first completed a pair (then the second opens a new one).
pub proof fn lemma_update_idempotent(pp: PoolPrice, leg: usize)
    requires
        pp.wf(),
        leg < 2,
        !pp.token_updated@[1 - leg as int],
    ensures
        ({
            let (s1, f1) = pp.paired(leg as int);
            let mid = PoolPrice { sanity: s1, token_price: pp.token_price, token_updated: f1 };
            mid.paired(leg as int).0 == s1 && mid.paired(leg as int).1@ == f1@
        }),
{
    let (s1, f1) = pp.paired(leg as int);
    let mid = PoolPrice { sanity: s1, token_price: pp.token_price, token_updated: f1 };
    if leg == 0 {
        assert(mid.paired(0).1@ =~= f1@);
    } else {
        assert(mid.paired(1).1@ =~= f1@);
    }
}

/// The snapshot after updates to the legs `legs`, in order, from `pp` (flags and
/// sanity; the amounts are left as they were).
pub open spec fn after_legs(pp: PoolPrice, legs: Seq<usize>) -> PoolPrice
    decreases legs.len(),
{
    if legs.len() == 0 {
        pp
    } else {
        let prev = after_legs(pp, legs.drop_last());
        let (s, f) = prev.paired(legs.last() as int);
        PoolPrice { sanity: s, token_price: prev.token_price, token_updated: f }
    }
}

proof fn lemma_after_legs_wf(pp: PoolPrice, legs: Seq<usize>)
    requires
        pp.wf(),
        forall|k: int| 0 <= k < legs.len() ==> legs[k] < 2,
    ensures
        after_legs(pp, legs).wf(),
    decreases legs.len(),
{
    if legs.len() > 0 {
        lemma_after_legs_wf(pp, legs.drop_last());
    }
}

/// Over any history of updates to one pool, the snapshot is sane exactly when the
/// last two updates went to different legs and the first of those two did not itself
/// close a pair (a leg waiting for its counterpart is paired with the first update to
/// the other leg, and each update belongs to one pair at most).
pub proof fn lemma_pairing_history(pp: PoolPrice, legs: Seq<usize>)
    requires
        pp.wf(),
        legs.len() >= 2,
        forall|k: int| 0 <= k < legs.len() ==> legs[k] < 2,
    ensures
        ({
            let n = legs.len() as int;
            let before = after_legs(pp, legs.take(n - 2));
            let closes = before.token_updated@[1 - legs[n - 2] as int];
            after_legs(pp, legs).sanity == (!closes && legs[n - 2] != legs[n - 1])
        }),
{
    let n = legs.len() as int;
    let before = after_legs(pp, legs.take(n - 2));
    lemma_after_legs_wf(pp, legs.take(n - 2));
    assert(legs.drop_last().drop_last() =~= legs.take(n - 2));
    assert(legs.drop_last().last() == legs[n - 2]);
    let a = legs[n - 2];
    let b = legs[n - 1];
    let (s1, f1) = before.paired(a as int);
    let mid = PoolPrice { sanity: s1, token_price: before.token_price, token_updated: f1 };
    assert(after_legs(pp, legs.drop_last()) == mid);
    assert(after_legs(pp, legs) == ({
        let (s2, f2) = mid.paired(b as int);
        PoolPrice { sanity: s2, token_price: mid.token_price, token_updated: f2 }
    }));
    if !before.token_updated@[1 - a as int] {
        lemma_pairing(before, a, b);
    } else {
        assert(f1@ =~= seq![false, false]);
    }
}

/// The leg left waiting after updates to `legs` from a consistent snapshot: an update
/// to the other leg than the waiting one closes the pair; any other update leaves its
/// own leg waiting.
pub open spec fn pending(legs: Seq<usize>) -> Option<usize>
    decreases legs.len(),
{
    if legs.len() == 0 {
        None
    } else {
        let prev = pending(legs.drop_last());
        let t = legs.last();
        if prev == Some((1 - t) as usize) { None } else { Some(t) }
    }
}

/// From a consistent snapshot, after any history of updates the snapshot is sane
/// exactly when no leg waits, and a leg's flag is set exactly when it is the one
/// waiting: sane iff the last update completed a leg-0/leg-1 pair.
pub proof fn lemma_pairing_pending(pp: PoolPrice, legs: Seq<usize>)
    requires
        pp.wf(),
        pp.sanity,
        forall|k: int| 0 <= k < legs.len() ==> legs[k] < 2,
    ensures
        after_legs(pp, legs).sanity == (pending(legs) is None),
        after_legs(pp, legs).token_updated@[0] == (pending(legs) == Some(0usize)),
        after_legs(pp, legs).token_updated@[1] == (pending(legs) == Some(1usize)),
    decreases legs.len(),
{
    if legs.len() > 0 {
        lemma_pairing_pending(pp, legs.drop_last());
        lemma_after_legs_wf(pp, legs.drop_last());
    }
}

} // verus!
