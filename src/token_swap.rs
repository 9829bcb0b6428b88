//! Instructions of a swap through a token-swap pool: the optional pre-authorization
//! and the swap itself, with the Step program's extra wallet account.

use vstd::prelude::*;
use solana_program::pubkey::Pubkey;
use crate::bytes::le_bytes;
use crate::pool::{Currency, Pool, SwapError};
use crate::raydium::{readonly, writable, AccountUse, SwapCall};

verus! {

/// A read-only account that signs.
pub open spec fn signer(k: Pubkey) -> AccountUse {
    AccountUse { pubkey: k, is_signer: true, is_writable: false }
}

/// Data of a token-swap `Swap` instruction: tag 1, then the two amounts.
pub open spec fn swap_data(amount_in: u64, minimum_amount_out: u64) -> Seq<u8> {
    seq![1u8] + le_bytes(amount_in as nat, 8) + le_bytes(minimum_amount_out as nat, 8)
}

/// Data of a token `Approve` instruction: tag 4, then the amount.
pub open spec fn approve_data(amount: u64) -> Seq<u8> {
    seq![4u8] + le_bytes(amount as nat, 8)
}

/// Accounts of a token-swap `Swap` without a host fee account, in the program's order:
/// the swap, its authority, the signing user authority, the user's source, the pool's
/// source and destination, the user's destination, the pool mint, the fee account and
/// the token program.
pub open spec fn swap_accounts(keys: Seq<Pubkey>) -> Seq<AccountUse> {
    seq![
        readonly(keys[0]),
        readonly(keys[1]),
        signer(keys[2]),
        writable(keys[3]),
        writable(keys[4]),
        writable(keys[5]),
        writable(keys[6]),
        writable(keys[7]),
        writable(keys[8]),
        readonly(keys[9]),
    ]
}

/// The keys of a token-swap `Swap`, in account order.
pub open spec fn swap_keys(
    swap: Pubkey,
    authority: Pubkey,
    user: Pubkey,
    source: Pubkey,
    swap_source: Pubkey,
    swap_destination: Pubkey,
    destination: Pubkey,
    mint: Pubkey,
    fee: Pubkey,
    token: Pubkey,
) -> Seq<Pubkey> {
    seq![swap, authority, user, source, swap_source, swap_destination, destination, mint, fee, token]
}

/// `call` is a token-swap `Swap` to `program` over `keys` (see `swap_accounts`).
pub open spec fn is_swap_call(call: SwapCall, program: Pubkey, keys: Seq<Pubkey>, amount_in: u64, minimum_amount_out: u64) -> bool {
    &&& call.program_id == program
    &&& call.data@ == swap_data(amount_in, minimum_amount_out)
    &&& call.accounts@ == swap_accounts(keys)
}

/// `call` is a token `Approve` of `amount` from `source` to `delegate`, signed by `owner`.
pub open spec fn is_approve_call(call: SwapCall, token_program: Pubkey, source: Pubkey, delegate: Pubkey, owner: Pubkey, amount: u64) -> bool {
    &&& call.program_id == token_program
    &&& call.data@ == approve_data(amount)
    &&& call.accounts@ == seq![writable(source), readonly(delegate), signer(owner)]
}

/// Relies on `spl_token_swap::instruction::swap` (no host fee account): it always
/// succeeds, addressed to `program`, with the accounts of `swap_accounts` and the
/// data of `swap_data`.
#[verifier::external_body]
fn swap_instruction(program: &Pubkey, swap: &Pubkey, authority: &Pubkey, user: &Pubkey, source: &Pubkey, swap_source: &Pubkey, swap_destination: &Pubkey, destination: &Pubkey, mint: &Pubkey, fee: &Pubkey, token: &Pubkey, amount_in: u64, minimum_amount_out: u64) -> (r: Result<SwapCall, SwapError>)
    ensures
        r is Ok,
        is_swap_call(r->Ok_0, *program, swap_keys(*swap, *authority, *user, *source, *swap_source, *swap_destination, *destination, *mint, *fee, *token), amount_in, minimum_amount_out),
{
    let s = spl_token_swap::instruction::Swap { amount_in, minimum_amount_out };
    spl_token_swap::instruction::swap(program, token, swap, authority, user, source, swap_source, swap_destination,
        destination, mint, fee, None, s)
        .map(|i| SwapCall {
            program_id: i.program_id,
            accounts: i.accounts.iter().map(|m| AccountUse { pubkey: m.pubkey, is_signer: m.is_signer, is_writable: m.is_writable }).collect(),
            data: i.data,
        })
        .map_err(|_| SwapError::Refused)
}

/// Relies on `spl_token::instruction::approve` (no multisig signers): refused unless
/// `token_program` is the token program; otherwise addressed to it, with the source
/// (writable), the delegate (read-only) and the owner (signing), and `approve_data`.
#[verifier::external_body]
fn approve_instruction(token_program: &Pubkey, source: &Pubkey, delegate: &Pubkey, owner: &Pubkey, amount: u64) -> (r: Result<SwapCall, SwapError>)
    ensures
        r matches Ok(call) ==> is_approve_call(call, *token_program, *source, *delegate, *owner, amount),
        r matches Err(e) ==> e == SwapError::Refused,
{
    spl_token::instruction::approve(token_program, source, delegate, owner, &[], amount)
        .map(|i| SwapCall {
            program_id: i.program_id,
            accounts: i.accounts.iter().map(|m| AccountUse { pubkey: m.pubkey, is_signer: m.is_signer, is_writable: m.is_writable }).collect(),
            data: i.data,
        })
        .map_err(|_| SwapError::Refused)
}

/// `accounts` with `wallet` (writable, not signing) put in before the last one.
pub open spec fn wallet_before_last(accounts: Seq<AccountUse>, wallet: Pubkey) -> Seq<AccountUse> {
    accounts.drop_last().push(writable(wallet)).push(accounts.last())
}

fn insert_wallet(accounts: &mut Vec<AccountUse>, wallet: Pubkey)
    requires
        old(accounts).len() > 0,
    ensures
        final(accounts)@ == wallet_before_last(old(accounts)@, wallet),
{
    let last = accounts.pop().unwrap();
    accounts.push(AccountUse { pubkey: wallet, is_signer: false, is_writable: true });
    accounts.push(last);
}

impl Pool {
    /// The instructions of a swap of `amount_in` entering a token-swap pool through leg
    /// `direction`, asking for at least `minimum_amount_out`: where the pool needs
    /// approval, first an approval of `amount_in` from the wallet's source account to
    /// the one-shot `delegate`, which then signs the swap; otherwise the wallet signs.
    /// Step pools take the wallet once more before the last account. Refused where the
    /// approval is refused (a wrong token program).
    pub fn token_swap_calls(
        &self,
        direction: usize,
        currencies: &Vec<Currency>,
        token_program: &Pubkey,
        wallet: &Pubkey,
        delegate: &Pubkey,
        amount_in: u64,
        minimum_amount_out: u64,
    ) -> (r: Result<Vec<SwapCall>, SwapError>)
        requires
            self is Swap,
            direction < 2,
            self.currency(0) < currencies.len(),
            self.currency(1) < currencies.len(),
        ensures
            ({
                let p = self->Swap_0;
                let a = p.tokens@[direction as int];
                let b = p.tokens@[1 - direction as int];
                let source = currencies@[a.currency_idx as int].account;
                let destination = currencies@[b.currency_idx as int].account;
                let user = if p.needs_approve { *delegate } else { *wallet };
                let accounts = swap_accounts(seq![p.account, p.authority, user, source, a.account, b.account,
                    destination, p.pool_token_mint, p.fee_account, *token_program]);
                match r {
                    Ok(calls) => {
                        &&& calls.len() == if p.needs_approve { 2int } else { 1int }
                        &&& p.needs_approve ==> is_approve_call(calls[0], *token_program, source, *delegate, *wallet, amount_in)
                        &&& calls@.last().program_id == p.swap_program
                        &&& calls@.last().data@ == swap_data(amount_in, minimum_amount_out)
                        &&& calls@.last().accounts@ == if p.is_step { wallet_before_last(accounts, *wallet) } else { accounts }
                    },
                    Err(e) => p.needs_approve && e == SwapError::Refused,
                }
            }),
    {
        let p = match self {
            Pool::Swap(p) => p,
            Pool::Raydium(_) => return Err(SwapError::Refused),
        };
        let a = p.tokens[direction];
        let b = p.tokens[1 - direction];
        let source = currencies[a.currency_idx].account;
        let destination = currencies[b.currency_idx].account;
        let mut calls: Vec<SwapCall> = Vec::new();
        if p.needs_approve {
            match approve_instruction(token_program, &source, delegate, wallet, amount_in) {
                Ok(c) => calls.push(c),
                Err(e) => return Err(e),
            }
        }
        let user = if p.needs_approve { delegate } else { wallet };
        let ins = swap_instruction(&p.swap_program, &p.account, &p.authority, user, &source, &a.account, &b.account,
            &destination, &p.pool_token_mint, &p.fee_account, token_program, amount_in, minimum_amount_out);
        let mut call = match ins {
            Ok(c) => c,
            Err(e) => return Err(e),
        };
        if p.is_step {
            insert_wallet(&mut call.accounts, *wallet);
        }
        calls.push(call);
        Ok(calls)
    }
}

} // verus!
