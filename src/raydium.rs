//! Instruction data of the Raydium AMM program: the two swap instructions and their
//! byte encoding (a tag byte, then two little-endian `u64`s).

use vstd::prelude::*;
use solana_program::pubkey::Pubkey;
use crate::bytes::{from_le, le_bytes, lemma_from_le_bound, lemma_le_round_trip, lemma_pow256_le, pow256};

verus! {

/// Swap with a fixed input.
#[derive(Clone, Copy, Debug, PartialEq, Eq, Structural)]
pub struct SwapInstructionBaseIn {
    /// Source amount to transfer.
    pub amount_in: u64,
    /// Least amount of the destination token accepted.
    pub minimum_amount_out: u64,
}

/// Swap with a fixed output.
#[derive(Clone, Copy, Debug, PartialEq, Eq, Structural)]
pub struct SwapInstructionBaseOut {
    /// Most source amount accepted.
    pub max_amount_in: u64,
    /// Destination amount to receive.
    pub amount_out: u64,
}

/// Instructions of the AMM program; only the two swaps carry data here.
#[derive(Clone, Debug, PartialEq, Eq, Structural)]
pub enum AmmInstruction {
    ReservedInitialize,
    Reserved,
    Reserved0,
    ReservedDeposit,
    ReservedWithdraw,
    Reserved1,
    Reserved2,
    Reserved3,
    Reserved4,
    SwapBaseIn(SwapInstructionBaseIn),
    ReservedPreInitialize,
    SwapBaseOut(SwapInstructionBaseOut),
    Reserved5,
}

/// Why instruction data could not be read.
#[derive(Clone, Copy, Debug, PartialEq, Eq, Structural)]
pub enum InstructionError {
    InvalidInstructionData,
}

/// Tag byte of a fixed-input swap.
pub const SWAP_BASE_IN_TAG: u8 = 9;
/// Tag byte of a fixed-output swap.
pub const SWAP_BASE_OUT_TAG: u8 = 11;

/// The encoding of `ins`: tag and two amounts for a swap, nothing for the others.
pub open spec fn pack_spec(ins: AmmInstruction) -> Seq<u8> {
    match ins {
        AmmInstruction::SwapBaseIn(s) =>
            seq![SWAP_BASE_IN_TAG] + le_bytes(s.amount_in as nat, 8) + le_bytes(s.minimum_amount_out as nat, 8),
        AmmInstruction::SwapBaseOut(s) =>
            seq![SWAP_BASE_OUT_TAG] + le_bytes(s.max_amount_in as nat, 8) + le_bytes(s.amount_out as nat, 8),
        _ => Seq::empty(),
    }
}

/// The instruction that `s` encodes: a known swap tag followed by at least sixteen
/// bytes; anything after those is ignored.
pub open spec fn unpack_spec(s: Seq<u8>) -> Result<AmmInstruction, InstructionError> {
    if s.len() >= 17 && s[0] == SWAP_BASE_IN_TAG {
        Ok(AmmInstruction::SwapBaseIn(SwapInstructionBaseIn {
            amount_in: from_le(s.subrange(1, 9)) as u64,
            minimum_amount_out: from_le(s.subrange(9, 17)) as u64,
        }))
    } else if s.len() >= 17 && s[0] == SWAP_BASE_OUT_TAG {
        Ok(AmmInstruction::SwapBaseOut(SwapInstructionBaseOut {
            max_amount_in: from_le(s.subrange(1, 9)) as u64,
            amount_out: from_le(s.subrange(9, 17)) as u64,
        }))
    } else {
        Err(InstructionError::InvalidInstructionData)
    }
}

fn push_le_u64(buf: &mut Vec<u8>, v: u64)
    ensures
        final(buf)@ == old(buf)@ + le_bytes(v as nat, 8),
{
    let mut x: u64 = v;
    let mut i: usize = 0;
    while i < 8
        invariant
            i <= 8,
            buf@ + le_bytes(x as nat, (8 - i) as nat) == old(buf)@ + le_bytes(v as nat, 8),
        decreases 8 - i,
    {
        let ghost before = buf@;
        buf.push((x % 256) as u8);
        proof {
            let rest = le_bytes((x / 256) as nat, (8 - i - 1) as nat);
            assert(le_bytes(x as nat, (8 - i) as nat) == seq![(x % 256) as u8] + rest);
            assert(before + (seq![(x % 256) as u8] + rest) =~= buf@ + rest);
        }
        x = x / 256;
        i = i + 1;
    }
    proof {
        assert(buf@ + le_bytes(x as nat, 0) =~= buf@);
    }
}

impl AmmInstruction {
    /// Reads instruction data (see `unpack_spec`).
    pub fn unpack(input: &[u8]) -> (r: Result<AmmInstruction, InstructionError>)
        ensures
            r == unpack_spec(input@),
    {
        if input.len() == 0 {
            return Err(InstructionError::InvalidInstructionData);
        }
        let tag = input[0];
        let (_, rest) = input.split_at(1);
        assert(rest@ =~= input@.subrange(1, input@.len() as int));
        if tag == SWAP_BASE_IN_TAG {
            let (amount_in, rest) = match Self::unpack_u64(rest) {
                Ok(v) => v,
                Err(e) => return Err(e),
            };
            let (minimum_amount_out, _rest) = match Self::unpack_u64(rest) {
                Ok(v) => v,
                Err(e) => return Err(e),
            };
            proof {
                assert(input@.subrange(1, 9) =~= input@.subrange(1, input@.len() as int).subrange(0, 8));
                assert(rest@ =~= input@.subrange(9, input@.len() as int));
                assert(input@.subrange(9, 17) =~= rest@.subrange(0, 8));
            }
            Ok(AmmInstruction::SwapBaseIn(SwapInstructionBaseIn { amount_in, minimum_amount_out }))
        } else if tag == SWAP_BASE_OUT_TAG {
            let (max_amount_in, rest) = match Self::unpack_u64(rest) {
                Ok(v) => v,
                Err(e) => return Err(e),
            };
            let (amount_out, _rest) = match Self::unpack_u64(rest) {
                Ok(v) => v,
                Err(e) => return Err(e),
            };
            proof {
                assert(input@.subrange(1, 9) =~= input@.subrange(1, input@.len() as int).subrange(0, 8));
                assert(rest@ =~= input@.subrange(9, input@.len() as int));
                assert(input@.subrange(9, 17) =~= rest@.subrange(0, 8));
            }
            Ok(AmmInstruction::SwapBaseOut(SwapInstructionBaseOut { max_amount_in, amount_out }))
        } else {
            Err(InstructionError::InvalidInstructionData)
        }
    }

    /// Reads a little-endian `u64` from the first eight bytes; hands back the rest.
    fn unpack_u64(input: &[u8]) -> (r: Result<(u64, &[u8]), InstructionError>)
        ensures
            input@.len() >= 8 ==> (r matches Ok((v, rest)) && v == from_le(input@.subrange(0, 8))
                && rest@ == input@.subrange(8, input@.len() as int)),
            input@.len() < 8 ==> r == Err::<(u64, &[u8]), InstructionError>(InstructionError::InvalidInstructionData),
    {
        if input.len() >= 8 {
            let (amount, rest) = input.split_at(8);
            let mut acc: u64 = 0;
            let mut k: usize = 8;
            while k > 0
                invariant
                    k <= 8,
                    amount@.len() == 8,
                    acc == from_le(amount@.subrange(k as int, 8)),
                decreases k,
            {
                let ghost tail = amount@.subrange(k as int, 8);
                proof {
                    lemma_from_le_bound(tail);
                    lemma_pow256_le(tail.len(), 7);
                    reveal_with_fuel(pow256, 8);
                    assert(pow256(7) == 0x100_0000_0000_0000);
                    assert(amount@[k - 1] as int + 256 * acc < 0x1_0000_0000_0000_0000) by (nonlinear_arith)
                        requires acc < 0x100_0000_0000_0000, amount@[k - 1] < 256;
                    assert(amount@.subrange(k - 1, 8).drop_first() =~= tail);
                }
                let b = amount[k - 1];
                acc = b as u64 + 256 * acc;
                k = k - 1;
            }
            proof {
                assert(amount@.subrange(0, 8) =~= amount@);
                assert(amount@ =~= input@.subrange(0, 8));
            }
            Ok((acc, rest))
        } else {
            Err(InstructionError::InvalidInstructionData)
        }
    }

    /// Writes instruction data (see `pack_spec`); never fails.
    pub fn pack(&self) -> (r: Result<Vec<u8>, InstructionError>)
        ensures
            r matches Ok(buf) && buf@ == pack_spec(*self),
    {
        let mut buf: Vec<u8> = Vec::new();
        match self {
            AmmInstruction::SwapBaseIn(s) => {
                buf.push(SWAP_BASE_IN_TAG);
                push_le_u64(&mut buf, s.amount_in);
                push_le_u64(&mut buf, s.minimum_amount_out);
            },
            AmmInstruction::SwapBaseOut(s) => {
                buf.push(SWAP_BASE_OUT_TAG);
                push_le_u64(&mut buf, s.max_amount_in);
                push_le_u64(&mut buf, s.amount_out);
            },
            _ => {},
        }
        proof {
            assert(buf@ =~= pack_spec(*self));
        }
        Ok(buf)
    }
}

/// One account an instruction names, with how it is used.
#[derive(Clone, Copy, Debug, PartialEq, Eq)]
pub struct AccountUse {
    pub pubkey: Pubkey,
    pub is_signer: bool,
    pub is_writable: bool,
}

/// An instruction to the AMM program: the program, its accounts in order, its data.
#[derive(Clone, Debug)]
pub struct SwapCall {
    pub program_id: Pubkey,
    pub accounts: Vec<AccountUse>,
    pub data: Vec<u8>,
}

/// Relies on `spl_token::id`: the token program's id, a constant.
#[verifier::external_body]
fn token_program_id() -> (r: Pubkey) {
    spl_token::id()
}

/// A writable account that does not sign.
pub open spec fn writable(k: Pubkey) -> AccountUse {
    AccountUse { pubkey: k, is_signer: false, is_writable: true }
}

/// A read-only account that does not sign.
pub open spec fn readonly(k: Pubkey) -> AccountUse {
    AccountUse { pubkey: k, is_signer: false, is_writable: false }
}

/// The accounts of a swap, in the order the AMM program reads them: token program;
/// the AMM, its authority, open orders and target orders; the pool's coin and pc
/// accounts; the market program, market, bids, asks, event queue, coin and pc vaults
/// and vault signer; the user's source and destination accounts and the signing owner.
pub open spec fn amm_swap_accounts(keys: Seq<Pubkey>) -> Seq<AccountUse> {
    seq![
        readonly(keys[0]),
        writable(keys[1]),
        readonly(keys[2]),
        writable(keys[3]),
        writable(keys[4]),
        writable(keys[5]),
        writable(keys[6]),
        readonly(keys[7]),
        writable(keys[8]),
        writable(keys[9]),
        writable(keys[10]),
        writable(keys[11]),
        writable(keys[12]),
        writable(keys[13]),
        readonly(keys[14]),
        writable(keys[15]),
        writable(keys[16]),
        AccountUse { pubkey: keys[17], is_signer: true, is_writable: false },
    ]
}

fn amm_accounts(keys: &Vec<Pubkey>) -> (r: Vec<AccountUse>)
    requires
        keys.len() == 18,
    ensures
        r@ == amm_swap_accounts(keys@),
{
    let mut r: Vec<AccountUse> = Vec::new();
    let mut k: usize = 0;
    while k < 18
        invariant
            k <= 18,
            keys.len() == 18,
            r@ == amm_swap_accounts(keys@).take(k as int),
        decreases 18 - k,
    {
        let signer = k == 17;
        let writable = !(k == 0 || k == 2 || k == 7 || k == 14 || k == 17);
        r.push(AccountUse { pubkey: keys[k], is_signer: signer, is_writable: writable });
        proof {
            assert(r@ =~= amm_swap_accounts(keys@).take(k + 1));
        }
        k = k + 1;
    }
    proof {
        assert(amm_swap_accounts(keys@).take(18) =~= amm_swap_accounts(keys@));
    }
    r
}

/// The keys of a swap, in account order, behind the token program's.
fn swap_keys(token_program: Pubkey, rest: [&Pubkey; 17]) -> (r: Vec<Pubkey>)
    ensures
        r@.len() == 18,
        r@[0] == token_program,
        forall|k: int| 1 <= k < 18 ==> r@[k] == *rest@[k - 1],
{
    let mut r: Vec<Pubkey> = Vec::new();
    r.push(token_program);
    let mut k: usize = 0;
    while k < 17
        invariant
            k <= 17,
            r@.len() == k + 1,
            r@[0] == token_program,
            forall|j: int| 1 <= j < k + 1 ==> r@[j] == *rest@[j - 1],
        decreases 17 - k,
    {
        r.push(*rest[k]);
        k = k + 1;
    }
    r
}

/// Creates a swap with a fixed input: the accounts of `amm_swap_accounts` (the token
/// program's id first, then the given keys in order) and the packed instruction.
pub fn swap_base_in(
    program_id: &Pubkey,
    amm_id: &Pubkey,
    amm_authority: &Pubkey,
    amm_open_orders: &Pubkey,
    amm_target_orders: &Pubkey,
    pool_coin_token_account: &Pubkey,
    pool_pc_token_account: &Pubkey,
    serum_program_id: &Pubkey,
    serum_market: &Pubkey,
    serum_bids: &Pubkey,
    serum_asks: &Pubkey,
    serum_event_queue: &Pubkey,
    serum_coin_vault_account: &Pubkey,
    serum_pc_vault_account: &Pubkey,
    serum_vault_signer: &Pubkey,
    user_source_token_account: &Pubkey,
    user_destination_token_account: &Pubkey,
    user_source_owner: &Pubkey,
    amount_in: u64,
    minimum_amount_out: u64,
) -> (r: Result<SwapCall, InstructionError>)
    ensures
        r matches Ok(call) && {
            &&& call.program_id == *program_id
            &&& call.data@ == pack_spec(AmmInstruction::SwapBaseIn(SwapInstructionBaseIn { amount_in, minimum_amount_out }))
            &&& call.accounts@ == amm_swap_accounts(seq![call.accounts@[0].pubkey, *amm_id, *amm_authority,
                *amm_open_orders, *amm_target_orders, *pool_coin_token_account, *pool_pc_token_account,
                *serum_program_id, *serum_market, *serum_bids, *serum_asks, *serum_event_queue,
                *serum_coin_vault_account, *serum_pc_vault_account, *serum_vault_signer,
                *user_source_token_account, *user_destination_token_account, *user_source_owner])
        },
{
    let data = match AmmInstruction::SwapBaseIn(SwapInstructionBaseIn { amount_in, minimum_amount_out }).pack() {
        Ok(d) => d,
        Err(e) => return Err(e),
    };
    let keys = swap_keys(token_program_id(), [amm_id, amm_authority, amm_open_orders, amm_target_orders,
        pool_coin_token_account, pool_pc_token_account, serum_program_id, serum_market, serum_bids, serum_asks,
        serum_event_queue, serum_coin_vault_account, serum_pc_vault_account, serum_vault_signer,
        user_source_token_account, user_destination_token_account, user_source_owner]);
    let accounts = amm_accounts(&keys);
    proof {
        assert(keys@ =~= seq![accounts@[0].pubkey, *amm_id, *amm_authority,
            *amm_open_orders, *amm_target_orders, *pool_coin_token_account, *pool_pc_token_account,
            *serum_program_id, *serum_market, *serum_bids, *serum_asks, *serum_event_queue,
            *serum_coin_vault_account, *serum_pc_vault_account, *serum_vault_signer,
            *user_source_token_account, *user_destination_token_account, *user_source_owner]);
    }
    Ok(SwapCall { program_id: *program_id, accounts, data })
}

/// Creates a swap with a fixed output: the accounts of `amm_swap_accounts` (the token
/// program's id first, then the given keys in order) and the packed instruction.
pub fn swap_base_out(
    program_id: &Pubkey,
    amm_id: &Pubkey,
    amm_authority: &Pubkey,
    amm_open_orders: &Pubkey,
    amm_target_orders: &Pubkey,
    pool_coin_token_account: &Pubkey,
    pool_pc_token_account: &Pubkey,
    serum_program_id: &Pubkey,
    serum_market: &Pubkey,
    serum_bids: &Pubkey,
    serum_asks: &Pubkey,
    serum_event_queue: &Pubkey,
    serum_coin_vault_account: &Pubkey,
    serum_pc_vault_account: &Pubkey,
    serum_vault_signer: &Pubkey,
    user_source_token_account: &Pubkey,
    user_destination_token_account: &Pubkey,
    user_source_owner: &Pubkey,
    max_amount_in: u64,
    amount_out: u64,
) -> (r: Result<SwapCall, InstructionError>)
    ensures
        r matches Ok(call) && {
            &&& call.program_id == *program_id
            &&& call.data@ == pack_spec(AmmInstruction::SwapBaseOut(SwapInstructionBaseOut { max_amount_in, amount_out }))
            &&& call.accounts@ == amm_swap_accounts(seq![call.accounts@[0].pubkey, *amm_id, *amm_authority,
                *amm_open_orders, *amm_target_orders, *pool_coin_token_account, *pool_pc_token_account,
                *serum_program_id, *serum_market, *serum_bids, *serum_asks, *serum_event_queue,
                *serum_coin_vault_account, *serum_pc_vault_account, *serum_vault_signer,
                *user_source_token_account, *user_destination_token_account, *user_source_owner])
        },
{
    let data = match AmmInstruction::SwapBaseOut(SwapInstructionBaseOut { max_amount_in, amount_out }).pack() {
        Ok(d) => d,
        Err(e) => return Err(e),
    };
    let keys = swap_keys(token_program_id(), [amm_id, amm_authority, amm_open_orders, amm_target_orders,
        pool_coin_token_account, pool_pc_token_account, serum_program_id, serum_market, serum_bids, serum_asks,
        serum_event_queue, serum_coin_vault_account, serum_pc_vault_account, serum_vault_signer,
        user_source_token_account, user_destination_token_account, user_source_owner]);
    let accounts = amm_accounts(&keys);
    proof {
        assert(keys@ =~= seq![accounts@[0].pubkey, *amm_id, *amm_authority,
            *amm_open_orders, *amm_target_orders, *pool_coin_token_account, *pool_pc_token_account,
            *serum_program_id, *serum_market, *serum_bids, *serum_asks, *serum_event_queue,
            *serum_coin_vault_account, *serum_pc_vault_account, *serum_vault_signer,
            *user_source_token_account, *user_destination_token_account, *user_source_owner]);
    }
    Ok(SwapCall { program_id: *program_id, accounts, data })
}

/// Packing a swap and unpacking the bytes gives the same swap back.
pub proof fn lemma_pack_unpack(ins: AmmInstruction)
    requires
        ins is SwapBaseIn || ins is SwapBaseOut,
    ensures
        unpack_spec(pack_spec(ins)) == Ok::<AmmInstruction, InstructionError>(ins),
{
    let (a, b) = match ins {
        AmmInstruction::SwapBaseIn(s) => (s.amount_in, s.minimum_amount_out),
        AmmInstruction::SwapBaseOut(s) => (s.max_amount_in, s.amount_out),
        _ => (0u64, 0u64),
    };
    lemma_le_round_trip(a as nat, 8);
    lemma_le_round_trip(b as nat, 8);
    reveal_with_fuel(pow256, 9);
    assert(pow256(8) == 0x1_0000_0000_0000_0000);
    let s = pack_spec(ins);
    assert(s.subrange(1, 9) =~= le_bytes(a as nat, 8));
    assert(s.subrange(9, 17) =~= le_bytes(b as nat, 8));
}

} // verus!
