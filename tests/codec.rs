use hikaru_print::raydium::{
    swap_base_in, swap_base_out, AmmInstruction, InstructionError, SwapInstructionBaseIn, SwapInstructionBaseOut,
};
use solana_program::pubkey::Pubkey;

#[test]
fn pack_swap_base_in() {
    let ins = AmmInstruction::SwapBaseIn(SwapInstructionBaseIn { amount_in: 0x0102, minimum_amount_out: 7 });
    let bytes = ins.pack().unwrap();
    assert_eq!(bytes, vec![9, 2, 1, 0, 0, 0, 0, 0, 0, 7, 0, 0, 0, 0, 0, 0, 0]);
    assert_eq!(AmmInstruction::unpack(&bytes), Ok(ins));
}

#[test]
fn pack_swap_base_out() {
    let ins = AmmInstruction::SwapBaseOut(SwapInstructionBaseOut { max_amount_in: u64::MAX, amount_out: 1 });
    let bytes = ins.pack().unwrap();
    assert_eq!(bytes.len(), 17);
    assert_eq!(bytes[0], 11);
    assert_eq!(&bytes[1..9], &[255u8; 8]);
    assert_eq!(AmmInstruction::unpack(&bytes), Ok(ins));
}

#[test]
fn pack_reserved_is_empty() {
    assert_eq!(AmmInstruction::Reserved.pack().unwrap(), Vec::<u8>::new());
}

#[test]
fn unpack_rejects_bad_data() {
    assert_eq!(AmmInstruction::unpack(&[]), Err(InstructionError::InvalidInstructionData));
    assert_eq!(AmmInstruction::unpack(&[9, 1, 2, 3]), Err(InstructionError::InvalidInstructionData));
    assert_eq!(AmmInstruction::unpack(&[3; 17]), Err(InstructionError::InvalidInstructionData));
    let mut long = vec![11u8];
    long.extend_from_slice(&[1; 20]);
    assert_eq!(
        AmmInstruction::unpack(&long),
        Ok(AmmInstruction::SwapBaseOut(SwapInstructionBaseOut {
            max_amount_in: 0x0101_0101_0101_0101,
            amount_out: 0x0101_0101_0101_0101,
        }))
    );
}

#[test]
fn swap_base_in_layout() {
    let keys: Vec<Pubkey> = (0..18).map(|_| Pubkey::new_unique()).collect();
    let call = swap_base_in(
        &keys[0], &keys[1], &keys[2], &keys[3], &keys[4], &keys[5], &keys[6], &keys[7], &keys[8], &keys[9], &keys[10],
        &keys[11], &keys[12], &keys[13], &keys[14], &keys[15], &keys[16], &keys[17], 500, 400,
    )
    .unwrap();
    assert_eq!(call.program_id, keys[0]);
    assert_eq!(call.accounts.len(), 18);
    assert_eq!(call.accounts[0].pubkey, spl_token::id());
    assert!(!call.accounts[0].is_writable && !call.accounts[0].is_signer);
    for k in 1..18 {
        assert_eq!(call.accounts[k].pubkey, keys[k]);
    }
    let readonly: Vec<usize> = (0..18).filter(|&k| !call.accounts[k].is_writable).collect();
    assert_eq!(readonly, vec![0, 2, 7, 14, 17]);
    assert!(call.accounts[17].is_signer);
    assert_eq!(
        AmmInstruction::unpack(&call.data),
        Ok(AmmInstruction::SwapBaseIn(SwapInstructionBaseIn { amount_in: 500, minimum_amount_out: 400 }))
    );
}

#[test]
fn swap_base_out_layout() {
    let keys: Vec<Pubkey> = (0..18).map(|_| Pubkey::new_unique()).collect();
    let call = swap_base_out(
        &keys[0], &keys[1], &keys[2], &keys[3], &keys[4], &keys[5], &keys[6], &keys[7], &keys[8], &keys[9], &keys[10],
        &keys[11], &keys[12], &keys[13], &keys[14], &keys[15], &keys[16], &keys[17], 900, 800,
    )
    .unwrap();
    assert_eq!(call.accounts[17].pubkey, keys[17]);
    assert_eq!(call.data[0], 11);
    assert_eq!(
        AmmInstruction::unpack(&call.data),
        Ok(AmmInstruction::SwapBaseOut(SwapInstructionBaseOut { max_amount_in: 900, amount_out: 800 }))
    );
}
