use rugsafe::instruction::{DecodeError, PerpetualsInstruction, ProgramInstruction, VaultInstruction};
use rugsafe::position::Side;

fn with_u64(prefix: &[u8], v: u64) -> Vec<u8> {
    let mut d = prefix.to_vec();
    d.extend_from_slice(&v.to_le_bytes());
    d
}

#[test]
fn empty_input_is_refused() {
    assert_eq!(VaultInstruction::unpack(&[]), Err(DecodeError::EmptyInput));
    assert_eq!(PerpetualsInstruction::unpack(&[]), Err(DecodeError::EmptyInput));
    assert_eq!(ProgramInstruction::unpack(&[]), Err(DecodeError::EmptyInput));
}

#[test]
fn vault_instructions_decode() {
    assert_eq!(VaultInstruction::unpack(&[0]), Ok(VaultInstruction::CreateVault));
    assert_eq!(VaultInstruction::unpack(&with_u64(&[1], 101)), Ok(VaultInstruction::Deposit { amount: 101 }));
    assert_eq!(VaultInstruction::unpack(&with_u64(&[2], 7)), Ok(VaultInstruction::Withdraw { amount: 7 }));
    assert_eq!(VaultInstruction::unpack(&with_u64(&[3], u64::MAX)), Ok(VaultInstruction::BurnRToken { amount: u64::MAX }));
    assert_eq!(VaultInstruction::unpack(&with_u64(&[4], 1000)), Ok(VaultInstruction::Faucet { amount: 1000 }));
}

#[test]
fn vault_amount_is_little_endian() {
    let d = [1u8, 0x01, 0x02, 0x03, 0x04, 0x05, 0x06, 0x07, 0x08, 0xff];
    assert_eq!(VaultInstruction::unpack(&d), Ok(VaultInstruction::Deposit { amount: 0x0807060504030201 }));
    assert_eq!(VaultInstruction::unpack_amount(&d[1..]), Ok(0x0807060504030201));
}

#[test]
fn vault_truncated_amount_is_refused() {
    assert_eq!(VaultInstruction::unpack(&[1, 1, 2, 3]), Err(DecodeError::TruncatedField));
    assert_eq!(VaultInstruction::unpack(&[4]), Err(DecodeError::TruncatedField));
    assert_eq!(VaultInstruction::unpack_amount(&[9, 9, 9]), Err(DecodeError::TruncatedField));
}

#[test]
fn vault_unknown_tag_is_refused() {
    assert_eq!(VaultInstruction::unpack(&[5]), Err(DecodeError::UnknownTag));
    assert_eq!(VaultInstruction::unpack(&with_u64(&[200], 1)), Err(DecodeError::UnknownTag));
}

#[test]
fn open_position_decodes() {
    let d = with_u64(&[0, 1], 500_000_000);
    assert_eq!(
        PerpetualsInstruction::unpack(&d),
        Ok(PerpetualsInstruction::OpenPosition { side: Side::Long, amount: 500_000_000 })
    );
    let d = with_u64(&[0, 2], 3);
    assert_eq!(PerpetualsInstruction::unpack(&d), Ok(PerpetualsInstruction::OpenPosition { side: Side::Short, amount: 3 }));
}

#[test]
fn open_position_bad_side_and_truncation() {
    assert_eq!(PerpetualsInstruction::unpack(&[0]), Err(DecodeError::TruncatedField));
    assert_eq!(PerpetualsInstruction::unpack(&with_u64(&[0, 0], 5)), Err(DecodeError::UnknownSide));
    assert_eq!(PerpetualsInstruction::unpack(&with_u64(&[0, 3], 5)), Err(DecodeError::UnknownSide));
    assert_eq!(PerpetualsInstruction::unpack(&[0, 1, 1, 2, 3]), Err(DecodeError::TruncatedField));
}

#[test]
fn position_instructions_decode() {
    assert_eq!(PerpetualsInstruction::unpack(&with_u64(&[1], 9)), Ok(PerpetualsInstruction::ClosePosition { position_id: 9 }));
    assert_eq!(PerpetualsInstruction::unpack(&with_u64(&[4], 2)), Ok(PerpetualsInstruction::LiquidatePosition { position_id: 2 }));
    let mut d = with_u64(&[2], 5);
    d.extend_from_slice(&77u64.to_le_bytes());
    assert_eq!(PerpetualsInstruction::unpack(&d), Ok(PerpetualsInstruction::AddCollateral { position_id: 5, amount: 77 }));
    d[0] = 3;
    assert_eq!(PerpetualsInstruction::unpack(&d), Ok(PerpetualsInstruction::RemoveCollateral { position_id: 5, amount: 77 }));
}

#[test]
fn position_instruction_truncation_and_unknown_tag() {
    assert_eq!(PerpetualsInstruction::unpack(&[1, 0, 0]), Err(DecodeError::TruncatedField));
    assert_eq!(PerpetualsInstruction::unpack(&with_u64(&[2], 5)), Err(DecodeError::TruncatedField));
    assert_eq!(PerpetualsInstruction::unpack(&[5, 0]), Err(DecodeError::UnknownTag));
    assert_eq!(PerpetualsInstruction::unpack_u64(&7u64.to_le_bytes()), Ok(7));
    assert_eq!(PerpetualsInstruction::unpack_amount(&[1, 2]), Err(DecodeError::TruncatedField));
}

#[test]
fn module_tag_selects_sub_program() {
    let d = with_u64(&[0, 0, 1], 500_000_000);
    assert_eq!(
        ProgramInstruction::unpack(&d),
        Ok(ProgramInstruction::Perpetuals(PerpetualsInstruction::OpenPosition { side: Side::Long, amount: 500_000_000 }))
    );
    let d = with_u64(&[1, 4], 1000);
    assert_eq!(ProgramInstruction::unpack(&d), Ok(ProgramInstruction::Vaults(VaultInstruction::Faucet { amount: 1000 })));
    assert_eq!(ProgramInstruction::unpack(&[1, 0]), Ok(ProgramInstruction::Vaults(VaultInstruction::CreateVault)));
}

#[test]
fn module_tag_errors() {
    assert_eq!(ProgramInstruction::unpack(&[2, 0]), Err(DecodeError::UnknownModule));
    assert_eq!(ProgramInstruction::unpack(&[1]), Err(DecodeError::EmptyInput));
    assert_eq!(ProgramInstruction::unpack(&[1, 1, 5]), Err(DecodeError::TruncatedField));
}

#[test]
fn side_default_is_neutral() {
    assert_eq!(Side::default(), Side::Neutral);
}
