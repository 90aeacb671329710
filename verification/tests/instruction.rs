use perpetual::error::ProgramError;
use perpetual::instruction::PerpetualInstruction;

fn wire_with_symbol(tag: u8, account_type: u8, symbol: &[u8]) -> Vec<u8> {
    let mut wire = vec![tag, account_type, symbol.len() as u8];
    wire.extend_from_slice(symbol);
    wire
}

#[test]
fn unpack_init_perpetual() {
    let mut wire = vec![0u8];
    wire.extend_from_slice(&[0xaa; 64]);
    wire.extend_from_slice(&[0xbb; 32]);
    wire.extend_from_slice(&[0xcc; 32]);
    match PerpetualInstruction::unpack(&wire) {
        Ok(PerpetualInstruction::InitPerpetual { secp256k1_pubkey, gateway, admin }) => {
            assert_eq!(secp256k1_pubkey, [0xaa; 64]);
            assert_eq!(gateway.to_bytes(), [0xbb; 32]);
            assert_eq!(admin.to_bytes(), [0xcc; 32]);
        }
        other => panic!("unexpected {:?}", other),
    }
    wire.push(1);
    assert!(matches!(
        PerpetualInstruction::unpack(&wire),
        Ok(PerpetualInstruction::InitPerpetual { .. })
    ));
}

#[test]
fn unpack_init_perpetual_truncated() {
    let wire = vec![0u8; 128];
    assert_eq!(
        PerpetualInstruction::unpack(&wire).err(),
        Some(ProgramError::InvalidInstructionData)
    );
    assert_eq!(
        PerpetualInstruction::unpack(&[0]).err(),
        Some(ProgramError::InvalidInstructionData)
    );
}

#[test]
fn unpack_set_token_map() {
    let wire = wire_with_symbol(1, 3, b"USDC");
    match PerpetualInstruction::unpack(&wire) {
        Ok(PerpetualInstruction::SetTokenMap { account_type, symbol }) => {
            assert_eq!(account_type, 3);
            assert_eq!(symbol, "USDC");
        }
        other => panic!("unexpected {:?}", other),
    }
    match PerpetualInstruction::unpack(&[1, 0, 0]) {
        Ok(PerpetualInstruction::SetTokenMap { account_type, symbol }) => {
            assert_eq!(account_type, 0);
            assert_eq!(symbol, "");
        }
        other => panic!("unexpected {:?}", other),
    }
}

#[test]
fn unpack_set_token_map_truncated_or_not_text() {
    for wire in [vec![1u8], vec![1, 0], vec![1, 0, 4, b'U', b'S', b'D'], vec![1, 0, 2, 0xff, 0xfe]]
    {
        assert_eq!(
            PerpetualInstruction::unpack(&wire).err(),
            Some(ProgramError::InvalidInstructionData),
            "{:?}",
            wire
        );
    }
}

#[test]
fn unpack_init_account() {
    assert!(matches!(PerpetualInstruction::unpack(&[2]), Ok(PerpetualInstruction::InitAccount)));
    assert!(matches!(
        PerpetualInstruction::unpack(&[2, 9, 9]),
        Ok(PerpetualInstruction::InitAccount)
    ));
}

#[test]
fn unpack_deposit() {
    let mut wire = wire_with_symbol(3, 0, b"USDC");
    wire.extend_from_slice(&100u64.to_le_bytes());
    match PerpetualInstruction::unpack(&wire) {
        Ok(PerpetualInstruction::Deposit { account_type, symbol, amount }) => {
            assert_eq!(account_type, 0);
            assert_eq!(symbol, "USDC");
            assert_eq!(amount, 100);
        }
        other => panic!("unexpected {:?}", other),
    }
    wire.pop();
    assert_eq!(
        PerpetualInstruction::unpack(&wire).err(),
        Some(ProgramError::InvalidInstructionData)
    );
}

#[test]
fn unpack_withdraw() {
    let mut wire = wire_with_symbol(4, 2, b"SOL");
    wire.extend_from_slice(&0x0102030405060708u64.to_le_bytes());
    wire.extend_from_slice(&6u64.to_le_bytes());
    wire.extend_from_slice(&1_700_000_000u64.to_le_bytes());
    wire.push(1);
    wire.extend_from_slice(&[0x5a; 64]);
    match PerpetualInstruction::unpack(&wire) {
        Ok(PerpetualInstruction::Withdraw {
            account_type,
            symbol,
            amount,
            withdrawid,
            timestamp,
            recovery_id,
            signature,
        }) => {
            assert_eq!(account_type, 2);
            assert_eq!(symbol, "SOL");
            assert_eq!(amount, 0x0102030405060708);
            assert_eq!(withdrawid, 6);
            assert_eq!(timestamp, 1_700_000_000);
            assert_eq!(recovery_id, 1);
            assert_eq!(signature, [0x5a; 64]);
        }
        other => panic!("unexpected {:?}", other),
    }
    for cut in 1..=89 {
        let short = &wire[..wire.len() - cut];
        assert_eq!(
            PerpetualInstruction::unpack(short).err(),
            Some(ProgramError::InvalidInstructionData),
            "cut {}",
            cut
        );
    }
}

#[test]
fn unpack_rejects_empty_input_and_unknown_opcodes() {
    assert_eq!(
        PerpetualInstruction::unpack(&[]).err(),
        Some(ProgramError::InvalidInstructionData)
    );
    for tag in 5..=255u8 {
        assert_eq!(
            PerpetualInstruction::unpack(&[tag, 0, 0, 0, 0, 0, 0, 0, 0, 0, 0]).err(),
            Some(ProgramError::InvalidInstructionData)
        );
    }
}

#[test]
fn unpack_bool_reads_a_flag() {
    assert_eq!(PerpetualInstruction::unpack_bool(&0), Ok(false));
    assert_eq!(PerpetualInstruction::unpack_bool(&1), Ok(true));
    assert_eq!(PerpetualInstruction::unpack_bool(&2), Err(ProgramError::InvalidInstructionData));
    assert_eq!(PerpetualInstruction::unpack_bool(&255), Err(ProgramError::InvalidInstructionData));
}

#[test]
fn unpack_u64_reads_eight_little_endian_bytes() {
    assert_eq!(PerpetualInstruction::unpack_u64(&100u64.to_le_bytes()), Ok(100));
    assert_eq!(PerpetualInstruction::unpack_u64(&[1, 0, 0, 0, 0, 0, 0, 0, 9]), Ok(1));
    assert_eq!(PerpetualInstruction::unpack_u64(&[0, 1, 0, 0, 0, 0, 0, 0]), Ok(256));
    assert_eq!(
        PerpetualInstruction::unpack_u64(&[1, 2, 3, 4, 5, 6, 7]),
        Err(ProgramError::InvalidInstructionData)
    );
}

#[test]
fn unpack_u16_reads_two_little_endian_bytes() {
    assert_eq!(PerpetualInstruction::unpack_u16(&[0x34, 0x12]), Ok(0x1234));
    assert_eq!(PerpetualInstruction::unpack_u16(&[255, 255, 7]), Ok(u16::MAX));
    assert_eq!(PerpetualInstruction::unpack_u16(&[1]), Err(ProgramError::InvalidInstructionData));
}

#[test]
fn unpack_pubkey_splits_off_an_address() {
    let source: Vec<u8> = (0..35u8).collect();
    let (key, rest) = PerpetualInstruction::unpack_pubkey(&source).unwrap();
    assert_eq!(key.to_bytes().to_vec(), (0..32u8).collect::<Vec<u8>>());
    assert_eq!(rest, &[32, 33, 34]);
    let (_, rest) = PerpetualInstruction::unpack_pubkey(&source[..32]).unwrap();
    assert!(rest.is_empty());
    assert_eq!(
        PerpetualInstruction::unpack_pubkey(&source[..31]).err(),
        Some(ProgramError::InvalidInstructionData)
    );
}
