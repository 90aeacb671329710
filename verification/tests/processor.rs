use perpetual::error::{PerpError, ProgramError};
use perpetual::processor::{AccountSnapshot, Effects, Processor};
use perpetual::pubkey::Pubkey;
use perpetual::state::{Account, Perpetual, ACCOUNT_BYTES, PERPETUAL_BYTES};
use perpetual::symbol::{MintProgram, TypeSymbol};
use perpetual::token_map::TokenMap;
use solana_program::program_option::COption;
use solana_program::program_pack::Pack;
use std::collections::BTreeMap;

const PROGRAM: [u8; 32] = [0x50; 32];
const USER: [u8; 32] = [0x11; 32];
const ADMIN: [u8; 32] = [0xad; 32];
const REGISTRY: [u8; 32] = [0x77; 32];
const USER_RECORD: [u8; 32] = [0x12; 32];
const USER_TOKENS: [u8; 32] = [0x13; 32];
const CUSTODY: [u8; 32] = [0xc0; 32];
const MINT: [u8; 32] = [0x33; 32];
const SYSTEM: [u8; 32] = [0; 32];
const NOW: i64 = 1_700_000_000;

fn token_program() -> [u8; 32] {
    spl_token::id().to_bytes()
}

fn snapshot(key: [u8; 32], owner: [u8; 32], is_signer: bool, data: Vec<u8>) -> AccountSnapshot {
    AccountSnapshot {
        key: Pubkey::new_from_array(key),
        owner: Pubkey::new_from_array(owner),
        is_signer,
        data,
    }
}

fn token_data(mint: [u8; 32], owner: [u8; 32], amount: u64) -> Vec<u8> {
    let account = spl_token::state::Account {
        mint: solana_program::pubkey::Pubkey::new_from_array(mint),
        owner: solana_program::pubkey::Pubkey::new_from_array(owner),
        amount,
        delegate: COption::None,
        state: spl_token::state::AccountState::Initialized,
        is_native: COption::None,
        delegated_amount: 0,
        close_authority: COption::None,
    };
    let mut data = vec![0u8; spl_token::state::Account::LEN];
    spl_token::state::Account::pack(account, &mut data).unwrap();
    data
}

fn secret() -> libsecp256k1::SecretKey {
    libsecp256k1::SecretKey::parse(&[0x42; 32]).unwrap()
}

fn guardian() -> [u8; 64] {
    let full = libsecp256k1::PublicKey::from_secret_key(&secret()).serialize();
    let mut key = [0u8; 64];
    key.copy_from_slice(&full[1..65]);
    key
}

fn registry_data(admin: [u8; 32], tokens: &[(u8, &str, [u8; 32], [u8; 32])]) -> Vec<u8> {
    let mut token_map = TokenMap::new();
    for (class, symbol, mint, custody) in tokens {
        token_map.insert(
            TypeSymbol { account_type: *class, symbol: symbol.to_string() },
            MintProgram {
                mint: Pubkey::new_from_array(*mint),
                program_token_account: Pubkey::new_from_array(*custody),
            },
        );
    }
    let registry = Perpetual {
        is_initialized: true,
        secp256k1_pubkey: guardian(),
        gateway: Pubkey::new_from_array([0x6a; 32]),
        admin: Pubkey::new_from_array(admin),
        bump_seed: 253,
        token_map,
    };
    let mut data = vec![0u8; PERPETUAL_BYTES];
    registry.pack(&mut data).unwrap();
    data
}

fn user_data(user: [u8; 32], counters: &[(u8, u64)]) -> Vec<u8> {
    let account = Account {
        is_initialized: true,
        user: Pubkey::new_from_array(user),
        withdraw_id: counters.iter().cloned().collect(),
    };
    let mut data = vec![0u8; ACCOUNT_BYTES];
    account.pack(&mut data).unwrap();
    data
}

fn counters_of(data: &[u8]) -> BTreeMap<u8, u64> {
    Account::unpack(data).unwrap().withdraw_id
}

fn tokens_of(data: &[u8]) -> Vec<(u8, String, [u8; 32], [u8; 32])> {
    let registry = Perpetual::unpack(data).unwrap();
    (0..registry.token_map.len())
        .map(|i| {
            let e = registry.token_map.entry(i);
            (
                e.key.account_type,
                e.key.symbol.clone(),
                e.value.mint.to_bytes(),
                e.value.program_token_account.to_bytes(),
            )
        })
        .collect()
}

fn sign(owner: [u8; 32], class: u8, symbol: &str, amount: u64, id: u64, time: u64) -> (u8, [u8; 64]) {
    let mut message =
        solana_program::pubkey::Pubkey::new_from_array(owner).to_string().into_bytes();
    message.push(class);
    message.extend_from_slice(symbol.as_bytes());
    message.extend_from_slice(&amount.to_be_bytes());
    message.extend_from_slice(&id.to_be_bytes());
    message.extend_from_slice(&time.to_be_bytes());
    let hash = solana_program::keccak::hash(&message).to_bytes();
    let (signature, recovery) =
        libsecp256k1::sign(&libsecp256k1::Message::parse(&hash), &secret());
    (recovery.serialize(), signature.serialize())
}

fn deposit_accounts() -> Vec<AccountSnapshot> {
    vec![
        snapshot(USER, SYSTEM, true, vec![]),
        snapshot(USER_TOKENS, token_program(), false, token_data(MINT, USER, 500)),
        snapshot(CUSTODY, token_program(), false, token_data(MINT, REGISTRY, 0)),
        snapshot(USER_RECORD, PROGRAM, false, user_data(USER, &[])),
        snapshot(REGISTRY, PROGRAM, false, registry_data(ADMIN, &[(0, "USDC", MINT, CUSTODY)])),
        snapshot(token_program(), SYSTEM, false, vec![]),
    ]
}

fn withdraw_accounts(counters: &[(u8, u64)]) -> Vec<AccountSnapshot> {
    let mut accounts = deposit_accounts();
    accounts[3].data = user_data(USER, counters);
    accounts
}

fn deposit(accounts: &[AccountSnapshot], class: u8, symbol: &str, amount: u64) -> Result<Effects, ProgramError> {
    Processor::process_deposit(
        accounts,
        class,
        symbol.to_string(),
        amount,
        &Pubkey::new_from_array(PROGRAM),
    )
}

fn withdraw(
    accounts: &[AccountSnapshot],
    id: u64,
    deadline: u64,
    signed: (u8, [u8; 64]),
    clock: Option<i64>,
) -> Result<Effects, ProgramError> {
    Processor::process_withdraw(
        accounts,
        0,
        "USDC".to_string(),
        100,
        id,
        deadline,
        signed.0,
        signed.1,
        &Pubkey::new_from_array(PROGRAM),
        clock,
    )
}

fn good_withdraw(accounts: &[AccountSnapshot], id: u64) -> Result<Effects, ProgramError> {
    let deadline = NOW as u64 + 60;
    withdraw(accounts, id, deadline, sign(USER, 0, "USDC", 100, id, deadline), Some(NOW))
}

fn init_wire() -> Vec<u8> {
    let mut wire = vec![0u8];
    wire.extend_from_slice(&[0xaa; 64]);
    wire.extend_from_slice(&[0xbb; 32]);
    wire.extend_from_slice(&[0xcc; 32]);
    wire
}

#[test]
fn registry_init_on_empty_storage() {
    let accounts = vec![
        snapshot(USER, SYSTEM, true, vec![]),
        snapshot(REGISTRY, SYSTEM, false, vec![]),
        snapshot(SYSTEM, SYSTEM, false, vec![]),
    ];
    let effects =
        Processor::process(&Pubkey::new_from_array(PROGRAM), &accounts, &init_wire(), None)
            .unwrap();
    let (_, bump) = solana_program::pubkey::Pubkey::find_program_address(
        &[b"perpetual"],
        &solana_program::pubkey::Pubkey::new_from_array(PROGRAM),
    );
    let create = effects.create.unwrap();
    assert_eq!(create.payer.to_bytes(), USER);
    assert_eq!(create.new_account.to_bytes(), REGISTRY);
    assert_eq!(create.space, 2134);
    assert_eq!(create.owner.to_bytes(), PROGRAM);
    assert_eq!(create.seeds, vec![b"perpetual".to_vec(), vec![bump]]);
    assert!(effects.transfer.is_none());
    let write = effects.write.unwrap();
    assert_eq!(write.account, 1);
    assert_eq!(write.data.len(), PERPETUAL_BYTES);
    let registry = Perpetual::unpack(&write.data).unwrap();
    assert!(registry.is_initialized);
    assert_eq!(registry.secp256k1_pubkey, [0xaa; 64]);
    assert_eq!(registry.gateway.to_bytes(), [0xbb; 32]);
    assert_eq!(registry.admin.to_bytes(), [0xcc; 32]);
    assert_eq!(registry.bump_seed, bump);
    assert_eq!(registry.token_map.len(), 0);
    assert_eq!(&write.data[130..138], &[4, 0, 0, 0, 0, 0, 0, 0]);
}

#[test]
fn registry_init_checks_signer_and_accounts() {
    let program = Pubkey::new_from_array(PROGRAM);
    let mut accounts = vec![
        snapshot(USER, SYSTEM, false, vec![]),
        snapshot(REGISTRY, SYSTEM, false, vec![]),
        snapshot(SYSTEM, SYSTEM, false, vec![]),
    ];
    assert_eq!(
        Processor::process(&program, &accounts, &init_wire(), None).err(),
        Some(ProgramError::MissingRequiredSignature)
    );
    accounts[0].is_signer = true;
    for n in [0usize, 1, 2] {
        assert_eq!(
            Processor::process(&program, &accounts[..n], &init_wire(), None).err(),
            Some(ProgramError::NotEnoughAccountKeys)
        );
    }
    assert_eq!(
        Processor::process(&program, &accounts, &init_wire()[..100], None).err(),
        Some(ProgramError::InvalidInstructionData)
    );
    assert_eq!(
        Processor::process(&program, &accounts, &[], None).err(),
        Some(ProgramError::InvalidInstructionData)
    );
}

#[test]
fn registry_reconfigure_by_the_admin() {
    let accounts = vec![
        snapshot(ADMIN, SYSTEM, true, vec![]),
        snapshot(REGISTRY, PROGRAM, false, registry_data(ADMIN, &[(0, "USDC", MINT, CUSTODY)])),
    ];
    let effects = Processor::process_init_perpetual(
        &accounts,
        [0x01; 64],
        Pubkey::new_from_array([0x02; 32]),
        Pubkey::new_from_array([0x03; 32]),
        &Pubkey::new_from_array(PROGRAM),
    )
    .unwrap();
    assert!(effects.create.is_none());
    assert!(effects.transfer.is_none());
    let write = effects.write.unwrap();
    assert_eq!(write.account, 1);
    let registry = Perpetual::unpack(&write.data).unwrap();
    assert_eq!(registry.secp256k1_pubkey, [0x01; 64]);
    assert_eq!(registry.gateway.to_bytes(), [0x02; 32]);
    assert_eq!(registry.admin.to_bytes(), [0x03; 32]);
    assert_eq!(registry.bump_seed, 253);
    assert_eq!(tokens_of(&write.data), vec![(0, "USDC".to_string(), MINT, CUSTODY)]);
    // the old admin is admin no more
    let mut later = accounts.clone();
    later[1].data = write.data;
    assert_eq!(
        Processor::process_init_perpetual(
            &later,
            [0x01; 64],
            Pubkey::new_from_array([0x02; 32]),
            Pubkey::new_from_array(ADMIN),
            &Pubkey::new_from_array(PROGRAM),
        )
        .err(),
        Some(ProgramError::Custom(PerpError::IncorrectAdmin))
    );
}

#[test]
fn registry_reconfigure_by_another_is_refused() {
    let mut accounts = vec![
        snapshot(USER, SYSTEM, true, vec![]),
        snapshot(REGISTRY, PROGRAM, false, registry_data(ADMIN, &[])),
    ];
    let call = |accounts: &[AccountSnapshot]| {
        Processor::process_init_perpetual(
            accounts,
            [0x01; 64],
            Pubkey::new_from_array([0x02; 32]),
            Pubkey::new_from_array(USER),
            &Pubkey::new_from_array(PROGRAM),
        )
        .err()
    };
    assert_eq!(call(&accounts), Some(ProgramError::Custom(PerpError::IncorrectAdmin)));
    accounts[1].data[0] = 0;
    assert_eq!(call(&accounts), Some(ProgramError::UninitializedAccount));
    accounts[1].data.pop();
    assert_eq!(call(&accounts), Some(ProgramError::InvalidAccountData));
}

#[test]
fn token_toggle() {
    let program = Pubkey::new_from_array(PROGRAM);
    let mut accounts = vec![
        snapshot(ADMIN, SYSTEM, true, vec![]),
        snapshot(REGISTRY, PROGRAM, false, registry_data(ADMIN, &[])),
        snapshot(CUSTODY, token_program(), false, token_data(MINT, REGISTRY, 0)),
    ];
    let wire = [1u8, 0, 4, b'U', b'S', b'D', b'C'];
    let effects = Processor::process(&program, &accounts, &wire, None).unwrap();
    assert!(effects.create.is_none() && effects.transfer.is_none());
    let write = effects.write.unwrap();
    assert_eq!(write.account, 1);
    assert_eq!(tokens_of(&write.data), vec![(0, "USDC".to_string(), MINT, CUSTODY)]);
    // a custody account that the registry does not own clears the mapping
    accounts[1].data = write.data;
    accounts[2].data = token_data(MINT, USER, 0);
    let cleared = Processor::process(&program, &accounts, &wire, None).unwrap().write.unwrap();
    assert_eq!(tokens_of(&cleared.data), vec![]);
    // and deposits and withdrawals of the asset find no entry
    let mut trade = deposit_accounts();
    trade[4].data = cleared.data;
    assert_eq!(
        deposit(&trade, 0, "USDC", 100).err(),
        Some(ProgramError::Custom(PerpError::TokenNotRegistered))
    );
    let mut trade = withdraw_accounts(&[(0, 5)]);
    trade[4].data = trade[4].data.clone();
    trade[4].data = registry_data(ADMIN, &[]);
    assert_eq!(
        good_withdraw(&trade, 6).err(),
        Some(ProgramError::Custom(PerpError::TokenNotRegistered))
    );
}

#[test]
fn token_set_overwrites_and_an_account_of_another_program_clears() {
    let mut accounts = vec![
        snapshot(ADMIN, SYSTEM, true, vec![]),
        snapshot(
            REGISTRY,
            PROGRAM,
            false,
            registry_data(ADMIN, &[(0, "USDC", [1; 32], [2; 32]), (1, "SOL", [3; 32], [4; 32])]),
        ),
        snapshot(CUSTODY, token_program(), false, token_data(MINT, REGISTRY, 0)),
    ];
    let set = |accounts: &[AccountSnapshot], class: u8, symbol: &str| {
        Processor::process_set_tokenmap(accounts, class, symbol.to_string())
    };
    let data = set(&accounts, 0, "USDC").unwrap().write.unwrap().data;
    assert_eq!(
        tokens_of(&data),
        vec![(0, "USDC".to_string(), MINT, CUSTODY), (1, "SOL".to_string(), [3; 32], [4; 32])]
    );
    // an account that the token program does not own clears, whatever it holds
    accounts[2].owner = Pubkey::new_from_array(SYSTEM);
    let data = set(&accounts, 1, "SOL").unwrap().write.unwrap().data;
    assert_eq!(tokens_of(&data), vec![(0, "USDC".to_string(), [1; 32], [2; 32])]);
    accounts[2].data = vec![];
    let data = set(&accounts, 9, "NONE").unwrap().write.unwrap().data;
    assert_eq!(data, accounts[1].data);
}

#[test]
fn token_set_checks_admin_signer_and_custody_data() {
    let mut accounts = vec![
        snapshot(USER, SYSTEM, true, vec![]),
        snapshot(REGISTRY, PROGRAM, false, registry_data(ADMIN, &[])),
        snapshot(CUSTODY, token_program(), false, token_data(MINT, REGISTRY, 0)),
    ];
    let set = |accounts: &[AccountSnapshot]| {
        Processor::process_set_tokenmap(accounts, 0, "USDC".to_string()).err()
    };
    assert_eq!(set(&accounts), Some(ProgramError::Custom(PerpError::IncorrectAdmin)));
    accounts[0] = snapshot(ADMIN, SYSTEM, false, vec![]);
    assert_eq!(set(&accounts), Some(ProgramError::MissingRequiredSignature));
    accounts[0].is_signer = true;
    assert_eq!(set(&accounts[..2]), Some(ProgramError::NotEnoughAccountKeys));
    assert_eq!(set(&accounts[..1]), Some(ProgramError::NotEnoughAccountKeys));
    accounts[2].data = vec![0; spl_token::state::Account::LEN];
    assert_eq!(set(&accounts), Some(ProgramError::UninitializedAccount));
    accounts[2].data = vec![1, 2, 3];
    assert_eq!(set(&accounts), Some(ProgramError::InvalidAccountData));
    accounts[2].data = token_data(MINT, REGISTRY, 0);
    accounts[1].data = vec![0; PERPETUAL_BYTES];
    assert_eq!(set(&accounts), Some(ProgramError::UninitializedAccount));
}

#[test]
fn token_set_beyond_capacity_is_refused() {
    let symbols: Vec<String> = (0..27).map(|i| format!("T{:02}", i)).collect();
    let tokens: Vec<(u8, &str, [u8; 32], [u8; 32])> =
        symbols.iter().map(|s| (0u8, s.as_str(), MINT, CUSTODY)).collect();
    let accounts = vec![
        snapshot(ADMIN, SYSTEM, true, vec![]),
        snapshot(REGISTRY, PROGRAM, false, registry_data(ADMIN, &tokens)),
        snapshot(CUSTODY, token_program(), false, token_data(MINT, REGISTRY, 0)),
    ];
    assert_eq!(
        Processor::process_set_tokenmap(&accounts, 1, "ONE_TOO_MANY".to_string()).err(),
        Some(ProgramError::Custom(PerpError::CapacityExceeded))
    );
    assert!(Processor::process_set_tokenmap(&accounts, 0, "T05".to_string()).is_ok());
}

#[test]
fn user_account_init() {
    let accounts = vec![
        snapshot(USER, SYSTEM, true, vec![]),
        snapshot(USER_RECORD, SYSTEM, false, vec![]),
        snapshot(SYSTEM, SYSTEM, false, vec![]),
    ];
    let effects =
        Processor::process(&Pubkey::new_from_array(PROGRAM), &accounts, &[2], None).unwrap();
    let (_, bump) = solana_program::pubkey::Pubkey::find_program_address(
        &[b"perpetual", &USER],
        &solana_program::pubkey::Pubkey::new_from_array(PROGRAM),
    );
    let create = effects.create.unwrap();
    assert_eq!(create.payer.to_bytes(), USER);
    assert_eq!(create.new_account.to_bytes(), USER_RECORD);
    assert_eq!(create.space, 134);
    assert_eq!(create.owner.to_bytes(), PROGRAM);
    assert_eq!(create.seeds, vec![b"perpetual".to_vec(), USER.to_vec(), vec![bump]]);
    assert!(effects.transfer.is_none());
    let write = effects.write.unwrap();
    assert_eq!(write.account, 1);
    let account = Account::unpack(&write.data).unwrap();
    assert!(account.is_initialized);
    assert_eq!(account.user.to_bytes(), USER);
    assert!(account.withdraw_id.is_empty());
    let mut expected = vec![1u8];
    expected.extend_from_slice(&USER);
    expected.extend_from_slice(&[4, 0, 0, 0, 0]);
    expected.resize(ACCOUNT_BYTES, 0);
    assert_eq!(write.data, expected);
}

#[test]
fn user_account_init_twice_is_refused() {
    let program = Pubkey::new_from_array(PROGRAM);
    let mut accounts = vec![
        snapshot(USER, SYSTEM, true, vec![]),
        snapshot(USER_RECORD, PROGRAM, false, user_data(USER, &[])),
        snapshot(SYSTEM, SYSTEM, false, vec![]),
    ];
    assert_eq!(
        Processor::process_init_account(&accounts, &program).err(),
        Some(ProgramError::AccountAlreadyInitialized)
    );
    accounts[1].data = vec![0];
    assert_eq!(
        Processor::process_init_account(&accounts, &program).err(),
        Some(ProgramError::AccountAlreadyInitialized)
    );
    accounts[1].data = vec![];
    accounts[0].is_signer = false;
    assert_eq!(
        Processor::process_init_account(&accounts, &program).err(),
        Some(ProgramError::MissingRequiredSignature)
    );
    accounts[0].is_signer = true;
    for n in [0usize, 1, 2] {
        assert_eq!(
            Processor::process_init_account(&accounts[..n], &program).err(),
            Some(ProgramError::NotEnoughAccountKeys)
        );
    }
}

#[test]
fn deposit_scenario() {
    let accounts = deposit_accounts();
    let mut wire = vec![3u8, 0, 4];
    wire.extend_from_slice(b"USDC");
    wire.extend_from_slice(&100u64.to_le_bytes());
    let effects =
        Processor::process(&Pubkey::new_from_array(PROGRAM), &accounts, &wire, None).unwrap();
    assert!(effects.create.is_none());
    assert!(effects.write.is_none());
    let transfer = effects.transfer.unwrap();
    assert_eq!(transfer.source.to_bytes(), USER_TOKENS);
    assert_eq!(transfer.destination.to_bytes(), CUSTODY);
    assert_eq!(transfer.authority.to_bytes(), USER);
    assert_eq!(transfer.amount, 100);
    assert!(transfer.authority_seeds.is_empty());
    assert!(counters_of(&accounts[3].data).is_empty());
}

#[test]
fn deposit_checks_in_order() {
    let good = deposit_accounts();
    let failure = |change: &dyn Fn(&mut Vec<AccountSnapshot>)| {
        let mut accounts = deposit_accounts();
        change(&mut accounts);
        deposit(&accounts, 0, "USDC", 100).err()
    };
    assert!(deposit(&good, 0, "USDC", 100).is_ok());
    assert_eq!(failure(&|a| a[0].is_signer = false), Some(ProgramError::MissingRequiredSignature));
    assert_eq!(failure(&|a| a[1].data = vec![0; 165]), Some(ProgramError::UninitializedAccount));
    assert_eq!(failure(&|a| a[1].data = vec![]), Some(ProgramError::InvalidAccountData));
    assert_eq!(
        failure(&|a| a[3].owner = Pubkey::new_from_array(SYSTEM)),
        Some(ProgramError::IncorrectProgramId)
    );
    assert_eq!(failure(&|a| a[3].data[0] = 0), Some(ProgramError::UninitializedAccount));
    assert_eq!(failure(&|a| a[3].data[0] = 3), Some(ProgramError::InvalidAccountData));
    assert_eq!(
        failure(&|a| a[3].data = user_data(ADMIN, &[])),
        Some(ProgramError::InvalidAccountData)
    );
    assert_eq!(failure(&|a| a[4].data[0] = 0), Some(ProgramError::UninitializedAccount));
    assert_eq!(
        failure(&|a| a[4].owner = Pubkey::new_from_array(SYSTEM)),
        Some(ProgramError::IncorrectProgramId)
    );
    assert_eq!(
        failure(&|a| a[1].data = token_data([9; 32], USER, 500)),
        Some(ProgramError::InvalidAccountData)
    );
    assert_eq!(
        failure(&|a| a[2].key = Pubkey::new_from_array([9; 32])),
        Some(ProgramError::InvalidAccountData)
    );
    assert_eq!(
        failure(&|a| a[5].key = Pubkey::new_from_array(SYSTEM)),
        Some(ProgramError::IncorrectProgramId)
    );
    for n in 0..6usize {
        assert_eq!(
            deposit(&good[..n], 0, "USDC", 100).err(),
            Some(ProgramError::NotEnoughAccountKeys),
            "{} accounts",
            n
        );
    }
    // an earlier failure is reported before a later one
    assert_eq!(
        failure(&|a| {
            a[0].is_signer = false;
            a[1].data = vec![];
        }),
        Some(ProgramError::MissingRequiredSignature)
    );
    assert_eq!(
        failure(&|a| {
            a[4].data[0] = 0;
            a[4].owner = Pubkey::new_from_array(SYSTEM);
        }),
        Some(ProgramError::UninitializedAccount)
    );
}

#[test]
fn deposit_of_an_unregistered_asset_is_a_lookup_failure() {
    let accounts = deposit_accounts();
    for (class, symbol) in [(1u8, "USDC"), (0, "USDT"), (0, "usdc"), (0, ""), (0, "USDCC")] {
        assert_eq!(
            deposit(&accounts, class, symbol, 100).err(),
            Some(ProgramError::Custom(PerpError::TokenNotRegistered)),
            "{} {}",
            class,
            symbol
        );
    }
}

#[test]
fn withdraw_scenario() {
    let accounts = withdraw_accounts(&[(0, 5)]);
    let deadline = NOW as u64 + 60;
    let (recovery_id, signature) = sign(USER, 0, "USDC", 100, 6, deadline);
    let mut wire = vec![4u8, 0, 4];
    wire.extend_from_slice(b"USDC");
    wire.extend_from_slice(&100u64.to_le_bytes());
    wire.extend_from_slice(&6u64.to_le_bytes());
    wire.extend_from_slice(&deadline.to_le_bytes());
    wire.push(recovery_id);
    wire.extend_from_slice(&signature);
    let effects =
        Processor::process(&Pubkey::new_from_array(PROGRAM), &accounts, &wire, Some(NOW)).unwrap();
    assert!(effects.create.is_none());
    let transfer = effects.transfer.unwrap();
    assert_eq!(transfer.source.to_bytes(), CUSTODY);
    assert_eq!(transfer.destination.to_bytes(), USER_TOKENS);
    assert_eq!(transfer.authority.to_bytes(), REGISTRY);
    assert_eq!(transfer.amount, 100);
    assert_eq!(transfer.authority_seeds, vec![b"perpetual".to_vec(), vec![253]]);
    let write = effects.write.unwrap();
    assert_eq!(write.account, 3);
    assert_eq!(counters_of(&write.data).into_iter().collect::<Vec<_>>(), vec![(0, 6)]);
    // the same authorization, or one with a lower id, is refused from now on
    let mut later = accounts.clone();
    later[3].data = write.data;
    assert_eq!(
        Processor::process(&Pubkey::new_from_array(PROGRAM), &later, &wire, Some(NOW)).err(),
        Some(ProgramError::Custom(PerpError::WithdrawIdFail))
    );
    assert_eq!(
        good_withdraw(&later, 6).err(),
        Some(ProgramError::Custom(PerpError::WithdrawIdFail))
    );
    assert_eq!(
        good_withdraw(&later, 5).err(),
        Some(ProgramError::Custom(PerpError::WithdrawIdFail))
    );
    assert!(good_withdraw(&later, 7).is_ok());
}

#[test]
fn withdraw_ids_must_rise_per_asset_class() {
    let accounts = withdraw_accounts(&[(0, 5), (1, 900)]);
    for id in [0u64, 1, 4, 5] {
        assert_eq!(
            good_withdraw(&accounts, id).err(),
            Some(ProgramError::Custom(PerpError::WithdrawIdFail)),
            "{}",
            id
        );
    }
    let data = good_withdraw(&accounts, 6).unwrap().write.unwrap().data;
    assert_eq!(counters_of(&data).into_iter().collect::<Vec<_>>(), vec![(0, 6), (1, 900)]);
    let data = good_withdraw(&accounts, u64::MAX).unwrap().write.unwrap().data;
    assert_eq!(counters_of(&data).into_iter().collect::<Vec<_>>(), vec![(0, u64::MAX), (1, 900)]);
    // with no counter yet the last id counts as 0
    let fresh = withdraw_accounts(&[(1, 900)]);
    assert_eq!(
        good_withdraw(&fresh, 0).err(),
        Some(ProgramError::Custom(PerpError::WithdrawIdFail))
    );
    let data = good_withdraw(&fresh, 1).unwrap().write.unwrap().data;
    assert_eq!(counters_of(&data).into_iter().collect::<Vec<_>>(), vec![(0, 1), (1, 900)]);
}

#[test]
fn withdraw_wants_a_deadline_ahead_of_the_chain_time() {
    let accounts = withdraw_accounts(&[(0, 5)]);
    let at = |deadline: u64, clock: Option<i64>| {
        withdraw(&accounts, 6, deadline, sign(USER, 0, "USDC", 100, 6, deadline), clock).err()
    };
    assert_eq!(at(NOW as u64 + 1, Some(NOW)), None);
    assert_eq!(at(NOW as u64, Some(NOW)), Some(ProgramError::Custom(PerpError::DeadlineExpired)));
    assert_eq!(
        at(NOW as u64 - 1, Some(NOW)),
        Some(ProgramError::Custom(PerpError::DeadlineExpired))
    );
    assert_eq!(at(0, Some(0)), Some(ProgramError::Custom(PerpError::DeadlineExpired)));
    assert_eq!(at(0, Some(-1)), None);
    assert_eq!(at(u64::MAX, Some(i64::MAX)), None);
    assert_eq!(
        at(i64::MAX as u64, Some(i64::MAX)),
        Some(ProgramError::Custom(PerpError::DeadlineExpired))
    );
    assert_eq!(at(NOW as u64 + 1, None), Some(ProgramError::UnsupportedSysvar));
}

#[test]
fn withdraw_wants_the_guardian_signature_over_this_request() {
    let accounts = withdraw_accounts(&[(0, 5)]);
    let deadline = NOW as u64 + 60;
    let mismatch = Some(ProgramError::Custom(PerpError::SignatureMismatch));
    let signed_for = [
        sign(ADMIN, 0, "USDC", 100, 6, deadline),
        sign(USER, 1, "USDC", 100, 6, deadline),
        sign(USER, 0, "USDT", 100, 6, deadline),
        sign(USER, 0, "USDC", 101, 6, deadline),
        sign(USER, 0, "USDC", 100, 7, deadline),
        sign(USER, 0, "USDC", 100, 6, deadline + 1),
    ];
    for signed in signed_for {
        assert_eq!(withdraw(&accounts, 6, deadline, signed, Some(NOW)).err(), mismatch);
    }
    let (recovery_id, signature) = sign(USER, 0, "USDC", 100, 6, deadline);
    assert!(withdraw(&accounts, 6, deadline, (recovery_id, signature), Some(NOW)).is_ok());
    assert_eq!(
        withdraw(&accounts, 6, deadline, (recovery_id ^ 1, signature), Some(NOW)).err(),
        mismatch
    );
    assert_eq!(withdraw(&accounts, 6, deadline, (9, signature), Some(NOW)).err(), mismatch);
    let mut flipped = signature;
    flipped[10] ^= 1;
    assert_eq!(withdraw(&accounts, 6, deadline, (recovery_id, flipped), Some(NOW)).err(), mismatch);
    assert_eq!(withdraw(&accounts, 6, deadline, (0, [0; 64]), Some(NOW)).err(), mismatch);
    // a registry with another guardian key refuses the signature
    let mut other = accounts.clone();
    other[4].data[1] ^= 1;
    assert_eq!(
        withdraw(&other, 6, deadline, (recovery_id, signature), Some(NOW)).err(),
        mismatch
    );
}

#[test]
fn withdraw_checks_in_order() {
    let good = withdraw_accounts(&[(0, 5)]);
    let failure = |change: &dyn Fn(&mut Vec<AccountSnapshot>)| {
        let mut accounts = withdraw_accounts(&[(0, 5)]);
        change(&mut accounts);
        good_withdraw(&accounts, 6).err()
    };
    assert!(good_withdraw(&good, 6).is_ok());
    assert_eq!(failure(&|a| a[0].is_signer = false), Some(ProgramError::MissingRequiredSignature));
    assert_eq!(failure(&|a| a[1].data = vec![0; 165]), Some(ProgramError::UninitializedAccount));
    assert_eq!(
        failure(&|a| a[1].data = token_data(MINT, ADMIN, 0)),
        Some(ProgramError::InvalidAccountData)
    );
    assert_eq!(failure(&|a| a[3].data[0] = 0), Some(ProgramError::UninitializedAccount));
    assert_eq!(failure(&|a| a[3].data.push(0)), Some(ProgramError::InvalidAccountData));
    assert_eq!(
        failure(&|a| a[3].owner = Pubkey::new_from_array(SYSTEM)),
        Some(ProgramError::IncorrectProgramId)
    );
    assert_eq!(
        failure(&|a| a[3].data = user_data(ADMIN, &[(0, 5)])),
        Some(ProgramError::InvalidAccountData)
    );
    assert_eq!(
        failure(&|a| a[4].owner = Pubkey::new_from_array(SYSTEM)),
        Some(ProgramError::IncorrectProgramId)
    );
    assert_eq!(failure(&|a| a[4].data[0] = 0), Some(ProgramError::UninitializedAccount));
    assert_eq!(
        failure(&|a| a[4].data = registry_data(ADMIN, &[(0, "USDC", [9; 32], CUSTODY)])),
        Some(ProgramError::InvalidAccountData)
    );
    assert_eq!(
        failure(&|a| a[2].key = Pubkey::new_from_array([9; 32])),
        Some(ProgramError::InvalidAccountData)
    );
    assert_eq!(
        failure(&|a| a[5].key = Pubkey::new_from_array(SYSTEM)),
        Some(ProgramError::IncorrectProgramId)
    );
    for n in 0..6usize {
        assert_eq!(
            good_withdraw(&good[..n], 6).err(),
            Some(ProgramError::NotEnoughAccountKeys),
            "{} accounts",
            n
        );
    }
    // a stale id is reported before a passed deadline, and that before a bad
    // signature
    let stale = withdraw(&good, 5, 0, (0, [0; 64]), Some(NOW)).err();
    assert_eq!(stale, Some(ProgramError::Custom(PerpError::WithdrawIdFail)));
    let late = withdraw(&good, 6, 0, (0, [0; 64]), Some(NOW)).err();
    assert_eq!(late, Some(ProgramError::Custom(PerpError::DeadlineExpired)));
}

#[test]
fn a_record_of_another_user_moves_no_funds() {
    let deadline = NOW as u64 + 60;
    let mut accounts = withdraw_accounts(&[(0, 5)]);
    accounts[3].data = user_data(ADMIN, &[(0, 5)]);
    assert_eq!(deposit(&accounts, 0, "USDC", 100).err(), Some(ProgramError::InvalidAccountData));
    for owner in [USER, ADMIN] {
        assert_eq!(
            withdraw(&accounts, 6, deadline, sign(owner, 0, "USDC", 100, 6, deadline), Some(NOW))
                .err(),
            Some(ProgramError::InvalidAccountData)
        );
    }
}

#[test]
fn withdraw_for_an_eleventh_asset_class_does_not_fit() {
    let counters: Vec<(u8, u64)> = (1..=10u8).map(|class| (class, 1u64)).collect();
    let accounts = withdraw_accounts(&counters);
    assert_eq!(
        good_withdraw(&accounts, 6).err(),
        Some(ProgramError::Custom(PerpError::CapacityExceeded))
    );
    let counters: Vec<(u8, u64)> = (0..10u8).map(|class| (class, 1u64)).collect();
    let accounts = withdraw_accounts(&counters);
    let data = good_withdraw(&accounts, 6).unwrap().write.unwrap().data;
    assert_eq!(counters_of(&data).len(), 10);
    assert_eq!(counters_of(&data).get(&0), Some(&6));
}

#[test]
fn decisions_take_the_outside_results_as_given() {
    let accounts = withdraw_accounts(&[(0, 5)]);
    let program = Pubkey::new_from_array(PROGRAM);
    let token = perpetual::token_account::TokenAccount {
        mint: Pubkey::new_from_array(MINT),
        owner: Pubkey::new_from_array(USER),
        amount: 0,
    };
    let decide = |recovered: Option<[u8; 64]>, clock: Option<i64>| {
        Processor::decide_withdraw(
            &accounts,
            0,
            "USDC".to_string(),
            100,
            6,
            NOW as u64 + 1,
            &program,
            clock,
            Ok(token),
            recovered,
        )
    };
    assert!(decide(Some(guardian()), Some(NOW)).is_ok());
    assert_eq!(
        decide(None, Some(NOW)).err(),
        Some(ProgramError::Custom(PerpError::SignatureMismatch))
    );
    assert_eq!(
        decide(Some([0; 64]), Some(NOW)).err(),
        Some(ProgramError::Custom(PerpError::SignatureMismatch))
    );
    assert_eq!(
        Processor::decide_withdraw(
            &accounts,
            0,
            "USDC".to_string(),
            100,
            6,
            NOW as u64 + 1,
            &program,
            Some(NOW),
            Err(ProgramError::UninitializedAccount),
            Some(guardian()),
        )
        .err(),
        Some(ProgramError::UninitializedAccount)
    );
    assert_eq!(
        Processor::decide_deposit(
            &accounts,
            0,
            "USDC".to_string(),
            1,
            &program,
            Err(ProgramError::InvalidAccountData)
        )
        .err(),
        Some(ProgramError::InvalidAccountData)
    );
    let created = Processor::decide_init_account(
        &[
            snapshot(USER, SYSTEM, true, vec![]),
            snapshot(USER_RECORD, SYSTEM, false, vec![]),
            snapshot(SYSTEM, SYSTEM, false, vec![]),
        ],
        &program,
        Some((Pubkey::new_from_array(USER_RECORD), 200)),
    )
    .unwrap();
    assert_eq!(
        created.create.unwrap().seeds,
        vec![b"perpetual".to_vec(), USER.to_vec(), vec![200]]
    );
    assert_eq!(
        Processor::decide_init_account(
            &[
                snapshot(USER, SYSTEM, true, vec![]),
                snapshot(USER_RECORD, SYSTEM, false, vec![]),
                snapshot(SYSTEM, SYSTEM, false, vec![]),
            ],
            &program,
            None,
        )
        .err(),
        Some(ProgramError::InvalidSeeds)
    );
    let made = Processor::decide_init_perpetual(
        &[
            snapshot(USER, SYSTEM, true, vec![]),
            snapshot(REGISTRY, SYSTEM, false, vec![]),
            snapshot(SYSTEM, SYSTEM, false, vec![]),
        ],
        [1; 64],
        Pubkey::new_from_array([2; 32]),
        Pubkey::new_from_array([3; 32]),
        &program,
        Some((Pubkey::new_from_array(REGISTRY), 77)),
    )
    .unwrap();
    assert_eq!(made.create.unwrap().seeds, vec![b"perpetual".to_vec(), vec![77]]);
    assert_eq!(Perpetual::unpack(&made.write.unwrap().data).unwrap().bump_seed, 77);
    let set = Processor::decide_set_tokenmap(
        &[
            snapshot(ADMIN, SYSTEM, true, vec![]),
            snapshot(REGISTRY, PROGRAM, false, registry_data(ADMIN, &[])),
            snapshot(CUSTODY, token_program(), false, vec![]),
        ],
        0,
        "USDC".to_string(),
        Ok(perpetual::token_account::TokenAccount {
            mint: Pubkey::new_from_array(MINT),
            owner: Pubkey::new_from_array(REGISTRY),
            amount: 0,
        }),
    )
    .unwrap();
    assert_eq!(tokens_of(&set.write.unwrap().data), vec![(0, "USDC".to_string(), MINT, CUSTODY)]);
}
