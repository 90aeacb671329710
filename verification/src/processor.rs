//! The five operations. Each one reads the accounts of a request, checks them
//! in a fixed order, and answers with the steps that the host is to carry
//! out: at most one account to create, one transfer of tokens and one record
//! to write, in that order. Nothing is changed by the operation itself, so a
//! request that fails leaves no trace.

use crate::error::{PerpError, ProgramError};
use crate::guardian::{check_guardian_key, recover_withdraw_signer, withdraw_signer};
use crate::instruction::{instruction_parse, InstructionView, PerpetualInstruction};
use crate::pubkey::{
    perpetual_seed, perpetual_seed_bytes, program_address, seeds_of, Pubkey,
};
use crate::state::{
    account_load, account_store, perpetual_load, perpetual_store, Account, AccountRecord,
    Perpetual, PerpetualRecord, ACCOUNT_BYTES, PERPETUAL_BYTES,
};
use crate::symbol::{MintProgram, TypeSymbol};
use crate::token_account::{
    is_token_program, spl_token_account, token_program_id, TokenAccount, TokenAccountView,
};
use crate::token_map::{insert_record, records_map, remove_key, TokenMap, TokenRecord};
use std::collections::BTreeMap;
use vstd::prelude::*;
use vstd::utf8::encode_utf8;

verus! {

/// An account as a request presents it: its address, the program that owns
/// it, whether its key signed the request, and its data.
#[derive(Clone, Debug)]
pub struct AccountSnapshot {
    pub key: Pubkey,
    pub owner: Pubkey,
    pub is_signer: bool,
    pub data: Vec<u8>,
}

/// What an account presents, as plain values.
pub ghost struct AccountFacts {
    pub key: Seq<u8>,
    pub owner: Seq<u8>,
    pub is_signer: bool,
    pub data: Seq<u8>,
}

impl View for AccountSnapshot {
    type V = AccountFacts;

    open spec fn view(&self) -> AccountFacts {
        AccountFacts {
            key: self.key@,
            owner: self.owner@,
            is_signer: self.is_signer,
            data: self.data@,
        }
    }
}

/// The accounts of a request, as plain values.
pub open spec fn facts_of(accounts: Seq<AccountSnapshot>) -> Seq<AccountFacts> {
    Seq::new(accounts.len(), |i: int| accounts[i]@)
}

/// An account for the host to create: `payer` funds `new_account` with `space`
/// bytes of zeroed data, owned by `owner`. The new account's address is one
/// that the program derives, and `seeds` are the seeds that derive it.
#[derive(Debug)]
pub struct CreateAccount {
    pub payer: Pubkey,
    pub new_account: Pubkey,
    pub space: u64,
    pub owner: Pubkey,
    pub seeds: Vec<Vec<u8>>,
}

/// A transfer for the token program to make: `amount` units from `source` to
/// `destination`, on the authority of `authority`. Where the authority is an
/// address that the program derives, `authority_seeds` are the seeds that
/// derive it; where the authority signed the request itself, there are none.
#[derive(Debug)]
pub struct Transfer {
    pub source: Pubkey,
    pub destination: Pubkey,
    pub authority: Pubkey,
    pub amount: u64,
    pub authority_seeds: Vec<Vec<u8>>,
}

/// New data for the account at position `account` of the request.
#[derive(Debug)]
pub struct WriteData {
    pub account: usize,
    pub data: Vec<u8>,
}

/// The steps that an accepted request asks of the host, to be carried out in
/// the order of the fields.
#[derive(Debug)]
pub struct Effects {
    pub create: Option<CreateAccount>,
    pub transfer: Option<Transfer>,
    pub write: Option<WriteData>,
}

/// An account to create, as plain values.
pub ghost struct CreateView {
    pub payer: Seq<u8>,
    pub new_account: Seq<u8>,
    pub space: u64,
    pub owner: Seq<u8>,
    pub seeds: Seq<Seq<u8>>,
}

/// A transfer, as plain values.
pub ghost struct TransferView {
    pub source: Seq<u8>,
    pub destination: Seq<u8>,
    pub authority: Seq<u8>,
    pub amount: u64,
    pub authority_seeds: Seq<Seq<u8>>,
}

/// New data for an account, as plain values.
pub ghost struct WriteView {
    pub account: int,
    pub data: Seq<u8>,
}

/// The steps asked of the host, as plain values.
pub ghost struct EffectsView {
    pub create: Option<CreateView>,
    pub transfer: Option<TransferView>,
    pub write: Option<WriteView>,
}

impl View for CreateAccount {
    type V = CreateView;

    open spec fn view(&self) -> CreateView {
        CreateView {
            payer: self.payer@,
            new_account: self.new_account@,
            space: self.space,
            owner: self.owner@,
            seeds: seeds_of(self.seeds@),
        }
    }
}

impl View for Transfer {
    type V = TransferView;

    open spec fn view(&self) -> TransferView {
        TransferView {
            source: self.source@,
            destination: self.destination@,
            authority: self.authority@,
            amount: self.amount,
            authority_seeds: seeds_of(self.authority_seeds@),
        }
    }
}

impl View for WriteData {
    type V = WriteView;

    open spec fn view(&self) -> WriteView {
        WriteView { account: self.account as int, data: self.data@ }
    }
}

impl View for Effects {
    type V = EffectsView;

    open spec fn view(&self) -> EffectsView {
        EffectsView {
            create: match self.create {
                Some(c) => Some(c@),
                None => None,
            },
            transfer: match self.transfer {
                Some(t) => Some(t@),
                None => None,
            },
            write: match self.write {
                Some(w) => Some(w@),
                None => None,
            },
        }
    }
}

/// A buffer of `n` zero bytes: the data of an account that was just created.
pub open spec fn zeros(n: nat) -> Seq<u8> {
    Seq::new(n, |i: int| 0u8)
}

/// The seeds of the registry's address: the word `perpetual` and the bump
/// seed.
pub open spec fn registry_seeds(bump: u8) -> Seq<Seq<u8>> {
    seq![perpetual_seed(), seq![bump]]
}

/// The seeds of a user record's address: the word `perpetual`, the user's
/// address and the bump seed.
pub open spec fn user_seeds(user: Seq<u8>, bump: u8) -> Seq<Seq<u8>> {
    seq![perpetual_seed(), user, seq![bump]]
}

/// The bump seed of a derived address.
pub open spec fn bump_of(derived: Option<(Seq<u8>, u8)>) -> u8
    recommends
        derived is Some,
{
    match derived {
        Some((_, bump)) => bump,
        None => 0,
    }
}

/// The steps that write `data` to the account at position `account` and do
/// nothing else.
pub open spec fn write_only(account: int, data: Seq<u8>) -> EffectsView {
    EffectsView { create: None, transfer: None, write: Some(WriteView { account, data }) }
}

/// The id of the last withdrawal accepted for an asset class: 0 where none
/// was.
pub open spec fn last_withdraw_id(counters: Map<u8, u64>, account_type: u8) -> u64 {
    if counters.contains_key(account_type) {
        counters[account_type]
    } else {
        0
    }
}

/// What creating or reconfiguring the registry comes to. `derived` is the
/// address and bump seed that the seed `perpetual` derives for the program.
///
/// The caller must have signed. On empty storage the registry is created at
/// its derived address and written with the given keys, the bump seed and an
/// empty token map. On used storage the caller must be the stored admin; then
/// the three keys are replaced and the rest is kept.
pub open spec fn init_perpetual_outcome(
    accounts: Seq<AccountFacts>,
    secp256k1_pubkey: Seq<u8>,
    gateway: Seq<u8>,
    admin: Seq<u8>,
    program_id: Seq<u8>,
    derived: Option<(Seq<u8>, u8)>,
) -> Result<EffectsView, ProgramError> {
    if accounts.len() < 1 {
        Err(ProgramError::NotEnoughAccountKeys)
    } else if !accounts[0].is_signer {
        Err(ProgramError::MissingRequiredSignature)
    } else if accounts.len() < 2 {
        Err(ProgramError::NotEnoughAccountKeys)
    } else if accounts[1].data.len() == 0 {
        if derived is None {
            Err(ProgramError::InvalidSeeds)
        } else if accounts.len() < 3 {
            Err(ProgramError::NotEnoughAccountKeys)
        } else {
            let record = PerpetualRecord {
                is_initialized: true,
                secp256k1_pubkey,
                gateway,
                admin,
                bump_seed: bump_of(derived),
                tokens: Seq::empty(),
            };
            match perpetual_store(record, zeros(PERPETUAL_BYTES as nat)) {
                Err(e) => Err(e),
                Ok(data) => Ok(
                    EffectsView {
                        create: Some(
                            CreateView {
                                payer: accounts[0].key,
                                new_account: accounts[1].key,
                                space: PERPETUAL_BYTES as u64,
                                owner: program_id,
                                seeds: registry_seeds(bump_of(derived)),
                            },
                        ),
                        transfer: None,
                        write: Some(WriteView { account: 1, data }),
                    },
                ),
            }
        }
    } else {
        match perpetual_load(accounts[1].data) {
            Err(e) => Err(e),
            Ok(record) => if record.admin != accounts[0].key {
                Err(ProgramError::Custom(PerpError::IncorrectAdmin))
            } else {
                let updated = PerpetualRecord { secp256k1_pubkey, gateway, admin, ..record };
                match perpetual_store(updated, accounts[1].data) {
                    Err(e) => Err(e),
                    Ok(data) => Ok(write_only(1, data)),
                }
            },
        }
    }
}

/// What setting or clearing a token mapping comes to. `candidate` is what the
/// token program reads from the data of the custody account, the third
/// account.
///
/// The caller must have signed and be the admin of the initialized registry.
/// If the custody account is owned by the token program, it must hold a token
/// account; if that token account is owned by the registry, the key is mapped
/// to its mint and to the custody account. In every other case the key is
/// removed, which changes nothing where it was absent.
pub open spec fn set_tokenmap_outcome(
    accounts: Seq<AccountFacts>,
    account_type: u8,
    symbol: Seq<u8>,
    candidate: Result<TokenAccountView, ProgramError>,
) -> Result<EffectsView, ProgramError> {
    if accounts.len() < 1 {
        Err(ProgramError::NotEnoughAccountKeys)
    } else if !accounts[0].is_signer {
        Err(ProgramError::MissingRequiredSignature)
    } else if accounts.len() < 2 {
        Err(ProgramError::NotEnoughAccountKeys)
    } else {
        match perpetual_load(accounts[1].data) {
            Err(e) => Err(e),
            Ok(record) => if accounts[0].key != record.admin {
                Err(ProgramError::Custom(PerpError::IncorrectAdmin))
            } else if accounts.len() < 3 {
                Err(ProgramError::NotEnoughAccountKeys)
            } else if accounts[2].owner == token_program_id() && candidate is Err {
                Err(candidate->Err_0)
            } else {
                let key = (account_type, symbol);
                let tokens = if accounts[2].owner == token_program_id() && candidate->Ok_0.owner
                    == accounts[1].key {
                    insert_record(
                        record.tokens,
                        TokenRecord { key, value: (candidate->Ok_0.mint, accounts[2].key) },
                    )
                } else {
                    remove_key(record.tokens, key)
                };
                match perpetual_store(PerpetualRecord { tokens, ..record }, accounts[1].data) {
                    Err(e) => Err(e),
                    Ok(data) => Ok(write_only(1, data)),
                }
            },
        }
    }
}

/// What creating a user record comes to. `derived` is the address and bump
/// seed that the seed `perpetual` and the user's address derive for the
/// program.
///
/// The user must have signed and the storage be empty. Then the record is
/// created at its derived address and written as initialized, owned by the
/// user, without counters.
pub open spec fn init_account_outcome(
    accounts: Seq<AccountFacts>,
    program_id: Seq<u8>,
    derived: Option<(Seq<u8>, u8)>,
) -> Result<EffectsView, ProgramError> {
    if accounts.len() < 1 {
        Err(ProgramError::NotEnoughAccountKeys)
    } else if !accounts[0].is_signer {
        Err(ProgramError::MissingRequiredSignature)
    } else if accounts.len() < 2 {
        Err(ProgramError::NotEnoughAccountKeys)
    } else if accounts[1].data.len() != 0 {
        Err(ProgramError::AccountAlreadyInitialized)
    } else if derived is None {
        Err(ProgramError::InvalidSeeds)
    } else if accounts.len() < 3 {
        Err(ProgramError::NotEnoughAccountKeys)
    } else {
        let record = AccountRecord {
            is_initialized: true,
            user: accounts[0].key,
            withdraw_id: Map::empty(),
        };
        match account_store(record, zeros(ACCOUNT_BYTES as nat)) {
            Err(e) => Err(e),
            Ok(data) => Ok(
                EffectsView {
                    create: Some(
                        CreateView {
                            payer: accounts[0].key,
                            new_account: accounts[1].key,
                            space: ACCOUNT_BYTES as u64,
                            owner: program_id,
                            seeds: user_seeds(accounts[0].key, bump_of(derived)),
                        },
                    ),
                    transfer: None,
                    write: Some(WriteView { account: 1, data }),
                },
            ),
        }
    }
}

/// What a deposit comes to. `source` is what the token program reads from the
/// data of the user's token account, the second account.
///
/// In this order: the caller must have signed; the source must hold a token
/// account; the user record must be owned by the program, be initialized and
/// name the caller as its owner; the registry must be initialized and owned by
/// the program; it must have an entry for the key; the source's mint must be
/// the entry's mint; the third account must be the entry's custody account;
/// the sixth must be the token program. Then `amount` goes from the source to
/// custody on the caller's authority, and no record changes.
pub open spec fn deposit_outcome(
    accounts: Seq<AccountFacts>,
    account_type: u8,
    symbol: Seq<u8>,
    amount: u64,
    program_id: Seq<u8>,
    source: Result<TokenAccountView, ProgramError>,
) -> Result<EffectsView, ProgramError> {
    if accounts.len() < 1 {
        Err(ProgramError::NotEnoughAccountKeys)
    } else if !accounts[0].is_signer {
        Err(ProgramError::MissingRequiredSignature)
    } else if accounts.len() < 2 {
        Err(ProgramError::NotEnoughAccountKeys)
    } else if source is Err {
        Err(source->Err_0)
    } else if accounts.len() < 4 {
        Err(ProgramError::NotEnoughAccountKeys)
    } else if accounts[3].owner != program_id {
        Err(ProgramError::IncorrectProgramId)
    } else if account_load(accounts[3].data) is Err {
        Err(account_load(accounts[3].data)->Err_0)
    } else if account_load(accounts[3].data)->Ok_0.user != accounts[0].key {
        Err(ProgramError::InvalidAccountData)
    } else if accounts.len() < 5 {
        Err(ProgramError::NotEnoughAccountKeys)
    } else if perpetual_load(accounts[4].data) is Err {
        Err(perpetual_load(accounts[4].data)->Err_0)
    } else if accounts[4].owner != program_id {
        Err(ProgramError::IncorrectProgramId)
    } else {
        let tokens = records_map(perpetual_load(accounts[4].data)->Ok_0.tokens);
        let key = (account_type, symbol);
        if !tokens.contains_key(key) {
            Err(ProgramError::Custom(PerpError::TokenNotRegistered))
        } else if source->Ok_0.mint != tokens[key].0 {
            Err(ProgramError::InvalidAccountData)
        } else if tokens[key].1 != accounts[2].key {
            Err(ProgramError::InvalidAccountData)
        } else if accounts.len() < 6 {
            Err(ProgramError::NotEnoughAccountKeys)
        } else if accounts[5].key != token_program_id() {
            Err(ProgramError::IncorrectProgramId)
        } else {
            Ok(
                EffectsView {
                    create: None,
                    transfer: Some(
                        TransferView {
                            source: accounts[1].key,
                            destination: accounts[2].key,
                            authority: accounts[0].key,
                            amount,
                            authority_seeds: Seq::empty(),
                        },
                    ),
                    write: None,
                },
            )
        }
    }
}

/// Whether a deadline is still ahead of the chain time.
pub open spec fn deadline_ahead(timestamp: u64, now: i64) -> bool {
    timestamp > now
}

/// What a withdrawal comes to. `destination` is what the token program reads
/// from the data of the user's token account, the second account; `clock` is
/// the chain time, if the host gave one; `recovered` is the key recovered from
/// the guardian's signature over the canonical message of the request.
///
/// In this order: the caller must have signed; the destination must hold a
/// token account that the caller owns; the user record must be initialized,
/// owned by the program and name the caller as its owner; the registry must be
/// owned by the program and initialized; it must have an entry for the key;
/// the destination's mint must be the entry's mint; the third account must be
/// the entry's custody account; the sixth must be the token program; the
/// withdraw id must be above the last one accepted for the asset class; the
/// deadline must be after the chain time; the recovered key must be the
/// guardian's. Then `amount` goes from custody to the destination on the
/// authority of the registry's derived address, and the user record is
/// written with the withdraw id as the counter of the asset class.
pub open spec fn withdraw_outcome(
    accounts: Seq<AccountFacts>,
    account_type: u8,
    symbol: Seq<u8>,
    amount: u64,
    withdrawid: u64,
    timestamp: u64,
    program_id: Seq<u8>,
    clock: Option<i64>,
    destination: Result<TokenAccountView, ProgramError>,
    recovered: Option<Seq<u8>>,
) -> Result<EffectsView, ProgramError> {
    if accounts.len() < 1 {
        Err(ProgramError::NotEnoughAccountKeys)
    } else if !accounts[0].is_signer {
        Err(ProgramError::MissingRequiredSignature)
    } else if accounts.len() < 2 {
        Err(ProgramError::NotEnoughAccountKeys)
    } else if destination is Err {
        Err(destination->Err_0)
    } else if accounts[0].key != destination->Ok_0.owner {
        Err(ProgramError::InvalidAccountData)
    } else if accounts.len() < 4 {
        Err(ProgramError::NotEnoughAccountKeys)
    } else if account_load(accounts[3].data) is Err {
        Err(account_load(accounts[3].data)->Err_0)
    } else if accounts[3].owner != program_id {
        Err(ProgramError::IncorrectProgramId)
    } else if account_load(accounts[3].data)->Ok_0.user != accounts[0].key {
        Err(ProgramError::InvalidAccountData)
    } else if accounts.len() < 5 {
        Err(ProgramError::NotEnoughAccountKeys)
    } else if accounts[4].owner != program_id {
        Err(ProgramError::IncorrectProgramId)
    } else if perpetual_load(accounts[4].data) is Err {
        Err(perpetual_load(accounts[4].data)->Err_0)
    } else {
        let user = account_load(accounts[3].data)->Ok_0;
        let registry = perpetual_load(accounts[4].data)->Ok_0;
        let tokens = records_map(registry.tokens);
        let key = (account_type, symbol);
        if !tokens.contains_key(key) {
            Err(ProgramError::Custom(PerpError::TokenNotRegistered))
        } else if destination->Ok_0.mint != tokens[key].0 {
            Err(ProgramError::InvalidAccountData)
        } else if tokens[key].1 != accounts[2].key {
            Err(ProgramError::InvalidAccountData)
        } else if accounts.len() < 6 {
            Err(ProgramError::NotEnoughAccountKeys)
        } else if accounts[5].key != token_program_id() {
            Err(ProgramError::IncorrectProgramId)
        } else if last_withdraw_id(user.withdraw_id, account_type) >= withdrawid {
            Err(ProgramError::Custom(PerpError::WithdrawIdFail))
        } else if clock is None {
            Err(ProgramError::UnsupportedSysvar)
        } else if !deadline_ahead(timestamp, clock->0) {
            Err(ProgramError::Custom(PerpError::DeadlineExpired))
        } else if recovered != Some(registry.secp256k1_pubkey) {
            Err(ProgramError::Custom(PerpError::SignatureMismatch))
        } else {
            let updated = AccountRecord {
                withdraw_id: user.withdraw_id.insert(account_type, withdrawid),
                ..user
            };
            match account_store(updated, accounts[3].data) {
                Err(e) => Err(e),
                Ok(data) => Ok(
                    EffectsView {
                        create: None,
                        transfer: Some(
                            TransferView {
                                source: accounts[2].key,
                                destination: accounts[1].key,
                                authority: accounts[4].key,
                                amount,
                                authority_seeds: registry_seeds(registry.bump_seed),
                            },
                        ),
                        write: Some(WriteView { account: 3, data }),
                    },
                ),
            }
        }
    }
}

/// What creating or reconfiguring the registry comes to for a request.
pub open spec fn init_perpetual_result(
    accounts: Seq<AccountFacts>,
    secp256k1_pubkey: Seq<u8>,
    gateway: Seq<u8>,
    admin: Seq<u8>,
    program_id: Seq<u8>,
) -> Result<EffectsView, ProgramError> {
    init_perpetual_outcome(
        accounts,
        secp256k1_pubkey,
        gateway,
        admin,
        program_id,
        program_address(seq![perpetual_seed()], program_id),
    )
}

/// What setting or clearing a token mapping comes to for a request.
pub open spec fn set_tokenmap_result(
    accounts: Seq<AccountFacts>,
    account_type: u8,
    symbol: Seq<u8>,
) -> Result<EffectsView, ProgramError> {
    set_tokenmap_outcome(accounts, account_type, symbol, spl_token_account(accounts[2].data))
}

/// What creating a user record comes to for a request.
pub open spec fn init_account_result(accounts: Seq<AccountFacts>, program_id: Seq<u8>) -> Result<
    EffectsView,
    ProgramError,
> {
    init_account_outcome(
        accounts,
        program_id,
        program_address(seq![perpetual_seed(), accounts[0].key], program_id),
    )
}

/// What a deposit comes to for a request.
pub open spec fn deposit_result(
    accounts: Seq<AccountFacts>,
    account_type: u8,
    symbol: Seq<u8>,
    amount: u64,
    program_id: Seq<u8>,
) -> Result<EffectsView, ProgramError> {
    deposit_outcome(
        accounts,
        account_type,
        symbol,
        amount,
        program_id,
        spl_token_account(accounts[1].data),
    )
}

/// What a withdrawal comes to for a request at chain time `clock`.
pub open spec fn withdraw_result(
    accounts: Seq<AccountFacts>,
    account_type: u8,
    symbol: Seq<u8>,
    amount: u64,
    withdrawid: u64,
    timestamp: u64,
    recovery_id: u8,
    signature: Seq<u8>,
    program_id: Seq<u8>,
    clock: Option<i64>,
) -> Result<EffectsView, ProgramError> {
    withdraw_outcome(
        accounts,
        account_type,
        symbol,
        amount,
        withdrawid,
        timestamp,
        program_id,
        clock,
        spl_token_account(accounts[1].data),
        withdraw_signer(
            accounts[0].key,
            account_type,
            symbol,
            amount,
            withdrawid,
            timestamp,
            recovery_id,
            signature,
        ),
    )
}

/// What a request comes to: its bytes must be the wire form of an operation,
/// and then it comes to what that operation comes to.
pub open spec fn process_outcome(
    program_id: Seq<u8>,
    accounts: Seq<AccountFacts>,
    instruction_data: Seq<u8>,
    clock: Option<i64>,
) -> Result<EffectsView, ProgramError> {
    match instruction_parse(instruction_data) {
        None => Err(ProgramError::InvalidInstructionData),
        Some(InstructionView::InitPerpetual { secp256k1_pubkey, gateway, admin }) => {
            init_perpetual_result(accounts, secp256k1_pubkey, gateway, admin, program_id)
        },
        Some(InstructionView::SetTokenMap { account_type, symbol }) => set_tokenmap_result(
            accounts,
            account_type,
            symbol,
        ),
        Some(InstructionView::InitAccount) => init_account_result(accounts, program_id),
        Some(InstructionView::Deposit { account_type, symbol, amount }) => deposit_result(
            accounts,
            account_type,
            symbol,
            amount,
            program_id,
        ),
        Some(
            InstructionView::Withdraw {
                account_type,
                symbol,
                amount,
                withdrawid,
                timestamp,
                recovery_id,
                signature,
            },
        ) => withdraw_result(
            accounts,
            account_type,
            symbol,
            amount,
            withdrawid,
            timestamp,
            recovery_id,
            signature,
            program_id,
            clock,
        ),
    }
}

/// The outcome of reading a token account, as plain values.
pub open spec fn token_view(read: Result<TokenAccount, ProgramError>) -> Result<
    TokenAccountView,
    ProgramError,
> {
    match read {
        Ok(account) => Ok(account@),
        Err(e) => Err(e),
    }
}

/// A derived address and its bump seed, as plain values.
pub open spec fn derived_view(derived: Option<(Pubkey, u8)>) -> Option<(Seq<u8>, u8)> {
    match derived {
        Some((key, bump)) => Some((key@, bump)),
        None => None,
    }
}

/// A recovered key, as plain values.
pub open spec fn key_view(key: Option<[u8; 64]>) -> Option<Seq<u8>> {
    match key {
        Some(k) => Some(k@),
        None => None,
    }
}

/// Whether `result` is the outcome `outcome`, as plain values.
pub open spec fn is_outcome(
    result: Result<Effects, ProgramError>,
    outcome: Result<EffectsView, ProgramError>,
) -> bool {
    match result {
        Ok(effects) => outcome == Ok::<EffectsView, ProgramError>(effects@),
        Err(e) => outcome == Err::<EffectsView, ProgramError>(e),
    }
}

/// A buffer of `n` zero bytes.
fn zeroed(n: usize) -> (buffer: Vec<u8>)
    ensures
        buffer@ == zeros(n as nat),
{
    let mut buffer: Vec<u8> = Vec::new();
    let mut i: usize = 0;
    while i < n
        invariant
            i <= n,
            buffer@ == zeros(i as nat),
        decreases n - i,
    {
        buffer.push(0);
        assert(buffer@ =~= zeros((i + 1) as nat));
        i = i + 1;
    }
    buffer
}

/// The seeds of the registry's address.
fn registry_seed_list(bump: u8) -> (seeds: Vec<Vec<u8>>)
    ensures
        seeds_of(seeds@) == registry_seeds(bump),
{
    let mut seeds: Vec<Vec<u8>> = Vec::new();
    seeds.push(perpetual_seed_bytes());
    let mut last: Vec<u8> = Vec::new();
    last.push(bump);
    assert(last@ =~= seq![bump]);
    seeds.push(last);
    assert(seeds_of(seeds@) =~= registry_seeds(bump));
    seeds
}

/// The seeds of a user record's address.
fn user_seed_list(user: &Pubkey, bump: u8) -> (seeds: Vec<Vec<u8>>)
    ensures
        seeds_of(seeds@) == user_seeds(user@, bump),
{
    let mut seeds: Vec<Vec<u8>> = Vec::new();
    seeds.push(perpetual_seed_bytes());
    seeds.push(vstd::slice::slice_to_vec(user.bytes.as_slice()));
    let mut last: Vec<u8> = Vec::new();
    last.push(bump);
    assert(last@ =~= seq![bump]);
    seeds.push(last);
    assert(seeds_of(seeds@) =~= user_seeds(user@, bump));
    seeds
}

/// A copy of the data of an account.
fn copy_of(data: &Vec<u8>) -> (copy: Vec<u8>)
    ensures
        copy@ == data@,
{
    vstd::slice::slice_to_vec(data.as_slice())
}

/// The operations of the program.
pub struct Processor;

impl Processor {
    /// Carries out a request: reads the operation from `instruction_data` and
    /// decides it on the accounts. `clock` is the chain time, if the host gave
    /// one. The answer holds the steps that the host is to carry out.
    pub fn process(
        program_id: &Pubkey,
        accounts: &[AccountSnapshot],
        instruction_data: &[u8],
        clock: Option<i64>,
    ) -> (result: Result<Effects, ProgramError>)
        ensures
            is_outcome(
                result,
                process_outcome(program_id@, facts_of(accounts@), instruction_data@, clock),
            ),
    {
        let instruction = match PerpetualInstruction::unpack(instruction_data) {
            Err(e) => {
                return Err(e);
            },
            Ok(instruction) => instruction,
        };
        match instruction {
            PerpetualInstruction::InitPerpetual {
                secp256k1_pubkey,
                gateway,
                admin,
            } => Self::process_init_perpetual(
                accounts,
                secp256k1_pubkey,
                gateway,
                admin,
                program_id,
            ),
            PerpetualInstruction::SetTokenMap { account_type, symbol } => {
                Self::process_set_tokenmap(accounts, account_type, symbol)
            },
            PerpetualInstruction::InitAccount => Self::process_init_account(accounts, program_id),
            PerpetualInstruction::Deposit { account_type, symbol, amount } => {
                Self::process_deposit(accounts, account_type, symbol, amount, program_id)
            },
            PerpetualInstruction::Withdraw {
                account_type,
                symbol,
                amount,
                withdrawid,
                timestamp,
                recovery_id,
                signature,
            } => Self::process_withdraw(
                accounts,
                account_type,
                symbol,
                amount,
                withdrawid,
                timestamp,
                recovery_id,
                signature,
                program_id,
                clock,
            ),
        }
    }

    /// Creates the registry on empty storage, or gives it a new guardian key,
    /// gateway and admin at the stored admin's request.
    pub fn process_init_perpetual(
        accounts: &[AccountSnapshot],
        secp256k1_pubkey: [u8; 64],
        gateway: Pubkey,
        admin: Pubkey,
        program_id: &Pubkey,
    ) -> (result: Result<Effects, ProgramError>)
        ensures
            is_outcome(
                result,
                init_perpetual_result(
                    facts_of(accounts@),
                    secp256k1_pubkey@,
                    gateway@,
                    admin@,
                    program_id@,
                ),
            ),
    {
        let mut seeds: Vec<Vec<u8>> = Vec::new();
        seeds.push(perpetual_seed_bytes());
        assert(seeds_of(seeds@) =~= seq![perpetual_seed()]);
        let derived = Pubkey::try_find_program_address(&seeds, program_id);
        Self::decide_init_perpetual(accounts, secp256k1_pubkey, gateway, admin, program_id, derived)
    }

    /// Maps an asset key to the mint and address of a custody account that the
    /// registry owns, or removes the key where the account is not such a one.
    pub fn process_set_tokenmap(accounts: &[AccountSnapshot], account_type: u8, symbol: String) -> (result:
        Result<Effects, ProgramError>)
        ensures
            is_outcome(
                result,
                set_tokenmap_result(facts_of(accounts@), account_type, encode_utf8(symbol@)),
            ),
    {
        let candidate = if accounts.len() >= 3 {
            TokenAccount::read(accounts[2].data.as_slice())
        } else {
            Err(ProgramError::NotEnoughAccountKeys)
        };
        Self::decide_set_tokenmap(accounts, account_type, symbol, candidate)
    }

    /// Creates the record of the user who signed.
    pub fn process_init_account(accounts: &[AccountSnapshot], program_id: &Pubkey) -> (result:
        Result<Effects, ProgramError>)
        ensures
            is_outcome(result, init_account_result(facts_of(accounts@), program_id@)),
    {
        let derived = if accounts.len() >= 1 {
            let mut seeds: Vec<Vec<u8>> = Vec::new();
            seeds.push(perpetual_seed_bytes());
            seeds.push(vstd::slice::slice_to_vec(accounts[0].key.bytes.as_slice()));
            assert(seeds_of(seeds@) =~= seq![perpetual_seed(), accounts@[0].key@]);
            Pubkey::try_find_program_address(&seeds, program_id)
        } else {
            None
        };
        Self::decide_init_account(accounts, program_id, derived)
    }

    /// Moves `amount` units of a registered asset from the caller's token
    /// account into custody.
    pub fn process_deposit(
        accounts: &[AccountSnapshot],
        account_type: u8,
        symbol: String,
        amount: u64,
        program_id: &Pubkey,
    ) -> (result: Result<Effects, ProgramError>)
        ensures
            is_outcome(
                result,
                deposit_result(
                    facts_of(accounts@),
                    account_type,
                    encode_utf8(symbol@),
                    amount,
                    program_id@,
                ),
            ),
    {
        let source = if accounts.len() >= 2 {
            TokenAccount::read(accounts[1].data.as_slice())
        } else {
            Err(ProgramError::NotEnoughAccountKeys)
        };
        Self::decide_deposit(accounts, account_type, symbol, amount, program_id, source)
    }

    /// Releases `amount` units of a registered asset from custody to the
    /// caller's token account, if the guardian signed the request, its id is
    /// new and its deadline has not passed.
    pub fn process_withdraw(
        accounts: &[AccountSnapshot],
        account_type: u8,
        symbol: String,
        amount: u64,
        withdrawid: u64,
        timestamp: u64,
        recovery_id: u8,
        signature: [u8; 64],
        program_id: &Pubkey,
        clock: Option<i64>,
    ) -> (result: Result<Effects, ProgramError>)
        ensures
            is_outcome(
                result,
                withdraw_result(
                    facts_of(accounts@),
                    account_type,
                    encode_utf8(symbol@),
                    amount,
                    withdrawid,
                    timestamp,
                    recovery_id,
                    signature@,
                    program_id@,
                    clock,
                ),
            ),
    {
        let destination = if accounts.len() >= 2 {
            TokenAccount::read(accounts[1].data.as_slice())
        } else {
            Err(ProgramError::NotEnoughAccountKeys)
        };
        let recovered = if accounts.len() >= 1 {
            recover_withdraw_signer(
                &accounts[0].key,
                account_type,
                symbol.as_str().as_bytes(),
                amount,
                withdrawid,
                timestamp,
                recovery_id,
                &signature,
            )
        } else {
            None
        };
        Self::decide_withdraw(
            accounts,
            account_type,
            symbol,
            amount,
            withdrawid,
            timestamp,
            program_id,
            clock,
            destination,
            recovered,
        )
    }

    /// Creates or reconfigures the registry, given the address and bump seed
    /// that were derived for it.
    pub fn decide_init_perpetual(
        accounts: &[AccountSnapshot],
        secp256k1_pubkey: [u8; 64],
        gateway: Pubkey,
        admin: Pubkey,
        program_id: &Pubkey,
        derived: Option<(Pubkey, u8)>,
    ) -> (result: Result<Effects, ProgramError>)
        ensures
            is_outcome(
                result,
                init_perpetual_outcome(
                    facts_of(accounts@),
                    secp256k1_pubkey@,
                    gateway@,
                    admin@,
                    program_id@,
                    derived_view(derived),
                ),
            ),
    {
        if accounts.len() < 1 {
            return Err(ProgramError::NotEnoughAccountKeys);
        }
        if !accounts[0].is_signer {
            return Err(ProgramError::MissingRequiredSignature);
        }
        if accounts.len() < 2 {
            return Err(ProgramError::NotEnoughAccountKeys);
        }
        if accounts[1].data.len() == 0 {
            let bump = match derived {
                None => {
                    return Err(ProgramError::InvalidSeeds);
                },
                Some((_, bump)) => bump,
            };
            if accounts.len() < 3 {
                return Err(ProgramError::NotEnoughAccountKeys);
            }
            let perpetual = Perpetual {
                is_initialized: true,
                secp256k1_pubkey,
                gateway,
                admin,
                bump_seed: bump,
                token_map: TokenMap::new(),
            };
            let mut data = zeroed(PERPETUAL_BYTES);
            match perpetual.pack(data.as_mut_slice()) {
                Err(e) => Err(e),
                Ok(_) => Ok(
                    Effects {
                        create: Some(
                            CreateAccount {
                                payer: accounts[0].key,
                                new_account: accounts[1].key,
                                space: PERPETUAL_BYTES as u64,
                                owner: *program_id,
                                seeds: registry_seed_list(bump),
                            },
                        ),
                        transfer: None,
                        write: Some(WriteData { account: 1, data }),
                    },
                ),
            }
        } else {
            let mut perpetual = match Perpetual::unpack(accounts[1].data.as_slice()) {
                Err(e) => {
                    return Err(e);
                },
                Ok(perpetual) => perpetual,
            };
            if !perpetual.admin.equals(&accounts[0].key) {
                return Err(ProgramError::Custom(PerpError::IncorrectAdmin));
            }
            perpetual.secp256k1_pubkey = secp256k1_pubkey;
            perpetual.gateway = gateway;
            perpetual.admin = admin;
            let mut data = copy_of(&accounts[1].data);
            match perpetual.pack(data.as_mut_slice()) {
                Err(e) => Err(e),
                Ok(_) => Ok(
                    Effects {
                        create: None,
                        transfer: None,
                        write: Some(WriteData { account: 1, data }),
                    },
                ),
            }
        }
    }

    /// Sets or clears a token mapping, given what the token program reads
    /// from the custody account.
    pub fn decide_set_tokenmap(
        accounts: &[AccountSnapshot],
        account_type: u8,
        symbol: String,
        candidate: Result<TokenAccount, ProgramError>,
    ) -> (result: Result<Effects, ProgramError>)
        ensures
            is_outcome(
                result,
                set_tokenmap_outcome(
                    facts_of(accounts@),
                    account_type,
                    encode_utf8(symbol@),
                    token_view(candidate),
                ),
            ),
    {
        if accounts.len() < 1 {
            return Err(ProgramError::NotEnoughAccountKeys);
        }
        if !accounts[0].is_signer {
            return Err(ProgramError::MissingRequiredSignature);
        }
        if accounts.len() < 2 {
            return Err(ProgramError::NotEnoughAccountKeys);
        }
        let mut perpetual = match Perpetual::unpack(accounts[1].data.as_slice()) {
            Err(e) => {
                return Err(e);
            },
            Ok(perpetual) => perpetual,
        };
        if !accounts[0].key.equals(&perpetual.admin) {
            return Err(ProgramError::Custom(PerpError::IncorrectAdmin));
        }
        if accounts.len() < 3 {
            return Err(ProgramError::NotEnoughAccountKeys);
        }
        let key = TypeSymbol { account_type, symbol };
        let mut registered = false;
        if is_token_program(&accounts[2].owner) {
            match candidate {
                Err(e) => {
                    return Err(e);
                },
                Ok(token) => {
                    if token.owner.equals(&accounts[1].key) {
                        perpetual.token_map.insert(
                            key.duplicate(),
                            MintProgram {
                                mint: token.mint,
                                program_token_account: accounts[2].key,
                            },
                        );
                        registered = true;
                    }
                },
            }
        }
        if !registered {
            perpetual.token_map.remove(&key);
        }
        let mut data = copy_of(&accounts[1].data);
        match perpetual.pack(data.as_mut_slice()) {
            Err(e) => Err(e),
            Ok(_) => Ok(
                Effects { create: None, transfer: None, write: Some(WriteData { account: 1, data }) },
            ),
        }
    }

    /// Creates the record of a user, given the address and bump seed that
    /// were derived for it.
    pub fn decide_init_account(
        accounts: &[AccountSnapshot],
        program_id: &Pubkey,
        derived: Option<(Pubkey, u8)>,
    ) -> (result: Result<Effects, ProgramError>)
        ensures
            is_outcome(
                result,
                init_account_outcome(facts_of(accounts@), program_id@, derived_view(derived)),
            ),
    {
        if accounts.len() < 1 {
            return Err(ProgramError::NotEnoughAccountKeys);
        }
        if !accounts[0].is_signer {
            return Err(ProgramError::MissingRequiredSignature);
        }
        if accounts.len() < 2 {
            return Err(ProgramError::NotEnoughAccountKeys);
        }
        if accounts[1].data.len() != 0 {
            return Err(ProgramError::AccountAlreadyInitialized);
        }
        let bump = match derived {
            None => {
                return Err(ProgramError::InvalidSeeds);
            },
            Some((_, bump)) => bump,
        };
        if accounts.len() < 3 {
            return Err(ProgramError::NotEnoughAccountKeys);
        }
        let account = Account {
            is_initialized: true,
            user: accounts[0].key,
            withdraw_id: BTreeMap::new(),
        };
        let mut data = zeroed(ACCOUNT_BYTES);
        match account.pack(data.as_mut_slice()) {
            Err(e) => Err(e),
            Ok(_) => Ok(
                Effects {
                    create: Some(
                        CreateAccount {
                            payer: accounts[0].key,
                            new_account: accounts[1].key,
                            space: ACCOUNT_BYTES as u64,
                            owner: *program_id,
                            seeds: user_seed_list(&accounts[0].key, bump),
                        },
                    ),
                    transfer: None,
                    write: Some(WriteData { account: 1, data }),
                },
            ),
        }
    }

    /// Decides a deposit, given what the token program reads from the source
    /// token account.
    pub fn decide_deposit(
        accounts: &[AccountSnapshot],
        account_type: u8,
        symbol: String,
        amount: u64,
        program_id: &Pubkey,
        source: Result<TokenAccount, ProgramError>,
    ) -> (result: Result<Effects, ProgramError>)
        ensures
            is_outcome(
                result,
                deposit_outcome(
                    facts_of(accounts@),
                    account_type,
                    encode_utf8(symbol@),
                    amount,
                    program_id@,
                    token_view(source),
                ),
            ),
    {
        if accounts.len() < 1 {
            return Err(ProgramError::NotEnoughAccountKeys);
        }
        if !accounts[0].is_signer {
            return Err(ProgramError::MissingRequiredSignature);
        }
        if accounts.len() < 2 {
            return Err(ProgramError::NotEnoughAccountKeys);
        }
        let token = match source {
            Err(e) => {
                return Err(e);
            },
            Ok(token) => token,
        };
        if accounts.len() < 4 {
            return Err(ProgramError::NotEnoughAccountKeys);
        }
        if !accounts[3].owner.equals(program_id) {
            return Err(ProgramError::IncorrectProgramId);
        }
        let account = match Account::unpack(accounts[3].data.as_slice()) {
            Err(e) => {
                return Err(e);
            },
            Ok(account) => account,
        };
        if !account.user.equals(&accounts[0].key) {
            return Err(ProgramError::InvalidAccountData);
        }
        if accounts.len() < 5 {
            return Err(ProgramError::NotEnoughAccountKeys);
        }
        let perpetual = match Perpetual::unpack(accounts[4].data.as_slice()) {
            Err(e) => {
                return Err(e);
            },
            Ok(perpetual) => perpetual,
        };
        if !accounts[4].owner.equals(program_id) {
            return Err(ProgramError::IncorrectProgramId);
        }
        proof {
            perpetual.token_map.lemma_view();
        }
        let mint_program = match perpetual.token_map.get(&TypeSymbol { account_type, symbol }) {
            None => {
                return Err(ProgramError::Custom(PerpError::TokenNotRegistered));
            },
            Some(entry) => entry,
        };
        if !token.mint.equals(&mint_program.mint) {
            return Err(ProgramError::InvalidAccountData);
        }
        if !mint_program.program_token_account.equals(&accounts[2].key) {
            return Err(ProgramError::InvalidAccountData);
        }
        if accounts.len() < 6 {
            return Err(ProgramError::NotEnoughAccountKeys);
        }
        if !is_token_program(&accounts[5].key) {
            return Err(ProgramError::IncorrectProgramId);
        }
        let authority_seeds: Vec<Vec<u8>> = Vec::new();
        assert(seeds_of(authority_seeds@) =~= Seq::<Seq<u8>>::empty());
        Ok(
            Effects {
                create: None,
                transfer: Some(
                    Transfer {
                        source: accounts[1].key,
                        destination: accounts[2].key,
                        authority: accounts[0].key,
                        amount,
                        authority_seeds,
                    },
                ),
                write: None,
            },
        )
    }

    /// Decides a withdrawal, given what the token program reads from the
    /// destination token account, the chain time, and the key recovered from
    /// the guardian's signature.
    pub fn decide_withdraw(
        accounts: &[AccountSnapshot],
        account_type: u8,
        symbol: String,
        amount: u64,
        withdrawid: u64,
        timestamp: u64,
        program_id: &Pubkey,
        clock: Option<i64>,
        destination: Result<TokenAccount, ProgramError>,
        recovered: Option<[u8; 64]>,
    ) -> (result: Result<Effects, ProgramError>)
        ensures
            is_outcome(
                result,
                withdraw_outcome(
                    facts_of(accounts@),
                    account_type,
                    encode_utf8(symbol@),
                    amount,
                    withdrawid,
                    timestamp,
                    program_id@,
                    clock,
                    token_view(destination),
                    key_view(recovered),
                ),
            ),
    {
        if accounts.len() < 1 {
            return Err(ProgramError::NotEnoughAccountKeys);
        }
        if !accounts[0].is_signer {
            return Err(ProgramError::MissingRequiredSignature);
        }
        if accounts.len() < 2 {
            return Err(ProgramError::NotEnoughAccountKeys);
        }
        let token = match destination {
            Err(e) => {
                return Err(e);
            },
            Ok(token) => token,
        };
        if !accounts[0].key.equals(&token.owner) {
            return Err(ProgramError::InvalidAccountData);
        }
        if accounts.len() < 4 {
            return Err(ProgramError::NotEnoughAccountKeys);
        }
        let mut account = match Account::unpack(accounts[3].data.as_slice()) {
            Err(e) => {
                return Err(e);
            },
            Ok(account) => account,
        };
        if !accounts[3].owner.equals(program_id) {
            return Err(ProgramError::IncorrectProgramId);
        }
        if !account.user.equals(&accounts[0].key) {
            return Err(ProgramError::InvalidAccountData);
        }
        if accounts.len() < 5 {
            return Err(ProgramError::NotEnoughAccountKeys);
        }
        if !accounts[4].owner.equals(program_id) {
            return Err(ProgramError::IncorrectProgramId);
        }
        let perpetual = match Perpetual::unpack(accounts[4].data.as_slice()) {
            Err(e) => {
                return Err(e);
            },
            Ok(perpetual) => perpetual,
        };
        proof {
            perpetual.token_map.lemma_view();
        }
        let mint_program = match perpetual.token_map.get(&TypeSymbol { account_type, symbol }) {
            None => {
                return Err(ProgramError::Custom(PerpError::TokenNotRegistered));
            },
            Some(entry) => entry,
        };
        if !token.mint.equals(&mint_program.mint) {
            return Err(ProgramError::InvalidAccountData);
        }
        if !mint_program.program_token_account.equals(&accounts[2].key) {
            return Err(ProgramError::InvalidAccountData);
        }
        if accounts.len() < 6 {
            return Err(ProgramError::NotEnoughAccountKeys);
        }
        if !is_token_program(&accounts[5].key) {
            return Err(ProgramError::IncorrectProgramId);
        }
        let last: u64 = match account.withdraw_id.get(&account_type) {
            Some(id) => *id,
            None => 0,
        };
        if last >= withdrawid {
            return Err(ProgramError::Custom(PerpError::WithdrawIdFail));
        }
        let now = match clock {
            None => {
                return Err(ProgramError::UnsupportedSysvar);
            },
            Some(now) => now,
        };
        if now >= 0 && timestamp <= now as u64 {
            return Err(ProgramError::Custom(PerpError::DeadlineExpired));
        }
        match check_guardian_key(&recovered, &perpetual.secp256k1_pubkey) {
            Err(e) => {
                return Err(ProgramError::Custom(e));
            },
            Ok(_) => {},
        }
        account.withdraw_id.insert(account_type, withdrawid);
        let mut data = copy_of(&accounts[3].data);
        match account.pack(data.as_mut_slice()) {
            Err(e) => Err(e),
            Ok(_) => Ok(
                Effects {
                    create: None,
                    transfer: Some(
                        Transfer {
                            source: accounts[2].key,
                            destination: accounts[1].key,
                            authority: accounts[4].key,
                            amount,
                            authority_seeds: registry_seed_list(perpetual.bump_seed),
                        },
                    ),
                    write: Some(WriteData { account: 3, data }),
                },
            ),
        }
    }
}

} // verus!
