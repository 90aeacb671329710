//! What holds of every request: what an operation writes reads back as the
//! record it meant, withdrawals cannot be replayed, only the guardian's key
//! releases funds, and nobody moves funds on another user's record.

use crate::error::ProgramError;
use crate::map_format::sound_record;
use crate::processor::{
    bump_of, deposit_outcome, init_account_outcome, init_perpetual_outcome, last_withdraw_id,
    registry_seeds, set_tokenmap_outcome, user_seeds, withdraw_outcome, zeros, AccountFacts,
    CreateView, TransferView,
};
use crate::state::{
    account_load, lemma_account_round_trip, lemma_perpetual_round_trip,
    lemma_perpetual_unpack_valid, perpetual_load, perpetual_valid, AccountRecord,
    PerpetualRecord, ACCOUNT_BYTES, PERPETUAL_BYTES,
};
use crate::symbol::is_utf8;
use crate::token_account::{token_program_id, TokenAccountView};
use crate::token_map::{
    insert_record, lemma_insert_record, lemma_insert_record_members, lemma_remove_key,
    lemma_remove_key_members, records_map, remove_key, TokenRecord,
};
use vstd::prelude::*;

verus! {

/// Registry creation: a request accepted on empty storage asks for the
/// registry to be created at the second account, paid by the caller, owned by
/// the program and signed for with the registry's seeds; and what it writes
/// reads back as an initialized registry with the three given keys, the bump
/// seed that was derived, and no token.
pub proof fn lemma_registry_created(
    accounts: Seq<AccountFacts>,
    secp256k1_pubkey: Seq<u8>,
    gateway: Seq<u8>,
    admin: Seq<u8>,
    program_id: Seq<u8>,
    derived: Option<(Seq<u8>, u8)>,
)
    requires
        secp256k1_pubkey.len() == 64,
        gateway.len() == 32,
        admin.len() == 32,
        accounts.len() >= 2 ==> accounts[1].data.len() == 0,
        init_perpetual_outcome(accounts, secp256k1_pubkey, gateway, admin, program_id, derived)
            is Ok,
    ensures
        ({
            let outcome = init_perpetual_outcome(
                accounts,
                secp256k1_pubkey,
                gateway,
                admin,
                program_id,
                derived,
            )->Ok_0;
            &&& accounts[0].is_signer
            &&& outcome.create == Some(
                CreateView {
                    payer: accounts[0].key,
                    new_account: accounts[1].key,
                    space: PERPETUAL_BYTES as u64,
                    owner: program_id,
                    seeds: registry_seeds(bump_of(derived)),
                },
            )
            &&& outcome.transfer is None
            &&& outcome.write is Some
            &&& outcome.write->0.account == 1
            &&& perpetual_load(outcome.write->0.data) == Ok::<PerpetualRecord, ProgramError>(
                PerpetualRecord {
                    is_initialized: true,
                    secp256k1_pubkey,
                    gateway,
                    admin,
                    bump_seed: bump_of(derived),
                    tokens: Seq::empty(),
                },
            )
        }),
{
    let record = PerpetualRecord {
        is_initialized: true,
        secp256k1_pubkey,
        gateway,
        admin,
        bump_seed: bump_of(derived),
        tokens: Seq::empty(),
    };
    lemma_perpetual_round_trip(record, zeros(PERPETUAL_BYTES as nat));
}

/// Reconfiguration: a request accepted on used storage comes from the stored
/// admin, and what it writes reads back as the registry with the three given
/// keys in place of the old ones and with the bump seed and the token map as
/// they were.
pub proof fn lemma_registry_reconfigured(
    accounts: Seq<AccountFacts>,
    secp256k1_pubkey: Seq<u8>,
    gateway: Seq<u8>,
    admin: Seq<u8>,
    program_id: Seq<u8>,
    derived: Option<(Seq<u8>, u8)>,
)
    requires
        secp256k1_pubkey.len() == 64,
        gateway.len() == 32,
        admin.len() == 32,
        accounts.len() >= 2 ==> accounts[1].data.len() != 0,
        init_perpetual_outcome(accounts, secp256k1_pubkey, gateway, admin, program_id, derived)
            is Ok,
    ensures
        ({
            let outcome = init_perpetual_outcome(
                accounts,
                secp256k1_pubkey,
                gateway,
                admin,
                program_id,
                derived,
            )->Ok_0;
            let before = perpetual_load(accounts[1].data)->Ok_0;
            &&& accounts[0].is_signer
            &&& perpetual_load(accounts[1].data) is Ok
            &&& before.admin == accounts[0].key
            &&& outcome.create is None
            &&& outcome.transfer is None
            &&& outcome.write is Some
            &&& outcome.write->0.account == 1
            &&& perpetual_load(outcome.write->0.data) == Ok::<PerpetualRecord, ProgramError>(
                PerpetualRecord { secp256k1_pubkey, gateway, admin, ..before },
            )
        }),
{
    let before = perpetual_load(accounts[1].data)->Ok_0;
    lemma_perpetual_unpack_valid(accounts[1].data);
    lemma_perpetual_round_trip(
        PerpetualRecord { secp256k1_pubkey, gateway, admin, ..before },
        accounts[1].data,
    );
}

/// Token toggle: a request that is accepted comes from the stored admin, and
/// what it writes reads back as the registry with one change to its token
/// map. Where the custody account is owned by the token program and holds a
/// token account that the registry owns, the key maps to that account's mint
/// and to the custody account; in every other case the key is absent. Every
/// other key maps as before.
pub proof fn lemma_token_mapping_toggled(
    accounts: Seq<AccountFacts>,
    account_type: u8,
    symbol: Seq<u8>,
    candidate: Result<TokenAccountView, ProgramError>,
)
    requires
        is_utf8(symbol),
        accounts.len() >= 3 ==> accounts[2].key.len() == 32,
        candidate is Ok ==> candidate->Ok_0.mint.len() == 32,
        set_tokenmap_outcome(accounts, account_type, symbol, candidate) is Ok,
    ensures
        ({
            let outcome = set_tokenmap_outcome(accounts, account_type, symbol, candidate)->Ok_0;
            let before = perpetual_load(accounts[1].data)->Ok_0;
            let after = perpetual_load(outcome.write->0.data);
            let key = (account_type, symbol);
            let registers = accounts[2].owner == token_program_id() && candidate->Ok_0.owner
                == accounts[1].key;
            &&& accounts[0].is_signer
            &&& perpetual_load(accounts[1].data) is Ok
            &&& before.admin == accounts[0].key
            &&& outcome.create is None
            &&& outcome.transfer is None
            &&& outcome.write is Some
            &&& outcome.write->0.account == 1
            &&& after is Ok
            &&& after->Ok_0 == PerpetualRecord { tokens: after->Ok_0.tokens, ..before }
            &&& registers ==> records_map(after->Ok_0.tokens) == records_map(
                before.tokens,
            ).insert(key, (candidate->Ok_0.mint, accounts[2].key))
            &&& !registers ==> records_map(after->Ok_0.tokens) == records_map(
                before.tokens,
            ).remove(key)
        }),
{
    let before = perpetual_load(accounts[1].data)->Ok_0;
    let key = (account_type, symbol);
    lemma_perpetual_unpack_valid(accounts[1].data);
    let registers = accounts[2].owner == token_program_id() && candidate->Ok_0.owner
        == accounts[1].key;
    if registers {
        let record = TokenRecord { key, value: (candidate->Ok_0.mint, accounts[2].key) };
        let tokens = insert_record(before.tokens, record);
        lemma_insert_record(before.tokens, record);
        assert(sound_record(record));
        assert forall|i: int| 0 <= i < tokens.len() implies sound_record(#[trigger] tokens[i]) by {
            lemma_insert_record_members(before.tokens, record, i);
        }
        assert(perpetual_valid(PerpetualRecord { tokens, ..before }));
        lemma_perpetual_round_trip(PerpetualRecord { tokens, ..before }, accounts[1].data);
    } else {
        let tokens = remove_key(before.tokens, key);
        lemma_remove_key(before.tokens, key);
        assert forall|i: int| 0 <= i < tokens.len() implies sound_record(#[trigger] tokens[i]) by {
            lemma_remove_key_members(before.tokens, key, i);
        }
        assert(perpetual_valid(PerpetualRecord { tokens, ..before }));
        lemma_perpetual_round_trip(PerpetualRecord { tokens, ..before }, accounts[1].data);
    }
}

/// User record creation: a request that is accepted comes from a user who
/// signed, on empty storage; it asks for the record to be created at the
/// second account, paid by the user, owned by the program and signed for with
/// the record's seeds; and what it writes reads back as an initialized record
/// owned by the user, without counters.
pub proof fn lemma_user_record_created(
    accounts: Seq<AccountFacts>,
    program_id: Seq<u8>,
    derived: Option<(Seq<u8>, u8)>,
)
    requires
        accounts.len() >= 1 ==> accounts[0].key.len() == 32,
        init_account_outcome(accounts, program_id, derived) is Ok,
    ensures
        ({
            let outcome = init_account_outcome(accounts, program_id, derived)->Ok_0;
            &&& accounts[0].is_signer
            &&& accounts[1].data.len() == 0
            &&& outcome.create == Some(
                CreateView {
                    payer: accounts[0].key,
                    new_account: accounts[1].key,
                    space: ACCOUNT_BYTES as u64,
                    owner: program_id,
                    seeds: user_seeds(accounts[0].key, bump_of(derived)),
                },
            )
            &&& outcome.transfer is None
            &&& outcome.write is Some
            &&& outcome.write->0.account == 1
            &&& account_load(outcome.write->0.data) == Ok::<AccountRecord, ProgramError>(
                AccountRecord {
                    is_initialized: true,
                    user: accounts[0].key,
                    withdraw_id: Map::empty(),
                },
            )
        }),
{
    let record = AccountRecord {
        is_initialized: true,
        user: accounts[0].key,
        withdraw_id: Map::empty(),
    };
    lemma_account_round_trip(record, zeros(ACCOUNT_BYTES as nat));
}

/// Deposit: a deposit that is accepted moves the amount from the caller's
/// token account to the custody account that the registry holds for the
/// asset, on the caller's authority, and it creates and writes nothing: the
/// counters stay as they are.
pub proof fn lemma_deposit_moves_to_custody(
    accounts: Seq<AccountFacts>,
    account_type: u8,
    symbol: Seq<u8>,
    amount: u64,
    program_id: Seq<u8>,
    source: Result<TokenAccountView, ProgramError>,
)
    requires
        deposit_outcome(accounts, account_type, symbol, amount, program_id, source) is Ok,
    ensures
        ({
            let outcome = deposit_outcome(
                accounts,
                account_type,
                symbol,
                amount,
                program_id,
                source,
            )->Ok_0;
            let tokens = records_map(perpetual_load(accounts[4].data)->Ok_0.tokens);
            &&& accounts[0].is_signer
            &&& tokens.contains_key((account_type, symbol))
            &&& tokens[(account_type, symbol)] == (source->Ok_0.mint, accounts[2].key)
            &&& outcome.create is None
            &&& outcome.write is None
            &&& outcome.transfer == Some(
                TransferView {
                    source: accounts[1].key,
                    destination: accounts[2].key,
                    authority: accounts[0].key,
                    amount,
                    authority_seeds: Seq::empty(),
                },
            )
        }),
{
}

/// Replay, accepted side: a withdrawal is accepted only with an id above the
/// last one accepted for its asset class, and the record that it writes reads
/// back as the user's record with that id as the counter of the class and
/// every other counter as it was, so no counter ever falls. The amount moves
/// from custody to the caller's token account on the authority of the
/// registry's derived address.
pub proof fn lemma_withdraw_advances_counter(
    accounts: Seq<AccountFacts>,
    account_type: u8,
    symbol: Seq<u8>,
    amount: u64,
    withdrawid: u64,
    timestamp: u64,
    program_id: Seq<u8>,
    clock: Option<i64>,
    destination: Result<TokenAccountView, ProgramError>,
    recovered: Option<Seq<u8>>,
)
    requires
        withdraw_outcome(
            accounts,
            account_type,
            symbol,
            amount,
            withdrawid,
            timestamp,
            program_id,
            clock,
            destination,
            recovered,
        ) is Ok,
    ensures
        ({
            let outcome = withdraw_outcome(
                accounts,
                account_type,
                symbol,
                amount,
                withdrawid,
                timestamp,
                program_id,
                clock,
                destination,
                recovered,
            )->Ok_0;
            let before = account_load(accounts[3].data)->Ok_0;
            let after = account_load(outcome.write->0.data);
            &&& account_load(accounts[3].data) is Ok
            &&& withdrawid > last_withdraw_id(before.withdraw_id, account_type)
            &&& outcome.write is Some
            &&& outcome.write->0.account == 3
            &&& after == Ok::<AccountRecord, ProgramError>(
                AccountRecord {
                    withdraw_id: before.withdraw_id.insert(account_type, withdrawid),
                    ..before
                },
            )
            &&& last_withdraw_id(after->Ok_0.withdraw_id, account_type) == withdrawid
            &&& forall|other: u8|
                other != account_type ==> last_withdraw_id(after->Ok_0.withdraw_id, other)
                    == last_withdraw_id(before.withdraw_id, other)
            &&& forall|class: u8|
                last_withdraw_id(after->Ok_0.withdraw_id, class) >= last_withdraw_id(
                    before.withdraw_id,
                    class,
                )
            &&& outcome.create is None
            &&& outcome.transfer == Some(
                TransferView {
                    source: accounts[2].key,
                    destination: accounts[1].key,
                    authority: accounts[4].key,
                    amount,
                    authority_seeds: registry_seeds(
                        perpetual_load(accounts[4].data)->Ok_0.bump_seed,
                    ),
                },
            )
        }),
{
    let before = account_load(accounts[3].data)->Ok_0;
    let updated = AccountRecord {
        withdraw_id: before.withdraw_id.insert(account_type, withdrawid),
        ..before
    };
    lemma_account_round_trip(updated, accounts[3].data);
}

/// Replay, rejected side: a withdrawal whose id is not above the last one
/// accepted for its asset class is rejected, whatever the signature, the
/// deadline and every other field are.
pub proof fn lemma_replay_rejected(
    accounts: Seq<AccountFacts>,
    account_type: u8,
    symbol: Seq<u8>,
    amount: u64,
    withdrawid: u64,
    timestamp: u64,
    program_id: Seq<u8>,
    clock: Option<i64>,
    destination: Result<TokenAccountView, ProgramError>,
    recovered: Option<Seq<u8>>,
)
    requires
        accounts.len() >= 4,
        account_load(accounts[3].data) is Ok,
        withdrawid <= last_withdraw_id(
            account_load(accounts[3].data)->Ok_0.withdraw_id,
            account_type,
        ),
    ensures
        withdraw_outcome(
            accounts,
            account_type,
            symbol,
            amount,
            withdrawid,
            timestamp,
            program_id,
            clock,
            destination,
            recovered,
        ) is Err,
{
}

/// Replay, over two requests: once a withdrawal was accepted and its record
/// written, a withdrawal on that record for the same asset class with the
/// same or a lower id is rejected, whatever else it holds.
pub proof fn lemma_no_replay_after_withdrawal(
    accounts: Seq<AccountFacts>,
    account_type: u8,
    symbol: Seq<u8>,
    amount: u64,
    withdrawid: u64,
    timestamp: u64,
    program_id: Seq<u8>,
    clock: Option<i64>,
    destination: Result<TokenAccountView, ProgramError>,
    recovered: Option<Seq<u8>>,
    later_accounts: Seq<AccountFacts>,
    later_symbol: Seq<u8>,
    later_amount: u64,
    later_withdrawid: u64,
    later_timestamp: u64,
    later_program_id: Seq<u8>,
    later_clock: Option<i64>,
    later_destination: Result<TokenAccountView, ProgramError>,
    later_recovered: Option<Seq<u8>>,
)
    requires
        withdraw_outcome(
            accounts,
            account_type,
            symbol,
            amount,
            withdrawid,
            timestamp,
            program_id,
            clock,
            destination,
            recovered,
        ) is Ok,
        later_accounts.len() >= 4,
        later_accounts[3].data == withdraw_outcome(
            accounts,
            account_type,
            symbol,
            amount,
            withdrawid,
            timestamp,
            program_id,
            clock,
            destination,
            recovered,
        )->Ok_0.write->0.data,
        later_withdrawid <= withdrawid,
    ensures
        withdraw_outcome(
            later_accounts,
            account_type,
            later_symbol,
            later_amount,
            later_withdrawid,
            later_timestamp,
            later_program_id,
            later_clock,
            later_destination,
            later_recovered,
        ) is Err,
{
    lemma_withdraw_advances_counter(
        accounts,
        account_type,
        symbol,
        amount,
        withdrawid,
        timestamp,
        program_id,
        clock,
        destination,
        recovered,
    );
    lemma_replay_rejected(
        later_accounts,
        account_type,
        later_symbol,
        later_amount,
        later_withdrawid,
        later_timestamp,
        later_program_id,
        later_clock,
        later_destination,
        later_recovered,
    );
}

/// Authorization: a withdrawal is accepted only if the key recovered from the
/// signature is, bit for bit, the guardian key that the registry stores; and
/// a request that the guardian's key would release is released by no other
/// key and not without a key.
pub proof fn lemma_withdraw_needs_guardian_key(
    accounts: Seq<AccountFacts>,
    account_type: u8,
    symbol: Seq<u8>,
    amount: u64,
    withdrawid: u64,
    timestamp: u64,
    program_id: Seq<u8>,
    clock: Option<i64>,
    destination: Result<TokenAccountView, ProgramError>,
    recovered: Option<Seq<u8>>,
)
    ensures
        ({
            let guardian = perpetual_load(accounts[4].data)->Ok_0.secp256k1_pubkey;
            withdraw_outcome(
                accounts,
                account_type,
                symbol,
                amount,
                withdrawid,
                timestamp,
                program_id,
                clock,
                destination,
                recovered,
            ) is Ok <==> recovered == Some(guardian) && withdraw_outcome(
                accounts,
                account_type,
                symbol,
                amount,
                withdrawid,
                timestamp,
                program_id,
                clock,
                destination,
                Some(guardian),
            ) is Ok
        }),
{
}

/// Ownership: a deposit or a withdrawal on a user record whose stored owner
/// is not the caller is rejected, whatever the other fields are.
pub proof fn lemma_foreign_record_rejected(
    accounts: Seq<AccountFacts>,
    account_type: u8,
    symbol: Seq<u8>,
    amount: u64,
    withdrawid: u64,
    timestamp: u64,
    program_id: Seq<u8>,
    clock: Option<i64>,
    token: Result<TokenAccountView, ProgramError>,
    recovered: Option<Seq<u8>>,
)
    requires
        accounts.len() >= 4,
        account_load(accounts[3].data) is Ok,
        account_load(accounts[3].data)->Ok_0.user != accounts[0].key,
    ensures
        deposit_outcome(accounts, account_type, symbol, amount, program_id, token) is Err,
        withdraw_outcome(
            accounts,
            account_type,
            symbol,
            amount,
            withdrawid,
            timestamp,
            program_id,
            clock,
            token,
            recovered,
        ) is Err,
{
}

} // verus!
