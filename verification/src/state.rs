//! The two records of the program and their fixed binary layout: scalar fields
//! at fixed offsets, then a length field and a reserved region that holds the
//! byte form of a map in its front.

use crate::bytes::{
    copy_into, count_from_le, lemma_u32_le_round_trip, read_array_64, u32_from_le, u32_le_bytes,
    u32_to_le,
};
use crate::error::{PerpError, ProgramError};
use crate::map_format::{
    counter_count, counter_map_bytes, counter_map_parse, counter_map_to_bytes, lemma_counter_map_len,
    lemma_counter_map_round_trip, lemma_token_bytes_bounds, lemma_token_map_parse_sound,
    lemma_token_map_round_trip, read_counter_map, sound_record, token_map_bytes,
    token_map_parse, writable_record, writable_records,
};
use crate::pubkey::Pubkey;
use crate::token_map::{
    lemma_ordered, lemma_ordered_of_ascending, lemma_ordered_sound, ordered, strictly_ascending,
    TokenMap, TokenRecord,
};
use std::collections::BTreeMap;
use vstd::prelude::*;
use vstd::slice::slice_subrange;

verus! {

/// Bytes reserved in a user record for the byte form of its counters.
pub const WITHDRAWIDMAP_BYTES: usize = 100;

/// Length of a user record.
pub const ACCOUNT_BYTES: usize = 1 + 32 + 1 + WITHDRAWIDMAP_BYTES;

/// Bytes reserved in the registry record for the byte form of its token map.
pub const TOKENMAP_BYTES: usize = 2000;

/// Length of the registry record.
pub const PERPETUAL_BYTES: usize = 1 + 64 + 32 + 32 + 1 + 4 + TOKENMAP_BYTES;

/// The record of one user: who owns it and, for each asset class, the id of
/// the last withdrawal that was accepted.
#[derive(Debug)]
pub struct Account {
    pub is_initialized: bool,
    pub user: Pubkey,
    pub withdraw_id: BTreeMap<u8, u64>,
}

/// What a user record holds, as plain values.
pub ghost struct AccountRecord {
    pub is_initialized: bool,
    pub user: Seq<u8>,
    pub withdraw_id: Map<u8, u64>,
}

impl View for Account {
    type V = AccountRecord;

    open spec fn view(&self) -> AccountRecord {
        AccountRecord {
            is_initialized: self.is_initialized,
            user: self.user@,
            withdraw_id: self.withdraw_id@,
        }
    }
}

/// The registry: the guardian's key, the gateway, the admin, the bump seed of
/// the registry's own address, and the token map.
#[derive(Debug)]
pub struct Perpetual {
    pub is_initialized: bool,
    pub secp256k1_pubkey: [u8; 64],
    pub gateway: Pubkey,
    pub admin: Pubkey,
    pub bump_seed: u8,
    pub token_map: TokenMap,
}

/// What the registry record holds, as plain values; the token map as its
/// records in ascending order of key.
pub ghost struct PerpetualRecord {
    pub is_initialized: bool,
    pub secp256k1_pubkey: Seq<u8>,
    pub gateway: Seq<u8>,
    pub admin: Seq<u8>,
    pub bump_seed: u8,
    pub tokens: Seq<TokenRecord>,
}

impl View for Perpetual {
    type V = PerpetualRecord;

    open spec fn view(&self) -> PerpetualRecord {
        PerpetualRecord {
            is_initialized: self.is_initialized,
            secp256k1_pubkey: self.secp256k1_pubkey@,
            gateway: self.gateway@,
            admin: self.admin@,
            bump_seed: self.bump_seed,
            tokens: self.token_map.records(),
        }
    }
}

/// The byte of the initialized flag.
pub open spec fn flag_byte(flag: bool) -> u8 {
    if flag {
        1
    } else {
        0
    }
}

/// The user record that the first bytes of `src` hold. The flag byte must be
/// 0 or 1. A length field of 0 stands for no counters; any other length must
/// lie within the reserved region and cover exactly the byte form of a map.
pub open spec fn account_unpack(src: Seq<u8>) -> Result<AccountRecord, ProgramError>
    recommends
        src.len() >= ACCOUNT_BYTES,
{
    let len = src[33] as int;
    if src[0] > 1 {
        Err(ProgramError::InvalidAccountData)
    } else if len == 0 {
        Ok(
            AccountRecord {
                is_initialized: src[0] == 1,
                user: src.subrange(1, 33),
                withdraw_id: Map::empty(),
            },
        )
    } else if len > WITHDRAWIDMAP_BYTES {
        Err(ProgramError::InvalidAccountData)
    } else {
        match counter_map_parse(src.subrange(34, 34 + len)) {
            None => Err(ProgramError::InvalidAccountData),
            Some(map) => Ok(
                AccountRecord {
                    is_initialized: src[0] == 1,
                    user: src.subrange(1, 33),
                    withdraw_id: map,
                },
            ),
        }
    }
}

/// The buffer `dst` after a user record was written into it: the flag, the
/// owner, the length of the counters' byte form, that byte form, and then
/// `dst` as it was. A byte form longer than the reserved region is refused.
pub open spec fn account_pack(record: AccountRecord, dst: Seq<u8>) -> Result<Seq<u8>, PerpError>
    recommends
        dst.len() >= ACCOUNT_BYTES,
        record.user.len() == 32,
{
    let counters = counter_map_bytes(record.withdraw_id);
    if counters.len() > WITHDRAWIDMAP_BYTES {
        Err(PerpError::CapacityExceeded)
    } else {
        Ok(
            seq![flag_byte(record.is_initialized)] + record.user + seq![counters.len() as u8]
                + counters + dst.skip(34 + counters.len() as int),
        )
    }
}

/// The registry record that the first bytes of `src` hold. The flag byte must
/// be 0 or 1. A length field of 0 stands for an empty token map; any other
/// length must lie within the reserved region and cover exactly the byte form
/// of a list of entries, which are put in order.
pub open spec fn perpetual_unpack(src: Seq<u8>) -> Result<PerpetualRecord, ProgramError>
    recommends
        src.len() >= PERPETUAL_BYTES,
{
    let len = u32_from_le(src.subrange(130, 134)) as int;
    if src[0] > 1 {
        Err(ProgramError::InvalidAccountData)
    } else if len == 0 {
        Ok(
            PerpetualRecord {
                is_initialized: src[0] == 1,
                secp256k1_pubkey: src.subrange(1, 65),
                gateway: src.subrange(65, 97),
                admin: src.subrange(97, 129),
                bump_seed: src[129],
                tokens: Seq::empty(),
            },
        )
    } else if len > TOKENMAP_BYTES {
        Err(ProgramError::InvalidAccountData)
    } else {
        match token_map_parse(src.subrange(134, 134 + len)) {
            None => Err(ProgramError::InvalidAccountData),
            Some(wire) => Ok(
                PerpetualRecord {
                    is_initialized: src[0] == 1,
                    secp256k1_pubkey: src.subrange(1, 65),
                    gateway: src.subrange(65, 97),
                    admin: src.subrange(97, 129),
                    bump_seed: src[129],
                    tokens: ordered(wire),
                },
            ),
        }
    }
}

/// The buffer `dst` after the registry record was written into it: the flag,
/// the guardian key, the gateway, the admin, the bump seed, the length of the
/// token map's byte form in four little-endian bytes, that byte form, and then
/// `dst` as it was. A byte form longer than the reserved region is refused.
pub open spec fn perpetual_pack(record: PerpetualRecord, dst: Seq<u8>) -> Result<
    Seq<u8>,
    PerpError,
>
    recommends
        dst.len() >= PERPETUAL_BYTES,
{
    let tokens = token_map_bytes(record.tokens);
    if tokens.len() > TOKENMAP_BYTES {
        Err(PerpError::CapacityExceeded)
    } else {
        Ok(perpetual_image(record, tokens, dst))
    }
}

/// The buffer `dst` with the scalar fields of `record` at its front, then the
/// length of `tokens` in four little-endian bytes, then `tokens`.
pub open spec fn perpetual_image(record: PerpetualRecord, tokens: Seq<u8>, dst: Seq<u8>) -> Seq<
    u8,
> {
    seq![flag_byte(record.is_initialized)] + record.secp256k1_pubkey + record.gateway
        + record.admin + seq![record.bump_seed] + u32_le_bytes(tokens.len() as u32) + tokens
        + dst.skip(134 + tokens.len() as int)
}

/// Whether a registry record is one that the program can hold: keys of the
/// right lengths, and token records in strictly ascending order with symbols
/// in UTF-8 and addresses of thirty-two bytes.
pub open spec fn perpetual_valid(record: PerpetualRecord) -> bool {
    &&& record.secp256k1_pubkey.len() == 64
    &&& record.gateway.len() == 32
    &&& record.admin.len() == 32
    &&& strictly_ascending(record.tokens)
    &&& forall|i: int| 0 <= i < record.tokens.len() ==> sound_record(#[trigger] record.tokens[i])
}

impl Account {
    /// Whether the record has been initialized.
    pub fn is_initialized(&self) -> (flag: bool)
        ensures
            flag == self@.is_initialized,
    {
        self.is_initialized
    }

    /// Reads a user record from the first `ACCOUNT_BYTES` bytes of `src`.
    pub fn unpack_from_slice(src: &[u8]) -> (result: Result<Account, ProgramError>)
        requires
            src@.len() >= ACCOUNT_BYTES,
        ensures
            match result {
                Ok(account) => account_unpack(src@) == Ok::<AccountRecord, ProgramError>(
                    account@,
                ),
                Err(e) => account_unpack(src@) == Err::<AccountRecord, ProgramError>(e),
            },
    {
        if src[0] > 1 {
            return Err(ProgramError::InvalidAccountData);
        }
        let is_initialized = src[0] == 1;
        let user = Pubkey::from_slice(src, 1);
        let len: usize = src[33] as usize;
        if len == 0 {
            return Ok(Account { is_initialized, user, withdraw_id: BTreeMap::new() });
        }
        if len > WITHDRAWIDMAP_BYTES {
            return Err(ProgramError::InvalidAccountData);
        }
        match read_counter_map(slice_subrange(src, 34, 34 + len)) {
            None => Err(ProgramError::InvalidAccountData),
            Some(withdraw_id) => Ok(Account { is_initialized, user, withdraw_id }),
        }
    }

    /// Writes the record into the first `ACCOUNT_BYTES` bytes of `dst`, and
    /// leaves `dst` as it was if the counters do not fit their region.
    pub fn pack_into_slice(&self, dst: &mut [u8]) -> (result: Result<(), PerpError>)
        requires
            old(dst)@.len() >= ACCOUNT_BYTES,
        ensures
            match result {
                Ok(_) => account_pack(self@, old(dst)@) == Ok::<Seq<u8>, PerpError>(final(dst)@),
                Err(e) => account_pack(self@, old(dst)@) == Err::<Seq<u8>, PerpError>(e)
                    && final(dst)@ == old(dst)@,
            },
    {
        let counters = counter_map_to_bytes(&self.withdraw_id);
        let len = counters.len();
        if len > WITHDRAWIDMAP_BYTES {
            return Err(PerpError::CapacityExceeded);
        }
        dst[0] = if self.is_initialized {
            1
        } else {
            0
        };
        copy_into(dst, 1, self.user.bytes.as_slice());
        dst[33] = len as u8;
        copy_into(dst, 34, counters.as_slice());
        assert(dst@ =~= seq![flag_byte(self.is_initialized)] + self.user@ + seq![len as u8]
            + counters@ + old(dst)@.skip(34 + len));
        Ok(())
    }

    /// Reads a record from a buffer of exactly `ACCOUNT_BYTES` bytes.
    pub fn unpack_unchecked(input: &[u8]) -> (result: Result<Account, ProgramError>)
        ensures
            match result {
                Ok(account) => account_read(input@) == Ok::<AccountRecord, ProgramError>(
                    account@,
                ),
                Err(e) => account_read(input@) == Err::<AccountRecord, ProgramError>(e),
            },
    {
        if input.len() != ACCOUNT_BYTES {
            return Err(ProgramError::InvalidAccountData);
        }
        Account::unpack_from_slice(input)
    }

    /// Reads an initialized record from a buffer of exactly `ACCOUNT_BYTES`
    /// bytes.
    pub fn unpack(input: &[u8]) -> (result: Result<Account, ProgramError>)
        ensures
            match result {
                Ok(account) => account_load(input@) == Ok::<AccountRecord, ProgramError>(
                    account@,
                ),
                Err(e) => account_load(input@) == Err::<AccountRecord, ProgramError>(e),
            },
    {
        if input.len() != ACCOUNT_BYTES {
            return Err(ProgramError::InvalidAccountData);
        }
        match Account::unpack_from_slice(input) {
            Ok(account) => {
                if account.is_initialized {
                    Ok(account)
                } else {
                    Err(ProgramError::UninitializedAccount)
                }
            },
            Err(e) => Err(e),
        }
    }

    /// Writes the record into a buffer of exactly `ACCOUNT_BYTES` bytes.
    pub fn pack(&self, dst: &mut [u8]) -> (result: Result<(), ProgramError>)
        ensures
            match result {
                Ok(_) => account_store(self@, old(dst)@) == Ok::<Seq<u8>, ProgramError>(
                    final(dst)@,
                ),
                Err(e) => account_store(self@, old(dst)@) == Err::<Seq<u8>, ProgramError>(e)
                    && final(dst)@ == old(dst)@,
            },
    {
        if dst.len() != ACCOUNT_BYTES {
            return Err(ProgramError::InvalidAccountData);
        }
        match self.pack_into_slice(dst) {
            Ok(_) => Ok(()),
            Err(e) => Err(ProgramError::Custom(e)),
        }
    }
}

/// The user record that a buffer of exactly `ACCOUNT_BYTES` bytes holds.
pub open spec fn account_read(input: Seq<u8>) -> Result<AccountRecord, ProgramError> {
    if input.len() != ACCOUNT_BYTES {
        Err(ProgramError::InvalidAccountData)
    } else {
        account_unpack(input)
    }
}

/// The initialized user record that a buffer holds: the buffer must have
/// exactly `ACCOUNT_BYTES` bytes, hold a record, and the record be marked
/// initialized.
pub open spec fn account_load(input: Seq<u8>) -> Result<AccountRecord, ProgramError> {
    match account_read(input) {
        Err(e) => Err(e),
        Ok(record) => if record.is_initialized {
            Ok(record)
        } else {
            Err(ProgramError::UninitializedAccount)
        },
    }
}

/// A buffer of exactly `ACCOUNT_BYTES` bytes after a user record was written
/// into it.
pub open spec fn account_store(record: AccountRecord, dst: Seq<u8>) -> Result<
    Seq<u8>,
    ProgramError,
> {
    if dst.len() != ACCOUNT_BYTES {
        Err(ProgramError::InvalidAccountData)
    } else {
        match account_pack(record, dst) {
            Err(e) => Err(ProgramError::Custom(e)),
            Ok(image) => Ok(image),
        }
    }
}

impl Perpetual {
    /// Whether the record has been initialized.
    pub fn is_initialized(&self) -> (flag: bool)
        ensures
            flag == self@.is_initialized,
    {
        self.is_initialized
    }

    /// Reads the registry record from the first `PERPETUAL_BYTES` bytes of
    /// `src`.
    pub fn unpack_from_slice(src: &[u8]) -> (result: Result<Perpetual, ProgramError>)
        requires
            src@.len() >= PERPETUAL_BYTES,
        ensures
            match result {
                Ok(perpetual) => perpetual_unpack(src@) == Ok::<PerpetualRecord, ProgramError>(
                    perpetual@,
                ),
                Err(e) => perpetual_unpack(src@) == Err::<PerpetualRecord, ProgramError>(e),
            },
    {
        if src[0] > 1 {
            return Err(ProgramError::InvalidAccountData);
        }
        let is_initialized = src[0] == 1;
        let secp256k1_pubkey = read_array_64(src, 1);
        let gateway = Pubkey::from_slice(src, 65);
        let admin = Pubkey::from_slice(src, 97);
        let bump_seed = src[129];
        let field = slice_subrange(src, 130, 134);
        assert(field@.subrange(0, 4) =~= field@);
        let len = count_from_le(field);
        if len == 0 {
            return Ok(
                Perpetual {
                    is_initialized,
                    secp256k1_pubkey,
                    gateway,
                    admin,
                    bump_seed,
                    token_map: TokenMap::new(),
                },
            );
        }
        if len > TOKENMAP_BYTES {
            return Err(ProgramError::InvalidAccountData);
        }
        match TokenMap::decode(slice_subrange(src, 134, 134 + len)) {
            None => Err(ProgramError::InvalidAccountData),
            Some(token_map) => Ok(
                Perpetual { is_initialized, secp256k1_pubkey, gateway, admin, bump_seed, token_map },
            ),
        }
    }

    /// Writes the record into the first `PERPETUAL_BYTES` bytes of `dst`, and
    /// leaves `dst` as it was if the token map does not fit its region.
    pub fn pack_into_slice(&self, dst: &mut [u8]) -> (result: Result<(), PerpError>)
        requires
            old(dst)@.len() >= PERPETUAL_BYTES,
        ensures
            match result {
                Ok(_) => perpetual_pack(self@, old(dst)@) == Ok::<Seq<u8>, PerpError>(
                    final(dst)@,
                ),
                Err(e) => perpetual_pack(self@, old(dst)@) == Err::<Seq<u8>, PerpError>(e)
                    && final(dst)@ == old(dst)@,
            },
    {
        let tokens = match self.token_map.encode(TOKENMAP_BYTES as u32) {
            None => {
                return Err(PerpError::CapacityExceeded);
            },
            Some(bytes) => bytes,
        };
        let len = tokens.len();
        dst[0] = if self.is_initialized {
            1
        } else {
            0
        };
        copy_into(dst, 1, self.secp256k1_pubkey.as_slice());
        copy_into(dst, 65, self.gateway.bytes.as_slice());
        copy_into(dst, 97, self.admin.bytes.as_slice());
        dst[129] = self.bump_seed;
        let field = u32_to_le(len as u32);
        copy_into(dst, 130, field.as_slice());
        copy_into(dst, 134, tokens.as_slice());
        assert(dst@ =~= perpetual_image(self@, tokens@, old(dst)@));
        Ok(())
    }

    /// Reads a record from a buffer of exactly `PERPETUAL_BYTES` bytes.
    pub fn unpack_unchecked(input: &[u8]) -> (result: Result<Perpetual, ProgramError>)
        ensures
            match result {
                Ok(perpetual) => perpetual_read(input@) == Ok::<PerpetualRecord, ProgramError>(
                    perpetual@,
                ),
                Err(e) => perpetual_read(input@) == Err::<PerpetualRecord, ProgramError>(e),
            },
    {
        if input.len() != PERPETUAL_BYTES {
            return Err(ProgramError::InvalidAccountData);
        }
        Perpetual::unpack_from_slice(input)
    }

    /// Reads an initialized record from a buffer of exactly `PERPETUAL_BYTES`
    /// bytes.
    pub fn unpack(input: &[u8]) -> (result: Result<Perpetual, ProgramError>)
        ensures
            match result {
                Ok(perpetual) => perpetual_load(input@) == Ok::<PerpetualRecord, ProgramError>(
                    perpetual@,
                ),
                Err(e) => perpetual_load(input@) == Err::<PerpetualRecord, ProgramError>(e),
            },
    {
        if input.len() != PERPETUAL_BYTES {
            return Err(ProgramError::InvalidAccountData);
        }
        match Perpetual::unpack_from_slice(input) {
            Ok(perpetual) => {
                if perpetual.is_initialized {
                    Ok(perpetual)
                } else {
                    Err(ProgramError::UninitializedAccount)
                }
            },
            Err(e) => Err(e),
        }
    }

    /// Writes the record into a buffer of exactly `PERPETUAL_BYTES` bytes.
    pub fn pack(&self, dst: &mut [u8]) -> (result: Result<(), ProgramError>)
        ensures
            match result {
                Ok(_) => perpetual_store(self@, old(dst)@) == Ok::<Seq<u8>, ProgramError>(
                    final(dst)@,
                ),
                Err(e) => perpetual_store(self@, old(dst)@) == Err::<Seq<u8>, ProgramError>(e)
                    && final(dst)@ == old(dst)@,
            },
    {
        if dst.len() != PERPETUAL_BYTES {
            return Err(ProgramError::InvalidAccountData);
        }
        match self.pack_into_slice(dst) {
            Ok(_) => Ok(()),
            Err(e) => Err(ProgramError::Custom(e)),
        }
    }
}

/// The registry record that a buffer of exactly `PERPETUAL_BYTES` bytes holds.
pub open spec fn perpetual_read(input: Seq<u8>) -> Result<PerpetualRecord, ProgramError> {
    if input.len() != PERPETUAL_BYTES {
        Err(ProgramError::InvalidAccountData)
    } else {
        perpetual_unpack(input)
    }
}

/// The initialized registry record that a buffer holds: the buffer must have
/// exactly `PERPETUAL_BYTES` bytes, hold a record, and the record be marked
/// initialized.
pub open spec fn perpetual_load(input: Seq<u8>) -> Result<PerpetualRecord, ProgramError> {
    match perpetual_read(input) {
        Err(e) => Err(e),
        Ok(record) => if record.is_initialized {
            Ok(record)
        } else {
            Err(ProgramError::UninitializedAccount)
        },
    }
}

/// A buffer of exactly `PERPETUAL_BYTES` bytes after the registry record was
/// written into it.
pub open spec fn perpetual_store(record: PerpetualRecord, dst: Seq<u8>) -> Result<
    Seq<u8>,
    ProgramError,
> {
    if dst.len() != PERPETUAL_BYTES {
        Err(ProgramError::InvalidAccountData)
    } else {
        match perpetual_pack(record, dst) {
            Err(e) => Err(ProgramError::Custom(e)),
            Ok(image) => Ok(image),
        }
    }
}

/// Reading what was written gives the record back: a user record whose
/// counters fit their region is read from the written buffer exactly as it
/// was, whatever the buffer held before.
pub proof fn lemma_account_round_trip(record: AccountRecord, dst: Seq<u8>)
    requires
        record.user.len() == 32,
        dst.len() >= ACCOUNT_BYTES,
        account_pack(record, dst) is Ok,
    ensures
        account_pack(record, dst)->Ok_0.len() == dst.len(),
        account_unpack(account_pack(record, dst)->Ok_0) == Ok::<AccountRecord, ProgramError>(
            record,
        ),
{
    let counters = counter_map_bytes(record.withdraw_id);
    let image = account_pack(record, dst)->Ok_0;
    lemma_counter_map_len(record.withdraw_id);
    lemma_counter_map_round_trip(record.withdraw_id);
    assert(image[0] == flag_byte(record.is_initialized));
    assert(image[33] == counters.len() as u8);
    assert(image.subrange(1, 33) =~= record.user);
    assert(image.subrange(34, 34 + counters.len() as int) =~= counters);
}

/// Where the fields stand in a written registry record.
proof fn lemma_perpetual_image(record: PerpetualRecord, tokens: Seq<u8>, dst: Seq<u8>)
    requires
        record.secp256k1_pubkey.len() == 64,
        record.gateway.len() == 32,
        record.admin.len() == 32,
        tokens.len() <= TOKENMAP_BYTES,
        dst.len() >= PERPETUAL_BYTES,
    ensures
        ({
            let image = perpetual_image(record, tokens, dst);
            &&& image.len() == dst.len()
            &&& image[0] == flag_byte(record.is_initialized)
            &&& image.subrange(1, 65) == record.secp256k1_pubkey
            &&& image.subrange(65, 97) == record.gateway
            &&& image.subrange(97, 129) == record.admin
            &&& image[129] == record.bump_seed
            &&& u32_from_le(image.subrange(130, 134)) == tokens.len()
            &&& image.subrange(134, 134 + tokens.len() as int) == tokens
        }),
{
    let image = perpetual_image(record, tokens, dst);
    let a = seq![flag_byte(record.is_initialized)] + record.secp256k1_pubkey;
    let b = a + record.gateway;
    let c = b + record.admin;
    let d = c + seq![record.bump_seed];
    let e = d + u32_le_bytes(tokens.len() as u32);
    let f = e + tokens;
    lemma_u32_le_round_trip(tokens.len() as u32);
    assert(a.len() == 65 && b.len() == 97 && c.len() == 129 && d.len() == 130 && e.len() == 134);
    assert(image == f + dst.skip(134 + tokens.len() as int));
    assert(image.subrange(1, 65) =~= record.secp256k1_pubkey);
    assert(image.subrange(65, 97) =~= record.gateway);
    assert(image.subrange(97, 129) =~= record.admin);
    assert(image.subrange(130, 134) =~= u32_le_bytes(tokens.len() as u32));
    assert(image.subrange(134, 134 + tokens.len() as int) =~= tokens);
}

/// Reading what was written gives the record back: a registry record whose
/// token map fits its region is read from the written buffer exactly as it
/// was, whatever the buffer held before.
pub proof fn lemma_perpetual_round_trip(record: PerpetualRecord, dst: Seq<u8>)
    requires
        perpetual_valid(record),
        dst.len() >= PERPETUAL_BYTES,
        perpetual_pack(record, dst) is Ok,
    ensures
        perpetual_pack(record, dst)->Ok_0.len() == dst.len(),
        perpetual_unpack(perpetual_pack(record, dst)->Ok_0) == Ok::<
            PerpetualRecord,
            ProgramError,
        >(record),
{
    let tokens = token_map_bytes(record.tokens);
    lemma_token_bytes_bounds(record.tokens);
    assert(writable_records(record.tokens)) by {
        assert forall|i: int| 0 <= i < record.tokens.len() implies writable_record(
            #[trigger] record.tokens[i],
        ) by {
            assert(sound_record(record.tokens[i]));
        }
    }
    lemma_token_map_round_trip(record.tokens);
    lemma_ordered_of_ascending(record.tokens);
    lemma_perpetual_image(record, tokens, dst);
    assert(tokens.len() >= 4);
}

/// What is read is sound: a registry record read from a buffer has keys of the
/// right lengths and token records in strictly ascending order, each with a
/// symbol in UTF-8 and addresses of thirty-two bytes.
pub proof fn lemma_perpetual_unpack_valid(src: Seq<u8>)
    requires
        src.len() >= PERPETUAL_BYTES,
        perpetual_unpack(src) is Ok,
    ensures
        perpetual_valid(perpetual_unpack(src)->Ok_0),
{
    let len = u32_from_le(src.subrange(130, 134)) as int;
    if len != 0 {
        let wire = token_map_parse(src.subrange(134, 134 + len))->0;
        lemma_token_map_parse_sound(src.subrange(134, 134 + len));
        lemma_ordered(wire);
        lemma_ordered_sound(wire);
    }
}

/// What is read is sound: the owner of a user record read from a buffer has
/// thirty-two bytes.
pub proof fn lemma_account_unpack_valid(src: Seq<u8>)
    requires
        src.len() >= ACCOUNT_BYTES,
        account_unpack(src) is Ok,
    ensures
        account_unpack(src)->Ok_0.user.len() == 32,
{
}

/// A map that does not fit is refused whole: writing a user record fails, with
/// `CapacityExceeded`, exactly if the byte form of its counters is longer than
/// the reserved region, which is the case exactly if it has counters for more
/// than ten asset classes.
pub proof fn lemma_account_capacity(record: AccountRecord, dst: Seq<u8>)
    ensures
        account_pack(record, dst) is Err <==> counter_map_bytes(record.withdraw_id).len()
            > WITHDRAWIDMAP_BYTES,
        account_pack(record, dst) is Err <==> counter_count(record.withdraw_id, 256) > 10,
        account_pack(record, dst) is Err ==> account_pack(record, dst)->Err_0
            == PerpError::CapacityExceeded,
{
    lemma_counter_map_len(record.withdraw_id);
}

/// A map that does not fit is refused whole: writing the registry record
/// fails, with `CapacityExceeded`, exactly if the byte form of its token map
/// is longer than the reserved region.
pub proof fn lemma_perpetual_capacity(record: PerpetualRecord, dst: Seq<u8>)
    ensures
        perpetual_pack(record, dst) is Err <==> token_map_bytes(record.tokens).len()
            > TOKENMAP_BYTES,
        perpetual_pack(record, dst) is Err ==> perpetual_pack(record, dst)->Err_0
            == PerpError::CapacityExceeded,
{
}

} // verus!
