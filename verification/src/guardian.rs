//! The guardian's authorization of a withdrawal: the canonical message, its
//! hash, and the key recovered from the signature over that hash.

use crate::bytes::{lemma_u64_be_round_trip, u64_be_bytes, u64_to_be};
use crate::error::PerpError;
use crate::pubkey::{base58_text, Pubkey};
use vstd::prelude::*;

verus! {

/// The Keccak-256 hash of `data`: thirty-two bytes.
pub uninterp spec fn keccak256(data: Seq<u8>) -> Seq<u8>;

/// The secp256k1 public key, sixty-four bytes, that signed `hash` if
/// `signature` with `recovery_id` is a signature over it; none where the
/// recovery id or the signature is not well-formed or no key fits.
pub uninterp spec fn secp256k1_recovered_key(
    hash: Seq<u8>,
    recovery_id: u8,
    signature: Seq<u8>,
) -> Option<Seq<u8>>;

/// The hash that `solana_program::keccak::hash` computes of `data`. The
/// contract names the hash; it has thirty-two bytes by its type.
#[verifier::external_body]
pub(crate) fn keccak_hash(data: &[u8]) -> (hash: [u8; 32])
    ensures
        hash@ == keccak256(data@),
{
    solana_program::keccak::hash(data).to_bytes()
}

/// The key that `solana_program::secp256k1_recover::secp256k1_recover`
/// recovers from a hash, a recovery id and a signature, and none where it
/// returns an error. The contract names the outcome and claims nothing else
/// of it.
#[verifier::external_body]
pub(crate) fn recover_key(hash: &[u8; 32], recovery_id: u8, signature: &[u8; 64]) -> (key: Option<
    [u8; 64],
>)
    ensures
        match key {
            Some(k) => secp256k1_recovered_key(hash@, recovery_id, signature@) == Some(k@),
            None => secp256k1_recovered_key(hash@, recovery_id, signature@) is None,
        },
{
    match solana_program::secp256k1_recover::secp256k1_recover(hash, recovery_id, signature) {
        Ok(key) => Some(key.to_bytes()),
        Err(_) => None,
    }
}

/// The canonical message of a withdrawal: the owner's address as text, the
/// asset class, the symbol, and the amount, the withdraw id and the deadline,
/// each in eight big-endian bytes.
pub open spec fn withdraw_message(
    owner_text: Seq<u8>,
    account_type: u8,
    symbol: Seq<u8>,
    amount: u64,
    withdrawid: u64,
    timestamp: u64,
) -> Seq<u8> {
    owner_text + seq![account_type] + symbol + u64_be_bytes(amount) + u64_be_bytes(withdrawid)
        + u64_be_bytes(timestamp)
}

/// The key that the guardian's signature gives for a withdrawal by `owner`.
pub open spec fn withdraw_signer(
    owner: Seq<u8>,
    account_type: u8,
    symbol: Seq<u8>,
    amount: u64,
    withdrawid: u64,
    timestamp: u64,
    recovery_id: u8,
    signature: Seq<u8>,
) -> Option<Seq<u8>> {
    secp256k1_recovered_key(
        keccak256(
            withdraw_message(
                base58_text(owner),
                account_type,
                symbol,
                amount,
                withdrawid,
                timestamp,
            ),
        ),
        recovery_id,
        signature,
    )
}

/// Builds the canonical message of a withdrawal.
pub fn build_withdraw_message(
    owner_text: &[u8],
    account_type: u8,
    symbol: &[u8],
    amount: u64,
    withdrawid: u64,
    timestamp: u64,
) -> (message: Vec<u8>)
    ensures
        message@ == withdraw_message(
            owner_text@,
            account_type,
            symbol@,
            amount,
            withdrawid,
            timestamp,
        ),
{
    let mut message: Vec<u8> = Vec::new();
    message.extend_from_slice(owner_text);
    message.push(account_type);
    message.extend_from_slice(symbol);
    let amount_bytes = u64_to_be(amount);
    message.extend_from_slice(amount_bytes.as_slice());
    let id_bytes = u64_to_be(withdrawid);
    message.extend_from_slice(id_bytes.as_slice());
    let time_bytes = u64_to_be(timestamp);
    message.extend_from_slice(time_bytes.as_slice());
    assert(message@ =~= withdraw_message(
        owner_text@,
        account_type,
        symbol@,
        amount,
        withdrawid,
        timestamp,
    ));
    message
}

/// Whether two keys of sixty-four bytes are the same.
pub fn same_key(a: &[u8; 64], b: &[u8; 64]) -> (same: bool)
    ensures
        same == (a@ == b@),
{
    crate::bytes::bytes_equal(a.as_slice(), b.as_slice())
}

/// Accepts a recovered key exactly if it is the guardian's: bit for bit the
/// stored key. Where no key was recovered, nothing is accepted.
pub fn check_guardian_key(recovered: &Option<[u8; 64]>, guardian: &[u8; 64]) -> (result: Result<
    (),
    PerpError,
>)
    ensures
        result is Ok <==> (recovered is Some && recovered->0@ == guardian@),
        result is Err ==> result->Err_0 == PerpError::SignatureMismatch,
{
    match recovered {
        Some(key) => {
            if same_key(key, guardian) {
                Ok(())
            } else {
                Err(PerpError::SignatureMismatch)
            }
        },
        None => Err(PerpError::SignatureMismatch),
    }
}

/// The key recovered from the guardian's signature over the canonical message
/// of a withdrawal by `owner`.
pub fn recover_withdraw_signer(
    owner: &Pubkey,
    account_type: u8,
    symbol: &[u8],
    amount: u64,
    withdrawid: u64,
    timestamp: u64,
    recovery_id: u8,
    signature: &[u8; 64],
) -> (key: Option<[u8; 64]>)
    ensures
        match key {
            Some(k) => withdraw_signer(
                owner@,
                account_type,
                symbol@,
                amount,
                withdrawid,
                timestamp,
                recovery_id,
                signature@,
            ) == Some(k@),
            None => withdraw_signer(
                owner@,
                account_type,
                symbol@,
                amount,
                withdrawid,
                timestamp,
                recovery_id,
                signature@,
            ) is None,
        },
{
    let text = owner.text();
    let message = build_withdraw_message(
        text.as_slice(),
        account_type,
        symbol,
        amount,
        withdrawid,
        timestamp,
    );
    let hash = keccak_hash(message.as_slice());
    recover_key(&hash, recovery_id, signature)
}

/// For one owner the canonical message fixes the request: two requests of the
/// same owner with the same message have the same asset class, symbol,
/// amount, withdraw id and deadline. So a signature over the message of one
/// request is a signature over no other request of that owner.
pub proof fn lemma_withdraw_message_fixes_request(
    owner_text: Seq<u8>,
    account_type: u8,
    symbol: Seq<u8>,
    amount: u64,
    withdrawid: u64,
    timestamp: u64,
    account_type2: u8,
    symbol2: Seq<u8>,
    amount2: u64,
    withdrawid2: u64,
    timestamp2: u64,
)
    requires
        withdraw_message(owner_text, account_type, symbol, amount, withdrawid, timestamp)
            == withdraw_message(
            owner_text,
            account_type2,
            symbol2,
            amount2,
            withdrawid2,
            timestamp2,
        ),
    ensures
        account_type == account_type2,
        symbol == symbol2,
        amount == amount2,
        withdrawid == withdrawid2,
        timestamp == timestamp2,
{
    lemma_u64_be_round_trip(amount);
    lemma_u64_be_round_trip(withdrawid);
    lemma_u64_be_round_trip(timestamp);
    lemma_u64_be_round_trip(amount2);
    lemma_u64_be_round_trip(withdrawid2);
    lemma_u64_be_round_trip(timestamp2);
    lemma_message_parts(
        owner_text,
        account_type,
        symbol,
        u64_be_bytes(amount),
        u64_be_bytes(withdrawid),
        u64_be_bytes(timestamp),
    );
    lemma_message_parts(
        owner_text,
        account_type2,
        symbol2,
        u64_be_bytes(amount2),
        u64_be_bytes(withdrawid2),
        u64_be_bytes(timestamp2),
    );
}

/// Where the parts of a message stand in it.
proof fn lemma_message_parts(
    text: Seq<u8>,
    class: u8,
    symbol: Seq<u8>,
    a: Seq<u8>,
    b: Seq<u8>,
    c: Seq<u8>,
)
    requires
        a.len() == 8,
        b.len() == 8,
        c.len() == 8,
    ensures
        ({
            let m = text + seq![class] + symbol + a + b + c;
            let n = text.len() as int;
            let e = m.len() - 24;
            &&& m.len() == n + 1 + symbol.len() + 24
            &&& m[n] == class
            &&& m.subrange(n + 1, e) == symbol
            &&& m.subrange(e, e + 8) == a
            &&& m.subrange(e + 8, e + 16) == b
            &&& m.subrange(e + 16, e + 24) == c
        }),
{
    let m = text + seq![class] + symbol + a + b + c;
    let n = text.len() as int;
    let e = m.len() - 24;
    assert(m.subrange(n + 1, e) =~= symbol);
    assert(m.subrange(e, e + 8) =~= a);
    assert(m.subrange(e + 8, e + 16) =~= b);
    assert(m.subrange(e + 16, e + 24) =~= c);
}

} // verus!
