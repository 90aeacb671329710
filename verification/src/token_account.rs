//! Accounts of the token program, as far as this program reads them.

use crate::error::ProgramError;
use crate::pubkey::Pubkey;
use vstd::prelude::*;

verus! {

/// What this program reads of a token account: its mint, its owner and its
/// balance.
#[derive(Clone, Copy, Debug)]
pub struct TokenAccount {
    pub mint: Pubkey,
    pub owner: Pubkey,
    pub amount: u64,
}

/// What a token account holds, as plain values.
pub ghost struct TokenAccountView {
    pub mint: Seq<u8>,
    pub owner: Seq<u8>,
    pub amount: u64,
}

impl View for TokenAccount {
    type V = TokenAccountView;

    open spec fn view(&self) -> TokenAccountView {
        TokenAccountView { mint: self.mint@, owner: self.owner@, amount: self.amount }
    }
}

/// The token account that the token program reads from `data`, or the failure
/// with which it refuses the data.
pub uninterp spec fn spl_token_account(data: Seq<u8>) -> Result<TokenAccountView, ProgramError>;

/// The address of the token program.
pub open spec fn token_program_id() -> Seq<u8> {
    seq![
        6u8, 221, 246, 225, 215, 101, 161, 147, 217, 203, 225, 70, 206, 235, 121, 172, 28, 180,
        133, 237, 95, 91, 55, 145, 58, 140, 245, 133, 126, 255, 0, 169,
    ]
}

/// Whether `key` is the address of the token program.
pub fn is_token_program(key: &Pubkey) -> (same: bool)
    ensures
        same == (key@ == token_program_id()),
{
    let id: [u8; 32] = [
        6, 221, 246, 225, 215, 101, 161, 147, 217, 203, 225, 70, 206, 235, 121, 172, 28, 180,
        133, 237, 95, 91, 55, 145, 58, 140, 245, 133, 126, 255, 0, 169,
    ];
    assert(id@ =~= token_program_id());
    key.equals(&Pubkey { bytes: id })
}

impl TokenAccount {
    /// What `spl_token::state::Account::unpack` reads from `data`: the mint,
    /// the owner and the amount of the account it returns. Where it refuses the
    /// data it does so as uninitialized or as invalid, and the same failure is
    /// returned here. The contract names the outcome and claims nothing else of
    /// it.
    #[verifier::external_body]
    pub(crate) fn read(data: &[u8]) -> (result: Result<TokenAccount, ProgramError>)
        ensures
            match result {
                Ok(account) => spl_token_account(data@) == Ok::<TokenAccountView, ProgramError>(
                    account@,
                ),
                Err(e) => spl_token_account(data@) == Err::<TokenAccountView, ProgramError>(e),
            },
    {
        match <spl_token::state::Account as solana_program::program_pack::Pack>::unpack(data) {
            Ok(account) => Ok(
                TokenAccount {
                    mint: Pubkey { bytes: account.mint.to_bytes() },
                    owner: Pubkey { bytes: account.owner.to_bytes() },
                    amount: account.amount,
                },
            ),
            Err(solana_program::program_error::ProgramError::UninitializedAccount) => Err(
                ProgramError::UninitializedAccount,
            ),
            Err(_) => Err(ProgramError::InvalidAccountData),
        }
    }
}

} // verus!
