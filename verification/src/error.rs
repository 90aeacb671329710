//! Failures of the custody program: its own, and the host's general ones.

use vstd::prelude::*;

verus! {

/// Failures that belong to this program. The host sees them as a custom code.
#[derive(Clone, Copy, Debug, PartialEq, Eq, Structural)]
pub enum PerpError {
    /// The key recovered from the guardian signature is not the stored one.
    SignatureMismatch,
    /// The withdraw id is not above the last one accepted for the asset class.
    WithdrawIdFail,
    /// An account that had to be empty holds data. No operation reports it;
    /// it keeps its place so that the codes after it stay what they are.
    AccountNotEmpty,
    /// A user is in use already. No operation reports it; it keeps its place
    /// so that the codes after it stay what they are.
    UserAlreadyInUse,
    /// The caller is not the admin that the registry stores.
    IncorrectAdmin,
    /// The registry has no entry for the asset class and symbol.
    TokenNotRegistered,
    /// A map does not fit the region that its record reserves for it.
    CapacityExceeded,
    /// The deadline of the request is not after the current chain time.
    DeadlineExpired,
}

impl PerpError {
    /// The custom code under which the host reports the failure.
    pub open spec fn spec_code(self) -> u32 {
        match self {
            PerpError::SignatureMismatch => 0,
            PerpError::WithdrawIdFail => 1,
            PerpError::AccountNotEmpty => 2,
            PerpError::UserAlreadyInUse => 3,
            PerpError::IncorrectAdmin => 4,
            PerpError::TokenNotRegistered => 5,
            PerpError::CapacityExceeded => 6,
            PerpError::DeadlineExpired => 7,
        }
    }

    /// The custom code under which the host reports the failure.
    pub fn code(&self) -> (code: u32)
        ensures
            code == self.spec_code(),
    {
        match self {
            PerpError::SignatureMismatch => 0,
            PerpError::WithdrawIdFail => 1,
            PerpError::AccountNotEmpty => 2,
            PerpError::UserAlreadyInUse => 3,
            PerpError::IncorrectAdmin => 4,
            PerpError::TokenNotRegistered => 5,
            PerpError::CapacityExceeded => 6,
            PerpError::DeadlineExpired => 7,
        }
    }

    /// The text that describes the failure.
    pub open spec fn spec_message(self) -> Seq<char> {
        match self {
            PerpError::SignatureMismatch => "Signature Mismatch"@,
            PerpError::WithdrawIdFail => "Withdraw ID Fail"@,
            PerpError::AccountNotEmpty => "Account Not Empty"@,
            PerpError::UserAlreadyInUse => "User Already In Use"@,
            PerpError::IncorrectAdmin => "Incorrect Admin"@,
            PerpError::TokenNotRegistered => "Token Not Registered"@,
            PerpError::CapacityExceeded => "Capacity Exceeded"@,
            PerpError::DeadlineExpired => "Deadline Expired"@,
        }
    }

    /// The text that describes the failure.
    pub fn message(&self) -> (text: &'static str)
        ensures
            text@ == self.spec_message(),
    {
        match self {
            PerpError::SignatureMismatch => "Signature Mismatch",
            PerpError::WithdrawIdFail => "Withdraw ID Fail",
            PerpError::AccountNotEmpty => "Account Not Empty",
            PerpError::UserAlreadyInUse => "User Already In Use",
            PerpError::IncorrectAdmin => "Incorrect Admin",
            PerpError::TokenNotRegistered => "Token Not Registered",
            PerpError::CapacityExceeded => "Capacity Exceeded",
            PerpError::DeadlineExpired => "Deadline Expired",
        }
    }
}

/// Every failure an operation can end in: one discriminated code.
#[derive(Clone, Copy, Debug, PartialEq, Eq, Structural)]
pub enum ProgramError {
    /// A failure of this program.
    Custom(PerpError),
    /// The instruction bytes are not a well-formed operation.
    InvalidInstructionData,
    /// An account's data is not what the operation expects.
    InvalidAccountData,
    /// The caller has not co-signed the request.
    MissingRequiredSignature,
    /// The record in the account is not marked initialized.
    UninitializedAccount,
    /// The request names fewer accounts than the operation reads.
    NotEnoughAccountKeys,
    /// The account to initialize already holds data.
    AccountAlreadyInitialized,
    /// An account is not owned by the program that must own it.
    IncorrectProgramId,
    /// No address can be derived from the seeds.
    InvalidSeeds,
    /// The host gave no chain time.
    UnsupportedSysvar,
}

} // verus!
