//! The five operations and their wire form: one opcode byte, then the fields
//! of the operation, integers little-endian. Bytes after the last field are
//! passed over.

use crate::bytes::{read_array_64, read_u64_le, u16_from_le, u64_from_le};
use crate::error::ProgramError;
use crate::pubkey::Pubkey;
use crate::symbol::{is_utf8, text_of};
use vstd::prelude::*;
use vstd::slice::slice_subrange;
use vstd::utf8::encode_utf8;

verus! {

/// An operation of the program.
#[derive(Debug)]
pub enum PerpetualInstruction {
    /// Creates the registry, or gives it a new guardian key, gateway and admin.
    ///
    /// Accounts: the admin, who signs; the registry; the system program.
    InitPerpetual {
        /// The guardian's secp256k1 key, against which withdrawals are checked.
        secp256k1_pubkey: [u8; 64],
        /// The gateway; kept, and read by no operation.
        gateway: Pubkey,
        /// The admin of the registry from now on.
        admin: Pubkey,
    },
    /// Registers an asset under a key, or removes the key, as the state of the
    /// custody account says.
    ///
    /// Accounts: the admin, who signs; the registry; the custody account.
    SetTokenMap {
        /// The asset class.
        account_type: u8,
        /// The symbol of the asset.
        symbol: String,
    },
    /// Creates the record of the user who signs.
    ///
    /// Accounts: the user, who signs; the user's record; the system program.
    InitAccount,
    /// Moves tokens of the user into custody.
    ///
    /// Accounts: the owner of the tokens, who signs; the source token account;
    /// the custody account; the user's record; the registry; the token
    /// program.
    Deposit {
        /// The asset class.
        account_type: u8,
        /// The symbol of the asset.
        symbol: String,
        /// How many units to move.
        amount: u64,
    },
    /// Releases tokens from custody to the user, on the guardian's signature.
    ///
    /// Accounts: the user, who signs; the destination token account; the
    /// custody account; the user's record; the registry; the token program.
    Withdraw {
        /// The asset class.
        account_type: u8,
        /// The symbol of the asset.
        symbol: String,
        /// How many units to release.
        amount: u64,
        /// The id of the withdrawal, above every earlier one of the class.
        withdrawid: u64,
        /// The chain time after which the authorization no longer holds.
        timestamp: u64,
        /// Which of the keys that fit the signature is meant.
        recovery_id: u8,
        /// The guardian's signature.
        signature: [u8; 64],
    },
}

/// What an operation holds, as plain values; a symbol as its UTF-8 bytes.
pub ghost enum InstructionView {
    InitPerpetual { secp256k1_pubkey: Seq<u8>, gateway: Seq<u8>, admin: Seq<u8> },
    SetTokenMap { account_type: u8, symbol: Seq<u8> },
    InitAccount,
    Deposit { account_type: u8, symbol: Seq<u8>, amount: u64 },
    Withdraw {
        account_type: u8,
        symbol: Seq<u8>,
        amount: u64,
        withdrawid: u64,
        timestamp: u64,
        recovery_id: u8,
        signature: Seq<u8>,
    },
}

impl View for PerpetualInstruction {
    type V = InstructionView;

    open spec fn view(&self) -> InstructionView {
        match self {
            PerpetualInstruction::InitPerpetual {
                secp256k1_pubkey,
                gateway,
                admin,
            } => InstructionView::InitPerpetual {
                secp256k1_pubkey: secp256k1_pubkey@,
                gateway: gateway@,
                admin: admin@,
            },
            PerpetualInstruction::SetTokenMap {
                account_type,
                symbol,
            } => InstructionView::SetTokenMap {
                account_type: *account_type,
                symbol: encode_utf8(symbol@),
            },
            PerpetualInstruction::InitAccount => InstructionView::InitAccount,
            PerpetualInstruction::Deposit {
                account_type,
                symbol,
                amount,
            } => InstructionView::Deposit {
                account_type: *account_type,
                symbol: encode_utf8(symbol@),
                amount: *amount,
            },
            PerpetualInstruction::Withdraw {
                account_type,
                symbol,
                amount,
                withdrawid,
                timestamp,
                recovery_id,
                signature,
            } => InstructionView::Withdraw {
                account_type: *account_type,
                symbol: encode_utf8(symbol@),
                amount: *amount,
                withdrawid: *withdrawid,
                timestamp: *timestamp,
                recovery_id: *recovery_id,
                signature: signature@,
            },
        }
    }
}

/// Where the symbol of an operation ends: it starts at byte 3 and has the
/// length that byte 2 gives.
pub open spec fn symbol_end(input: Seq<u8>) -> int {
    3 + input[2]
}

/// Whether the input holds an asset class, a symbol length and a whole symbol
/// in UTF-8 after its opcode.
pub open spec fn has_symbol(input: Seq<u8>) -> bool {
    &&& input.len() >= 3
    &&& input.len() >= symbol_end(input)
    &&& is_utf8(input.subrange(3, symbol_end(input)))
}

/// The operation that `input` is the wire form of, if it is one: the opcode
/// must be known and every field of its operation be there in full.
pub open spec fn instruction_parse(input: Seq<u8>) -> Option<InstructionView> {
    if input.len() == 0 {
        None
    } else if input[0] == 0 {
        if input.len() >= 129 {
            Some(
                InstructionView::InitPerpetual {
                    secp256k1_pubkey: input.subrange(1, 65),
                    gateway: input.subrange(65, 97),
                    admin: input.subrange(97, 129),
                },
            )
        } else {
            None
        }
    } else if input[0] == 1 {
        if has_symbol(input) {
            Some(
                InstructionView::SetTokenMap {
                    account_type: input[1],
                    symbol: input.subrange(3, symbol_end(input)),
                },
            )
        } else {
            None
        }
    } else if input[0] == 2 {
        Some(InstructionView::InitAccount)
    } else if input[0] == 3 {
        let end = symbol_end(input);
        if has_symbol(input) && input.len() >= end + 8 {
            Some(
                InstructionView::Deposit {
                    account_type: input[1],
                    symbol: input.subrange(3, end),
                    amount: u64_from_le(input.subrange(end, end + 8)) as u64,
                },
            )
        } else {
            None
        }
    } else if input[0] == 4 {
        let end = symbol_end(input);
        if has_symbol(input) && input.len() >= end + 89 {
            Some(
                InstructionView::Withdraw {
                    account_type: input[1],
                    symbol: input.subrange(3, end),
                    amount: u64_from_le(input.subrange(end, end + 8)) as u64,
                    withdrawid: u64_from_le(input.subrange(end + 8, end + 16)) as u64,
                    timestamp: u64_from_le(input.subrange(end + 16, end + 24)) as u64,
                    recovery_id: input[end + 24],
                    signature: input.subrange(end + 25, end + 89),
                },
            )
        } else {
            None
        }
    } else {
        None
    }
}

impl PerpetualInstruction {
    /// Reads an operation from its wire form.
    pub fn unpack(input: &[u8]) -> (result: Result<PerpetualInstruction, ProgramError>)
        ensures
            match result {
                Ok(instruction) => instruction_parse(input@) == Some(instruction@),
                Err(e) => e == ProgramError::InvalidInstructionData && instruction_parse(input@)
                    is None,
            },
    {
        if input.len() == 0 {
            return Err(ProgramError::InvalidInstructionData);
        }
        let tag = input[0];
        if tag == 0 {
            if input.len() < 129 {
                return Err(ProgramError::InvalidInstructionData);
            }
            let secp256k1_pubkey = read_array_64(input, 1);
            let gateway = Pubkey::from_slice(input, 65);
            let admin = Pubkey::from_slice(input, 97);
            Ok(PerpetualInstruction::InitPerpetual { secp256k1_pubkey, gateway, admin })
        } else if tag == 2 {
            Ok(PerpetualInstruction::InitAccount)
        } else if tag == 1 || tag == 3 || tag == 4 {
            if input.len() < 3 {
                return Err(ProgramError::InvalidInstructionData);
            }
            let account_type = input[1];
            let end: usize = 3 + input[2] as usize;
            if input.len() < end {
                return Err(ProgramError::InvalidInstructionData);
            }
            let symbol = match text_of(slice_subrange(input, 3, end)) {
                None => {
                    return Err(ProgramError::InvalidInstructionData);
                },
                Some(text) => text,
            };
            if tag == 1 {
                Ok(PerpetualInstruction::SetTokenMap { account_type, symbol })
            } else if tag == 3 {
                if input.len() - end < 8 {
                    return Err(ProgramError::InvalidInstructionData);
                }
                let amount = read_u64_le(input, end);
                Ok(PerpetualInstruction::Deposit { account_type, symbol, amount })
            } else {
                if input.len() - end < 89 {
                    return Err(ProgramError::InvalidInstructionData);
                }
                let amount = read_u64_le(input, end);
                let withdrawid = read_u64_le(input, end + 8);
                let timestamp = read_u64_le(input, end + 16);
                let recovery_id = input[end + 24];
                let signature = read_array_64(input, end + 25);
                Ok(
                    PerpetualInstruction::Withdraw {
                        account_type,
                        symbol,
                        amount,
                        withdrawid,
                        timestamp,
                        recovery_id,
                        signature,
                    },
                )
            }
        } else {
            Err(ProgramError::InvalidInstructionData)
        }
    }

    /// Reads a flag: 0 is false, 1 is true, and no other byte is a flag.
    pub fn unpack_bool(input: &u8) -> (result: Result<bool, ProgramError>)
        ensures
            match result {
                Ok(flag) => *input <= 1 && flag == (*input == 1),
                Err(e) => e == ProgramError::InvalidInstructionData && *input > 1,
            },
    {
        if *input == 0 {
            Ok(false)
        } else if *input == 1 {
            Ok(true)
        } else {
            Err(ProgramError::InvalidInstructionData)
        }
    }

    /// Reads the little-endian integer in the first eight bytes.
    pub fn unpack_u64(input: &[u8]) -> (result: Result<u64, ProgramError>)
        ensures
            match result {
                Ok(value) => input@.len() >= 8 && value == u64_from_le(input@.subrange(0, 8)),
                Err(e) => e == ProgramError::InvalidInstructionData && input@.len() < 8,
            },
    {
        if input.len() < 8 {
            return Err(ProgramError::InvalidInstructionData);
        }
        Ok(read_u64_le(input, 0))
    }

    /// Reads the little-endian integer in the first two bytes.
    pub fn unpack_u16(input: &[u8]) -> (result: Result<u16, ProgramError>)
        ensures
            match result {
                Ok(value) => input@.len() >= 2 && value == u16_from_le(input@.subrange(0, 2)),
                Err(e) => e == ProgramError::InvalidInstructionData && input@.len() < 2,
            },
    {
        if input.len() < 2 {
            return Err(ProgramError::InvalidInstructionData);
        }
        let low: u16 = input[0] as u16;
        let high: u16 = input[1] as u16;
        Ok(low + 256 * high)
    }

    /// Reads an address from the first thirty-two bytes and hands back the
    /// bytes after it.
    pub fn unpack_pubkey(input: &[u8]) -> (result: Result<(Pubkey, &[u8]), ProgramError>)
        ensures
            match result {
                Ok((key, rest)) => input@.len() >= 32 && key@ == input@.subrange(0, 32) && rest@
                    == input@.subrange(32, input@.len() as int),
                Err(e) => e == ProgramError::InvalidInstructionData && input@.len() < 32,
            },
    {
        if input.len() >= 32 {
            let key = Pubkey::from_slice(input, 0);
            let rest = slice_subrange(input, 32, input.len());
            Ok((key, rest))
        } else {
            Err(ProgramError::InvalidInstructionData)
        }
    }
}

} // verus!
