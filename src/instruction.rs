//! Decoding of instruction data: one tag byte selects the instruction, and
//! its fields follow as little-endian fixed-width integers. When both
//! sub-programs share one deployment, a module tag byte comes first.

use crate::address::{le_value, read_u64};
use crate::position::Side;
use vstd::prelude::*;

verus! {

/// Module tag of the perpetuals sub-program.
pub const PERPETUALS_MODULE: u8 = 0;

/// Module tag of the vaults sub-program.
pub const VAULTS_MODULE: u8 = 1;

/// Why instruction data does not decode.
#[derive(Clone, Copy, Debug, PartialEq, Eq, Structural)]
pub enum DecodeError {
    /// There is no tag byte.
    EmptyInput,
    /// The tag byte names no instruction.
    UnknownTag,
    /// Fewer bytes remain than a field needs.
    TruncatedField,
    /// The side byte of a position is neither long (1) nor short (2).
    UnknownSide,
    /// The module tag names no sub-program.
    UnknownModule,
}

/// Instructions of the vaults sub-program.
#[derive(Clone, Copy, Debug, PartialEq, Eq, Structural)]
pub enum VaultInstruction {
    CreateVault,
    Deposit { amount: u64 },
    Withdraw { amount: u64 },
    BurnRToken { amount: u64 },
    Faucet { amount: u64 },
}

/// Instructions of the perpetuals sub-program.
#[derive(Clone, Copy, Debug, PartialEq, Eq, Structural)]
pub enum PerpetualsInstruction {
    OpenPosition { side: Side, amount: u64 },
    ClosePosition { position_id: u64 },
    AddCollateral { position_id: u64, amount: u64 },
    RemoveCollateral { position_id: u64, amount: u64 },
    LiquidatePosition { position_id: u64 },
}

/// An instruction of either sub-program, as selected by the module tag.
#[derive(Clone, Copy, Debug, PartialEq, Eq, Structural)]
pub enum ProgramInstruction {
    Perpetuals(PerpetualsInstruction),
    Vaults(VaultInstruction),
}

/// The little-endian `u64` stored at `b[start..start + 8]`.
pub open spec fn u64_at(b: Seq<u8>, start: int) -> u64 {
    le_value(b.subrange(start, start + 8)) as u64
}

/// The `u64` field at the front of `b`, if there are eight bytes for it.
pub open spec fn u64_field(b: Seq<u8>) -> Result<u64, DecodeError> {
    if b.len() >= 8 {
        Ok(u64_at(b, 0))
    } else {
        Err(DecodeError::TruncatedField)
    }
}

/// What vault instruction data decodes to.
pub open spec fn vault_instruction_of(b: Seq<u8>) -> Result<VaultInstruction, DecodeError> {
    if b.len() == 0 {
        Err(DecodeError::EmptyInput)
    } else if b[0] == 0 {
        Ok(VaultInstruction::CreateVault)
    } else if 1 <= b[0] <= 4 {
        if b.len() < 9 {
            Err(DecodeError::TruncatedField)
        } else {
            let amount = u64_at(b, 1);
            Ok(
                if b[0] == 1 {
                    VaultInstruction::Deposit { amount }
                } else if b[0] == 2 {
                    VaultInstruction::Withdraw { amount }
                } else if b[0] == 3 {
                    VaultInstruction::BurnRToken { amount }
                } else {
                    VaultInstruction::Faucet { amount }
                },
            )
        }
    } else {
        Err(DecodeError::UnknownTag)
    }
}

/// What perpetuals instruction data decodes to.
pub open spec fn perpetuals_instruction_of(b: Seq<u8>) -> Result<PerpetualsInstruction, DecodeError> {
    if b.len() == 0 {
        Err(DecodeError::EmptyInput)
    } else if b[0] == 0 {
        if b.len() < 2 {
            Err(DecodeError::TruncatedField)
        } else if b[1] != 1 && b[1] != 2 {
            Err(DecodeError::UnknownSide)
        } else if b.len() < 10 {
            Err(DecodeError::TruncatedField)
        } else {
            Ok(
                PerpetualsInstruction::OpenPosition {
                    side: if b[1] == 1 {
                        Side::Long
                    } else {
                        Side::Short
                    },
                    amount: u64_at(b, 2),
                },
            )
        }
    } else if b[0] == 1 || b[0] == 4 {
        if b.len() < 9 {
            Err(DecodeError::TruncatedField)
        } else if b[0] == 1 {
            Ok(PerpetualsInstruction::ClosePosition { position_id: u64_at(b, 1) })
        } else {
            Ok(PerpetualsInstruction::LiquidatePosition { position_id: u64_at(b, 1) })
        }
    } else if b[0] == 2 || b[0] == 3 {
        if b.len() < 17 {
            Err(DecodeError::TruncatedField)
        } else if b[0] == 2 {
            Ok(
                PerpetualsInstruction::AddCollateral {
                    position_id: u64_at(b, 1),
                    amount: u64_at(b, 9),
                },
            )
        } else {
            Ok(
                PerpetualsInstruction::RemoveCollateral {
                    position_id: u64_at(b, 1),
                    amount: u64_at(b, 9),
                },
            )
        }
    } else {
        Err(DecodeError::UnknownTag)
    }
}

/// What module-tagged instruction data decodes to.
pub open spec fn program_instruction_of(b: Seq<u8>) -> Result<ProgramInstruction, DecodeError> {
    if b.len() == 0 {
        Err(DecodeError::EmptyInput)
    } else if b[0] == PERPETUALS_MODULE {
        match perpetuals_instruction_of(b.drop_first()) {
            Ok(i) => Ok(ProgramInstruction::Perpetuals(i)),
            Err(e) => Err(e),
        }
    } else if b[0] == VAULTS_MODULE {
        match vault_instruction_of(b.drop_first()) {
            Ok(i) => Ok(ProgramInstruction::Vaults(i)),
            Err(e) => Err(e),
        }
    } else {
        Err(DecodeError::UnknownModule)
    }
}

/// Decoding is total: empty data is refused as `EmptyInput`, and a known tag
/// followed by fewer bytes than its fields need is refused as
/// `TruncatedField`, by each decoder.
pub proof fn lemma_decode_totality(b: Seq<u8>)
    ensures
        b.len() == 0 ==> vault_instruction_of(b) == Err::<VaultInstruction, DecodeError>(DecodeError::EmptyInput),
        b.len() == 0 ==> perpetuals_instruction_of(b) == Err::<PerpetualsInstruction, DecodeError>(
            DecodeError::EmptyInput,
        ),
        b.len() == 0 ==> program_instruction_of(b) == Err::<ProgramInstruction, DecodeError>(
            DecodeError::EmptyInput,
        ),
        1 <= b.len() < 9 && 1 <= b[0] <= 4 ==> vault_instruction_of(b) == Err::<VaultInstruction, DecodeError>(
            DecodeError::TruncatedField,
        ),
        b.len() == 1 && b[0] == 0 ==> perpetuals_instruction_of(b) == Err::<PerpetualsInstruction, DecodeError>(
            DecodeError::TruncatedField,
        ),
        2 <= b.len() < 10 && b[0] == 0 && (b[1] == 1 || b[1] == 2) ==> perpetuals_instruction_of(b) == Err::<
            PerpetualsInstruction,
            DecodeError,
        >(DecodeError::TruncatedField),
        1 <= b.len() < 9 && (b[0] == 1 || b[0] == 4) ==> perpetuals_instruction_of(b) == Err::<
            PerpetualsInstruction,
            DecodeError,
        >(DecodeError::TruncatedField),
        1 <= b.len() < 17 && (b[0] == 2 || b[0] == 3) ==> perpetuals_instruction_of(b) == Err::<
            PerpetualsInstruction,
            DecodeError,
        >(DecodeError::TruncatedField),
{
}

/// Reads the `u64` field at `input[start..start + 8]`, if the bytes are there.
fn u64_field_at(input: &[u8], start: usize) -> (r: Result<u64, DecodeError>)
    requires
        start <= input@.len(),
    ensures
        r == u64_field(input@.subrange(start as int, input@.len() as int)),
{
    let ghost rest = input@.subrange(start as int, input@.len() as int);
    if input.len() - start < 8 {
        return Err(DecodeError::TruncatedField);
    }
    let v = read_u64(input, start);
    proof {
        assert(rest.subrange(0, 8) =~= input@.subrange(start as int, start + 8));
        crate::address::lemma_le_value_bound(input@.subrange(start as int, start + 8));
        crate::address::lemma_radix_values();
    }
    Ok(v)
}

impl VaultInstruction {
    /// Decodes vault instruction data.
    pub fn unpack(input: &[u8]) -> (r: Result<VaultInstruction, DecodeError>)
        ensures
            r == vault_instruction_of(input@),
    {
        let r = Self::unpack_from(input, 0);
        proof {
            assert(input@.subrange(0, input@.len() as int) =~= input@);
        }
        r
    }

    /// Decodes the vault instruction data that starts at `input[start]`.
    pub fn unpack_from(input: &[u8], start: usize) -> (r: Result<VaultInstruction, DecodeError>)
        requires
            start <= input@.len(),
        ensures
            r == vault_instruction_of(input@.subrange(start as int, input@.len() as int)),
    {
        let ghost b = input@.subrange(start as int, input@.len() as int);
        if input.len() == start {
            return Err(DecodeError::EmptyInput);
        }
        let tag = input[start];
        if tag == 0 {
            return Ok(VaultInstruction::CreateVault);
        }
        if tag > 4 {
            return Err(DecodeError::UnknownTag);
        }
        let amount = match u64_field_at(input, start + 1) {
            Ok(a) => a,
            Err(e) => {
                proof {
                    assert(input@.subrange(start + 1, input@.len() as int).len() < 8);
                }
                return Err(e);
            },
        };
        proof {
            assert(b.subrange(1, 9) =~= input@.subrange(start + 1, start + 9));
            assert(input@.subrange(start + 1, input@.len() as int).subrange(0, 8) =~= input@.subrange(start + 1, start + 9));
        }
        if tag == 1 {
            Ok(VaultInstruction::Deposit { amount })
        } else if tag == 2 {
            Ok(VaultInstruction::Withdraw { amount })
        } else if tag == 3 {
            Ok(VaultInstruction::BurnRToken { amount })
        } else {
            Ok(VaultInstruction::Faucet { amount })
        }
    }

    /// The `u64` amount at the front of `input`.
    pub fn unpack_amount(input: &[u8]) -> (r: Result<u64, DecodeError>)
        ensures
            r == u64_field(input@),
    {
        let r = u64_field_at(input, 0);
        proof {
            assert(input@.subrange(0, input@.len() as int) =~= input@);
        }
        r
    }
}

impl PerpetualsInstruction {
    /// Decodes perpetuals instruction data.
    pub fn unpack(input: &[u8]) -> (r: Result<PerpetualsInstruction, DecodeError>)
        ensures
            r == perpetuals_instruction_of(input@),
    {
        let r = Self::unpack_from(input, 0);
        proof {
            assert(input@.subrange(0, input@.len() as int) =~= input@);
        }
        r
    }

    /// Decodes the perpetuals instruction data that starts at `input[start]`.
    pub fn unpack_from(input: &[u8], start: usize) -> (r: Result<PerpetualsInstruction, DecodeError>)
        requires
            start <= input@.len(),
        ensures
            r == perpetuals_instruction_of(input@.subrange(start as int, input@.len() as int)),
    {
        let ghost b = input@.subrange(start as int, input@.len() as int);
        let len = input.len();
        if len == start {
            return Err(DecodeError::EmptyInput);
        }
        let tag = input[start];
        if tag == 0 {
            if len - start < 2 {
                return Err(DecodeError::TruncatedField);
            }
            let side_byte = input[start + 1];
            let side = if side_byte == 1 {
                Side::Long
            } else if side_byte == 2 {
                Side::Short
            } else {
                return Err(DecodeError::UnknownSide);
            };
            if len - start < 10 {
                return Err(DecodeError::TruncatedField);
            }
            let amount = read_u64(input, start + 2);
            proof {
                assert(b.subrange(2, 10) =~= input@.subrange(start + 2, start + 10));
                crate::address::lemma_le_value_bound(input@.subrange(start + 2, start + 10));
                crate::address::lemma_radix_values();
            }
            return Ok(PerpetualsInstruction::OpenPosition { side, amount });
        }
        if tag > 4 {
            return Err(DecodeError::UnknownTag);
        }
        if len - start < 9 {
            return Err(DecodeError::TruncatedField);
        }
        let position_id = read_u64(input, start + 1);
        proof {
            assert(b.subrange(1, 9) =~= input@.subrange(start + 1, start + 9));
            crate::address::lemma_le_value_bound(input@.subrange(start + 1, start + 9));
            crate::address::lemma_radix_values();
        }
        if tag == 1 {
            return Ok(PerpetualsInstruction::ClosePosition { position_id });
        }
        if tag == 4 {
            return Ok(PerpetualsInstruction::LiquidatePosition { position_id });
        }
        if len - start < 17 {
            return Err(DecodeError::TruncatedField);
        }
        let amount = read_u64(input, start + 9);
        proof {
            assert(b.subrange(9, 17) =~= input@.subrange(start + 9, start + 17));
            crate::address::lemma_le_value_bound(input@.subrange(start + 9, start + 17));
        }
        if tag == 2 {
            Ok(PerpetualsInstruction::AddCollateral { position_id, amount })
        } else {
            Ok(PerpetualsInstruction::RemoveCollateral { position_id, amount })
        }
    }

    /// The `u64` at the front of `input`.
    pub fn unpack_u64(input: &[u8]) -> (r: Result<u64, DecodeError>)
        ensures
            r == u64_field(input@),
    {
        let r = u64_field_at(input, 0);
        proof {
            assert(input@.subrange(0, input@.len() as int) =~= input@);
        }
        r
    }

    /// The `u64` amount at the front of `input`.
    pub fn unpack_amount(input: &[u8]) -> (r: Result<u64, DecodeError>)
        ensures
            r == u64_field(input@),
    {
        Self::unpack_u64(input)
    }
}

impl ProgramInstruction {
    /// Decodes module-tagged instruction data: the first byte selects the
    /// sub-program, which decodes the rest.
    pub fn unpack(input: &[u8]) -> (r: Result<ProgramInstruction, DecodeError>)
        ensures
            r == program_instruction_of(input@),
    {
        if input.len() == 0 {
            return Err(DecodeError::EmptyInput);
        }
        let module = input[0];
        proof {
            assert(input@.subrange(1, input@.len() as int) =~= input@.drop_first());
        }
        if module == PERPETUALS_MODULE {
            match PerpetualsInstruction::unpack_from(input, 1) {
                Ok(i) => Ok(ProgramInstruction::Perpetuals(i)),
                Err(e) => Err(e),
            }
        } else if module == VAULTS_MODULE {
            match VaultInstruction::unpack_from(input, 1) {
                Ok(i) => Ok(ProgramInstruction::Vaults(i)),
                Err(e) => Err(e),
            }
        } else {
            Err(DecodeError::UnknownModule)
        }
    }
}

} // verus!
