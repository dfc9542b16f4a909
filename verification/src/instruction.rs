use crate::error::AppError;
use vstd::bytes::spec_u64_from_le_bytes;
use vstd::prelude::*;
use vstd::slice::slice_index_get;

verus! {

/// A decoded operation request: one discriminator byte followed by
/// little-endian 64-bit fields.
#[derive(Clone, Copy, Debug, PartialEq, Eq, Structural)]
pub enum AppInstruction {
    InitializePool { delta_a: u64, delta_b: u64, fee_ratio: u64, tax_ratio: u64 },
    AddLiquidity { delta_a: u64, delta_b: u64 },
    RemoveLiquidity { lpt: u64 },
    Swap { amount: u64, limit: u64 },
    FreezePool,
    ThawPool,
    TransferTaxman,
    TransferOwnership,
    Route { amount: u64, limit: u64 },
    UpdateFee { fee_ratio: u64, tax_ratio: u64 },
    AddSidedLiquidity { delta_a: u64, delta_b: u64 },
}

/// The 64-bit little-endian field starting at byte `i`.
pub open spec fn le64_at(data: Seq<u8>, i: int) -> u64 {
    spec_u64_from_le_bytes(data.subrange(i, i + 8))
}

/// What `unpack` decodes: the discriminator byte selects the operation and
/// each operation reads its fields at fixed offsets; anything too short or
/// with an unknown discriminator is `InvalidInstruction`.
pub open spec fn spec_unpack_instruction(data: Seq<u8>) -> Result<AppInstruction, AppError> {
    if data.len() < 1 {
        Err(AppError::InvalidInstruction)
    } else {
        let tag = data[0];
        if tag == 0 {
            if data.len() >= 33 {
                Ok(
                    AppInstruction::InitializePool {
                        delta_a: le64_at(data, 1),
                        delta_b: le64_at(data, 9),
                        fee_ratio: le64_at(data, 17),
                        tax_ratio: le64_at(data, 25),
                    },
                )
            } else {
                Err(AppError::InvalidInstruction)
            }
        } else if tag == 1 {
            if data.len() >= 17 {
                Ok(
                    AppInstruction::AddLiquidity {
                        delta_a: le64_at(data, 1),
                        delta_b: le64_at(data, 9),
                    },
                )
            } else {
                Err(AppError::InvalidInstruction)
            }
        } else if tag == 2 {
            if data.len() >= 9 {
                Ok(AppInstruction::RemoveLiquidity { lpt: le64_at(data, 1) })
            } else {
                Err(AppError::InvalidInstruction)
            }
        } else if tag == 3 {
            if data.len() >= 17 {
                Ok(AppInstruction::Swap { amount: le64_at(data, 1), limit: le64_at(data, 9) })
            } else {
                Err(AppError::InvalidInstruction)
            }
        } else if tag == 4 {
            Ok(AppInstruction::FreezePool)
        } else if tag == 5 {
            Ok(AppInstruction::ThawPool)
        } else if tag == 6 {
            Ok(AppInstruction::TransferTaxman)
        } else if tag == 7 {
            Ok(AppInstruction::TransferOwnership)
        } else if tag == 8 {
            if data.len() >= 17 {
                Ok(AppInstruction::Route { amount: le64_at(data, 1), limit: le64_at(data, 9) })
            } else {
                Err(AppError::InvalidInstruction)
            }
        } else if tag == 9 {
            if data.len() >= 17 {
                Ok(
                    AppInstruction::UpdateFee {
                        fee_ratio: le64_at(data, 1),
                        tax_ratio: le64_at(data, 9),
                    },
                )
            } else {
                Err(AppError::InvalidInstruction)
            }
        } else if tag == 10 {
            if data.len() >= 17 {
                Ok(
                    AppInstruction::AddSidedLiquidity {
                        delta_a: le64_at(data, 1),
                        delta_b: le64_at(data, 9),
                    },
                )
            } else {
                Err(AppError::InvalidInstruction)
            }
        } else {
            Err(AppError::InvalidInstruction)
        }
    }
}

impl AppInstruction {
    /// Decodes an operation request from its wire bytes.
    pub fn unpack(instruction: &[u8]) -> (r: Result<AppInstruction, AppError>)
        ensures
            r == spec_unpack_instruction(instruction@),
    {
        if instruction.len() == 0 {
            return Err(AppError::InvalidInstruction);
        }
        let tag = *slice_index_get(instruction, 0);
        if tag == 0 {
            if instruction.len() < 33 {
                return Err(AppError::InvalidInstruction);
            }
            Ok(
                AppInstruction::InitializePool {
                    delta_a: crate::layout::read_u64_le(instruction, 1),
                    delta_b: crate::layout::read_u64_le(instruction, 9),
                    fee_ratio: crate::layout::read_u64_le(instruction, 17),
                    tax_ratio: crate::layout::read_u64_le(instruction, 25),
                },
            )
        } else if tag == 1 {
            if instruction.len() < 17 {
                return Err(AppError::InvalidInstruction);
            }
            Ok(
                AppInstruction::AddLiquidity {
                    delta_a: crate::layout::read_u64_le(instruction, 1),
                    delta_b: crate::layout::read_u64_le(instruction, 9),
                },
            )
        } else if tag == 2 {
            if instruction.len() < 9 {
                return Err(AppError::InvalidInstruction);
            }
            Ok(AppInstruction::RemoveLiquidity { lpt: crate::layout::read_u64_le(instruction, 1) })
        } else if tag == 3 {
            if instruction.len() < 17 {
                return Err(AppError::InvalidInstruction);
            }
            Ok(
                AppInstruction::Swap {
                    amount: crate::layout::read_u64_le(instruction, 1),
                    limit: crate::layout::read_u64_le(instruction, 9),
                },
            )
        } else if tag == 4 {
            Ok(AppInstruction::FreezePool)
        } else if tag == 5 {
            Ok(AppInstruction::ThawPool)
        } else if tag == 6 {
            Ok(AppInstruction::TransferTaxman)
        } else if tag == 7 {
            Ok(AppInstruction::TransferOwnership)
        } else if tag == 8 {
            if instruction.len() < 17 {
                return Err(AppError::InvalidInstruction);
            }
            Ok(
                AppInstruction::Route {
                    amount: crate::layout::read_u64_le(instruction, 1),
                    limit: crate::layout::read_u64_le(instruction, 9),
                },
            )
        } else if tag == 9 {
            if instruction.len() < 17 {
                return Err(AppError::InvalidInstruction);
            }
            Ok(
                AppInstruction::UpdateFee {
                    fee_ratio: crate::layout::read_u64_le(instruction, 1),
                    tax_ratio: crate::layout::read_u64_le(instruction, 9),
                },
            )
        } else if tag == 10 {
            if instruction.len() < 17 {
                return Err(AppError::InvalidInstruction);
            }
            Ok(
                AppInstruction::AddSidedLiquidity {
                    delta_a: crate::layout::read_u64_le(instruction, 1),
                    delta_b: crate::layout::read_u64_le(instruction, 9),
                },
            )
        } else {
            Err(AppError::InvalidInstruction)
        }
    }
}

} // verus!
