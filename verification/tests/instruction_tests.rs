use swap_pool::error::AppError;
use swap_pool::instruction::AppInstruction;

fn encode(tag: u8, fields: &[u64]) -> Vec<u8> {
    let mut out = vec![tag];
    for f in fields {
        out.extend_from_slice(&f.to_le_bytes());
    }
    out
}

#[test]
fn unpack_initialize_pool() {
    let data = encode(0, &[1000, 4000, 3_000_000_000_000_000, 7]);
    assert_eq!(
        AppInstruction::unpack(&data),
        Ok(AppInstruction::InitializePool {
            delta_a: 1000,
            delta_b: 4000,
            fee_ratio: 3_000_000_000_000_000,
            tax_ratio: 7,
        })
    );
}

#[test]
fn unpack_add_and_remove_liquidity() {
    assert_eq!(
        AppInstruction::unpack(&encode(1, &[10, 20])),
        Ok(AppInstruction::AddLiquidity { delta_a: 10, delta_b: 20 })
    );
    assert_eq!(
        AppInstruction::unpack(&encode(2, &[55])),
        Ok(AppInstruction::RemoveLiquidity { lpt: 55 })
    );
}

#[test]
fn unpack_swap_and_route() {
    assert_eq!(
        AppInstruction::unpack(&encode(3, &[10_000, 39_000])),
        Ok(AppInstruction::Swap { amount: 10_000, limit: 39_000 })
    );
    assert_eq!(
        AppInstruction::unpack(&encode(8, &[10_000, 38_000])),
        Ok(AppInstruction::Route { amount: 10_000, limit: 38_000 })
    );
}

#[test]
fn unpack_admin_operations() {
    assert_eq!(AppInstruction::unpack(&[4]), Ok(AppInstruction::FreezePool));
    assert_eq!(AppInstruction::unpack(&[5]), Ok(AppInstruction::ThawPool));
    assert_eq!(AppInstruction::unpack(&[6]), Ok(AppInstruction::TransferTaxman));
    assert_eq!(AppInstruction::unpack(&[7]), Ok(AppInstruction::TransferOwnership));
}

#[test]
fn unpack_update_fee_and_sided_liquidity() {
    assert_eq!(
        AppInstruction::unpack(&encode(9, &[5, 6])),
        Ok(AppInstruction::UpdateFee { fee_ratio: 5, tax_ratio: 6 })
    );
    assert_eq!(
        AppInstruction::unpack(&encode(10, &[100, 0])),
        Ok(AppInstruction::AddSidedLiquidity { delta_a: 100, delta_b: 0 })
    );
}

#[test]
fn unpack_rejects_empty_short_and_unknown() {
    assert_eq!(AppInstruction::unpack(&[]), Err(AppError::InvalidInstruction));
    assert_eq!(AppInstruction::unpack(&[0; 32]), Err(AppError::InvalidInstruction));
    assert_eq!(AppInstruction::unpack(&[1; 16]), Err(AppError::InvalidInstruction));
    assert_eq!(AppInstruction::unpack(&encode(2, &[])), Err(AppError::InvalidInstruction));
    assert_eq!(AppInstruction::unpack(&encode(11, &[1, 2])), Err(AppError::InvalidInstruction));
}

#[test]
fn unpack_ignores_trailing_bytes() {
    let mut data = encode(2, &[55]);
    data.push(99);
    assert_eq!(AppInstruction::unpack(&data), Ok(AppInstruction::RemoveLiquidity { lpt: 55 }));
}
