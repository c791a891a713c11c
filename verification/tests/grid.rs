//! The witness grid: assignment, read-back, idempotence and shadowing.

use plonkish::cs::ConstraintSystem;
use plonkish::error::Error;
use plonkish::field::Felt;
use plonkish::layouter::Layouter;

#[test]
fn assign_then_read_back_returns_the_value() {
    let mut meta = ConstraintSystem::new();
    let col = meta.advice_column();
    let mut lay = Layouter::new(&meta, 4, Vec::new());
    lay.start_region(&meta, "round trip");
    let cell = lay.assign_advice(&meta, col, 3, Felt::from_u64(42)).unwrap();
    assert_eq!(lay.value(cell), Ok(Felt::from_u64(42)));
    lay.end_region(&meta);
    assert_eq!(lay.value(cell), Ok(Felt::from_u64(42)));
}

#[test]
fn reassigning_the_same_value_is_a_no_op() {
    let mut meta = ConstraintSystem::new();
    let col = meta.advice_column();
    let mut lay = Layouter::new(&meta, 4, Vec::new());
    lay.start_region(&meta, "idempotent");
    let first = lay.assign_advice(&meta, col, 0, Felt::from_u64(5)).unwrap();
    let second = lay.assign_advice(&meta, col, 0, Felt::from_u64(5)).unwrap();
    assert_eq!(first, second);
    assert_eq!(lay.value(first), Ok(Felt::from_u64(5)));
    lay.end_region(&meta);
}

#[test]
fn reassigning_a_different_value_fails_with_shadowing() {
    let mut meta = ConstraintSystem::new();
    let col = meta.advice_column();
    let mut lay = Layouter::new(&meta, 4, Vec::new());
    lay.start_region(&meta, "shadowing");
    lay.assign_advice(&meta, col, 0, Felt::from_u64(5)).unwrap();
    let clash = lay.assign_advice(&meta, col, 0, Felt::from_u64(6));
    assert_eq!(clash, Err(Error::Shadowing));
    // The original value is untouched.
    let cell = lay.assign_advice(&meta, col, 0, Felt::from_u64(5)).unwrap();
    assert_eq!(lay.value(cell), Ok(Felt::from_u64(5)));
    lay.end_region(&meta);
}

#[test]
fn reading_an_unassigned_cell_is_an_error() {
    let mut meta = ConstraintSystem::new();
    let col = meta.advice_column();
    let mut lay = Layouter::new(&meta, 4, Vec::new());
    lay.start_region(&meta, "unset");
    let cell = lay.assign_advice(&meta, col, 0, Felt::from_u64(5)).unwrap();
    let mut other = cell;
    other.row = 1;
    assert_eq!(lay.value(other), Err(Error::UnassignedCell));
    lay.end_region(&meta);
}

#[test]
fn assigning_beyond_the_grid_height_fails() {
    let mut meta = ConstraintSystem::new();
    let col = meta.advice_column();
    // height 2^2 = 4
    let mut lay = Layouter::new(&meta, 2, Vec::new());
    lay.start_region(&meta, "bounds");
    assert_eq!(lay.assign_advice(&meta, col, 4, Felt::zero()), Err(Error::RowOutOfRange));
    assert!(lay.assign_advice(&meta, col, 3, Felt::zero()).is_ok());
    lay.end_region(&meta);
}

#[test]
fn regions_claim_disjoint_row_ranges() {
    let mut meta = ConstraintSystem::new();
    let col = meta.advice_column();
    let mut lay = Layouter::new(&meta, 4, Vec::new());
    lay.start_region(&meta, "first");
    let a = lay.assign_advice(&meta, col, 1, Felt::from_u64(1)).unwrap();
    lay.end_region(&meta);
    lay.start_region(&meta, "second");
    let b = lay.assign_advice(&meta, col, 0, Felt::from_u64(2)).unwrap();
    lay.end_region(&meta);
    assert_eq!(a.row, 1);
    assert_eq!(b.row, 2);
}

#[test]
fn copying_from_a_column_without_equality_is_rejected() {
    let mut meta = ConstraintSystem::new();
    let src_col = meta.advice_column();
    let dst_col = meta.advice_column();
    meta.enable_equality(dst_col);
    let mut lay = Layouter::new(&meta, 4, Vec::new());
    lay.start_region(&meta, "copy");
    let src = lay.assign_advice(&meta, src_col, 0, Felt::from_u64(9)).unwrap();
    assert_eq!(lay.copy_advice(&meta, src, dst_col, 1), Err(Error::ColumnNotPermuted));
    lay.end_region(&meta);
}
