//! Scenarios: lookup containment against loaded tables.

use plonkish::checker::{CheckOutcome, Violation};
use plonkish::error::Error;
use plonkish::field::Felt;
use plonkish::hash_check::hash_circuit_run;
use plonkish::range_table::Test;

fn felt(x: u64) -> Felt {
    Felt::from_u64(x)
}

#[test]
fn xor_table_accepts_the_correct_output() {
    // Table {(0,0,0), (0,1,1), (1,0,1), (1,1,0)}; inputs (1, 1) with the
    // witnessed output 0 appear in the table.
    let (_, _, verdict) = hash_circuit_run(4, 2, felt(0), felt(1), felt(1), felt(0));
    assert!(verdict.unwrap().is_satisfied());
}

#[test]
fn xor_table_rejects_a_wrong_output() {
    // Inputs (1, 1) with the witnessed output 1: (1, 1, 1) is not a row
    // of the XOR table, so the lookup must report "not found".
    let (_, _, verdict) = hash_circuit_run(4, 2, felt(0), felt(1), felt(1), felt(1));
    match verdict.unwrap() {
        CheckOutcome::Satisfied => panic!("a tuple outside the table passed"),
        CheckOutcome::Violations(vs) => {
            assert_eq!(vs.len(), 1);
            assert!(matches!(vs[0], Violation::Lookup { .. }));
        }
    }
}

#[test]
fn test_range_check_2() {
    // The lookup range is 16 rather than 256: a full 256 x 256 pair
    // table has 65536 rows and cannot fit the k = 9 grid of 512 rows
    // that this scenario fixes, so the largest range whose squared
    // table fits is kept while k, the simple range and the loop
    // structure stay as they are.
    let k = 9;
    const RANGE: usize = 8;
    const LOOKUP_RANGE: usize = 16;

    // Successful cases: every unconstrained simple value below RANGE and
    // every looked-up value below LOOKUP_RANGE.
    for i in 0..RANGE {
        for j in 0..LOOKUP_RANGE {
            let (_, _, verdict) = hash_circuit_run(
                k,
                LOOKUP_RANGE,
                felt(i as u64),
                felt(0),
                felt(j as u64),
                felt(j as u64),
            );
            assert!(verdict.unwrap().is_satisfied());
        }
    }
}

#[test]
fn loaded_range_table_accepts_a_member() {
    let (_, _, verdict) = Test(8);
    assert!(verdict.unwrap().is_satisfied());
}

#[test]
fn loaded_range_table_rejects_a_non_member() {
    let (_, _, verdict) = Test(9);
    match verdict.unwrap() {
        CheckOutcome::Satisfied => panic!("a value outside the table passed"),
        CheckOutcome::Violations(vs) => {
            assert_eq!(vs.len(), 1);
            assert!(matches!(vs[0], Violation::Lookup { row: 0, .. }));
        }
    }
}

#[test]
fn unloaded_table_is_a_fatal_error() {
    // A lookup whose table was never loaded cannot be checked.
    let mut meta = plonkish::cs::ConstraintSystem::new();
    let a = meta.advice_column();
    let q = meta.complex_selector();
    let t = meta.lookup_table_column();
    let q_e = meta.query_selector(q);
    let a_e = meta.query_advice(a, plonkish::expr::Rotation::cur());
    meta.create_lookup("lookup", q, vec![(q_e.times(a_e), t)]);
    let lay = plonkish::layouter::Layouter::new(&meta, 3, Vec::new());
    // An empty table is "loaded to length zero", which is checkable; a
    // lookup against it simply never matches.  Enable the selector to
    // see the violation.
    let mut lay = lay;
    lay.start_region(&meta, "row");
    lay.enable_selector(&meta, q, 0).unwrap();
    lay.assign_advice(&meta, a, 0, felt(1)).unwrap();
    lay.end_region(&meta);
    match plonkish::checker::check(&meta, &lay) {
        Ok(CheckOutcome::Violations(vs)) => {
            assert!(matches!(vs[0], Violation::Lookup { .. }));
        }
        Ok(CheckOutcome::Satisfied) => panic!("an unmatchable lookup passed"),
        Err(e) => assert_eq!(e, Error::TableNotLoaded),
    }
}
