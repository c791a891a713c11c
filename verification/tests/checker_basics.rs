//! The satisfiability checker on hand-built systems: disabled selectors
//! shield their gates, and a broken copy class is reported exactly once.

use plonkish::checker::{check, CheckOutcome, Violation};
use plonkish::cs::ConstraintSystem;
use plonkish::expr::Rotation;
use plonkish::field::Felt;
use plonkish::layouter::Layouter;

#[test]
fn disabled_selector_shields_its_gate() {
    // One gate `s * a` over a single advice column; the cell holds a
    // non-zero value while the selector stays off everywhere, so nothing
    // may be blamed on that gate.
    let mut meta = ConstraintSystem::new();
    let a = meta.advice_column();
    let s = meta.selector();
    let q = meta.query_selector(s);
    let a_e = meta.query_advice(a, Rotation::cur());
    meta.create_gate("vanish", Some(s), vec![q.times(a_e)]);

    let mut lay = Layouter::new(&meta, 3, Vec::new());
    lay.start_region(&meta, "junk");
    lay.assign_advice(&meta, a, 0, Felt::from_u64(77)).unwrap();
    lay.end_region(&meta);

    match check(&meta, &lay).unwrap() {
        CheckOutcome::Satisfied => {}
        CheckOutcome::Violations(_) => panic!("a disabled gate produced a violation"),
    }
}

#[test]
fn enabled_selector_reports_the_nonzero_row() {
    let mut meta = ConstraintSystem::new();
    let a = meta.advice_column();
    let s = meta.selector();
    let q = meta.query_selector(s);
    let a_e = meta.query_advice(a, Rotation::cur());
    meta.create_gate("vanish", Some(s), vec![q.times(a_e)]);

    let mut lay = Layouter::new(&meta, 3, Vec::new());
    lay.start_region(&meta, "junk");
    lay.enable_selector(&meta, s, 0).unwrap();
    lay.assign_advice(&meta, a, 0, Felt::from_u64(77)).unwrap();
    lay.end_region(&meta);

    match check(&meta, &lay).unwrap() {
        CheckOutcome::Satisfied => panic!("a failing gate went unreported"),
        CheckOutcome::Violations(vs) => {
            assert_eq!(vs.len(), 1);
            match &vs[0] {
                Violation::Gate { gate, name, row, poly } => {
                    assert_eq!(*gate, 0);
                    assert_eq!(name.as_str(), "vanish");
                    assert_eq!(*row, 0);
                    assert_eq!(*poly, 0);
                }
                _ => panic!("expected a gate violation"),
            }
        }
    }
}

#[test]
fn mismatched_copy_pair_yields_exactly_one_violation() {
    // Two cells copy-constrained through a shared neighbour, holding a
    // different value: one violation for the whole class, not one per
    // recorded pair.
    let mut meta = ConstraintSystem::new();
    let a = meta.advice_column();
    let b = meta.advice_column();
    meta.enable_equality(a);
    meta.enable_equality(b);
    // One class holding the value 1 three times.
    let mut lay = Layouter::new(&meta, 3, Vec::new());
    lay.start_region(&meta, "ones");
    let src = lay.assign_advice(&meta, a, 0, Felt::from_u64(1)).unwrap();
    let c1 = lay.copy_advice(&meta, src, b, 0).unwrap();
    let c2 = lay.copy_advice(&meta, src, b, 1).unwrap();
    lay.end_region(&meta);

    // A second class holding the value 9 twice.
    lay.start_region(&meta, "nines");
    let d = lay.assign_advice(&meta, a, 0, Felt::from_u64(9)).unwrap();
    lay.end_region(&meta);
    lay.start_region(&meta, "tie");
    let e = lay.copy_advice(&meta, d, b, 0).unwrap();
    lay.end_region(&meta);

    // Assert the two classes equal: their union now holds three recorded
    // pairs that agree and one that does not, yet it is one class.
    lay.copies.push((e, c1));
    let _ = c2;

    match check(&meta, &lay).unwrap() {
        CheckOutcome::Satisfied => panic!("a broken copy class went unreported"),
        CheckOutcome::Violations(vs) => {
            let copies: Vec<&Violation> = vs
                .iter()
                .filter(|v| matches!(v, Violation::Copy { .. }))
                .collect();
            assert_eq!(copies.len(), 1);
            match copies[0] {
                Violation::Copy { cells } => assert!(cells.len() >= 2),
                _ => unreachable!(),
            }
        }
    }
}

#[test]
fn instance_binding_mismatch_is_reported() {
    let mut meta = ConstraintSystem::new();
    let a = meta.advice_column();
    let inst = meta.instance_column();
    meta.enable_equality(a);
    meta.enable_instance_equality(inst);
    let mut lay = Layouter::new(&meta, 3, vec![vec![Felt::from_u64(10)]]);
    lay.start_region(&meta, "bind");
    let cell = lay.assign_advice(&meta, a, 0, Felt::from_u64(11)).unwrap();
    lay.end_region(&meta);
    lay.constrain_instance(&meta, cell, inst, 0).unwrap();

    match check(&meta, &lay).unwrap() {
        CheckOutcome::Satisfied => panic!("a public-input mismatch went unreported"),
        CheckOutcome::Violations(vs) => {
            assert_eq!(vs.len(), 1);
            match &vs[0] {
                Violation::Instance { cell: c, column, row } => {
                    assert_eq!(*c, cell);
                    assert_eq!(*column, 0);
                    assert_eq!(*row, 0);
                }
                _ => panic!("expected an instance violation"),
            }
        }
    }
}
