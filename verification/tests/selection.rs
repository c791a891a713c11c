//! Scenario: the selection gate `s * (cond * thenv + (1 - cond) * elsev - out)`.

use plonkish::checker::{check, CheckOutcome, Violation};
use plonkish::cs::ConstraintSystem;
use plonkish::expr::Rotation;
use plonkish::field::Felt;
use plonkish::function_chip::function_circuit_run;
use plonkish::layouter::Layouter;
use plonkish::select_chip::selection_circuit_run;

fn felt(x: u64) -> Felt {
    Felt::from_u64(x)
}

/// Build the bare selection gate and witness all four cells explicitly.
fn run_selection(cond: u64, thenv: u64, elsev: u64, out: u64) -> CheckOutcome {
    let mut meta = ConstraintSystem::new();
    let s = meta.selector();
    let c_cond = meta.advice_column();
    let c_then = meta.advice_column();
    let c_else = meta.advice_column();
    let c_out = meta.advice_column();
    let q = meta.query_selector(s);
    let cond_e = meta.query_advice(c_cond, Rotation::cur());
    let then_e = meta.query_advice(c_then, Rotation::cur());
    let else_e = meta.query_advice(c_else, Rotation::cur());
    let out_e = meta.query_advice(c_out, Rotation::cur());
    let one = plonkish::expr::Expression::Constant(Felt::one());
    let poly = q.times(
        cond_e
            .dup()
            .times(then_e)
            .plus(one.plus(cond_e.neg()).times(else_e))
            .plus(out_e.neg()),
    );
    meta.create_gate("select", Some(s), vec![poly]);

    let mut lay = Layouter::new(&meta, 4, Vec::new());
    lay.start_region(&meta, "row");
    lay.enable_selector(&meta, s, 0).unwrap();
    lay.assign_advice(&meta, c_cond, 0, felt(cond)).unwrap();
    lay.assign_advice(&meta, c_then, 0, felt(thenv)).unwrap();
    lay.assign_advice(&meta, c_else, 0, felt(elsev)).unwrap();
    lay.assign_advice(&meta, c_out, 0, felt(out)).unwrap();
    lay.end_region(&meta);
    check(&meta, &lay).unwrap()
}

#[test]
fn correct_selection_is_satisfied() {
    assert!(matches!(run_selection(1, 2, 3, 2), CheckOutcome::Satisfied));
    assert!(matches!(run_selection(0, 2, 3, 3), CheckOutcome::Satisfied));
}

#[test]
fn wrong_output_yields_exactly_one_gate_violation_at_the_row() {
    match run_selection(1, 2, 3, 3) {
        CheckOutcome::Satisfied => panic!("a wrong selection passed"),
        CheckOutcome::Violations(vs) => {
            assert_eq!(vs.len(), 1);
            match &vs[0] {
                Violation::Gate { row, .. } => assert_eq!(*row, 0),
                _ => panic!("expected a gate violation"),
            }
        }
    }
}

#[test]
fn function_circuit_selects_then_branch() {
    let (_, _, verdict) =
        function_circuit_run(4, felt(1), felt(2), felt(3), vec![felt(2)]);
    assert!(verdict.unwrap().is_satisfied());
}

#[test]
fn function_circuit_rejects_wrong_public_output() {
    let (_, _, verdict) =
        function_circuit_run(4, felt(1), felt(2), felt(3), vec![felt(3)]);
    match verdict.unwrap() {
        CheckOutcome::Satisfied => panic!("a wrong public output passed"),
        CheckOutcome::Violations(vs) => {
            assert!(vs.iter().any(|v| matches!(v, Violation::Instance { .. })));
        }
    }
}

#[test]
fn copy_fed_selection_circuit_checks_instance_row_three() {
    // Public inputs: cond, thenval, elseval, and the claimed output.
    let good = vec![felt(1), felt(2), felt(3), felt(2)];
    let (_, _, verdict) = selection_circuit_run(4, good);
    assert!(verdict.unwrap().is_satisfied());

    let bad = vec![felt(1), felt(2), felt(3), felt(9)];
    let (_, _, verdict) = selection_circuit_run(4, bad);
    match verdict.unwrap() {
        CheckOutcome::Satisfied => panic!("a wrong claimed output passed"),
        CheckOutcome::Violations(vs) => {
            assert!(!vs.is_empty());
            assert!(vs.iter().all(|v| !matches!(v, Violation::Gate { .. })));
        }
    }
}
