//! Scenarios: the copy-chained additive recurrence and the mixed
//! add/xor recurrence with its lookup table.

use plonkish::checker::{CheckOutcome, Violation};
use plonkish::fabo_chip::fabonacci_circuit_run;
use plonkish::fibo_chip::fibodynamic_circuit_run;
use plonkish::field::Felt;

fn felt(x: u64) -> Felt {
    Felt::from_u64(x)
}

#[test]
fn five_term_recurrence_is_satisfied() {
    // Three regions: the seed region and two copy-chained rows, giving
    // the terms 1, 1, 2, 3, 5 with 5 exposed as a public input.
    let (_, _, verdict) = fabonacci_circuit_run(4, 5, vec![felt(1), felt(1), felt(5)]);
    assert!(verdict.unwrap().is_satisfied());
}

#[test]
fn mutated_final_term_yields_one_instance_violation_and_no_gate_violation() {
    let (_, _, verdict) = fabonacci_circuit_run(4, 5, vec![felt(1), felt(1), felt(6)]);
    match verdict.unwrap() {
        CheckOutcome::Satisfied => panic!("a wrong final term passed"),
        CheckOutcome::Violations(vs) => {
            let instances = vs
                .iter()
                .filter(|v| matches!(v, Violation::Instance { .. }))
                .count();
            let gates = vs.iter().filter(|v| matches!(v, Violation::Gate { .. })).count();
            assert_eq!(instances, 1);
            assert_eq!(gates, 0);
        }
    }
}

#[test]
fn ten_term_recurrence_reaches_fifty_five() {
    let (_, _, verdict) = fabonacci_circuit_run(4, 10, vec![felt(1), felt(1), felt(55)]);
    assert!(verdict.unwrap().is_satisfied());
    let (_, _, verdict) = fabonacci_circuit_run(4, 10, vec![felt(1), felt(1), felt(56)]);
    assert!(!verdict.unwrap().is_satisfied());
}

#[test]
fn mixed_recurrence_with_xor_table_is_satisfied() {
    // Terms: 1, 1, 2, 1^2=3, 2+3=5, 3^5=6, 5+6=11, 6^11=13, 11+13=24,
    // 13^24=21; eight rows expose the ninth term, 21, at instance row 2.
    let (_, _, verdict) = fibodynamic_circuit_run(11, 8, vec![felt(1), felt(1), felt(21)]);
    assert!(verdict.unwrap().is_satisfied());
}

#[test]
fn mixed_recurrence_rejects_a_wrong_claim() {
    let (_, _, verdict) = fibodynamic_circuit_run(11, 8, vec![felt(1), felt(1), felt(22)]);
    assert!(!verdict.unwrap().is_satisfied());
}
