//! The cube-and-add execution trace and the multiplication circuit.

use plonkish::checker::CheckOutcome;
use plonkish::field::Felt;
use plonkish::field_chip::simple_circuit_run;
use plonkish::trace::{build_do_work_trace, do_work};

fn felt(x: u64) -> Felt {
    Felt::from_u64(x)
}

#[test]
fn trace_rows_follow_the_recurrence() {
    let n = 16;
    let start = felt(3);
    let trace = build_do_work_trace(start, n);
    assert_eq!(trace.len(), n);
    assert_eq!(trace[0], start);
    assert_eq!(trace[1].value(), 3 * 3 * 3 + 42);
    for i in 0..n - 1 {
        assert_eq!(trace[i + 1], trace[i].pow(3).add(felt(42)));
    }
    assert_eq!(do_work(start, n), trace[n - 1]);
}

#[test]
fn do_work_of_a_short_trace_is_the_start() {
    assert_eq!(do_work(felt(7), 0), felt(7));
    assert_eq!(do_work(felt(7), 1), felt(7));
    assert_eq!(do_work(felt(7), 2).value(), 343 + 42);
}

#[test]
fn multiplication_circuit_computes_constant_times_squares() {
    // c = 7 * 2^2 * 3^2 = 252
    let (_, _, verdict) = simple_circuit_run(5, felt(7), felt(2), felt(3), vec![felt(252)]);
    assert!(verdict.unwrap().is_satisfied());
}

#[test]
fn multiplication_circuit_rejects_a_wrong_product() {
    let (_, _, verdict) = simple_circuit_run(5, felt(7), felt(2), felt(3), vec![felt(251)]);
    match verdict.unwrap() {
        CheckOutcome::Satisfied => panic!("a wrong public product passed"),
        CheckOutcome::Violations(vs) => assert!(!vs.is_empty()),
    }
}
