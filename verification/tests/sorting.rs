//! Scenario: the comparison chip over a sorted sequence.

use plonkish::checker::{CheckOutcome, Violation};
use plonkish::sort_chip::{bubble_sort, sort_circuit_run};

#[test]
fn sort_test() {
    // Values [9, 4, 6, 2, 1] sorted ascending to [1, 2, 4, 6, 9]; every
    // adjacent pair is strictly increasing, so all four flags are true.
    let (_, _, verdict) =
        sort_circuit_run(5, vec![9, 4, 6, 2, 1], vec![true, true, true, true]);
    assert!(verdict.unwrap().is_satisfied());
}

#[test]
fn an_inverted_flag_yields_a_gate_violation() {
    let (_, _, verdict) =
        sort_circuit_run(5, vec![9, 4, 6, 2, 1], vec![true, false, true, true]);
    match verdict.unwrap() {
        CheckOutcome::Satisfied => panic!("an inverted comparison flag passed"),
        CheckOutcome::Violations(vs) => {
            assert!(vs.iter().any(|v| matches!(v, Violation::Gate { .. })));
        }
    }
}

#[test]
fn equal_adjacent_values_are_not_less_than() {
    // With duplicates the adjacent comparison is false at the duplicate.
    let (_, _, verdict) = sort_circuit_run(5, vec![3, 3, 1], vec![true, true]);
    assert!(!verdict.unwrap().is_satisfied());
    let (_, _, verdict) = sort_circuit_run(5, vec![3, 3, 1], vec![true, false]);
    assert!(verdict.unwrap().is_satisfied());
}

#[test]
fn bubble_sort_sorts_and_keeps_multiplicities() {
    let sorted = bubble_sort(&vec![9, 4, 6, 2, 1]);
    assert_eq!(sorted, vec![1, 2, 4, 6, 9]);
    let sorted = bubble_sort(&vec![5, 5, 0, 5]);
    assert_eq!(sorted, vec![0, 5, 5, 5]);
    let sorted = bubble_sort(&vec![]);
    assert_eq!(sorted, Vec::<u64>::new());
}
