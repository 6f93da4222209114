use num_bigint::BigInt;
use r1cs_circuit::error::ProofError;
use r1cs_circuit::circuit::{Circuit, Gate};
use r1cs_circuit::hash_function::{CustomHash, SimpleAddHash};
use r1cs_circuit::r1cs::Operation;

fn circuit_of(values: &[i64]) -> Circuit {
    let mut circuit = Circuit::new(None);
    for value in values {
        circuit.add_input(BigInt::from(*value));
    }
    circuit
}

#[test]
fn inputs_are_numbered_in_order() {
    let mut circuit = Circuit::new(None);
    assert_eq!(circuit.add_input(BigInt::from(5)), 0);
    assert_eq!(circuit.add_input(BigInt::from(5)), 1);
    assert_eq!(circuit.add_input(BigInt::from(-1)), 2);
    assert_eq!(circuit.get_input(0), Some(&BigInt::from(5)));
    assert_eq!(circuit.get_input(2), Some(&BigInt::from(-1)));
    assert_eq!(circuit.get_input(3), None);
}

#[test]
fn gates_and_outputs_do_not_number_inputs() {
    let mut circuit = Circuit::new(None);
    circuit.add_gate(Gate::Add(0, 0, 0));
    circuit.set_output(BigInt::from(1));
    assert_eq!(circuit.get_input(0), None);
    assert_eq!(circuit.add_input(BigInt::from(8)), 0);
}

#[test]
fn hash_is_addition_when_none_is_configured() {
    let circuit = Circuit::new(None);
    assert_eq!(circuit.apply_hash(&BigInt::from(40), &BigInt::from(2)), BigInt::from(42));
}

#[test]
fn hash_is_the_configured_one() {
    let custom = Circuit::new(Some(Box::new(CustomHash)));
    assert_eq!(custom.apply_hash(&BigInt::from(-40), &BigInt::from(2)), BigInt::from(-38));
    let simple = Circuit::new(Some(Box::new(SimpleAddHash)));
    assert_eq!(simple.apply_hash(&BigInt::from(1), &BigInt::from(2)), BigInt::from(3));
}

#[test]
fn empty_circuit_is_satisfied() {
    let circuit = Circuit::new(None);
    assert_eq!(circuit.generate_proof(), Ok(vec![1u8]));
    assert!(matches!(circuit.evaluate(), Ok(None)));
}

#[test]
fn lowering_takes_one_variable_per_input_and_one_constraint_per_gate() {
    let mut circuit = circuit_of(&[10, 20, 30, 200]);
    circuit.add_gate(Gate::Add(0, 1, 2));
    circuit.add_gate(Gate::Mul(1, 0, 3));
    circuit.add_gate(Gate::Hash(0, 1, 2));
    let r1cs = circuit.compile().expect("every index is in range");
    assert_eq!(r1cs.variables.len(), 4);
    for (i, value) in [10, 20, 30, 200].iter().enumerate() {
        assert_eq!(r1cs.variables[i].index, i);
        assert_eq!(r1cs.variables[i].value, BigInt::from(*value));
    }
    assert_eq!(r1cs.constraints.len(), 3);
    let second = &r1cs.constraints[1];
    assert_eq!(second.operation, Operation::Mul);
    assert_eq!(second.left.len(), 1);
    assert_eq!(second.left[0].0.index, 1);
    assert_eq!(second.left[0].0.value, BigInt::from(20));
    assert_eq!(second.left[0].1, BigInt::from(1));
    assert_eq!(second.right.len(), 1);
    assert_eq!(second.right[0].0.index, 0);
    assert_eq!(second.right[0].1, BigInt::from(1));
    assert_eq!(second.output.len(), 1);
    assert_eq!(second.output[0].0.index, 3);
    assert_eq!(second.output[0].0.value, BigInt::from(200));
    assert_eq!(second.output[0].1, BigInt::from(1));
    assert_eq!(r1cs.constraints[0].operation, Operation::Add);
    assert_eq!(r1cs.constraints[2].operation, Operation::Hash);
}

#[test]
fn lowering_is_a_snapshot() {
    let mut circuit = circuit_of(&[1, 2, 3]);
    circuit.add_gate(Gate::Add(0, 1, 2));
    let before = circuit.compile().expect("every index is in range");
    circuit.add_input(BigInt::from(4));
    circuit.add_gate(Gate::Add(0, 2, 3));
    assert_eq!(before.variables.len(), 3);
    assert_eq!(before.constraints.len(), 1);
    let after = circuit.compile().expect("every index is in range");
    assert_eq!(after.variables.len(), 4);
    assert_eq!(after.constraints.len(), 2);
}

#[test]
fn addition_mismatch_is_reported() {
    let mut circuit = circuit_of(&[10, 20, 31]);
    circuit.add_gate(Gate::Add(0, 1, 2));
    circuit.set_output(BigInt::from(31));
    let violation = circuit
        .evaluate()
        .expect("every index is in range")
        .expect("30 is not 31");
    assert_eq!(violation.index, 0);
    assert_eq!(violation.operation, Operation::Add);
    assert_eq!(violation.computed, BigInt::from(30));
    assert_eq!(violation.expected, BigInt::from(31));
}

#[test]
fn multiplication_mismatch_is_reported() {
    let mut circuit = circuit_of(&[10, 20, 2000]);
    circuit.add_gate(Gate::Mul(0, 1, 2));
    let violation = circuit
        .evaluate()
        .expect("every index is in range")
        .expect("200 is not 2000");
    assert_eq!(violation.index, 0);
    assert_eq!(violation.operation, Operation::Mul);
    assert_eq!(violation.computed, BigInt::from(200));
    assert_eq!(violation.expected, BigInt::from(2000));
}

#[test]
fn hash_gate_checks_the_claimed_hash() {
    let mut circuit = Circuit::new(Some(Box::new(CustomHash)));
    let a = circuit.add_input(BigInt::from(50));
    let b = circuit.add_input(BigInt::from(80));
    let claimed = circuit.apply_hash(&BigInt::from(50), &BigInt::from(80));
    let out = circuit.add_input(claimed);
    circuit.add_gate(Gate::Hash(a, b, out));
    assert_eq!(circuit.generate_proof(), Ok(vec![1u8]));
    let wrong = circuit.add_input(BigInt::from(131));
    circuit.add_gate(Gate::Hash(a, b, wrong));
    assert_eq!(circuit.generate_proof(), Ok(vec![0u8]));
    let violation = circuit.evaluate().unwrap().expect("130 is not 131");
    assert_eq!(violation.index, 1);
    assert_eq!(violation.operation, Operation::Hash);
    assert_eq!(violation.computed, BigInt::from(130));
    assert_eq!(violation.expected, BigInt::from(131));
}

#[test]
fn gates_check_claims_and_propagate_nothing() {
    // The second gate reads variable 2 as it was given, not as the first gate
    // would have computed it.
    let mut circuit = circuit_of(&[1, 2, 7, 9]);
    circuit.add_gate(Gate::Add(2, 1, 3));
    assert_eq!(circuit.generate_proof(), Ok(vec![1u8]));
    circuit.add_gate(Gate::Add(0, 1, 2));
    assert_eq!(circuit.generate_proof(), Ok(vec![0u8]));
}

#[test]
fn declared_outputs_are_not_checked() {
    let mut circuit = circuit_of(&[10, 20, 30]);
    circuit.add_gate(Gate::Add(0, 1, 2));
    circuit.set_output(BigInt::from(999));
    assert_eq!(circuit.generate_proof(), Ok(vec![1u8]));
}

#[test]
fn gate_indices_are_not_looked_at_before_lowering() {
    let mut circuit = Circuit::new(None);
    circuit.add_gate(Gate::Add(0, 1, 2));
    circuit.add_input(BigInt::from(1));
    circuit.add_input(BigInt::from(2));
    circuit.add_input(BigInt::from(3));
    assert_eq!(circuit.generate_proof(), Ok(vec![1u8]));
}

#[test]
fn index_out_of_range_fails_the_whole_lowering() {
    let mut circuit = circuit_of(&[10, 20, 30]);
    circuit.add_gate(Gate::Add(0, 1, 2));
    circuit.add_gate(Gate::Mul(0, 1, 3));
    circuit.add_gate(Gate::Hash(9, 9, 9));
    let expected = ProofError::IndexOutOfRange { gate: 1, index: 3 };
    assert_eq!(circuit.compile().err(), Some(expected));
    assert_eq!(circuit.evaluate().err(), Some(expected));
    assert_eq!(circuit.generate_proof(), Err(expected));
}

#[test]
fn first_index_out_of_range_is_named() {
    let mut left = circuit_of(&[1, 2]);
    left.add_gate(Gate::Add(5, 6, 7));
    assert_eq!(left.compile().err(), Some(ProofError::IndexOutOfRange { gate: 0, index: 5 }));
    let mut right = circuit_of(&[1, 2]);
    right.add_gate(Gate::Mul(1, 6, 7));
    assert_eq!(right.compile().err(), Some(ProofError::IndexOutOfRange { gate: 0, index: 6 }));
    let mut output = circuit_of(&[1, 2]);
    output.add_gate(Gate::Hash(1, 0, 2));
    assert_eq!(output.compile().err(), Some(ProofError::IndexOutOfRange { gate: 0, index: 2 }));
}

#[test]
fn reading_an_artifact_does_not_depend_on_the_circuit() {
    let circuit = Circuit::new(None);
    assert_eq!(circuit.verify_proof(&[1u8]), Ok(true));
    assert_eq!(circuit.verify_proof(&[0u8]), Ok(false));
    assert_eq!(circuit.verify_proof(&[7u8]), Ok(false));
    assert_eq!(circuit.verify_proof(&[]), Err(ProofError::Truncated));
}

#[test]
fn written_outcome_reads_back() {
    let mut satisfied = circuit_of(&[2, 3, 6]);
    satisfied.add_gate(Gate::Mul(0, 1, 2));
    let artifact = satisfied.generate_proof().unwrap();
    assert_eq!(satisfied.verify_proof(&artifact), Ok(true));
    let mut unsatisfied = circuit_of(&[2, 3, 5]);
    unsatisfied.add_gate(Gate::Mul(0, 1, 2));
    let artifact = unsatisfied.generate_proof().unwrap();
    assert_eq!(unsatisfied.verify_proof(&artifact), Ok(false));
}

#[test]
fn large_values_are_exact() {
    let big = BigInt::from(i64::MAX);
    let mut circuit = Circuit::new(None);
    let a = circuit.add_input(big.clone());
    let b = circuit.add_input(big.clone());
    let product = circuit.add_input(&big * &big);
    let sum = circuit.add_input(&big + &big);
    circuit.add_gate(Gate::Mul(a, b, product));
    circuit.add_gate(Gate::Add(a, b, sum));
    assert_eq!(circuit.generate_proof(), Ok(vec![1u8]));
    let off_by_one = circuit.add_input(&big * &big + 1);
    circuit.add_gate(Gate::Mul(a, b, off_by_one));
    assert_eq!(circuit.generate_proof(), Ok(vec![0u8]));
}
