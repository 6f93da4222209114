//! Building circuits and lowering them to constraint systems.
//!
//! A circuit collects input variables, gates over variable indices and
//! declared outputs. A gate's output is an existing variable whose value is
//! the claimed result: lowering turns each gate into a constraint on values
//! already known, and evaluation holds the claims against them. Nothing is
//! propagated forward, and the declared outputs take no part in it.

use crate::artifact::{decode_validity, encode_validity, recorded_validity, validity_bytes};
use crate::error::ProofError;
use crate::hash_function::{additive_hash, computes, HashFunction};
use crate::integer::{big_add, big_clone, big_from_i64, int_value, int_values};
use crate::r1cs::{
    report_view, terms_view, weighted_sum, ConstraintView, Operation, R1csView, Variable,
    VariableView, Violation, ViolationView, R1CS,
};
use num_bigint::BigInt;
use vstd::prelude::*;

verus! {

/// An elementary operation over three variable indices: the two operands and
/// the variable that holds the claimed result.
#[derive(Clone, Copy, Debug, PartialEq, Eq, Structural)]
pub enum Gate {
    Add(usize, usize, usize),
    Mul(usize, usize, usize),
    Hash(usize, usize, usize),
}

impl Gate {
    /// The index of the left operand.
    pub open spec fn left(self) -> usize {
        match self {
            Gate::Add(a, _, _) => a,
            Gate::Mul(a, _, _) => a,
            Gate::Hash(a, _, _) => a,
        }
    }

    /// The index of the right operand.
    pub open spec fn right(self) -> usize {
        match self {
            Gate::Add(_, b, _) => b,
            Gate::Mul(_, b, _) => b,
            Gate::Hash(_, b, _) => b,
        }
    }

    /// The index of the variable that holds the claimed result.
    pub open spec fn output(self) -> usize {
        match self {
            Gate::Add(_, _, out) => out,
            Gate::Mul(_, _, out) => out,
            Gate::Hash(_, _, out) => out,
        }
    }

    /// The operation of the constraint that this gate lowers to.
    pub open spec fn operation(self) -> Operation {
        match self {
            Gate::Add(_, _, _) => Operation::Add,
            Gate::Mul(_, _, _) => Operation::Mul,
            Gate::Hash(_, _, _) => Operation::Hash,
        }
    }

    /// All three indices refer to one of `n` variables.
    pub open spec fn in_range(self, n: nat) -> bool {
        self.left() < n && self.right() < n && self.output() < n
    }

    /// The first index, in the order left, right, output, that refers to none
    /// of `n` variables.
    pub open spec fn first_out_of_range(self, n: nat) -> usize {
        if self.left() >= n {
            self.left()
        } else if self.right() >= n {
            self.right()
        } else {
            self.output()
        }
    }

    /// The constraint that this gate lowers to over the given input values:
    /// each side is the one variable named, with coefficient 1.
    pub open spec fn lowered(self, inputs: Seq<int>) -> ConstraintView {
        ConstraintView {
            left: unit_term(inputs, self.left() as int),
            right: unit_term(inputs, self.right() as int),
            output: unit_term(inputs, self.output() as int),
            operation: self.operation(),
        }
    }

    /// What this gate's operation makes of its operands' values, with `h` as
    /// the hash.
    pub open spec fn computed(self, h: spec_fn(int, int) -> int, inputs: Seq<int>) -> int {
        let left = inputs[self.left() as int];
        let right = inputs[self.right() as int];
        match self.operation() {
            Operation::Add => left + right,
            Operation::Mul => left * right,
            Operation::Hash => h(left, right),
        }
    }

    /// What evaluation reports of this gate when it is not met and stands at
    /// position `index`.
    pub open spec fn violation(
        self,
        h: spec_fn(int, int) -> int,
        inputs: Seq<int>,
        index: nat,
    ) -> ViolationView {
        ViolationView {
            index,
            operation: self.operation(),
            computed: self.computed(h, inputs),
            expected: inputs[self.output() as int],
        }
    }
}

/// Input number `i` as a variable.
pub open spec fn variable_at(inputs: Seq<int>, i: int) -> VariableView {
    VariableView { index: i as nat, value: inputs[i] }
}

/// The linear combination that is input number `i` alone, with coefficient 1.
pub open spec fn unit_term(inputs: Seq<int>, i: int) -> Seq<(VariableView, int)> {
    seq![(variable_at(inputs, i), 1int)]
}

/// The hash that a circuit uses: the configured one, or addition when none is
/// configured.
pub open spec fn configured_hash(hash_function: Option<Box<dyn HashFunction>>) -> spec_fn(
    int,
    int,
) -> int {
    match hash_function {
        Some(f) => |a: int, b: int| f.hash_spec(a, b),
        None => additive_hash(),
    }
}

/// A circuit under construction.
pub struct Circuit {
    hash_function: Option<Box<dyn HashFunction>>,
    inputs: Vec<BigInt>,
    gates: Vec<Gate>,
    outputs: Vec<BigInt>,
}

/// A [`Circuit`] as mathematics sees it.
pub struct CircuitView {
    pub hash: spec_fn(int, int) -> int,
    pub inputs: Seq<int>,
    pub gates: Seq<Gate>,
    pub outputs: Seq<int>,
}

impl CircuitView {
    /// Every gate refers to existing variables only.
    pub open spec fn well_indexed(self) -> bool {
        self.well_indexed_before(self.gates.len() as int)
    }

    /// The first `n` gates refer to existing variables only.
    pub open spec fn well_indexed_before(self, n: int) -> bool {
        forall|k: int|
            0 <= k < n && k < self.gates.len() ==> self.gates[k].in_range(self.inputs.len())
    }

    /// The constraint system that the circuit lowers to: one variable per
    /// input, one constraint per gate, both in order.
    pub open spec fn compiled(self) -> R1csView {
        R1csView {
            variables: Seq::new(self.inputs.len(), |i: int| variable_at(self.inputs, i)),
            constraints: Seq::new(self.gates.len(), |k: int| self.gates[k].lowered(self.inputs)),
        }
    }

    /// `error` is what lowering fails with: it names the first gate with an
    /// index out of range, and that gate's first such index.
    pub open spec fn fails_with(self, error: ProofError) -> bool {
        match error {
            ProofError::IndexOutOfRange { gate, index } => {
                &&& gate < self.gates.len()
                &&& self.well_indexed_before(gate as int)
                &&& !self.gates[gate as int].in_range(self.inputs.len())
                &&& index == self.gates[gate as int].first_out_of_range(self.inputs.len())
            },
            ProofError::Truncated => false,
        }
    }
}

impl View for Circuit {
    type V = CircuitView;

    closed spec fn view(&self) -> CircuitView {
        CircuitView {
            hash: configured_hash(self.hash_function),
            inputs: int_values(self.inputs@),
            gates: self.gates@,
            outputs: int_values(self.outputs@),
        }
    }
}

/// The linear combination that is `variable` alone, with coefficient 1.
fn unit_combination(variable: &Variable) -> (terms: Vec<(Variable, BigInt)>)
    ensures
        terms_view(terms@) == seq![(variable@, 1int)],
{
    let mut terms: Vec<(Variable, BigInt)> = Vec::new();
    terms.push((variable.clone(), big_from_i64(1)));
    terms
}

impl Circuit {
    /// An empty circuit. With `None`, hashing is addition.
    pub fn new(hash_function: Option<Box<dyn HashFunction>>) -> (circuit: Self)
        ensures
            circuit@ == (CircuitView {
                hash: configured_hash(hash_function),
                inputs: Seq::empty(),
                gates: Seq::empty(),
                outputs: Seq::empty(),
            }),
    {
        let circuit = Circuit {
            hash_function,
            inputs: Vec::new(),
            gates: Vec::new(),
            outputs: Vec::new(),
        };
        assert(circuit@.outputs =~= Seq::empty());
        circuit
    }

    /// Appends an input variable and returns its index, the number of inputs
    /// before the call.
    pub fn add_input(&mut self, value: BigInt) -> (index: usize)
        ensures
            index == old(self)@.inputs.len(),
            final(self)@ == (CircuitView {
                inputs: old(self)@.inputs.push(int_value(value)),
                ..old(self)@
            }),
    {
        let index = self.inputs.len();
        self.inputs.push(value);
        assert(self@.inputs =~= old(self)@.inputs.push(int_value(value)));
        index
    }

    /// Appends a gate. Its indices are not looked at before lowering.
    pub fn add_gate(&mut self, gate: Gate)
        ensures
            final(self)@ == (CircuitView { gates: old(self)@.gates.push(gate), ..old(self)@ }),
    {
        self.gates.push(gate);
    }

    /// Declares an output value. Declared outputs take no part in lowering or
    /// evaluation.
    pub fn set_output(&mut self, value: BigInt)
        ensures
            final(self)@ == (CircuitView {
                outputs: old(self)@.outputs.push(int_value(value)),
                ..old(self)@
            }),
    {
        self.outputs.push(value);
        assert(self@.outputs =~= old(self)@.outputs.push(int_value(value)));
    }

    /// Hashes a pair with the circuit's hash.
    pub fn apply_hash(&self, a: &BigInt, b: &BigInt) -> (r: BigInt)
        ensures
            int_value(r) == (self@.hash)(int_value(*a), int_value(*b)),
    {
        match &self.hash_function {
            Some(hash_function) => hash_function.hash(a, b),
            None => big_add(a, b),
        }
    }

    /// Lowers the circuit to a constraint system over the values its inputs
    /// hold now. Fails, with nothing lowered, when a gate refers to a variable
    /// that does not exist.
    pub fn compile(&self) -> (result: Result<R1CS, ProofError>)
        ensures
            match result {
                Ok(r1cs) => self@.well_indexed() && r1cs@ == self@.compiled(),
                Err(error) => self@.fails_with(error),
            },
    {
        let mut r1cs = R1CS::new();
        assert(r1cs@.variables.len() == 0 && r1cs@.constraints.len() == 0);
        let count = self.inputs.len();
        let mut i: usize = 0;
        while i < count
            invariant
                count == self.inputs.len(),
                i <= count,
                r1cs.variables@.len() == i,
                r1cs.constraints@.len() == 0,
                forall|j: int| 0 <= j < i ==> r1cs.variables@[j]@ == variable_at(self@.inputs, j),
            decreases count - i,
        {
            r1cs.variables.push(Variable { index: i, value: big_clone(&self.inputs[i]) });
            i += 1;
        }
        let mut k: usize = 0;
        while k < self.gates.len()
            invariant
                count == self.inputs.len(),
                k <= self.gates.len(),
                self@.well_indexed_before(k as int),
                r1cs.variables@.len() == count,
                forall|j: int|
                    0 <= j < count ==> r1cs.variables@[j]@ == variable_at(self@.inputs, j),
                r1cs@.constraints.len() == k,
                forall|j: int|
                    0 <= j < k ==> r1cs@.constraints[j] == self@.gates[j].lowered(self@.inputs),
            decreases self.gates.len() - k,
        {
            let (a, b, out, operation) = match self.gates[k] {
                Gate::Add(a, b, out) => (a, b, out, Operation::Add),
                Gate::Mul(a, b, out) => (a, b, out, Operation::Mul),
                Gate::Hash(a, b, out) => (a, b, out, Operation::Hash),
            };
            if a >= count {
                return Err(ProofError::IndexOutOfRange { gate: k, index: a });
            }
            if b >= count {
                return Err(ProofError::IndexOutOfRange { gate: k, index: b });
            }
            if out >= count {
                return Err(ProofError::IndexOutOfRange { gate: k, index: out });
            }
            let left = unit_combination(&r1cs.variables[a]);
            let right = unit_combination(&r1cs.variables[b]);
            let output = unit_combination(&r1cs.variables[out]);
            r1cs.add_constraint(left, right, output, operation);
            k += 1;
        }
        assert(r1cs@.variables =~= self@.compiled().variables);
        assert(r1cs@.constraints =~= self@.compiled().constraints);
        Ok(r1cs)
    }

    /// Lowers the circuit and evaluates the constraint system against the
    /// inputs' values, with the circuit's hash for the `Hash` gates. Returns
    /// nothing when every constraint is met, else the first violation. Fails
    /// when the circuit cannot be lowered.
    pub fn evaluate(&self) -> (result: Result<Option<Violation>, ProofError>)
        ensures
            match result {
                Ok(report) => self@.well_indexed() && self@.compiled().reports(
                    self@.hash,
                    report_view(report),
                ),
                Err(error) => self@.fails_with(error),
            },
    {
        match self.compile() {
            Err(error) => Err(error),
            Ok(r1cs) => {
                let apply_hash = |a: &BigInt, b: &BigInt| -> (r: BigInt)
                    ensures
                        int_value(r) == (self@.hash)(int_value(*a), int_value(*b)),
                    { self.apply_hash(a, b) };
                assert(computes(apply_hash, self@.hash));
                Ok(r1cs.evaluate(apply_hash))
            },
        }
    }

    /// Evaluates the circuit and returns the outcome as an artifact: one byte,
    /// `0x01` when every constraint is met and `0x00` when one is not. Fails,
    /// with no artifact, when the circuit cannot be lowered.
    pub fn generate_proof(&self) -> (result: Result<Vec<u8>, ProofError>)
        ensures
            match result {
                Ok(bytes) => self@.well_indexed() && bytes@ == validity_bytes(
                    self@.compiled().satisfied(self@.hash),
                ),
                Err(error) => self@.fails_with(error),
            },
    {
        match self.evaluate() {
            Err(error) => Err(error),
            Ok(report) => Ok(encode_validity(report.is_none())),
        }
    }

    /// Reads the outcome of an evaluation back from an artifact: `true` exactly when
    /// its first byte is `0x01`. An artifact with no byte is rejected.
    pub fn verify_proof(&self, proof_data: &[u8]) -> (result: Result<bool, ProofError>)
        ensures
            result == recorded_validity(proof_data@),
    {
        decode_validity(proof_data)
    }

    /// The value of input number `index`, if there is one.
    pub fn get_input(&self, index: usize) -> (value: Option<&BigInt>)
        ensures
            match value {
                Some(v) => index < self@.inputs.len() && int_value(*v)
                    == self@.inputs[index as int],
                None => index >= self@.inputs.len(),
            },
    {
        if index < self.inputs.len() {
            Some(&self.inputs[index])
        } else {
            None
        }
    }
}

/// A linear combination of one variable with coefficient 1 has that
/// variable's value.
pub proof fn lemma_unit_term_value(inputs: Seq<int>, i: int)
    ensures
        weighted_sum(unit_term(inputs, i)) == inputs[i],
{
    assert(weighted_sum(unit_term(inputs, i).drop_last()) == 0);
}

/// Lowering a gate over existing variables gives a constraint that computes
/// what that gate computes on the inputs' values and expects the value of the
/// gate's output variable.
pub proof fn lemma_lowered_gate(gate: Gate, h: spec_fn(int, int) -> int, inputs: Seq<int>)
    ensures
        gate.lowered(inputs).computed(h) == gate.computed(h, inputs),
        gate.lowered(inputs).expected() == inputs[gate.output() as int],
        gate.lowered(inputs).operation == gate.operation(),
{
    lemma_unit_term_value(inputs, gate.left() as int);
    lemma_unit_term_value(inputs, gate.right() as int);
    lemma_unit_term_value(inputs, gate.output() as int);
}

/// A circuit with a single gate is satisfied exactly when the value of the
/// gate's output variable is what that gate computes from its operands'
/// values. When it is not, evaluation reports that gate: its operation, the
/// value computed and the value claimed.
pub proof fn lemma_single_gate(circuit: CircuitView, gate: Gate)
    requires
        circuit.gates == seq![gate],
        circuit.well_indexed(),
    ensures
        circuit.compiled().satisfied(circuit.hash) <==> circuit.inputs[gate.output() as int]
            == gate.computed(circuit.hash, circuit.inputs),
        !circuit.compiled().satisfied(circuit.hash) ==> circuit.compiled().first_violation(
            circuit.hash,
            gate.violation(circuit.hash, circuit.inputs, 0),
        ),
{
    lemma_lowered_gate(gate, circuit.hash, circuit.inputs);
    assert(circuit.compiled().constraints[0] == gate.lowered(circuit.inputs));
}

/// For all values of the inputs: a circuit whose only gate is `Add(a, b, out)`
/// is satisfied when the value of `out` is the sum of the values of `a` and
/// `b`, and with any other value of `out` it is not, and evaluation reports
/// the addition constraint with the sum and the value of `out`.
pub proof fn lemma_single_add_gate(circuit: CircuitView, a: usize, b: usize, out: usize)
    requires
        circuit.gates == seq![Gate::Add(a, b, out)],
        circuit.well_indexed(),
    ensures
        circuit.compiled().satisfied(circuit.hash) <==> circuit.inputs[out as int]
            == circuit.inputs[a as int] + circuit.inputs[b as int],
        !circuit.compiled().satisfied(circuit.hash) ==> circuit.compiled().first_violation(
            circuit.hash,
            (ViolationView {
                index: 0,
                operation: Operation::Add,
                computed: circuit.inputs[a as int] + circuit.inputs[b as int],
                expected: circuit.inputs[out as int],
            }),
        ),
{
    lemma_single_gate(circuit, Gate::Add(a, b, out));
}

/// For all values of the inputs: a circuit whose only gate is `Mul(a, b, out)`
/// is satisfied when the value of `out` is the product of the values of `a`
/// and `b`, and with any other value of `out` it is not, and evaluation
/// reports the multiplication constraint with the product and the value of
/// `out`.
pub proof fn lemma_single_mul_gate(circuit: CircuitView, a: usize, b: usize, out: usize)
    requires
        circuit.gates == seq![Gate::Mul(a, b, out)],
        circuit.well_indexed(),
    ensures
        circuit.compiled().satisfied(circuit.hash) <==> circuit.inputs[out as int]
            == circuit.inputs[a as int] * circuit.inputs[b as int],
        !circuit.compiled().satisfied(circuit.hash) ==> circuit.compiled().first_violation(
            circuit.hash,
            (ViolationView {
                index: 0,
                operation: Operation::Mul,
                computed: circuit.inputs[a as int] * circuit.inputs[b as int],
                expected: circuit.inputs[out as int],
            }),
        ),
{
    lemma_single_gate(circuit, Gate::Mul(a, b, out));
}

} // verus!
