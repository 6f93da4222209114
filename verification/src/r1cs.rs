//! Rank-1 constraint systems and their evaluation.
//!
//! A constraint relates three linear combinations of variables by one
//! operation. Evaluation walks the constraints in order and stops at the first
//! one that the assignment violates.

use crate::hash_function::computes;
use crate::integer::{
    big_add, big_clone, big_eq, big_from_i64, big_mul, big_to_string, decimal_text, int_value,
};
use num_bigint::BigInt;
use vstd::prelude::*;

verus! {

/// A variable of the assignment: its position and its value, fixed when it
/// was created.
#[derive(Debug)]
pub struct Variable {
    pub index: usize,
    pub value: BigInt,
}

/// A [`Variable`] as mathematics sees it.
pub struct VariableView {
    pub index: nat,
    pub value: int,
}

impl View for Variable {
    type V = VariableView;

    open spec fn view(&self) -> VariableView {
        VariableView { index: self.index as nat, value: int_value(self.value) }
    }
}

impl Clone for Variable {
    fn clone(&self) -> (copy: Self)
        ensures
            copy@ == self@,
    {
        Variable { index: self.index, value: big_clone(&self.value) }
    }
}

/// How a constraint combines its left and right values.
#[derive(Clone, Copy, Debug, PartialEq, Eq, Structural)]
pub enum Operation {
    Add,
    Mul,
    Hash,
}

/// One term of a linear combination as mathematics sees it: the variable and
/// its coefficient.
pub open spec fn term_view(term: (Variable, BigInt)) -> (VariableView, int) {
    (term.0@, int_value(term.1))
}

/// A linear combination as mathematics sees it.
pub open spec fn terms_view(terms: Seq<(Variable, BigInt)>) -> Seq<(VariableView, int)> {
    Seq::new(terms.len(), |i: int| term_view(terms[i]))
}

/// The value of a linear combination: the sum, over its terms, of the
/// variable's value times the coefficient.
pub open spec fn weighted_sum(terms: Seq<(VariableView, int)>) -> int
    decreases terms.len(),
{
    if terms.len() == 0 {
        0
    } else {
        weighted_sum(terms.drop_last()) + terms.last().0.value * terms.last().1
    }
}

/// One constraint: `left (operation) right` must equal `output`.
pub struct Constraint {
    pub left: Vec<(Variable, BigInt)>,
    pub right: Vec<(Variable, BigInt)>,
    pub output: Vec<(Variable, BigInt)>,
    pub operation: Operation,
}

/// A [`Constraint`] as mathematics sees it.
pub struct ConstraintView {
    pub left: Seq<(VariableView, int)>,
    pub right: Seq<(VariableView, int)>,
    pub output: Seq<(VariableView, int)>,
    pub operation: Operation,
}

impl View for Constraint {
    type V = ConstraintView;

    open spec fn view(&self) -> ConstraintView {
        ConstraintView {
            left: terms_view(self.left@),
            right: terms_view(self.right@),
            output: terms_view(self.output@),
            operation: self.operation,
        }
    }
}

impl ConstraintView {
    /// What the operation makes of the left and right values, with `h` as the
    /// hash.
    pub open spec fn computed(self, h: spec_fn(int, int) -> int) -> int {
        let left = weighted_sum(self.left);
        let right = weighted_sum(self.right);
        match self.operation {
            Operation::Add => left + right,
            Operation::Mul => left * right,
            Operation::Hash => h(left, right),
        }
    }

    /// The value the constraint claims: that of its output combination.
    pub open spec fn expected(self) -> int {
        weighted_sum(self.output)
    }

    /// The constraint is met.
    pub open spec fn holds(self, h: spec_fn(int, int) -> int) -> bool {
        self.computed(h) == self.expected()
    }
}

/// Why an assignment fails: the first constraint it violates, with the value
/// computed from the left and right sides and the value the output side
/// claims.
#[derive(Debug)]
pub struct Violation {
    pub index: usize,
    pub operation: Operation,
    pub computed: BigInt,
    pub expected: BigInt,
}

/// A [`Violation`] as mathematics sees it.
pub struct ViolationView {
    pub index: nat,
    pub operation: Operation,
    pub computed: int,
    pub expected: int,
}

impl View for Violation {
    type V = ViolationView;

    open spec fn view(&self) -> ViolationView {
        ViolationView {
            index: self.index as nat,
            operation: self.operation,
            computed: int_value(self.computed),
            expected: int_value(self.expected),
        }
    }
}

impl ViolationView {
    /// The violation in words: what was violated, the value computed and the
    /// value claimed.
    pub open spec fn text(self) -> Seq<char> {
        let opening = match self.operation {
            Operation::Add => "Addition constraint not satisfied: left + right = "@,
            Operation::Mul => "Multiplication constraint not satisfied: left * right = "@,
            Operation::Hash => "Hash constraint not satisfied: hash_function(left, right) = "@,
        };
        opening + decimal_text(self.computed) + ", but output = "@ + decimal_text(self.expected)
    }
}

impl Violation {
    /// The violation in words, for a person to read.
    pub fn message(&self) -> (text: String)
        ensures
            text@ == self@.text(),
    {
        let opening = match self.operation {
            Operation::Add => "Addition constraint not satisfied: left + right = ",
            Operation::Mul => "Multiplication constraint not satisfied: left * right = ",
            Operation::Hash => "Hash constraint not satisfied: hash_function(left, right) = ",
        };
        let mut text = String::from_str(opening);
        text.append(big_to_string(&self.computed).as_str());
        text.append(", but output = ");
        text.append(big_to_string(&self.expected).as_str());
        text
    }
}

/// A constraint system: the variables, as they stood when it was compiled,
/// and the constraints in evaluation order.
pub struct R1CS {
    pub variables: Vec<Variable>,
    pub constraints: Vec<Constraint>,
}

/// An [`R1CS`] as mathematics sees it.
pub struct R1csView {
    pub variables: Seq<VariableView>,
    pub constraints: Seq<ConstraintView>,
}

impl View for R1CS {
    type V = R1csView;

    open spec fn view(&self) -> R1csView {
        R1csView {
            variables: Seq::new(self.variables@.len(), |i: int| self.variables@[i]@),
            constraints: Seq::new(self.constraints@.len(), |i: int| self.constraints@[i]@),
        }
    }
}

impl R1csView {
    /// The first `n` constraints are met.
    pub open spec fn holds_before(self, h: spec_fn(int, int) -> int, n: int) -> bool {
        forall|j: int| 0 <= j < n && j < self.constraints.len() ==> self.constraints[j].holds(h)
    }

    /// No constraint asks for a hash.
    pub open spec fn hash_free(self) -> bool {
        forall|j: int|
            0 <= j < self.constraints.len() ==> self.constraints[j].operation != Operation::Hash
    }

    /// Every constraint is met.
    pub open spec fn satisfied(self, h: spec_fn(int, int) -> int) -> bool {
        self.holds_before(h, self.constraints.len() as int)
    }

    /// `v` reports the first constraint that is not met: all before it hold,
    /// it does not, and `v` carries its operation and both values.
    pub open spec fn first_violation(self, h: spec_fn(int, int) -> int, v: ViolationView) -> bool {
        &&& v.index < self.constraints.len()
        &&& self.holds_before(h, v.index as int)
        &&& !self.constraints[v.index as int].holds(h)
        &&& v.operation == self.constraints[v.index as int].operation
        &&& v.computed == self.constraints[v.index as int].computed(h)
        &&& v.expected == self.constraints[v.index as int].expected()
    }

    /// What evaluation reports: nothing when every constraint is met, else the
    /// first violation.
    pub open spec fn reports(
        self,
        h: spec_fn(int, int) -> int,
        report: Option<ViolationView>,
    ) -> bool {
        match report {
            None => self.satisfied(h),
            Some(v) => self.first_violation(h, v),
        }
    }
}

/// The view of an optional violation.
pub open spec fn report_view(report: Option<Violation>) -> Option<ViolationView> {
    match report {
        None => None,
        Some(v) => Some(v@),
    }
}

/// Evaluates a linear combination in exact arithmetic.
pub fn linear_combination_value(terms: &Vec<(Variable, BigInt)>) -> (total: BigInt)
    ensures
        int_value(total) == weighted_sum(terms_view(terms@)),
{
    let mut total = big_from_i64(0);
    let mut i: usize = 0;
    while i < terms.len()
        invariant
            i <= terms.len(),
            int_value(total) == weighted_sum(terms_view(terms@).take(i as int)),
        decreases terms.len() - i,
    {
        let product = big_mul(&terms[i].0.value, &terms[i].1);
        total = big_add(&total, &product);
        proof {
            let all = terms_view(terms@);
            assert(all.take(i + 1).drop_last() == all.take(i as int));
        }
        i += 1;
    }
    proof {
        let all = terms_view(terms@);
        assert(all.take(terms.len() as int) == all);
    }
    total
}

impl R1CS {
    /// A system with no variables and no constraints.
    pub fn new() -> (r1cs: Self)
        ensures
            r1cs@ == (R1csView { variables: Seq::empty(), constraints: Seq::empty() }),
    {
        let r1cs = R1CS { variables: Vec::new(), constraints: Vec::new() };
        assert(r1cs@.variables =~= Seq::empty());
        assert(r1cs@.constraints =~= Seq::empty());
        r1cs
    }

    /// Appends one constraint; the variables and the earlier constraints stay.
    pub fn add_constraint(
        &mut self,
        left: Vec<(Variable, BigInt)>,
        right: Vec<(Variable, BigInt)>,
        output: Vec<(Variable, BigInt)>,
        operation: Operation,
    )
        ensures
            final(self).variables == old(self).variables,
            final(self)@ == (R1csView {
                constraints: old(self)@.constraints.push(
                    (ConstraintView {
                        left: terms_view(left@),
                        right: terms_view(right@),
                        output: terms_view(output@),
                        operation,
                    }),
                ),
                ..old(self)@
            }),
    {
        self.constraints.push(Constraint { left, right, output, operation });
        assert(self@.constraints =~= old(self)@.constraints.push(
            (ConstraintView {
                left: terms_view(left@),
                right: terms_view(right@),
                output: terms_view(output@),
                operation,
            }),
        ));
    }

    /// Walks the constraints in order and stops at the first that is not
    /// met. `apply_hash` serves the `Hash` constraints.
    ///
    /// For every function `h` that `apply_hash` computes, the result is what
    /// [`R1csView::reports`] describes under `h`. Where no constraint asks
    /// for a hash, it is so under every `h`, whatever `apply_hash` does.
    pub fn evaluate<F>(&self, apply_hash: F) -> (report: Option<Violation>) where
        F: Fn(&BigInt, &BigInt) -> BigInt,

        requires
            forall|a: &BigInt, b: &BigInt| call_requires(apply_hash, (a, b)),
        ensures
            forall|h: spec_fn(int, int) -> int|
                computes(apply_hash, h) || self@.hash_free() ==> #[trigger] self@.reports(
                    h,
                    report_view(report),
                ),
    {
        let mut i: usize = 0;
        while i < self.constraints.len()
            invariant
                i <= self.constraints.len(),
                forall|a: &BigInt, b: &BigInt| call_requires(apply_hash, (a, b)),
                forall|h: spec_fn(int, int) -> int|
                    computes(apply_hash, h) || self@.hash_free() ==> #[trigger] self@.holds_before(
                        h,
                        i as int,
                    ),
            decreases self.constraints.len() - i,
        {
            let constraint = &self.constraints[i];
            let left_value = linear_combination_value(&constraint.left);
            let right_value = linear_combination_value(&constraint.right);
            let output_value = linear_combination_value(&constraint.output);
            let computed = match constraint.operation {
                Operation::Add => big_add(&left_value, &right_value),
                Operation::Mul => big_mul(&left_value, &right_value),
                Operation::Hash => apply_hash(&left_value, &right_value),
            };
            assert(self@.constraints[i as int] == constraint@);
            if !big_eq(&computed, &output_value) {
                return Some(
                    Violation {
                        index: i,
                        operation: constraint.operation,
                        computed,
                        expected: output_value,
                    },
                );
            }
            assert forall|h: spec_fn(int, int) -> int|
                computes(apply_hash, h) || self@.hash_free() implies #[trigger] self@.holds_before(
                h,
                i + 1,
            ) by {
                assert(self@.holds_before(h, i as int));
            }
            i += 1;
        }
        None
    }

    /// Whether the assignment meets every constraint. `apply_hash` serves the
    /// `Hash` constraints, and the result is exact under the same conditions
    /// as that of [`R1CS::evaluate`].
    pub fn is_satisfied<F>(&self, apply_hash: F) -> (satisfied: bool) where
        F: Fn(&BigInt, &BigInt) -> BigInt,

        requires
            forall|a: &BigInt, b: &BigInt| call_requires(apply_hash, (a, b)),
        ensures
            forall|h: spec_fn(int, int) -> int|
                computes(apply_hash, h) || self@.hash_free() ==> satisfied
                    == #[trigger] self@.satisfied(h),
    {
        let report = self.evaluate(apply_hash);
        assert forall|h: spec_fn(int, int) -> int|
            computes(apply_hash, h) || self@.hash_free() implies report.is_none()
            == #[trigger] self@.satisfied(h) by {
            assert(self@.reports(h, report_view(report)));
        }
        report.is_none()
    }
}

} // verus!
