//! Symbolic polynomial expressions over column queries.
//!
//! Expressions are built during configuration from column handles alone —
//! no witness value can flow into them — and are evaluated against a
//! witness grid only by the satisfiability checker.

use vstd::prelude::*;

use crate::columns::{AdviceColumn, FixedColumn, InstanceColumn, Selector};
use crate::field::Felt;

verus! {

/// A row offset relative to the row a constraint is evaluated at.
#[derive(Clone, Copy, PartialEq, Eq, Structural, Debug)]
pub struct Rotation {
    pub offset: i32,
}

impl Rotation {
    /// The row itself.
    pub fn cur() -> (r: Rotation)
        ensures
            r.offset == 0,
    {
        Rotation { offset: 0 }
    }

    /// The row just above.
    pub fn prev() -> (r: Rotation)
        ensures
            r.offset == -1,
    {
        Rotation { offset: -1 }
    }

    /// The row just below.
    pub fn next() -> (r: Rotation)
        ensures
            r.offset == 1,
    {
        Rotation { offset: 1 }
    }
}

/// A polynomial over constants, column queries at rotations, and the ring
/// operations.
#[derive(Debug)]
pub enum Expression {
    /// A literal field element.
    Constant(Felt),
    /// The value of a fixed column at a rotation.
    Fixed(FixedColumn, Rotation),
    /// The value of an advice column at a rotation.
    Advice(AdviceColumn, Rotation),
    /// The value of an instance column at a rotation.
    Instance(InstanceColumn, Rotation),
    /// One where the selector is enabled at the row, zero elsewhere.
    Selector(Selector),
    /// The additive inverse of an expression.
    Negated(Box<Expression>),
    /// The sum of two expressions.
    Sum(Box<Expression>, Box<Expression>),
    /// The product of two expressions.
    Product(Box<Expression>, Box<Expression>),
}

impl Expression {
    /// A structurally identical copy.
    pub fn dup(&self) -> (r: Expression)
        ensures
            r == *self,
        decreases *self,
    {
        match self {
            Expression::Constant(f) => Expression::Constant(*f),
            Expression::Fixed(c, rot) => Expression::Fixed(*c, *rot),
            Expression::Advice(c, rot) => Expression::Advice(*c, *rot),
            Expression::Instance(c, rot) => Expression::Instance(*c, *rot),
            Expression::Selector(s) => Expression::Selector(*s),
            Expression::Negated(e) => Expression::Negated(Box::new(e.dup())),
            Expression::Sum(a, b) => Expression::Sum(Box::new(a.dup()), Box::new(b.dup())),
            Expression::Product(a, b) => Expression::Product(Box::new(a.dup()), Box::new(b.dup())),
        }
    }

    /// The negation of this expression.
    pub fn neg(self) -> (r: Expression)
        ensures
            r == Expression::Negated(Box::new(self)),
    {
        Expression::Negated(Box::new(self))
    }

    /// The sum of this expression and another.
    pub fn plus(self, other: Expression) -> (r: Expression)
        ensures
            r == Expression::Sum(Box::new(self), Box::new(other)),
    {
        Expression::Sum(Box::new(self), Box::new(other))
    }

    /// The difference of this expression and another.
    pub fn minus(self, other: Expression) -> (r: Expression)
        ensures
            r == (Expression::Sum(
                Box::new(self),
                Box::new(Expression::Negated(Box::new(other))),
            )),
    {
        Expression::Sum(Box::new(self), Box::new(Expression::Negated(Box::new(other))))
    }

    /// The product of this expression and another.
    pub fn times(self, other: Expression) -> (r: Expression)
        ensures
            r == Expression::Product(Box::new(self), Box::new(other)),
    {
        Expression::Product(Box::new(self), Box::new(other))
    }
}

} // verus!
