//! Evaluation of expressions against a witness grid.
//!
//! The specification-level evaluator returns the canonical integer value
//! of an expression at an absolute row, or the error that evaluation
//! raises: `OutOfBounds` when a required rotation or column falls outside
//! the grid, `UnassignedCell` when a referenced cell holds no value.  In
//! a sum or product the left operand's error wins.

use vstd::prelude::*;

use crate::error::Error;
use crate::expr::Expression;
use crate::field::{Felt, MODULUS};
use crate::layouter::{Layouter, MAX_HEIGHT};

verus! {

/// The canonical value of an expression at absolute row `row`, or the
/// error its evaluation raises.
pub open spec fn eval_val(e: Expression, lay: Layouter, row: int) -> Result<int, Error>
    decreases e,
{
    match e {
        Expression::Constant(f) => Ok(f@),
        Expression::Fixed(c, rot) => {
            let q = row + rot.offset;
            if !(0 <= q < lay.height) || c.index >= lay.fixed@.len() {
                Err(Error::OutOfBounds)
            } else {
                match lay.fixed@[c.index as int]@[q] {
                    Some(v) => Ok(v@),
                    None => Err(Error::UnassignedCell),
                }
            }
        },
        Expression::Advice(c, rot) => {
            let q = row + rot.offset;
            if !(0 <= q < lay.height) || c.index >= lay.advice@.len() {
                Err(Error::OutOfBounds)
            } else {
                match lay.advice@[c.index as int]@[q] {
                    Some(v) => Ok(v@),
                    None => Err(Error::UnassignedCell),
                }
            }
        },
        Expression::Instance(c, rot) => {
            let q = row + rot.offset;
            if !(0 <= q < lay.height) || c.index >= lay.instances@.len() {
                Err(Error::OutOfBounds)
            } else if q >= lay.instances@[c.index as int]@.len() {
                Err(Error::UnassignedCell)
            } else {
                Ok(lay.instances@[c.index as int]@[q]@)
            }
        },
        Expression::Selector(s) => {
            if !(0 <= row < lay.height) || s.index >= lay.selectors@.len() {
                Err(Error::OutOfBounds)
            } else if lay.selectors@[s.index as int]@[row] {
                Ok(1)
            } else {
                Ok(0)
            }
        },
        Expression::Negated(a) => {
            match eval_val(*a, lay, row) {
                Ok(v) => Ok((0 - v) % (MODULUS as int)),
                Err(e) => Err(e),
            }
        },
        Expression::Sum(a, b) => {
            match eval_val(*a, lay, row) {
                Ok(va) => match eval_val(*b, lay, row) {
                    Ok(vb) => Ok((va + vb) % (MODULUS as int)),
                    Err(e) => Err(e),
                },
                Err(e) => Err(e),
            }
        },
        Expression::Product(a, b) => {
            match eval_val(*a, lay, row) {
                Ok(va) => match eval_val(*b, lay, row) {
                    Ok(vb) => Ok((va * vb) % (MODULUS as int)),
                    Err(e) => Err(e),
                },
                Err(e) => Err(e),
            }
        },
    }
}

/// A result of evaluation seen at the specification level.
pub open spec fn result_val(r: Result<Felt, Error>) -> Result<int, Error> {
    match r {
        Ok(v) => Ok(v@),
        Err(e) => Err(e),
    }
}

/// Evaluate an expression at absolute row `row` against the grid.
pub fn evaluate(e: &Expression, lay: &Layouter, row: usize) -> (r: Result<Felt, Error>)
    requires
        lay.grid_shaped(),
        row < lay.height,
    ensures
        result_val(r) == eval_val(*e, *lay, row as int),
    decreases *e,
{
    match e {
        Expression::Constant(f) => Ok(*f),
        Expression::Fixed(c, rot) => {
            let q = row as i64 + rot.offset as i64;
            if q < 0 || q >= lay.height as i64 || c.index >= lay.fixed.len() {
                Err(Error::OutOfBounds)
            } else {
                match lay.fixed[c.index][q as usize] {
                    Some(v) => Ok(v),
                    None => Err(Error::UnassignedCell),
                }
            }
        },
        Expression::Advice(c, rot) => {
            let q = row as i64 + rot.offset as i64;
            if q < 0 || q >= lay.height as i64 || c.index >= lay.advice.len() {
                Err(Error::OutOfBounds)
            } else {
                match lay.advice[c.index][q as usize] {
                    Some(v) => Ok(v),
                    None => Err(Error::UnassignedCell),
                }
            }
        },
        Expression::Instance(c, rot) => {
            let q = row as i64 + rot.offset as i64;
            if q < 0 || q >= lay.height as i64 || c.index >= lay.instances.len() {
                Err(Error::OutOfBounds)
            } else if q as usize >= lay.instances[c.index].len() {
                Err(Error::UnassignedCell)
            } else {
                Ok(lay.instances[c.index][q as usize])
            }
        },
        Expression::Selector(s) => {
            if s.index >= lay.selectors.len() {
                Err(Error::OutOfBounds)
            } else if lay.selectors[s.index][row] {
                Ok(Felt::one())
            } else {
                Ok(Felt::zero())
            }
        },
        Expression::Negated(a) => {
            match evaluate(a, lay, row) {
                Ok(v) => Ok(v.neg()),
                Err(err) => Err(err),
            }
        },
        Expression::Sum(a, b) => {
            match evaluate(a, lay, row) {
                Ok(va) => match evaluate(b, lay, row) {
                    Ok(vb) => Ok(va.add(vb)),
                    Err(err) => Err(err),
                },
                Err(err) => Err(err),
            }
        },
        Expression::Product(a, b) => {
            match evaluate(a, lay, row) {
                Ok(va) => match evaluate(b, lay, row) {
                    Ok(vb) => Ok(va.mul(vb)),
                    Err(err) => Err(err),
                },
                Err(err) => Err(err),
            }
        },
    }
}

} // verus!
