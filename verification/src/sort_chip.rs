//! A less-than chip and a sortedness circuit built on it.
//!
//! The chip witnesses, for a pair of values, a boolean `lt` flag and the
//! little-endian bytes of `lhs - rhs + lt * 2^(8 * N)`; its gate checks
//! that the bytes recompose to that difference and that the flag is
//! boolean.  The sort circuit witnesses a sorted sequence and checks
//! every adjacent pair with the chip.

use vstd::prelude::*;

use crate::checker::{satisfied, sel_active, CheckOutcome};
use crate::columns::{AdviceColumn, Cell, ColumnKind, Selector};
use crate::cs::ConstraintSystem;
use crate::error::Error;
use crate::expr::{Expression, Rotation};
use crate::field::{pow256, spec_from_u64, spec_pow_felt, Felt, MODULUS};
use crate::layouter::Layouter;

verus! {

/// A value with a canonical expression form.
pub trait Expr {
    /// The expression this value stands for.
    spec fn expr_spec(&self) -> Expression;

    /// Build the expression.
    fn expr(&self) -> (e: Expression)
        ensures
            e == self.expr_spec(),
    ;
}

impl Expr for bool {
    open spec fn expr_spec(&self) -> Expression {
        Expression::Constant(spec_from_u64(if *self {
            1u64
        } else {
            0u64
        }))
    }

    fn expr(&self) -> (e: Expression)
        ensures
            e == self.expr_spec(),
    {
        if *self {
            Expression::Constant(Felt::one())
        } else {
            Expression::Constant(Felt::zero())
        }
    }
}

impl Expr for u64 {
    open spec fn expr_spec(&self) -> Expression {
        Expression::Constant(spec_from_u64(*self))
    }

    fn expr(&self) -> (e: Expression)
        ensures
            e == self.expr_spec(),
    {
        Expression::Constant(Felt::from_u64(*self))
    }
}

impl Expr for i32 {
    open spec fn expr_spec(&self) -> Expression {
        if *self < 0 {
            Expression::Constant(
                crate::field::spec_neg_felt(spec_from_u64((0 - *self as int) as u64)),
            )
        } else {
            Expression::Constant(spec_from_u64(*self as u64))
        }
    }

    fn expr(&self) -> (e: Expression)
        ensures
            e == self.expr_spec(),
    {
        if *self < 0 {
            let m: u64 = (-(*self as i64)) as u64;
            Expression::Constant(Felt::from_u64(m).neg())
        } else {
            Expression::Constant(Felt::from_u64(*self as u64))
        }
    }
}

impl Expr for Expression {
    open spec fn expr_spec(&self) -> Expression {
        *self
    }

    fn expr(&self) -> (e: Expression)
        ensures
            e == self.expr_spec(),
    {
        self.dup()
    }
}

/// The byte-recomposition expression: `b_0 + b_1 * 256 + b_2 * 256^2 ...`
/// built left-associated from a zero constant.
pub open spec fn expr_from_bytes_spec(s: Seq<Expression>) -> Expression
    decreases s.len(),
{
    if s.len() == 0 {
        Expression::Constant(spec_from_u64(0))
    } else {
        Expression::Sum(
            Box::new(expr_from_bytes_spec(s.drop_last())),
            Box::new(
                Expression::Product(
                    Box::new(s.last()),
                    Box::new(
                        Expression::Constant(
                            spec_pow_felt(spec_from_u64(256), (s.len() - 1) as nat),
                        ),
                    ),
                ),
            ),
        )
    }
}

/// Given the byte expressions of a value, the single expression that
/// recomposes them with little-endian weights.
pub fn expr_from_bytes(bytes: &Vec<Expression>) -> (r: Expression)
    ensures
        r == expr_from_bytes_spec(bytes@),
{
    let mut value = Expression::Constant(Felt::from_u64(0));
    let mut multiplier = Felt::one();
    proof {
        crate::field::lemma_spec_pow_felt(spec_from_u64(256), 0);
        crate::field::lemma_eq_of_view(multiplier, spec_pow_felt(spec_from_u64(256), 0));
    }
    let n = bytes.len();
    for i in 0..n
        invariant
            n == bytes@.len(),
            value == expr_from_bytes_spec(bytes@.take(i as int)),
            multiplier == spec_pow_felt(spec_from_u64(256), i as nat),
    {
        let ghost prev = bytes@.take(i as int);
        value = value.plus(bytes[i].dup().times(Expression::Constant(multiplier)));
        multiplier = multiplier.mul(Felt::from_u64(256));
        proof {
            assert(bytes@.take(i + 1).drop_last() =~= prev);
            assert(bytes@.take(i + 1).last() == bytes@[i as int]);
            crate::field::lemma_spec_from_u64(256);
            crate::field::lemma_spec_pow_felt(spec_from_u64(256), i as nat);
            crate::field::lemma_spec_pow_felt(spec_from_u64(256), (i + 1) as nat);
            crate::field::lemma_eq_of_view(
                multiplier,
                spec_pow_felt(spec_from_u64(256), (i + 1) as nat),
            );
        }
    }
    proof {
        assert(bytes@.take(n as int) =~= bytes@);
    }
    value
}

/// Restrict an expression to be boolean: `word * (1 - word)` style
/// product over the range `{0, 1}`.
pub fn bool_check(value: Expression) -> (r: Expression)
    ensures
        r == range_check_spec(value, 2),
{
    range_check(value, 2)
}

/// The product `word * (1 - word) * (2 - word) ...` that vanishes
/// exactly when `word` lies in `0 .. range`.
pub open spec fn range_check_spec(word: Expression, range: nat) -> Expression
    decreases range,
{
    if range <= 1 {
        word
    } else {
        Expression::Product(
            Box::new(range_check_spec(word, (range - 1) as nat)),
            Box::new(
                Expression::Sum(
                    Box::new(Expression::Constant(spec_from_u64((range - 1) as u64))),
                    Box::new(Expression::Negated(Box::new(word))),
                ),
            ),
        )
    }
}

/// Restrict an expression to lie in `0 .. range`.
pub fn range_check(word: Expression, range: usize) -> (r: Expression)
    ensures
        r == range_check_spec(word, range as nat),
{
    let ghost w0 = word;
    let original = word.dup();
    let mut acc = word;
    let mut i: usize = 1;
    while i < range
        invariant
            1 <= i,
            range <= 1 ==> i == 1,
            range > 1 ==> i <= range,
            original == w0,
            acc == range_check_spec(w0, if i <= 1 {
                1nat
            } else {
                i as nat
            }),
        decreases range - i,
    {
        let term = Expression::Constant(Felt::from_u64(i as u64)).plus(original.dup().neg());
        acc = acc.times(term);
        i = i + 1;
    }
    acc
}

/// The advice queries reading the chip's byte columns, in order.
pub open spec fn diff_queries(cols: Seq<AdviceColumn>) -> Seq<Expression> {
    Seq::new(cols.len(), |i: int| Expression::Advice(cols[i], Rotation { offset: 0 }))
}

/// The chip's recomposition polynomial:
/// `q * (lhs - rhs - (b_0 + b_1 * 256 + ...) + lt * range)`.
pub open spec fn lt_check_poly(
    q: Selector,
    lhs: Expression,
    rhs: Expression,
    lt: AdviceColumn,
    diff: Seq<AdviceColumn>,
    range: Felt,
) -> Expression {
    Expression::Product(
        Box::new(Expression::Selector(q)),
        Box::new(
            Expression::Sum(
                Box::new(
                    Expression::Sum(
                        Box::new(
                            Expression::Sum(
                                Box::new(lhs),
                                Box::new(Expression::Negated(Box::new(rhs))),
                            ),
                        ),
                        Box::new(
                            Expression::Negated(
                                Box::new(expr_from_bytes_spec(diff_queries(diff))),
                            ),
                        ),
                    ),
                ),
                Box::new(
                    Expression::Product(
                        Box::new(Expression::Advice(lt, Rotation { offset: 0 })),
                        Box::new(Expression::Constant(range)),
                    ),
                ),
            ),
        ),
    )
}

/// The chip's flag polynomial: `q * bool_check(lt)`.
pub open spec fn lt_bool_poly(q: Selector, lt: AdviceColumn) -> Expression {
    Expression::Product(
        Box::new(Expression::Selector(q)),
        Box::new(range_check_spec(Expression::Advice(lt, Rotation { offset: 0 }), 2)),
    )
}

/// The canonical value of the shifted difference the chip witnesses:
/// `lhs - rhs + (if lhs < rhs { range } else { 0 })` in the field.
pub open spec fn shifted_diff(lhs: Felt, rhs: Felt, range: Felt) -> int {
    (lhs@ - rhs@ + (if lhs@ < rhs@ {
        range@
    } else {
        0int
    })) % (MODULUS as int)
}

/// Column handles and parameters of the less-than chip.
pub struct LtConfig {
    /// The witnessed outcome: one when `lhs < rhs`, else zero.
    pub lt: AdviceColumn,
    /// The byte decomposition of the shifted difference.
    pub diff: Vec<AdviceColumn>,
    /// `2^(8 * diff.len())` in the field.
    pub range: Felt,
}

impl LtConfig {
    /// The handles name real, pairwise distinct advice columns.
    pub open spec fn wf(self, cs: ConstraintSystem) -> bool {
        &&& cs.wf()
        &&& self.lt.index < cs.num_advice
        &&& self.diff@.len() <= 8
        &&& (forall|i: int|
            0 <= i < self.diff@.len() ==> (#[trigger] self.diff@[i]).index < cs.num_advice)
        &&& (forall|i: int|
            0 <= i < self.diff@.len() ==> (#[trigger] self.diff@[i]).index != self.lt.index)
        &&& (forall|i: int, j: int|
            0 <= i < self.diff@.len() && 0 <= j < self.diff@.len() && i != j
                ==> (#[trigger] self.diff@[i]).index != (#[trigger] self.diff@[j]).index)
    }

    /// The expression that reads the witnessed outcome.
    pub fn is_lt(&self, rotation: Option<Rotation>) -> (e: Expression)
        ensures
            e == Expression::Advice(
                self.lt,
                match rotation {
                    Some(rot) => rot,
                    None => (Rotation { offset: 0 }),
                },
            ),
    {
        match rotation {
            Some(rot) => Expression::Advice(self.lt, rot),
            None => Expression::Advice(self.lt, Rotation::cur()),
        }
    }
}

/// The circuit driver for the less-than check.
pub struct LtChip {
    pub config: LtConfig,
}

impl LtChip {
    /// Declare the chip's columns and its gate: the shifted difference
    /// must recompose from the witnessed bytes, and the outcome must be
    /// boolean.  Both polynomials are gated by the given selector.
    pub fn configure(
        meta: &mut ConstraintSystem,
        q_enable: Selector,
        lhs: Expression,
        rhs: Expression,
        n_bytes: usize,
    ) -> (cfg: LtConfig)
        requires
            old(meta).wf(),
            old(meta).num_advice + n_bytes + 1 < usize::MAX,
            q_enable.index < old(meta).num_selectors,
            1 <= n_bytes <= 8,
        ensures
            final(meta).wf(),
            cfg.wf(*final(meta)),
            cfg.diff@.len() == n_bytes,
            cfg.lt.index == old(meta).num_advice,
            forall|i: int|
                0 <= i < n_bytes ==> (#[trigger] cfg.diff@[i]).index == old(meta).num_advice + 1
                    + i,
            cfg.range == spec_pow_felt(spec_from_u64(2), (8 * n_bytes) as nat),
            final(meta).num_instance == old(meta).num_instance,
            final(meta).num_tables == old(meta).num_tables,
            final(meta).num_fixed == old(meta).num_fixed,
            final(meta).num_selectors == old(meta).num_selectors,
            final(meta).num_advice == old(meta).num_advice + n_bytes + 1,
            final(meta).lookups@ == old(meta).lookups@,
            final(meta).advice_eq@.len() == final(meta).num_advice,
            final(meta).gates@.len() == old(meta).gates@.len() + 1,
            final(meta).gates@.drop_last() == old(meta).gates@,
            final(meta).gates@.last().name@ == "lt gate"@,
            final(meta).gates@.last().selector == Some(q_enable),
            final(meta).gates@.last().polys@ == seq![
                lt_check_poly(q_enable, lhs, rhs, cfg.lt, cfg.diff@, cfg.range),
                lt_bool_poly(q_enable, cfg.lt),
            ],
            forall|i: int|
                0 <= i < old(meta).advice_eq@.len() ==> final(meta).advice_eq@[i] == old(
                    meta,
                ).advice_eq@[i],
            forall|i: int|
                0 <= i < old(meta).instance_eq@.len() ==> final(meta).instance_eq@[i] == old(
                    meta,
                ).instance_eq@[i],
    {
        let lt = meta.advice_column();
        let mut diff: Vec<AdviceColumn> = Vec::new();
        for i in 0..n_bytes
            invariant
                meta.wf(),
                diff@.len() == i,
                old(meta).advice_eq@.len() == old(meta).num_advice,
                old(meta).instance_eq@.len() == old(meta).num_instance,
                meta.num_advice == old(meta).num_advice + 1 + i,
                old(meta).num_advice + n_bytes + 1 < usize::MAX,
                i <= n_bytes,
                n_bytes <= 8,
                lt.index == old(meta).num_advice,
                forall|a: int|
                    0 <= a < i ==> (#[trigger] diff@[a]).index == old(meta).num_advice + 1 + a,
                meta.num_instance == old(meta).num_instance,
                meta.num_tables == old(meta).num_tables,
                meta.num_fixed == old(meta).num_fixed,
                meta.num_selectors == old(meta).num_selectors,
                meta.lookups@ == old(meta).lookups@,
                meta.gates@ == old(meta).gates@,
                forall|a: int|
                    0 <= a < old(meta).advice_eq@.len() ==> meta.advice_eq@[a] == old(
                        meta,
                    ).advice_eq@[a],
                meta.instance_eq@ == old(meta).instance_eq@,
                q_enable.index < meta.num_selectors,
        {
            let col = meta.advice_column();
            diff.push(col);
        }
        let range = Felt::from_u64(2).pow((8 * n_bytes) as u64);

        let q = meta.query_selector(q_enable);
        let lt_e = meta.query_advice(lt, Rotation::cur());
        let mut diff_bytes: Vec<Expression> = Vec::new();
        for i in 0..n_bytes
            invariant
                diff@.len() == n_bytes,
                diff_bytes@.len() == i,
                forall|a: int|
                    0 <= a < diff@.len() ==> (#[trigger] diff@[a]).index < meta.num_advice,
                forall|a: int|
                    0 <= a < i ==> #[trigger] diff_bytes@[a] == Expression::Advice(
                        diff@[a],
                        Rotation { offset: 0 },
                    ),
        {
            diff_bytes.push(Expression::Advice(diff[i], Rotation::cur()));
        }
        proof {
            assert(diff_bytes@ =~= diff_queries(diff@));
        }
        let recomposed = expr_from_bytes(&diff_bytes);
        let check_a = lhs.plus(rhs.neg()).plus(recomposed.neg()).plus(
            lt_e.dup().times(Expression::Constant(range)),
        );
        let check_b = bool_check(lt_e);
        let mut polys: Vec<Expression> = Vec::new();
        polys.push(q.dup().times(check_a));
        polys.push(q.times(check_b));
        proof {
            assert(polys@ =~= seq![
                lt_check_poly(q_enable, lhs, rhs, lt, diff@, range),
                lt_bool_poly(q_enable, lt),
            ]);
        }
        meta.create_gate("lt gate", Some(q_enable), polys);

        LtConfig { lt, diff, range }
    }

    /// Wrap an already-configured set of handles.
    pub fn construct(config: LtConfig) -> (r: LtChip)
        ensures
            r.config == config,
    {
        LtChip { config }
    }

    /// Witness, at a relative offset of an open region, the outcome of
    /// `lhs < rhs` and the byte decomposition of the shifted difference.
    pub fn assign(
        &self,
        cs: &ConstraintSystem,
        lay: &mut Layouter,
        offset: usize,
        lhs: Felt,
        rhs: Felt,
    ) -> (r: Result<(), Error>)
        requires
            old(lay).wf(*cs),
            old(lay).in_region,
            self.config.wf(*cs),
            old(lay).region_start + offset < old(lay).height,
            forall|i: int|
                0 <= i < self.config.diff@.len() ==> old(lay).advice@[(#[trigger] self.config.diff@[
                    i]).index as int]@[old(lay).region_start + offset] is None,
            old(lay).advice@[self.config.lt.index as int]@[old(lay).region_start + offset]
                is None,
        ensures
            final(lay).wf(*cs),
            final(lay).in_region,
            r is Ok,
            final(lay).height == old(lay).height,
            final(lay).region_start == old(lay).region_start,
            final(lay).region_rows == (if offset + 1 > old(lay).region_rows {
                offset + 1
            } else {
                old(lay).region_rows as int
            }),
            final(lay).cell_value(
                (Cell {
                    kind: ColumnKind::Advice,
                    index: self.config.lt.index,
                    row: (old(lay).region_start + offset) as usize,
                }),
            ) == Some(
                if lhs@ < rhs@ {
                    spec_from_u64(1)
                } else {
                    spec_from_u64(0)
                },
            ),
            forall|i: int|
                0 <= i < self.config.diff@.len() ==> final(lay).cell_value(
                    (Cell {
                        kind: ColumnKind::Advice,
                        index: (#[trigger] self.config.diff@[i]).index,
                        row: (old(lay).region_start + offset) as usize,
                    }),
                ) == Some(
                    spec_from_u64(
                        ((shifted_diff(lhs, rhs, self.config.range) / pow256(i as nat))
                            % 256) as u64,
                    ),
                ),
            final(lay).copies@ == old(lay).copies@,
            final(lay).instance_bindings@ == old(lay).instance_bindings@,
            final(lay).instances@ == old(lay).instances@,
            final(lay).tables@ == old(lay).tables@,
            final(lay).selectors@ == old(lay).selectors@,
            final(lay).fixed@ == old(lay).fixed@,
            forall|a: int|
                0 <= a < cs.num_advice && a != self.config.lt.index && !diff_contains(
                    self.config.diff@,
                    a,
                ) ==> final(lay).advice@[a] == old(lay).advice@[a],
            forall|a: int, rr: int|
                0 <= a < cs.num_advice && 0 <= rr < old(lay).height && rr != old(
                    lay,
                ).region_start + offset ==> final(lay).advice@[a]@[rr] == old(lay).advice@[a]@[rr],
    {
        let ghost abs = old(lay).region_start + offset;
        let lt = lhs.lt(rhs);
        let lt_val = if lt {
            Felt::one()
        } else {
            Felt::zero()
        };
        match lay.assign_advice(cs, self.config.lt, offset, lt_val) {
            Ok(_) => {},
            Err(e) => {
                proof {
                    assert(false);
                }
                return Err(e);
            },
        }
        let shift = if lt {
            self.config.range
        } else {
            Felt::zero()
        };
        let diff = lhs.sub(rhs).add(shift);
        proof {
            let m = MODULUS as int;
            let sv = if lhs@ < rhs@ {
                self.config.range@
            } else {
                0int
            };
            vstd::arithmetic::div_mod::lemma_add_mod_noop(lhs@ - rhs@, sv, m);
            vstd::arithmetic::div_mod::lemma_add_mod_noop((lhs@ - rhs@) % m, sv, m);
            vstd::arithmetic::div_mod::lemma_mod_twice(lhs@ - rhs@, m);
            vstd::arithmetic::div_mod::lemma_mod_twice(sv, m);
            assert(diff@ == shifted_diff(lhs, rhs, self.config.range));
        }
        let diff_bytes = diff.to_le_bytes();
        let n = self.config.diff.len();
        for idx in 0..n
            invariant
                lay.wf(*cs),
                lay.in_region,
                self.config.wf(*cs),
                n == self.config.diff@.len(),
                n <= 8,
                diff_bytes@.len() == 8,
                lay.region_start == old(lay).region_start,
                abs == old(lay).region_start + offset,
                abs < lay.height,
                lay.height == old(lay).height,
                lay.region_rows == (if offset + 1 > old(lay).region_rows {
                    offset + 1
                } else {
                    old(lay).region_rows as int
                }),
                forall|i: int|
                    idx <= i < n ==> lay.advice@[(#[trigger] self.config.diff@[i]).index as int]
                        == old(lay).advice@[self.config.diff@[i].index as int],
                forall|i: int|
                    idx <= i < n ==> old(lay).advice@[(#[trigger] self.config.diff@[
                        i]).index as int]@[abs] is None,
                forall|i: int|
                    0 <= i < 8 ==> #[trigger] diff_bytes@[i] == (shifted_diff(
                        lhs,
                        rhs,
                        self.config.range,
                    ) / pow256(i as nat)) % 256,
                forall|i: int|
                    0 <= i < idx ==> lay.cell_value(
                        (Cell {
                            kind: ColumnKind::Advice,
                            index: (#[trigger] self.config.diff@[i]).index,
                            row: abs as usize,
                        }),
                    ) == Some(
                        spec_from_u64(
                            ((shifted_diff(lhs, rhs, self.config.range) / pow256(i as nat))
                                % 256) as u64,
                        ),
                    ),
                lay.cell_value(
                    (Cell {
                        kind: ColumnKind::Advice,
                        index: self.config.lt.index,
                        row: abs as usize,
                    }),
                ) == Some(
                    if lhs@ < rhs@ {
                        spec_from_u64(1)
                    } else {
                        spec_from_u64(0)
                    },
                ),
                lay.copies@ == old(lay).copies@,
                lay.instance_bindings@ == old(lay).instance_bindings@,
                lay.instances@ == old(lay).instances@,
                lay.tables@ == old(lay).tables@,
                lay.selectors@ == old(lay).selectors@,
                lay.fixed@ == old(lay).fixed@,
                forall|a: int|
                    0 <= a < cs.num_advice && a != self.config.lt.index && !diff_contains(
                        self.config.diff@,
                        a,
                    ) ==> lay.advice@[a] == old(lay).advice@[a],
                forall|a: int, rr: int|
                    0 <= a < cs.num_advice && 0 <= rr < old(lay).height && rr != abs
                        ==> lay.advice@[a]@[rr] == old(lay).advice@[a]@[rr],
        {
            match lay.assign_advice(
                cs,
                self.config.diff[idx],
                offset,
                Felt::from_u64(diff_bytes[idx] as u64),
            ) {
                Ok(_) => {},
                Err(e) => {
                    proof {
                        assert(false);
                    }
                    return Err(e);
                },
            }
        }
        Ok(())
    }
}

/// Some column of the list has the given index.
pub open spec fn diff_contains(d: Seq<AdviceColumn>, a: int) -> bool {
    exists|i: int| 0 <= i < d.len() && (#[trigger] d[i]).index == a
}

/// How many entries of the sequence hold the value `x`.
pub open spec fn count_of(s: Seq<u64>, x: u64) -> nat
    decreases s.len(),
{
    if s.len() == 0 {
        0
    } else {
        count_of(s.drop_last(), x) + (if s.last() == x {
            1nat
        } else {
            0nat
        })
    }
}

/// Overwriting one entry trades its old value's count for the new one's.
proof fn lemma_count_update(s: Seq<u64>, i: int, v: u64, x: u64)
    requires
        0 <= i < s.len(),
    ensures
        count_of(s.update(i, v), x) == count_of(s, x) - (if s[i] == x {
            1int
        } else {
            0int
        }) + (if v == x {
            1int
        } else {
            0int
        }),
    decreases s.len(),
{
    if i == s.len() - 1 {
        assert(s.update(i, v).drop_last() =~= s.drop_last());
    } else {
        assert(s.update(i, v).drop_last() =~= s.drop_last().update(i, v));
        lemma_count_update(s.drop_last(), i, v, x);
        assert(s.update(i, v).last() == s.last());
        assert(s.drop_last()[i] == s[i]);
    }
}

/// Sort ascending by repeated adjacent swaps.  The result is sorted and
/// holds exactly the input's values, with multiplicity.
pub fn bubble_sort(numbers: &Vec<u64>) -> (target: Vec<u64>)
    ensures
        target@.len() == numbers@.len(),
        forall|i: int, j: int| 0 <= i <= j < target@.len() ==> target@[i] <= target@[j],
        forall|x: u64| #[trigger] count_of(target@, x) == count_of(numbers@, x),
{
    let mut target: Vec<u64> = Vec::new();
    let length = numbers.len();
    for i in 0..length
        invariant
            length == numbers@.len(),
            target@.len() == i,
            forall|a: int| 0 <= a < i ==> target@[a] == numbers@[a],
    {
        target.push(numbers[i]);
    }
    proof {
        assert(target@ =~= numbers@);
    }
    if length == 0 {
        return target;
    }
    for p in 0..length
        invariant
            length == numbers@.len(),
            length >= 1,
            target@.len() == length,
            forall|x: u64| #[trigger] count_of(target@, x) == count_of(numbers@, x),
            forall|i1: int, i2: int|
                0 <= i1 <= i2 < length && i2 + p >= length ==> target@[i1] <= target@[i2],
    {
        for j in 0..length - 1
            invariant
                length == numbers@.len(),
                length >= 1,
                p < length,
                j <= length - 1,
                target@.len() == length,
                forall|x: u64| #[trigger] count_of(target@, x) == count_of(numbers@, x),
                forall|i1: int, i2: int|
                    0 <= i1 <= i2 < length && i2 + p >= length ==> target@[i1] <= target@[i2],
                forall|k: int| 0 <= k <= j ==> #[trigger] target@[k] <= target@[j as int],
                j + p + 1 >= length ==> (forall|i1: int|
                    0 <= i1 <= length - p - 1 ==> #[trigger] target@[i1] <= target@[length - p
                        - 1]),
        {
            if target[j] > target[j + 1] {
                proof {
                    if j + p + 1 >= length {
                        assert(target@[j as int] <= target@[j + 1]);
                        assert(false);
                    }
                }
                let ghost before = target@;
                let temp = target[j + 1];
                target[j + 1] = target[j];
                target[j] = temp;
                proof {
                    let ghost mid = before.update(j + 1, before[j as int]);
                    assert(target@ == mid.update(j as int, temp));
                    assert forall|x: u64| #[trigger] count_of(target@, x) == count_of(
                        numbers@,
                        x,
                    ) by {
                        lemma_count_update(before, j + 1, before[j as int], x);
                        lemma_count_update(mid, j as int, temp, x);
                        assert(mid[j as int] == before[j as int]);
                    }
                }
            }
        }
    }
    target
}

/// Column and selector handles of the sortedness circuit.
pub struct TestCircuitConfig {
    pub q_enable: Selector,
    pub value: AdviceColumn,
    pub check: AdviceColumn,
    pub lt: LtConfig,
}

impl TestCircuitConfig {
    /// The handles name real, pairwise distinct columns.
    pub open spec fn wf(self, cs: ConstraintSystem) -> bool {
        &&& cs.wf()
        &&& self.q_enable.index < cs.num_selectors
        &&& self.value.index < cs.num_advice
        &&& self.check.index < cs.num_advice
        &&& self.lt.wf(cs)
        &&& self.value.index != self.check.index
        &&& self.value.index != self.lt.lt.index
        &&& self.check.index != self.lt.lt.index
        &&& !diff_contains(self.lt.diff@, self.value.index as int)
        &&& !diff_contains(self.lt.diff@, self.check.index as int)
        &&& self.lt.diff@.len() == 8
    }
}

/// The flag-consistency polynomial: `q * (lt - check)`.
pub open spec fn check_flag_poly(q: Selector, lt: AdviceColumn, check: AdviceColumn)
    -> Expression {
    Expression::Product(
        Box::new(Expression::Selector(q)),
        Box::new(
            Expression::Sum(
                Box::new(Expression::Advice(lt, Rotation { offset: 0 })),
                Box::new(
                    Expression::Negated(
                        Box::new(Expression::Advice(check, Rotation { offset: 0 })),
                    ),
                ),
            ),
        ),
    )
}

/// Declare the sortedness circuit: the less-than chip on each adjacent
/// pair of the `value` column, and a gate checking the witnessed flag
/// against the chip's outcome.
pub fn sort_circuit_configure(meta: &mut ConstraintSystem) -> (cfg: TestCircuitConfig)
    requires
        old(meta).wf(),
        old(meta).num_selectors < usize::MAX,
        old(meta).num_advice + 16 < usize::MAX,
    ensures
        final(meta).wf(),
        cfg.wf(*final(meta)),
        cfg.q_enable.index == old(meta).num_selectors,
        cfg.value.index == old(meta).num_advice,
        cfg.check.index == old(meta).num_advice + 1,
        cfg.lt.lt.index == old(meta).num_advice + 2,
        cfg.lt.diff@.len() == 8,
        forall|i: int|
            0 <= i < 8 ==> (#[trigger] cfg.lt.diff@[i]).index == old(meta).num_advice + 3 + i,
        cfg.lt.range == spec_pow_felt(spec_from_u64(2), 64),
        final(meta).num_selectors == old(meta).num_selectors + 1,
        final(meta).num_advice == old(meta).num_advice + 11,
        final(meta).num_fixed == old(meta).num_fixed,
        final(meta).num_instance == old(meta).num_instance,
        final(meta).num_tables == old(meta).num_tables,
        final(meta).lookups@ == old(meta).lookups@,
        final(meta).gates@.len() == old(meta).gates@.len() + 2,
        final(meta).gates@.drop_last().drop_last() == old(meta).gates@,
        ({
            let lt_gate = final(meta).gates@[final(meta).gates@.len() - 2];
            &&& lt_gate.name@ == "lt gate"@
            &&& lt_gate.selector == Some(cfg.q_enable)
            &&& lt_gate.polys@ == seq![
                lt_check_poly(
                    cfg.q_enable,
                    Expression::Advice(cfg.value, Rotation { offset: -1i32 }),
                    Expression::Advice(cfg.value, Rotation { offset: 0 }),
                    cfg.lt.lt,
                    cfg.lt.diff@,
                    cfg.lt.range,
                ),
                lt_bool_poly(cfg.q_enable, cfg.lt.lt),
            ]
        }),
        final(meta).gates@.last().name@ == "check is_lt between adjacent rows"@,
        final(meta).gates@.last().selector == Some(cfg.q_enable),
        final(meta).gates@.last().polys@ == seq![
            check_flag_poly(cfg.q_enable, cfg.lt.lt, cfg.check),
        ],
{
    let q_enable = meta.complex_selector();
    let value = meta.advice_column();
    let check = meta.advice_column();

    let lhs = meta.query_advice(value, Rotation::prev());
    let rhs = meta.query_advice(value, Rotation::cur());
    let lt = LtChip::configure(meta, q_enable, lhs, rhs, 8);

    let q = meta.query_selector(q_enable);
    let check_e = meta.query_advice(check, Rotation::cur());
    let is_lt_e = lt.is_lt(None);
    let mut polys: Vec<Expression> = Vec::new();
    polys.push(q.times(is_lt_e.plus(check_e.neg())));
    proof {
        assert(polys@ =~= seq![check_flag_poly(q_enable, lt.lt, check)]);
    }
    meta.create_gate("check is_lt between adjacent rows", Some(q_enable), polys);

    TestCircuitConfig { q_enable, value, check, lt }
}

/// Synthesize the sortedness witness: sort the values, lay them out on
/// consecutive rows of one region, and witness every adjacent
/// comparison with the chip; `checks[i]` is the claimed outcome of
/// `sorted[i] < sorted[i + 1]`.
pub fn sort_circuit_synthesize(
    cs: &ConstraintSystem,
    lay: &mut Layouter,
    cfg: &TestCircuitConfig,
    values: &Vec<u64>,
    checks: &Vec<bool>,
) -> (r: Result<Vec<u64>, Error>)
    requires
        old(lay).wf(*cs),
        !old(lay).in_region,
        cfg.wf(*cs),
        values@.len() >= 1,
        checks@.len() + 1 == values@.len(),
        old(lay).next_row + values@.len() <= old(lay).height,
    ensures
        final(lay).wf(*cs),
        !final(lay).in_region,
        r is Ok,
        final(lay).height == old(lay).height,
        final(lay).instances@ == old(lay).instances@,
        r matches Ok(sorted) ==> {
            let start = old(lay).next_row;
            &&& sorted@.len() == values@.len()
            &&& (forall|i: int, j: int| 0 <= i <= j < sorted@.len() ==> sorted@[i] <= sorted@[j])
            &&& (forall|x: u64| #[trigger] count_of(sorted@, x) == count_of(values@, x))
            &&& (forall|idx: int|
                0 <= idx < sorted@.len() ==> final(lay).cell_value(
                    (Cell {
                        kind: ColumnKind::Advice,
                        index: cfg.value.index,
                        row: (start + idx) as usize,
                    }),
                ) == Some(spec_from_u64(sorted@[idx])))
            &&& (forall|idx: int|
                0 <= idx < checks@.len() ==> final(lay).cell_value(
                    (Cell {
                        kind: ColumnKind::Advice,
                        index: cfg.check.index,
                        row: (start + idx + 1) as usize,
                    }),
                ) == Some(
                    spec_from_u64(
                        if checks@[idx] {
                            1u64
                        } else {
                            0u64
                        },
                    ),
                ))
            &&& (forall|idx: int|
                0 <= idx < checks@.len() ==> #[trigger] sel_active(
                    *final(lay),
                    cfg.q_enable,
                    start + idx + 1,
                ))
            &&& (forall|si: int|
                0 <= si < cs.num_selectors && si != cfg.q_enable.index
                    ==> final(lay).selectors@[si] == old(lay).selectors@[si])
            &&& (forall|r: int|
                0 <= r < old(lay).height && !(start + 1 <= r < start + sorted@.len())
                    ==> #[trigger] final(lay).selectors@[cfg.q_enable.index as int]@[r] == old(
                    lay,
                ).selectors@[cfg.q_enable.index as int]@[r])
            &&& (forall|idx: int|
                0 <= idx < checks@.len() ==> #[trigger] final(lay).cell_value(
                    (Cell {
                        kind: ColumnKind::Advice,
                        index: cfg.lt.lt.index,
                        row: (start + idx + 1) as usize,
                    }),
                ) == Some(
                    (if spec_from_u64(sorted@[idx])@ < spec_from_u64(sorted@[idx + 1])@ {
                        spec_from_u64(1)
                    } else {
                        spec_from_u64(0)
                    }),
                ))
            &&& (forall|idx: int, i: int|
                0 <= idx < checks@.len() && 0 <= i < cfg.lt.diff@.len()
                    ==> #[trigger] final(lay).cell_value(
                    (Cell {
                        kind: ColumnKind::Advice,
                        index: (cfg.lt.diff@[i]).index,
                        row: (start + idx + 1) as usize,
                    }),
                ) == Some(
                    spec_from_u64(
                        ((shifted_diff(
                            spec_from_u64(sorted@[idx]),
                            spec_from_u64(sorted@[idx + 1]),
                            cfg.lt.range,
                        ) / pow256(i as nat)) % 256) as u64,
                    ),
                ))
            &&& final(lay).copies@ == old(lay).copies@
            &&& final(lay).instance_bindings@ == old(lay).instance_bindings@
            &&& final(lay).tables@ == old(lay).tables@
            &&& final(lay).instances@ == old(lay).instances@
        },
{
    let sorted = bubble_sort(values);
    let ghost pre = *lay;
    let ghost start = lay.next_row;
    lay.start_region(cs, "witness");
    match lay.assign_advice(cs, cfg.value, 0, Felt::from_u64(sorted[0])) {
        Ok(_) => {},
        Err(e) => {
            proof {
                assert(false);
            }
            lay.end_region(cs);
            return Err(e);
        },
    }
    let n = sorted.len();
    for idx in 0..n - 1
        invariant
            lay.wf(*cs),
            lay.in_region,
            cfg.wf(*cs),
            n == sorted@.len(),
            n >= 1,
            n == values@.len(),
            checks@.len() + 1 == n,
            start == lay.region_start,
            lay.region_rows == idx + 1,
            start + n <= lay.height,
            forall|a: int|
                0 <= a < sorted@.len() ==> sorted@[a] <= u64::MAX,
            forall|i2: int|
                0 <= i2 <= idx ==> lay.cell_value(
                    (Cell {
                        kind: ColumnKind::Advice,
                        index: cfg.value.index,
                        row: (start + i2) as usize,
                    }),
                ) == Some(spec_from_u64(sorted@[i2])),
            forall|i2: int|
                0 <= i2 < idx ==> lay.cell_value(
                    (Cell {
                        kind: ColumnKind::Advice,
                        index: cfg.check.index,
                        row: (start + i2 + 1) as usize,
                    }),
                ) == Some(
                    spec_from_u64(
                        if checks@[i2] {
                            1u64
                        } else {
                            0u64
                        },
                    ),
                ),
            forall|i2: int|
                0 <= i2 < idx ==> #[trigger] sel_active(*lay, cfg.q_enable, start + i2 + 1),
            pre.wf(*cs),
            pre.selectors@ == old(lay).selectors@,
            pre.height == old(lay).height,
            pre.height == lay.height,
            forall|si: int|
                0 <= si < cs.num_selectors && si != cfg.q_enable.index ==> lay.selectors@[si]
                    == pre.selectors@[si],
            forall|r: int|
                0 <= r < pre.height && !(start + 1 <= r < start + idx + 1)
                    ==> #[trigger] lay.selectors@[cfg.q_enable.index as int]@[r]
                    == pre.selectors@[cfg.q_enable.index as int]@[r],
            forall|i2: int|
                0 <= i2 < idx ==> #[trigger] lay.cell_value(
                    (Cell {
                        kind: ColumnKind::Advice,
                        index: cfg.lt.lt.index,
                        row: (start + i2 + 1) as usize,
                    }),
                ) == Some(
                    (if spec_from_u64(sorted@[i2])@ < spec_from_u64(sorted@[i2 + 1])@ {
                        spec_from_u64(1)
                    } else {
                        spec_from_u64(0)
                    }),
                ),
            forall|i2: int, i: int|
                0 <= i2 < idx && 0 <= i < cfg.lt.diff@.len() ==> #[trigger] lay.cell_value(
                    (Cell {
                        kind: ColumnKind::Advice,
                        index: (cfg.lt.diff@[i]).index,
                        row: (start + i2 + 1) as usize,
                    }),
                ) == Some(
                    spec_from_u64(
                        ((shifted_diff(
                            spec_from_u64(sorted@[i2]),
                            spec_from_u64(sorted@[i2 + 1]),
                            cfg.lt.range,
                        ) / pow256(i as nat)) % 256) as u64,
                    ),
                ),
            forall|rr: int|
                start + idx < rr < lay.height ==> #[trigger] lay.advice@[
                    cfg.lt.lt.index as int]@[rr] is None,
            forall|i: int, rr: int|
                0 <= i < cfg.lt.diff@.len() && start + idx < rr < lay.height
                    ==> #[trigger] lay.advice@[(cfg.lt.diff@[i]).index as int]@[rr] is None,
            forall|rr: int|
                start + idx < rr < lay.height ==> #[trigger] lay.advice@[
                    cfg.check.index as int]@[rr] is None,
            forall|rr: int|
                start + idx < rr < lay.height ==> #[trigger] lay.advice@[
                    cfg.value.index as int]@[rr] is None,
            lay.copies@ == old(lay).copies@,
            lay.instance_bindings@ == old(lay).instance_bindings@,
            lay.tables@ == old(lay).tables@,
            lay.instances@ == old(lay).instances@,
    {
        let ghost lay0 = *lay;
        match lay.enable_selector(cs, cfg.q_enable, idx + 1) {
            Ok(()) => {},
            Err(e) => {
                proof {
                    assert(false);
                }
                lay.end_region(cs);
                return Err(e);
            },
        }
        let flag = if checks[idx] {
            1u64
        } else {
            0u64
        };
        match lay.assign_advice(cs, cfg.check, idx + 1, Felt::from_u64(flag)) {
            Ok(_) => {},
            Err(e) => {
                proof {
                    assert(false);
                }
                lay.end_region(cs);
                return Err(e);
            },
        }
        match lay.assign_advice(cs, cfg.value, idx + 1, Felt::from_u64(sorted[idx + 1])) {
            Ok(_) => {},
            Err(e) => {
                proof {
                    assert(false);
                }
                lay.end_region(cs);
                return Err(e);
            },
        }
        let chip = LtChip::construct(
            LtConfig { lt: cfg.lt.lt, diff: clone_columns(&cfg.lt.diff), range: cfg.lt.range },
        );
        match chip.assign(
            cs,
            lay,
            idx + 1,
            Felt::from_u64(sorted[idx]),
            Felt::from_u64(sorted[idx + 1]),
        ) {
            Ok(()) => {},
            Err(e) => {
                proof {
                    assert(false);
                }
                lay.end_region(cs);
                return Err(e);
            },
        }
        proof {
            let abs = start + idx + 1;
            assert(lay.selectors@[cfg.q_enable.index as int]@ == lay0.selectors@[
                cfg.q_enable.index as int]@.update(abs, true));
            assert(forall|si: int|
                0 <= si < cs.num_selectors && si != cfg.q_enable.index ==> lay.selectors@[si]
                    == lay0.selectors@[si]);
            assert forall|i2: int| 0 <= i2 < idx + 1 implies #[trigger] sel_active(
                *lay,
                cfg.q_enable,
                start + i2 + 1,
            ) by {
                if i2 < idx {
                    assert(sel_active(lay0, cfg.q_enable, start + i2 + 1));
                }
            }
            assert forall|cc: Cell| cc.row != abs implies #[trigger] lay.cell_value(cc)
                == lay0.cell_value(cc) by {
                assert(lay.instances@ == lay0.instances@);
                assert(lay.fixed@ == lay0.fixed@);
            }
            assert forall|i2: int| 0 <= i2 < idx + 1 implies #[trigger] lay.cell_value(
                (Cell {
                    kind: ColumnKind::Advice,
                    index: cfg.lt.lt.index,
                    row: (start + i2 + 1) as usize,
                }),
            ) == Some(
                (if spec_from_u64(sorted@[i2])@ < spec_from_u64(sorted@[i2 + 1])@ {
                    spec_from_u64(1)
                } else {
                    spec_from_u64(0)
                }),
            ) by {
                if i2 < idx {
                    assert(lay0.cell_value(
                        (Cell {
                            kind: ColumnKind::Advice,
                            index: cfg.lt.lt.index,
                            row: (start + i2 + 1) as usize,
                        }),
                    ) == Some(
                        (if spec_from_u64(sorted@[i2])@ < spec_from_u64(sorted@[i2 + 1])@ {
                            spec_from_u64(1)
                        } else {
                            spec_from_u64(0)
                        }),
                    ));
                }
            }
            assert forall|i2: int, i: int|
                0 <= i2 < idx + 1 && 0 <= i < cfg.lt.diff@.len() implies #[trigger] lay.cell_value(
                (Cell {
                    kind: ColumnKind::Advice,
                    index: (cfg.lt.diff@[i]).index,
                    row: (start + i2 + 1) as usize,
                }),
            ) == Some(
                spec_from_u64(
                    ((shifted_diff(
                        spec_from_u64(sorted@[i2]),
                        spec_from_u64(sorted@[i2 + 1]),
                        cfg.lt.range,
                    ) / pow256(i as nat)) % 256) as u64,
                ),
            ) by {
                if i2 < idx {
                    assert(lay0.cell_value(
                        (Cell {
                            kind: ColumnKind::Advice,
                            index: (cfg.lt.diff@[i]).index,
                            row: (start + i2 + 1) as usize,
                        }),
                    ) == Some(
                        spec_from_u64(
                            ((shifted_diff(
                                spec_from_u64(sorted@[i2]),
                                spec_from_u64(sorted@[i2 + 1]),
                                cfg.lt.range,
                            ) / pow256(i as nat)) % 256) as u64,
                        ),
                    ));
                }
            }
        }
    }
    let ghost layx = *lay;
    lay.end_region(cs);
    proof {
        assert(lay.selectors@ == layx.selectors@);
        assert forall|i2: int| 0 <= i2 < checks@.len() implies #[trigger] sel_active(
            *lay,
            cfg.q_enable,
            start + i2 + 1,
        ) by {
            assert(sel_active(layx, cfg.q_enable, start + i2 + 1));
        }
        assert forall|cc: Cell| #[trigger] lay.cell_value(cc) == layx.cell_value(cc) by {
            assert(lay.advice@ == layx.advice@);
            assert(lay.instances@ == layx.instances@);
            assert(lay.fixed@ == layx.fixed@);
        }
    }
    Ok(sorted)
}

/// A copy of a column-handle list.
fn clone_columns(cols: &Vec<AdviceColumn>) -> (r: Vec<AdviceColumn>)
    ensures
        r@ == cols@,
{
    let mut r: Vec<AdviceColumn> = Vec::new();
    for i in 0..cols.len()
        invariant
            r@.len() == i,
            forall|a: int| 0 <= a < i ==> r@[a] == cols@[a],
    {
        r.push(cols[i]);
    }
    proof {
        assert(r@ =~= cols@);
    }
    r
}

/// The grid holds `sorted` — a sorted, multiplicity-preserving
/// permutation of `values` — on consecutive rows of the value column,
/// with the claimed flags beside it and the comparison selector on at
/// every adjacent pair.
pub open spec fn sorted_witness(
    lay: Layouter,
    values: Seq<u64>,
    checks: Seq<bool>,
    sorted: Seq<u64>,
) -> bool {
    &&& sorted.len() == values.len()
    &&& (forall|i: int, j: int| 0 <= i <= j < sorted.len() ==> sorted[i] <= sorted[j])
    &&& (forall|x: u64| #[trigger] count_of(sorted, x) == count_of(values, x))
    &&& (forall|idx: int|
        0 <= idx < sorted.len() ==> #[trigger] lay.cell_value(
            (Cell { kind: ColumnKind::Advice, index: 0, row: idx as usize }),
        ) == Some(spec_from_u64(sorted[idx])))
    &&& (forall|idx: int|
        0 <= idx < checks.len() ==> #[trigger] lay.cell_value(
            (Cell { kind: ColumnKind::Advice, index: 1, row: (idx + 1) as usize }),
        ) == Some(
            spec_from_u64(
                if checks[idx] {
                    1u64
                } else {
                    0u64
                },
            ),
        ))
    &&& (forall|idx: int|
        0 <= idx < checks.len() ==> #[trigger] sel_active(lay, (Selector { index: 0 }), idx + 1))
}

/// The byte columns a fresh constraint system deals the chip inside the
/// sortedness circuit.
pub open spec fn fresh_sort_diff() -> Seq<AdviceColumn> {
    seq![
        (AdviceColumn { index: 3 }),
        (AdviceColumn { index: 4 }),
        (AdviceColumn { index: 5 }),
        (AdviceColumn { index: 6 }),
        (AdviceColumn { index: 7 }),
        (AdviceColumn { index: 8 }),
        (AdviceColumn { index: 9 }),
        (AdviceColumn { index: 10 }),
    ]
}

/// Configure the sortedness circuit, synthesize the sorted witness and
/// the claimed adjacent-comparison flags, and run the checker.  The
/// returned pair is exactly that circuit and witness — the sorted
/// permutation of `values` on consecutive rows with the claimed flags —
/// and the verdict is the checker's for them.
pub fn sort_circuit_run(k: usize, values: Vec<u64>, checks: Vec<bool>) -> (r: (
    ConstraintSystem,
    Layouter,
    Result<CheckOutcome, Error>,
))
    requires
        k <= 20,
        values@.len() >= 1,
        checks@.len() + 1 == values@.len(),
        values@.len() <= (1usize << k),
    ensures
        r.1.wf(r.0),
        r.0.num_fixed == 0 && r.0.num_advice == 11 && r.0.num_selectors == 1 && r.0.num_instance
            == 0 && r.0.num_tables == 0,
        r.0.lookups@.len() == 0,
        r.0.gates@.len() == 2,
        r.0.gates@[0].name@ == "lt gate"@,
        r.0.gates@[0].selector == Some(Selector { index: 0 }),
        r.0.gates@[0].polys@ == seq![
            lt_check_poly(
                (Selector { index: 0 }),
                Expression::Advice((AdviceColumn { index: 0 }), (Rotation { offset: -1i32 })),
                Expression::Advice((AdviceColumn { index: 0 }), (Rotation { offset: 0 })),
                (AdviceColumn { index: 2 }),
                fresh_sort_diff(),
                spec_pow_felt(spec_from_u64(2), 64),
            ),
            lt_bool_poly((Selector { index: 0 }), (AdviceColumn { index: 2 })),
        ],
        r.0.gates@[1].name@ == "check is_lt between adjacent rows"@,
        r.0.gates@[1].selector == Some(Selector { index: 0 }),
        r.0.gates@[1].polys@ == seq![
            check_flag_poly(
                (Selector { index: 0 }),
                (AdviceColumn { index: 2 }),
                (AdviceColumn { index: 1 }),
            ),
        ],
        r.1.height == (1usize << k),
        r.1.instances@.len() == 0,
        r.1.instance_bindings@.len() == 0,
        r.2 is Ok,
        exists|sorted: Seq<u64>| #[trigger] sorted_witness(r.1, values@, checks@, sorted),
        r.2 matches Ok(out) ==> ((out is Satisfied) <==> satisfied(r.0, r.1)),
        r.2 matches Ok(out) ==> (out matches CheckOutcome::Violations(vs) ==> vs@.len() > 0),
{
    let mut meta = ConstraintSystem::new();
    let cfg = sort_circuit_configure(&mut meta);
    proof {
        assert(cfg.q_enable == (Selector { index: 0 }));
        assert(cfg.value == (AdviceColumn { index: 0 }));
        assert(cfg.check == (AdviceColumn { index: 1 }));
        assert(cfg.lt.lt == (AdviceColumn { index: 2 }));
        assert(cfg.lt.diff@ =~= fresh_sort_diff());
    }
    let mut lay = Layouter::new(&meta, k, Vec::new());
    let sorted = match sort_circuit_synthesize(&meta, &mut lay, &cfg, &values, &checks) {
        Ok(sorted) => sorted,
        Err(e) => {
            proof {
                assert(false);
            }
            return (meta, lay, Err(e));
        },
    };
    proof {
        assert forall|idx: int| 0 <= idx < sorted@.len() implies #[trigger] lay.cell_value(
            (Cell { kind: ColumnKind::Advice, index: 0, row: idx as usize }),
        ) == Some(spec_from_u64(sorted@[idx])) by {
            assert(lay.cell_value(
                (Cell { kind: ColumnKind::Advice, index: cfg.value.index, row: (0 + idx) as usize }),
            ) == Some(spec_from_u64(sorted@[idx])));
        }
        assert forall|idx: int| 0 <= idx < checks@.len() implies #[trigger] lay.cell_value(
            (Cell { kind: ColumnKind::Advice, index: 1, row: (idx + 1) as usize }),
        ) == Some(
            spec_from_u64(
                if checks@[idx] {
                    1u64
                } else {
                    0u64
                },
            ),
        ) by {
            assert(lay.cell_value(
                (Cell {
                    kind: ColumnKind::Advice,
                    index: cfg.check.index,
                    row: (0 + idx + 1) as usize,
                }),
            ) == Some(
                spec_from_u64(
                    if checks@[idx] {
                        1u64
                    } else {
                        0u64
                    },
                ),
            ));
        }
        assert forall|idx: int| 0 <= idx < checks@.len() implies #[trigger] sel_active(
            lay,
            (Selector { index: 0 }),
            idx + 1,
        ) by {
            assert(sel_active(lay, cfg.q_enable, 0 + idx + 1));
        }
        assert(sorted_witness(lay, values@, checks@, sorted@));
    }
    let verdict = crate::checker::check(&meta, &lay);
    (meta, lay, verdict)
}

} // verus!
