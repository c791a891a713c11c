//! A selection circuit: one gate deciding `if cond == 1 { thenval } else
//! { elseval }`, with the result exposed as a public input.

use vstd::prelude::*;

use crate::checker::{satisfied, sel_active, CheckOutcome};
use crate::columns::{AdviceColumn, Cell, ColumnKind, InstanceColumn, Selector};
use crate::cs::ConstraintSystem;
use crate::error::Error;
use crate::expr::{Expression, Rotation};
use crate::field::{spec_from_u64, Felt, MODULUS};
use crate::layouter::Layouter;

verus! {

/// Column and selector handles of the selection circuit.
pub struct FunctionConfig {
    pub selector: Selector,
    pub cond: AdviceColumn,
    pub thenval: AdviceColumn,
    pub elseval: AdviceColumn,
    pub output: AdviceColumn,
    pub instance: InstanceColumn,
}

impl FunctionConfig {
    /// The handles name real columns of the system, the advice columns
    /// are pairwise distinct, and every column the circuit copies from or
    /// into is enabled for equality.
    pub open spec fn wf(self, cs: ConstraintSystem) -> bool {
        &&& cs.wf()
        &&& self.selector.index < cs.num_selectors
        &&& self.cond.index < cs.num_advice
        &&& self.thenval.index < cs.num_advice
        &&& self.elseval.index < cs.num_advice
        &&& self.output.index < cs.num_advice
        &&& self.instance.index < cs.num_instance
        &&& cs.advice_eq@[self.output.index as int]
        &&& cs.instance_eq@[self.instance.index as int]
        &&& self.cond.index != self.thenval.index
        &&& self.cond.index != self.elseval.index
        &&& self.cond.index != self.output.index
        &&& self.thenval.index != self.elseval.index
        &&& self.thenval.index != self.output.index
        &&& self.elseval.index != self.output.index
    }
}

/// The selection gate's polynomial:
/// `s * (cond * thenval + (1 - cond) * elseval - output)`.
pub open spec fn selection_poly(cfg: FunctionConfig) -> Expression {
    Expression::Product(
        Box::new(Expression::Selector(cfg.selector)),
        Box::new(
            Expression::Sum(
                Box::new(
                    Expression::Sum(
                        Box::new(
                            Expression::Product(
                                Box::new(
                                    Expression::Advice(cfg.cond, Rotation { offset: 0 }),
                                ),
                                Box::new(
                                    Expression::Advice(cfg.thenval, Rotation { offset: 0 }),
                                ),
                            ),
                        ),
                        Box::new(
                            Expression::Product(
                                Box::new(
                                    Expression::Sum(
                                        Box::new(Expression::Constant(spec_from_u64(1))),
                                        Box::new(
                                            Expression::Negated(
                                                Box::new(
                                                    Expression::Advice(
                                                        cfg.cond,
                                                        Rotation { offset: 0 },
                                                    ),
                                                ),
                                            ),
                                        ),
                                    ),
                                ),
                                Box::new(
                                    Expression::Advice(cfg.elseval, Rotation { offset: 0 }),
                                ),
                            ),
                        ),
                    ),
                ),
                Box::new(
                    Expression::Negated(
                        Box::new(Expression::Advice(cfg.output, Rotation { offset: 0 })),
                    ),
                ),
            ),
        ),
    )
}

/// The circuit driver for the selection gate.
pub struct FunctionChip {
    pub config: FunctionConfig,
}

impl FunctionChip {
    /// Wrap an already-configured set of handles.
    pub fn construct(config: FunctionConfig) -> (r: FunctionChip)
        ensures
            r.config == config,
    {
        FunctionChip { config }
    }

    /// Declare the circuit's columns, equality permissions and its one
    /// gate on a fresh slice of the constraint system.
    pub fn configure(meta: &mut ConstraintSystem) -> (cfg: FunctionConfig)
        requires
            old(meta).wf(),
            old(meta).num_selectors < usize::MAX,
            old(meta).num_advice + 4 < usize::MAX,
            old(meta).num_instance < usize::MAX,
        ensures
            final(meta).wf(),
            cfg.wf(*final(meta)),
            cfg.selector.index == old(meta).num_selectors,
            cfg.cond.index == old(meta).num_advice,
            cfg.thenval.index == old(meta).num_advice + 1,
            cfg.elseval.index == old(meta).num_advice + 2,
            cfg.output.index == old(meta).num_advice + 3,
            cfg.instance.index == old(meta).num_instance,
            final(meta).num_selectors == old(meta).num_selectors + 1,
            final(meta).num_advice == old(meta).num_advice + 4,
            final(meta).num_instance == old(meta).num_instance + 1,
            final(meta).num_fixed == old(meta).num_fixed,
            final(meta).num_tables == old(meta).num_tables,
            final(meta).fixed_const@ == old(meta).fixed_const@,
            final(meta).lookups@ == old(meta).lookups@,
            final(meta).gates@.len() == old(meta).gates@.len() + 1,
            final(meta).gates@.drop_last() == old(meta).gates@,
            final(meta).gates@.last().name@ == "f(a, b, c) = if a == b {c} else {a - b}"@,
            final(meta).gates@.last().selector == Some(cfg.selector),
            final(meta).gates@.last().polys@ == seq![selection_poly(cfg)],
            forall|i: int|
                0 <= i < old(meta).advice_eq@.len() ==> final(meta).advice_eq@[i] == old(
                    meta,
                ).advice_eq@[i],
            forall|i: int|
                0 <= i < old(meta).instance_eq@.len() ==> final(meta).instance_eq@[i] == old(
                    meta,
                ).instance_eq@[i],
    {
        let selector = meta.selector();
        let cond = meta.advice_column();
        let thenval = meta.advice_column();
        let elseval = meta.advice_column();
        let output = meta.advice_column();
        let instance = meta.instance_column();

        meta.enable_equality(cond);
        meta.enable_equality(thenval);
        meta.enable_equality(elseval);
        meta.enable_equality(output);
        meta.enable_instance_equality(instance);

        let cfg = FunctionConfig { selector, cond, thenval, elseval, output, instance };

        let s = meta.query_selector(selector);
        let cond_e = meta.query_advice(cond, Rotation::cur());
        let then_e = meta.query_advice(thenval, Rotation::cur());
        let else_e = meta.query_advice(elseval, Rotation::cur());
        let out_e = meta.query_advice(output, Rotation::cur());
        let one = Expression::Constant(Felt::one());

        let poly = s.times(
            cond_e.dup().times(then_e).plus(one.plus(cond_e.neg()).times(else_e)).plus(
                out_e.neg(),
            ),
        );
        let mut polys: Vec<Expression> = Vec::new();
        polys.push(poly);
        proof {
            assert(polys@ =~= seq![selection_poly(cfg)]);
        }
        meta.create_gate("f(a, b, c) = if a == b {c} else {a - b}", Some(selector), polys);
        cfg
    }

    /// Bind a cell to the public input at `row`.
    pub fn expose_public(
        &self,
        cs: &ConstraintSystem,
        lay: &mut Layouter,
        cell: &Cell,
        row: usize,
    ) -> (r: Result<(), Error>)
        requires
            old(lay).wf(*cs),
            self.config.wf(*cs),
            cell.kind == ColumnKind::Advice,
            cell.index < cs.num_advice,
        ensures
            final(lay).wf(*cs),
            r is Ok <==> (cs.advice_eq@[cell.index as int] && row < old(lay).instances@[
                self.config.instance.index as int]@.len()),
            r is Err ==> *final(lay) == *old(lay),
            r is Ok ==> {
                &&& final(lay).instance_bindings@ == old(lay).instance_bindings@.push(
                    (*cell, self.config.instance.index, row),
                )
                &&& old(lay).grid_unchanged(*final(lay))
                &&& final(lay).copies@ == old(lay).copies@
                &&& old(lay).layout_unchanged(*final(lay))
            },
    {
        lay.constrain_instance(cs, *cell, self.config.instance, row)
    }

    /// Lay out one region: switch on the selector, witness the three
    /// inputs, and witness the selected output.
    pub fn assign(
        &self,
        cs: &ConstraintSystem,
        lay: &mut Layouter,
        cond: Felt,
        thenval: Felt,
        elseval: Felt,
    ) -> (r: Result<Cell, Error>)
        requires
            old(lay).wf(*cs),
            !old(lay).in_region,
            self.config.wf(*cs),
        ensures
            final(lay).wf(*cs),
            r is Ok <==> old(lay).next_row < old(lay).height,
            r is Err ==> r == Err::<Cell, Error>(Error::RowOutOfRange),
            r matches Ok(cell) ==> {
                let start = old(lay).next_row;
                let out = if cond@ == 1 {
                    thenval
                } else {
                    elseval
                };
                &&& cell == (Cell {
                    kind: ColumnKind::Advice,
                    index: self.config.output.index,
                    row: start,
                })
                &&& !final(lay).in_region
                &&& final(lay).height == old(lay).height
                &&& final(lay).next_row == start + 1
                &&& sel_active(*final(lay), self.config.selector, start as int)
                &&& final(lay).selectors@[self.config.selector.index as int]@ == old(
                    lay,
                ).selectors@[self.config.selector.index as int]@.update(start as int, true)
                &&& (forall|si: int|
                    0 <= si < cs.num_selectors && si != self.config.selector.index
                        ==> final(lay).selectors@[si] == old(lay).selectors@[si])
                &&& final(lay).cell_value(
                    (Cell { kind: ColumnKind::Advice, index: self.config.cond.index, row: start }),
                ) == Some(cond)
                &&& final(lay).cell_value(
                    (Cell {
                        kind: ColumnKind::Advice,
                        index: self.config.thenval.index,
                        row: start,
                    }),
                ) == Some(thenval)
                &&& final(lay).cell_value(
                    (Cell {
                        kind: ColumnKind::Advice,
                        index: self.config.elseval.index,
                        row: start,
                    }),
                ) == Some(elseval)
                &&& final(lay).cell_value(cell) == Some(out)
                &&& final(lay).copies@ == old(lay).copies@
                &&& final(lay).instance_bindings@ == old(lay).instance_bindings@
                &&& final(lay).instances@ == old(lay).instances@
                &&& final(lay).tables@ == old(lay).tables@
            },
    {
        lay.start_region(cs, "f(cond, thenval, elseval) = if cond == 1 {thenval} else {elseval}");
        match lay.enable_selector(cs, self.config.selector, 0) {
            Ok(()) => {},
            Err(e) => {
                return Err(e);
            },
        }
        match lay.assign_advice(cs, self.config.cond, 0, cond) {
            Ok(_) => {},
            Err(e) => {
                proof {
                    assert(false);
                }
                return Err(e);
            },
        }
        match lay.assign_advice(cs, self.config.thenval, 0, thenval) {
            Ok(_) => {},
            Err(e) => {
                proof {
                    assert(false);
                }
                return Err(e);
            },
        }
        match lay.assign_advice(cs, self.config.elseval, 0, elseval) {
            Ok(_) => {},
            Err(e) => {
                proof {
                    assert(false);
                }
                return Err(e);
            },
        }
        let one = Felt::one();
        let output = if cond.eq_val(&one) {
            thenval
        } else {
            elseval
        };
        let out_cell = match lay.assign_advice(cs, self.config.output, 0, output) {
            Ok(cell) => cell,
            Err(e) => {
                proof {
                    assert(false);
                }
                return Err(e);
            },
        };
        lay.end_region(cs);
        Ok(out_cell)
    }
}

/// The handles a fresh constraint system deals the selection circuit.
pub open spec fn fresh_function_config() -> FunctionConfig {
    FunctionConfig {
        selector: (Selector { index: 0 }),
        cond: (AdviceColumn { index: 0 }),
        thenval: (AdviceColumn { index: 1 }),
        elseval: (AdviceColumn { index: 2 }),
        output: (AdviceColumn { index: 3 }),
        instance: (InstanceColumn { index: 0 }),
    }
}

/// Configure the selection circuit, synthesize it from the three inputs,
/// expose the selected output at instance row zero, and run the checker.
/// The returned pair is exactly that circuit and witness, and the
/// verdict is the checker's for them.
pub fn function_circuit_run(k: usize, cond: Felt, thenval: Felt, elseval: Felt, public_input:
    Vec<Felt>) -> (r: (ConstraintSystem, Layouter, Result<CheckOutcome, Error>))
    requires
        k <= 20,
    ensures
        r.1.wf(r.0),
        r.0.num_fixed == 0 && r.0.num_advice == 4 && r.0.num_selectors == 1 && r.0.num_instance
            == 1 && r.0.num_tables == 0,
        r.0.gates@.len() == 1,
        r.0.gates@[0].name@ == "f(a, b, c) = if a == b {c} else {a - b}"@,
        r.0.gates@[0].selector == Some(fresh_function_config().selector),
        r.0.gates@[0].polys@ == seq![selection_poly(fresh_function_config())],
        r.0.lookups@.len() == 0,
        r.1.height == (1usize << k),
        r.1.instances@.len() == 1 && r.1.instances@[0]@ == public_input@,
        r.2 is Ok <==> public_input@.len() >= 1,
        r.2 is Ok ==> {
            let out = if cond@ == 1 {
                thenval
            } else {
                elseval
            };
            let out_cell = (Cell { kind: ColumnKind::Advice, index: 3, row: 0 });
            &&& r.1.instance_bindings@ == seq![(out_cell, 0usize, 0usize)]
            &&& r.1.cell_value(out_cell) == Some(out)
            &&& r.1.cell_value((Cell { kind: ColumnKind::Advice, index: 0, row: 0 })) == Some(cond)
            &&& r.1.cell_value((Cell { kind: ColumnKind::Advice, index: 1, row: 0 })) == Some(
                thenval,
            )
            &&& r.1.cell_value((Cell { kind: ColumnKind::Advice, index: 2, row: 0 })) == Some(
                elseval,
            )
            &&& sel_active(r.1, fresh_function_config().selector, 0)
        },
        r.2 matches Ok(out) ==> ((out is Satisfied) <==> satisfied(r.0, r.1)),
        r.2 matches Ok(out) ==> (out matches CheckOutcome::Violations(vs) ==> vs@.len() > 0),
{
    let mut meta = ConstraintSystem::new();
    let cfg = FunctionChip::configure(&mut meta);
    proof {
        assert(cfg == fresh_function_config());
    }
    let chip = FunctionChip::construct(cfg);
    let mut instances: Vec<Vec<Felt>> = Vec::new();
    instances.push(public_input);
    let mut lay = Layouter::new(&meta, k, instances);
    let c = match chip.assign(&meta, &mut lay, cond, thenval, elseval) {
        Ok(cell) => cell,
        Err(e) => {
            return (meta, lay, Err(e));
        },
    };
    match chip.expose_public(&meta, &mut lay, &c, 0) {
        Ok(()) => {},
        Err(e) => {
            return (meta, lay, Err(e));
        },
    }
    let verdict = crate::checker::check(&meta, &lay);
    (meta, lay, verdict)
}

/// On a correctly selected witness the selection polynomial vanishes:
/// at any row where the selector is on and the four cells hold a
/// boolean condition, the two branch values and the branch the
/// condition picks, the polynomial evaluates to zero.
pub proof fn lemma_selection_poly_vanishes(
    lay: Layouter,
    cfg: FunctionConfig,
    row: int,
    cond: Felt,
    thenval: Felt,
    elseval: Felt,
    out: Felt,
)
    requires
        0 <= row < lay.height,
        cfg.cond.index < lay.advice@.len(),
        cfg.thenval.index < lay.advice@.len(),
        cfg.elseval.index < lay.advice@.len(),
        cfg.output.index < lay.advice@.len(),
        forall|i: int|
            0 <= i < lay.advice@.len() ==> (#[trigger] lay.advice@[i])@.len() == lay.height,
        sel_active(lay, cfg.selector, row),
        lay.advice@[cfg.cond.index as int]@[row] == Some(cond),
        lay.advice@[cfg.thenval.index as int]@[row] == Some(thenval),
        lay.advice@[cfg.elseval.index as int]@[row] == Some(elseval),
        lay.advice@[cfg.output.index as int]@[row] == Some(out),
        cond@ == 0 || cond@ == 1,
        0 <= thenval@ < MODULUS,
        0 <= elseval@ < MODULUS,
        out == (if cond@ == 1 {
            thenval
        } else {
            elseval
        }),
    ensures
        crate::checker::poly_ok(lay, selection_poly(cfg), row),
{
    let m = MODULUS as int;
    let cond_q = Expression::Advice(cfg.cond, Rotation { offset: 0 });
    let then_q = Expression::Advice(cfg.thenval, Rotation { offset: 0 });
    let else_q = Expression::Advice(cfg.elseval, Rotation { offset: 0 });
    let out_q = Expression::Advice(cfg.output, Rotation { offset: 0 });
    assert(crate::eval::eval_val(cond_q, lay, row) == Ok::<int, Error>(cond@));
    assert(crate::eval::eval_val(then_q, lay, row) == Ok::<int, Error>(thenval@));
    assert(crate::eval::eval_val(else_q, lay, row) == Ok::<int, Error>(elseval@));
    assert(crate::eval::eval_val(out_q, lay, row) == Ok::<int, Error>(out@));
    crate::field::lemma_spec_from_u64(1);
    let prod1 = (cond@ * thenval@) % m;
    let neg_cond = (0 - cond@) % m;
    let one_minus = (1 + neg_cond) % m;
    let prod2 = (one_minus * elseval@) % m;
    let sum1 = (prod1 + prod2) % m;
    let neg_out = (0 - out@) % m;
    let sum2 = (sum1 + neg_out) % m;
    if cond@ == 1 {
        assert(prod1 == thenval@ % m);
        assert(neg_cond == m - 1) by {
            vstd::arithmetic::div_mod::lemma_mod_add_multiples_vanish(-1, m);
            assert((m - 1) % m == m - 1) by {
                vstd::arithmetic::div_mod::lemma_small_mod((m - 1) as nat, m as nat);
            }
        }
        assert(one_minus == 0);
        assert(prod2 == 0) by {
            assert(0int * elseval@ == 0) by (nonlinear_arith);
        }
        assert(sum1 == thenval@) by {
            vstd::arithmetic::div_mod::lemma_small_mod(thenval@ as nat, m as nat);
        }
        assert(sum2 == 0) by {
            if thenval@ == 0 {
            } else {
                vstd::arithmetic::div_mod::lemma_mod_add_multiples_vanish(-thenval@, m);
                assert(neg_out == m - thenval@) by {
                    vstd::arithmetic::div_mod::lemma_small_mod((m - thenval@) as nat, m as nat);
                }
            }
        }
    } else {
        assert(prod1 == 0) by {
            assert(0int * thenval@ == 0) by (nonlinear_arith);
        }
        assert(neg_cond == 0);
        assert(one_minus == 1);
        assert(prod2 == elseval@ % m) by {
            assert(1int * elseval@ == elseval@) by (nonlinear_arith);
        }
        assert(sum1 == elseval@) by {
            vstd::arithmetic::div_mod::lemma_small_mod(elseval@ as nat, m as nat);
        }
        assert(sum2 == 0) by {
            if elseval@ == 0 {
            } else {
                vstd::arithmetic::div_mod::lemma_mod_add_multiples_vanish(-elseval@, m);
                assert(neg_out == m - elseval@) by {
                    vstd::arithmetic::div_mod::lemma_small_mod((m - elseval@) as nat, m as nat);
                }
            }
        }
    }
    let p1 = Expression::Product(Box::new(cond_q), Box::new(then_q));
    let one_e = Expression::Constant(spec_from_u64(1));
    let neg_cond_e = Expression::Negated(Box::new(cond_q));
    let one_minus_e = Expression::Sum(Box::new(one_e), Box::new(neg_cond_e));
    let p2 = Expression::Product(Box::new(one_minus_e), Box::new(else_q));
    let s1 = Expression::Sum(Box::new(p1), Box::new(p2));
    let neg_out_e = Expression::Negated(Box::new(out_q));
    let s2 = Expression::Sum(Box::new(s1), Box::new(neg_out_e));
    let sel_e = Expression::Selector(cfg.selector);
    assert(crate::eval::eval_val(one_e, lay, row) == Ok::<int, Error>(1));
    assert(crate::eval::eval_val(neg_cond_e, lay, row) == Ok::<int, Error>(neg_cond));
    assert(crate::eval::eval_val(one_minus_e, lay, row) == Ok::<int, Error>(one_minus));
    assert(crate::eval::eval_val(p1, lay, row) == Ok::<int, Error>(prod1));
    assert(crate::eval::eval_val(p2, lay, row) == Ok::<int, Error>(prod2));
    assert(crate::eval::eval_val(s1, lay, row) == Ok::<int, Error>(sum1));
    assert(crate::eval::eval_val(neg_out_e, lay, row) == Ok::<int, Error>(neg_out));
    assert(crate::eval::eval_val(s2, lay, row) == Ok::<int, Error>(sum2));
    assert(crate::eval::eval_val(sel_e, lay, row) == Ok::<int, Error>(1));
    assert(selection_poly(cfg) == Expression::Product(Box::new(sel_e), Box::new(s2)));
    assert(crate::eval::eval_val(selection_poly(cfg), lay, row) == Ok::<int, Error>(
        (1 * sum2) % m,
    ));
    assert((1int * sum2) % m == 0) by {
        assert(1int * sum2 == sum2) by (nonlinear_arith);
        vstd::arithmetic::div_mod::lemma_small_mod(0nat, m as nat);
    }
}

} // verus!
