//! A selection circuit whose inputs arrive through the public-input
//! column: the condition, both branch values and the claimed result are
//! copied in from the instance, and one gate checks the selection.

use vstd::prelude::*;

use crate::checker::{satisfied, sel_active, CheckOutcome};
use crate::columns::{AdviceColumn, Cell, ColumnKind, FixedColumn, InstanceColumn, Selector};
use crate::cs::ConstraintSystem;
use crate::error::Error;
use crate::expr::{Expression, Rotation};
use crate::field::{Felt, MODULUS};
use crate::layouter::Layouter;

verus! {

/// Column and selector handles of the copy-fed selection circuit.
pub struct FibonacciConfig {
    pub col_one: FixedColumn,
    pub col_a: AdviceColumn,
    pub col_b: AdviceColumn,
    pub col_c: AdviceColumn,
    pub col_out: AdviceColumn,
    pub selector: Selector,
    pub instance: InstanceColumn,
}

impl FibonacciConfig {
    /// The handles name real, pairwise distinct columns, all enabled for
    /// the equality constraints the circuit records.
    pub open spec fn wf(self, cs: ConstraintSystem) -> bool {
        &&& cs.wf()
        &&& self.selector.index < cs.num_selectors
        &&& self.col_one.index < cs.num_fixed
        &&& self.col_a.index < cs.num_advice
        &&& self.col_b.index < cs.num_advice
        &&& self.col_c.index < cs.num_advice
        &&& self.col_out.index < cs.num_advice
        &&& self.instance.index < cs.num_instance
        &&& cs.advice_eq@[self.col_a.index as int]
        &&& cs.advice_eq@[self.col_b.index as int]
        &&& cs.advice_eq@[self.col_c.index as int]
        &&& cs.advice_eq@[self.col_out.index as int]
        &&& cs.instance_eq@[self.instance.index as int]
        &&& self.col_a.index != self.col_b.index
        &&& self.col_a.index != self.col_c.index
        &&& self.col_a.index != self.col_out.index
        &&& self.col_b.index != self.col_c.index
        &&& self.col_b.index != self.col_out.index
        &&& self.col_c.index != self.col_out.index
    }
}

/// The selection gate's polynomial, with the constant one read from the
/// fixed column: `s * (a * b + (one - a) * c - out)`.
pub open spec fn copy_selection_poly(cfg: FibonacciConfig) -> Expression {
    Expression::Product(
        Box::new(Expression::Selector(cfg.selector)),
        Box::new(
            Expression::Sum(
                Box::new(
                    Expression::Sum(
                        Box::new(
                            Expression::Product(
                                Box::new(Expression::Advice(cfg.col_a, Rotation { offset: 0 })),
                                Box::new(Expression::Advice(cfg.col_b, Rotation { offset: 0 })),
                            ),
                        ),
                        Box::new(
                            Expression::Product(
                                Box::new(
                                    Expression::Sum(
                                        Box::new(
                                            Expression::Fixed(
                                                cfg.col_one,
                                                Rotation { offset: 0 },
                                            ),
                                        ),
                                        Box::new(
                                            Expression::Negated(
                                                Box::new(
                                                    Expression::Advice(
                                                        cfg.col_a,
                                                        Rotation { offset: 0 },
                                                    ),
                                                ),
                                            ),
                                        ),
                                    ),
                                ),
                                Box::new(Expression::Advice(cfg.col_c, Rotation { offset: 0 })),
                            ),
                        ),
                    ),
                ),
                Box::new(
                    Expression::Negated(
                        Box::new(Expression::Advice(cfg.col_out, Rotation { offset: 0 })),
                    ),
                ),
            ),
        ),
    )
}

/// The output value the first row witnesses:
/// `a * b + (one - a) * c` over the field, with `a`, `b`, `c` the first
/// three public inputs.
pub open spec fn selected_value(a: Felt, b: Felt, c: Felt) -> int {
    ((a@ * b@) % (MODULUS as int) + (((1 - a@) % (MODULUS as int)) * c@) % (MODULUS as int)) % (
    MODULUS as int)
}

/// The circuit driver for the copy-fed selection gate.
pub struct FibonacciChip {
    pub config: FibonacciConfig,
}

impl FibonacciChip {
    /// Wrap an already-configured set of handles.
    pub fn construct(config: FibonacciConfig) -> (r: FibonacciChip)
        ensures
            r.config == config,
    {
        FibonacciChip { config }
    }

    /// Declare the circuit's columns, equality permissions and its gate.
    pub fn configure(meta: &mut ConstraintSystem) -> (cfg: FibonacciConfig)
        requires
            old(meta).wf(),
            old(meta).num_selectors < usize::MAX,
            old(meta).num_fixed < usize::MAX,
            old(meta).num_advice + 4 < usize::MAX,
            old(meta).num_instance < usize::MAX,
        ensures
            final(meta).wf(),
            cfg.wf(*final(meta)),
            cfg.col_one.index == old(meta).num_fixed,
            cfg.col_a.index == old(meta).num_advice,
            cfg.col_b.index == old(meta).num_advice + 1,
            cfg.col_c.index == old(meta).num_advice + 2,
            cfg.col_out.index == old(meta).num_advice + 3,
            cfg.selector.index == old(meta).num_selectors,
            cfg.instance.index == old(meta).num_instance,
            final(meta).num_fixed == old(meta).num_fixed + 1,
            final(meta).num_advice == old(meta).num_advice + 4,
            final(meta).num_selectors == old(meta).num_selectors + 1,
            final(meta).num_instance == old(meta).num_instance + 1,
            final(meta).num_tables == old(meta).num_tables,
            final(meta).lookups@ == old(meta).lookups@,
            final(meta).gates@.len() == old(meta).gates@.len() + 1,
            final(meta).gates@.drop_last() == old(meta).gates@,
            final(meta).gates@.last().name@ == "add"@,
            final(meta).gates@.last().selector == Some(cfg.selector),
            final(meta).gates@.last().polys@ == seq![copy_selection_poly(cfg)],
            final(meta).fixed_const@[cfg.col_one.index as int],
    {
        let col_one = meta.fixed_column();
        let col_a = meta.advice_column();
        let col_b = meta.advice_column();
        let col_c = meta.advice_column();
        let col_out = meta.advice_column();
        let selector = meta.selector();
        let instance = meta.instance_column();

        meta.enable_constant(col_one);
        meta.enable_equality(col_a);
        meta.enable_equality(col_b);
        meta.enable_equality(col_c);
        meta.enable_equality(col_out);
        meta.enable_instance_equality(instance);

        let cfg = FibonacciConfig { col_one, col_a, col_b, col_c, col_out, selector, instance };

        let s = meta.query_selector(selector);
        let one = meta.query_fixed(col_one, Rotation::cur());
        let a = meta.query_advice(col_a, Rotation::cur());
        let b = meta.query_advice(col_b, Rotation::cur());
        let c = meta.query_advice(col_c, Rotation::cur());
        let out = meta.query_advice(col_out, Rotation::cur());

        let poly = s.times(
            a.dup().times(b).plus(one.plus(a.neg()).times(c)).plus(out.neg()),
        );
        let mut polys: Vec<Expression> = Vec::new();
        polys.push(poly);
        proof {
            assert(polys@ =~= seq![copy_selection_poly(cfg)]);
        }
        meta.create_gate("add", Some(selector), polys);
        cfg
    }

    /// Lay out the first row: the fixed one, the three public inputs
    /// copied into advice cells, and the computed selection result.
    pub fn assign_first_row(&self, cs: &ConstraintSystem, lay: &mut Layouter) -> (r: Result<
        Cell,
        Error,
    >)
        requires
            old(lay).wf(*cs),
            !old(lay).in_region,
            self.config.wf(*cs),
        ensures
            final(lay).wf(*cs),
            r is Ok <==> (old(lay).next_row < old(lay).height && old(lay).instances@[
                self.config.instance.index as int]@.len() >= 3),
            final(lay).height == old(lay).height,
            final(lay).instances@ == old(lay).instances@,
            r matches Err(e) ==> e == (if old(lay).next_row >= old(lay).height {
                Error::RowOutOfRange
            } else {
                Error::OutOfBounds
            }),
            r matches Ok(cell) ==> {
                let start = old(lay).next_row;
                let ins = old(lay).instances@[self.config.instance.index as int]@;
                &&& cell == (Cell {
                    kind: ColumnKind::Advice,
                    index: self.config.col_out.index,
                    row: start,
                })
                &&& !final(lay).in_region
                &&& final(lay).height == old(lay).height
                &&& final(lay).next_row == start + 1
                &&& sel_active(*final(lay), self.config.selector, start as int)
                &&& final(lay).selectors@[self.config.selector.index as int]@ == old(
                    lay,
                ).selectors@[self.config.selector.index as int]@.update(start as int, true)
                &&& (forall|si: int|
                    0 <= si < cs.num_selectors && si != self.config.selector.index
                        ==> final(lay).selectors@[si] == old(lay).selectors@[si])
                &&& final(lay).cell_value(
                    (Cell {
                        kind: ColumnKind::Fixed,
                        index: self.config.col_one.index,
                        row: start,
                    }),
                ) matches Some(one) && one@ == 1
                &&& final(lay).cell_value(
                    (Cell {
                        kind: ColumnKind::Advice,
                        index: self.config.col_a.index,
                        row: start,
                    }),
                ) == Some(ins[0])
                &&& final(lay).cell_value(
                    (Cell {
                        kind: ColumnKind::Advice,
                        index: self.config.col_b.index,
                        row: start,
                    }),
                ) == Some(ins[1])
                &&& final(lay).cell_value(
                    (Cell {
                        kind: ColumnKind::Advice,
                        index: self.config.col_c.index,
                        row: start,
                    }),
                ) == Some(ins[2])
                &&& final(lay).cell_value(cell) matches Some(out) && out@ == selected_value(
                    ins[0],
                    ins[1],
                    ins[2],
                )
                &&& final(lay).copies@ == old(lay).copies@ + seq![
                    (
                        (Cell {
                            kind: ColumnKind::Advice,
                            index: self.config.col_a.index,
                            row: start,
                        }),
                        (Cell {
                            kind: ColumnKind::Instance,
                            index: self.config.instance.index,
                            row: 0,
                        }),
                    ),
                    (
                        (Cell {
                            kind: ColumnKind::Advice,
                            index: self.config.col_b.index,
                            row: start,
                        }),
                        (Cell {
                            kind: ColumnKind::Instance,
                            index: self.config.instance.index,
                            row: 1,
                        }),
                    ),
                    (
                        (Cell {
                            kind: ColumnKind::Advice,
                            index: self.config.col_c.index,
                            row: start,
                        }),
                        (Cell {
                            kind: ColumnKind::Instance,
                            index: self.config.instance.index,
                            row: 2,
                        }),
                    ),
                ]
                &&& final(lay).instance_bindings@ == old(lay).instance_bindings@
                &&& final(lay).instances@ == old(lay).instances@
                &&& final(lay).tables@ == old(lay).tables@
            },
    {
        lay.start_region(cs, "first row");
        match lay.enable_selector(cs, self.config.selector, 0) {
            Ok(()) => {},
            Err(e) => {
                return Err(e);
            },
        }
        match lay.assign_fixed(cs, self.config.col_one, 0, Felt::one()) {
            Ok(_) => {},
            Err(e) => {
                proof {
                    assert(false);
                }
                return Err(e);
            },
        }
        let a_cell = match lay.assign_advice_from_instance(
            cs,
            self.config.instance,
            0,
            self.config.col_a,
            0,
        ) {
            Ok(cell) => cell,
            Err(e) => {
                return Err(e);
            },
        };
        let b_cell = match lay.assign_advice_from_instance(
            cs,
            self.config.instance,
            1,
            self.config.col_b,
            0,
        ) {
            Ok(cell) => cell,
            Err(e) => {
                return Err(e);
            },
        };
        let c_cell = match lay.assign_advice_from_instance(
            cs,
            self.config.instance,
            2,
            self.config.col_c,
            0,
        ) {
            Ok(cell) => cell,
            Err(e) => {
                return Err(e);
            },
        };
        let a_val = match lay.value(a_cell) {
            Ok(v) => v,
            Err(e) => {
                proof {
                    assert(false);
                }
                return Err(e);
            },
        };
        let b_val = match lay.value(b_cell) {
            Ok(v) => v,
            Err(e) => {
                proof {
                    assert(false);
                }
                return Err(e);
            },
        };
        let c_val = match lay.value(c_cell) {
            Ok(v) => v,
            Err(e) => {
                proof {
                    assert(false);
                }
                return Err(e);
            },
        };
        let out_val = a_val.mul(b_val).add(Felt::one().sub(a_val).mul(c_val));
        let out_cell = match lay.assign_advice(cs, self.config.col_out, 0, out_val) {
            Ok(cell) => cell,
            Err(e) => {
                proof {
                    assert(false);
                }
                return Err(e);
            },
        };
        lay.end_region(cs);
        Ok(out_cell)
    }

    /// Bind a cell to the public input at `row`.
    pub fn expose_public(
        &self,
        cs: &ConstraintSystem,
        lay: &mut Layouter,
        cell: &Cell,
        row: usize,
    ) -> (r: Result<(), Error>)
        requires
            old(lay).wf(*cs),
            self.config.wf(*cs),
            cell.kind == ColumnKind::Advice,
            cell.index < cs.num_advice,
        ensures
            final(lay).wf(*cs),
            r is Ok <==> (cs.advice_eq@[cell.index as int] && row < old(lay).instances@[
                self.config.instance.index as int]@.len()),
            r is Err ==> *final(lay) == *old(lay),
            r is Ok ==> {
                &&& final(lay).instance_bindings@ == old(lay).instance_bindings@.push(
                    (*cell, self.config.instance.index, row),
                )
                &&& old(lay).grid_unchanged(*final(lay))
                &&& final(lay).copies@ == old(lay).copies@
                &&& old(lay).layout_unchanged(*final(lay))
            },
    {
        lay.constrain_instance(cs, *cell, self.config.instance, row)
    }
}

/// The handles a fresh constraint system deals the copy-fed circuit.
pub open spec fn fresh_selection_config() -> FibonacciConfig {
    FibonacciConfig {
        col_one: (FixedColumn { index: 0 }),
        col_a: (AdviceColumn { index: 0 }),
        col_b: (AdviceColumn { index: 1 }),
        col_c: (AdviceColumn { index: 2 }),
        col_out: (AdviceColumn { index: 3 }),
        selector: (Selector { index: 0 }),
        instance: (InstanceColumn { index: 0 }),
    }
}

/// Configure the circuit, synthesize its one region from the public
/// inputs, expose the result at instance row three, and run the checker.
/// The returned pair is exactly that circuit and witness, and the
/// verdict is the checker's for them.
pub fn selection_circuit_run(k: usize, public_input: Vec<Felt>) -> (r: (
    ConstraintSystem,
    Layouter,
    Result<CheckOutcome, Error>,
))
    requires
        k <= 20,
    ensures
        r.1.wf(r.0),
        r.0.num_fixed == 1 && r.0.num_advice == 4 && r.0.num_selectors == 1 && r.0.num_instance
            == 1 && r.0.num_tables == 0,
        r.0.gates@.len() == 1,
        r.0.gates@[0].name@ == "add"@,
        r.0.gates@[0].selector == Some(fresh_selection_config().selector),
        r.0.gates@[0].polys@ == seq![copy_selection_poly(fresh_selection_config())],
        r.0.lookups@.len() == 0,
        r.1.height == (1usize << k),
        r.1.instances@.len() == 1 && r.1.instances@[0]@ == public_input@,
        r.2 is Ok <==> public_input@.len() >= 4,
        r.2 is Ok ==> {
            let ins = public_input@;
            let out_cell = (Cell { kind: ColumnKind::Advice, index: 3, row: 0 });
            &&& r.1.instance_bindings@ == seq![(out_cell, 0usize, 3usize)]
            &&& r.1.cell_value((Cell { kind: ColumnKind::Advice, index: 0, row: 0 })) == Some(
                ins[0],
            )
            &&& r.1.cell_value((Cell { kind: ColumnKind::Advice, index: 1, row: 0 })) == Some(
                ins[1],
            )
            &&& r.1.cell_value((Cell { kind: ColumnKind::Advice, index: 2, row: 0 })) == Some(
                ins[2],
            )
            &&& (r.1.cell_value((Cell { kind: ColumnKind::Fixed, index: 0, row: 0 })) matches Some(
                one,
            ) && one@ == 1)
            &&& (r.1.cell_value(out_cell) matches Some(out) && out@ == selected_value(
                ins[0],
                ins[1],
                ins[2],
            ))
            &&& sel_active(r.1, fresh_selection_config().selector, 0)
        },
        r.2 matches Ok(out) ==> ((out is Satisfied) <==> satisfied(r.0, r.1)),
        r.2 matches Ok(out) ==> (out matches CheckOutcome::Violations(vs) ==> vs@.len() > 0),
{
    let mut meta = ConstraintSystem::new();
    let cfg = FibonacciChip::configure(&mut meta);
    proof {
        assert(cfg == fresh_selection_config());
    }
    let chip = FibonacciChip::construct(cfg);
    let mut instances: Vec<Vec<Felt>> = Vec::new();
    instances.push(public_input);
    let mut lay = Layouter::new(&meta, k, instances);
    let out = match chip.assign_first_row(&meta, &mut lay) {
        Ok(cell) => cell,
        Err(e) => {
            return (meta, lay, Err(e));
        },
    };
    match chip.expose_public(&meta, &mut lay, &out, 3) {
        Ok(()) => {},
        Err(e) => {
            return (meta, lay, Err(e));
        },
    }
    let verdict = crate::checker::check(&meta, &lay);
    (meta, lay, verdict)
}

} // verus!
