//! A multiplication circuit: private values are loaded into single-row
//! regions, a two-row `mul` region multiplies two earlier cells, and a
//! constant can be loaded through a constant-enabled fixed column.

use vstd::prelude::*;

use crate::checker::{satisfied, sel_active, CheckOutcome};
use crate::columns::{AdviceColumn, Cell, ColumnKind, FixedColumn, InstanceColumn, Selector};
use crate::cs::ConstraintSystem;
use crate::error::Error;
use crate::expr::{Expression, Rotation};
use crate::field::{Felt, MODULUS};
use crate::layouter::Layouter;

verus! {

/// Column and selector handles of the multiplication circuit.
pub struct FieldConfig {
    pub advice0: AdviceColumn,
    pub advice1: AdviceColumn,
    pub instance: InstanceColumn,
    pub constant: FixedColumn,
    pub s_mul: Selector,
}

impl FieldConfig {
    /// The handles name real, pairwise distinct columns with the
    /// equality and constant permissions the circuit needs.
    pub open spec fn wf(self, cs: ConstraintSystem) -> bool {
        &&& cs.wf()
        &&& self.s_mul.index < cs.num_selectors
        &&& self.advice0.index < cs.num_advice
        &&& self.advice1.index < cs.num_advice
        &&& self.instance.index < cs.num_instance
        &&& self.constant.index < cs.num_fixed
        &&& cs.advice_eq@[self.advice0.index as int]
        &&& cs.advice_eq@[self.advice1.index as int]
        &&& cs.instance_eq@[self.instance.index as int]
        &&& cs.fixed_const@[self.constant.index as int]
        &&& self.advice0.index != self.advice1.index
    }
}

/// The multiplication gate's polynomial:
/// `s_mul * (lhs * rhs - out)`, with `out` on the next row.
pub open spec fn mul_poly(cfg: FieldConfig) -> Expression {
    Expression::Product(
        Box::new(Expression::Selector(cfg.s_mul)),
        Box::new(
            Expression::Sum(
                Box::new(
                    Expression::Product(
                        Box::new(Expression::Advice(cfg.advice0, Rotation { offset: 0 })),
                        Box::new(Expression::Advice(cfg.advice1, Rotation { offset: 0 })),
                    ),
                ),
                Box::new(
                    Expression::Negated(
                        Box::new(Expression::Advice(cfg.advice0, Rotation { offset: 1 })),
                    ),
                ),
            ),
        ),
    )
}

/// The circuit driver for field multiplication.
pub struct FieldChip {
    pub config: FieldConfig,
}

impl FieldChip {
    /// Wrap an already-configured set of handles.
    pub fn construct(config: FieldConfig) -> (r: FieldChip)
        ensures
            r.config == config,
    {
        FieldChip { config }
    }

    /// Declare equality and constant permissions and the `mul` gate on
    /// columns the caller already created.
    pub fn configured(
        meta: &mut ConstraintSystem,
        advice0: AdviceColumn,
        advice1: AdviceColumn,
        instance: InstanceColumn,
        constant: FixedColumn,
    ) -> (cfg: FieldConfig)
        requires
            old(meta).wf(),
            old(meta).num_selectors < usize::MAX,
            advice0.index < old(meta).num_advice,
            advice1.index < old(meta).num_advice,
            advice0.index != advice1.index,
            instance.index < old(meta).num_instance,
            constant.index < old(meta).num_fixed,
        ensures
            final(meta).wf(),
            cfg.wf(*final(meta)),
            cfg.advice0 == advice0,
            cfg.advice1 == advice1,
            cfg.instance == instance,
            cfg.constant == constant,
            cfg.s_mul.index == old(meta).num_selectors,
            final(meta).num_selectors == old(meta).num_selectors + 1,
            final(meta).num_instance == old(meta).num_instance,
            final(meta).num_advice == old(meta).num_advice,
            final(meta).num_fixed == old(meta).num_fixed,
            final(meta).num_tables == old(meta).num_tables,
            final(meta).lookups@ == old(meta).lookups@,
            final(meta).gates@.len() == old(meta).gates@.len() + 1,
            final(meta).gates@.drop_last() == old(meta).gates@,
            final(meta).gates@.last().name@ == "mul"@,
            final(meta).gates@.last().selector == Some(cfg.s_mul),
            final(meta).gates@.last().polys@ == seq![mul_poly(cfg)],
    {
        meta.enable_instance_equality(instance);
        meta.enable_constant(constant);
        meta.enable_equality(advice0);
        meta.enable_equality(advice1);
        let s_mul = meta.selector();

        let cfg = FieldConfig { advice0, advice1, instance, constant, s_mul };

        let lhs = meta.query_advice(advice0, Rotation::cur());
        let rhs = meta.query_advice(advice1, Rotation::cur());
        let out = meta.query_advice(advice0, Rotation::next());
        let s = meta.query_selector(s_mul);
        let poly = s.times(lhs.times(rhs).plus(out.neg()));
        let mut polys: Vec<Expression> = Vec::new();
        polys.push(poly);
        proof {
            assert(polys@ =~= seq![mul_poly(cfg)]);
        }
        meta.create_gate("mul", Some(s_mul), polys);
        cfg
    }

    /// Load a private value into a fresh one-row region.
    pub fn load_private(&self, cs: &ConstraintSystem, lay: &mut Layouter, a: Felt) -> (r: Result<
        Cell,
        Error,
    >)
        requires
            old(lay).wf(*cs),
            !old(lay).in_region,
            self.config.wf(*cs),
        ensures
            final(lay).wf(*cs),
            !final(lay).in_region,
            r is Ok <==> old(lay).next_row < old(lay).height,
            r is Err ==> r == Err::<Cell, Error>(Error::RowOutOfRange),
            final(lay).height == old(lay).height,
            final(lay).instances@ == old(lay).instances@,
            r matches Ok(cell) ==> {
                &&& cell == (Cell {
                    kind: ColumnKind::Advice,
                    index: self.config.advice0.index,
                    row: old(lay).next_row,
                })
                &&& final(lay).height == old(lay).height
                &&& final(lay).next_row == old(lay).next_row + 1
                &&& final(lay).cell_value(cell) == Some(a)
                &&& final(lay).selectors@ == old(lay).selectors@
                &&& (forall|cc: Cell|
                    cc.row < old(lay).next_row ==> #[trigger] final(lay).cell_value(cc) == old(
                        lay,
                    ).cell_value(cc))
                &&& final(lay).copies@ == old(lay).copies@
                &&& final(lay).instance_bindings@ == old(lay).instance_bindings@
                &&& final(lay).instances@ == old(lay).instances@
                &&& final(lay).tables@ == old(lay).tables@
            },
    {
        lay.start_region(cs, "load private");
        let cell = match lay.assign_advice(cs, self.config.advice0, 0, a) {
            Ok(cell) => cell,
            Err(e) => {
                lay.end_region(cs);
                return Err(e);
            },
        };
        lay.end_region(cs);
        Ok(cell)
    }

    /// Load a constant: it is written both into an advice cell and into
    /// the constant-enabled fixed column, with an equality constraint
    /// binding the two.
    pub fn load_constant(&self, cs: &ConstraintSystem, lay: &mut Layouter, constant: Felt) -> (r:
        Result<Cell, Error>)
        requires
            old(lay).wf(*cs),
            !old(lay).in_region,
            self.config.wf(*cs),
        ensures
            final(lay).wf(*cs),
            !final(lay).in_region,
            r is Ok <==> old(lay).next_row < old(lay).height,
            r is Err ==> r == Err::<Cell, Error>(Error::RowOutOfRange),
            final(lay).height == old(lay).height,
            final(lay).instances@ == old(lay).instances@,
            r matches Ok(cell) ==> {
                &&& cell == (Cell {
                    kind: ColumnKind::Advice,
                    index: self.config.advice0.index,
                    row: old(lay).next_row,
                })
                &&& final(lay).height == old(lay).height
                &&& final(lay).next_row == old(lay).next_row + 1
                &&& final(lay).cell_value(cell) == Some(constant)
                &&& final(lay).cell_value(
                    (Cell {
                        kind: ColumnKind::Fixed,
                        index: self.config.constant.index,
                        row: old(lay).next_row,
                    }),
                ) == Some(constant)
                &&& final(lay).selectors@ == old(lay).selectors@
                &&& (forall|cc: Cell|
                    cc.row < old(lay).next_row ==> #[trigger] final(lay).cell_value(cc) == old(
                        lay,
                    ).cell_value(cc))
                &&& final(lay).copies@ == old(lay).copies@.push(
                    (
                        cell,
                        (Cell {
                            kind: ColumnKind::Fixed,
                            index: self.config.constant.index,
                            row: old(lay).next_row,
                        }),
                    ),
                )
                &&& final(lay).instance_bindings@ == old(lay).instance_bindings@
                &&& final(lay).instances@ == old(lay).instances@
                &&& final(lay).tables@ == old(lay).tables@
            },
    {
        lay.start_region(cs, "load constant");
        let cell = match lay.assign_advice_from_constant(
            cs,
            self.config.constant,
            self.config.advice0,
            0,
            constant,
        ) {
            Ok(cell) => cell,
            Err(e) => {
                lay.end_region(cs);
                return Err(e);
            },
        };
        lay.end_region(cs);
        Ok(cell)
    }

    /// Bind a cell to the public input at `row`.
    pub fn expose_public(
        &self,
        cs: &ConstraintSystem,
        lay: &mut Layouter,
        num: Cell,
        row: usize,
    ) -> (r: Result<(), Error>)
        requires
            old(lay).wf(*cs),
            self.config.wf(*cs),
            num.kind == ColumnKind::Advice,
            num.index < cs.num_advice,
        ensures
            final(lay).wf(*cs),
            r is Ok <==> (cs.advice_eq@[num.index as int] && row < old(lay).instances@[
                self.config.instance.index as int]@.len()),
            r is Err ==> *final(lay) == *old(lay),
            r is Ok ==> {
                &&& final(lay).instance_bindings@ == old(lay).instance_bindings@.push(
                    (num, self.config.instance.index, row),
                )
                &&& old(lay).grid_unchanged(*final(lay))
                &&& final(lay).copies@ == old(lay).copies@
                &&& old(lay).layout_unchanged(*final(lay))
            },
    {
        lay.constrain_instance(cs, num, self.config.instance, row)
    }

    /// Multiply two earlier cells in a fresh two-row region: the factors
    /// are copied onto the first row, the product witnessed on the
    /// second.
    pub fn mul(&self, cs: &ConstraintSystem, lay: &mut Layouter, a: Cell, b: Cell) -> (r: Result<
        Cell,
        Error,
    >)
        requires
            old(lay).wf(*cs),
            !old(lay).in_region,
            self.config.wf(*cs),
            a.kind == ColumnKind::Advice,
            a.index < cs.num_advice,
            a.row < old(lay).next_row,
            cs.advice_eq@[a.index as int],
            b.kind == ColumnKind::Advice,
            b.index < cs.num_advice,
            b.row < old(lay).next_row,
            cs.advice_eq@[b.index as int],
            old(lay).cell_value(a) is Some,
            old(lay).cell_value(b) is Some,
        ensures
            final(lay).wf(*cs),
            !final(lay).in_region,
            r is Ok <==> old(lay).next_row + 2 <= old(lay).height,
            final(lay).height == old(lay).height,
            final(lay).instances@ == old(lay).instances@,
            r is Err ==> r == Err::<Cell, Error>(Error::RowOutOfRange),
            r matches Ok(cell) ==> {
                let start = old(lay).next_row;
                let va = old(lay).cell_value(a).unwrap();
                let vb = old(lay).cell_value(b).unwrap();
                &&& cell == (Cell {
                    kind: ColumnKind::Advice,
                    index: self.config.advice0.index,
                    row: (start + 1) as usize,
                })
                &&& final(lay).height == old(lay).height
                &&& final(lay).next_row == start + 2
                &&& sel_active(*final(lay), self.config.s_mul, start as int)
                &&& final(lay).selectors@[self.config.s_mul.index as int]@ == old(
                    lay,
                ).selectors@[self.config.s_mul.index as int]@.update(start as int, true)
                &&& (forall|si: int|
                    0 <= si < cs.num_selectors && si != self.config.s_mul.index
                        ==> final(lay).selectors@[si] == old(lay).selectors@[si])
                &&& final(lay).cell_value(cell) matches Some(v) && v@ == (va@ * vb@) % (
                MODULUS as int)
                &&& final(lay).cell_value(
                    (Cell {
                        kind: ColumnKind::Advice,
                        index: self.config.advice0.index,
                        row: start,
                    }),
                ) == Some(va)
                &&& final(lay).cell_value(
                    (Cell {
                        kind: ColumnKind::Advice,
                        index: self.config.advice1.index,
                        row: start,
                    }),
                ) == Some(vb)
                &&& (forall|cc: Cell|
                    cc.row < start ==> #[trigger] final(lay).cell_value(cc) == old(
                        lay,
                    ).cell_value(cc))
                &&& final(lay).copies@ == old(lay).copies@ + seq![
                    (
                        a,
                        (Cell {
                            kind: ColumnKind::Advice,
                            index: self.config.advice0.index,
                            row: start,
                        }),
                    ),
                    (
                        b,
                        (Cell {
                            kind: ColumnKind::Advice,
                            index: self.config.advice1.index,
                            row: start,
                        }),
                    ),
                ]
                &&& final(lay).instance_bindings@ == old(lay).instance_bindings@
                &&& final(lay).instances@ == old(lay).instances@
                &&& final(lay).tables@ == old(lay).tables@
            },
    {
        lay.start_region(cs, "mul");
        if lay.next_row + 2 > lay.height {
            lay.end_region(cs);
            return Err(Error::RowOutOfRange);
        }
        match lay.enable_selector(cs, self.config.s_mul, 0) {
            Ok(()) => {},
            Err(e) => {
                proof {
                    assert(false);
                }
                lay.end_region(cs);
                return Err(e);
            },
        }
        match lay.copy_advice(cs, a, self.config.advice0, 0) {
            Ok(_) => {},
            Err(e) => {
                proof {
                    assert(false);
                }
                lay.end_region(cs);
                return Err(e);
            },
        }
        match lay.copy_advice(cs, b, self.config.advice1, 0) {
            Ok(_) => {},
            Err(e) => {
                proof {
                    assert(false);
                }
                lay.end_region(cs);
                return Err(e);
            },
        }
        let va = match lay.value(a) {
            Ok(v) => v,
            Err(e) => {
                proof {
                    assert(false);
                }
                lay.end_region(cs);
                return Err(e);
            },
        };
        let vb = match lay.value(b) {
            Ok(v) => v,
            Err(e) => {
                proof {
                    assert(false);
                }
                lay.end_region(cs);
                return Err(e);
            },
        };
        let out = match lay.assign_advice(cs, self.config.advice0, 1, va.mul(vb)) {
            Ok(cell) => cell,
            Err(e) => {
                proof {
                    assert(false);
                }
                lay.end_region(cs);
                return Err(e);
            },
        };
        lay.end_region(cs);
        Ok(out)
    }
}

/// The handles a fresh constraint system deals the multiplication
/// circuit.
pub open spec fn fresh_field_config() -> FieldConfig {
    FieldConfig {
        advice0: (AdviceColumn { index: 0 }),
        advice1: (AdviceColumn { index: 1 }),
        instance: (InstanceColumn { index: 0 }),
        constant: (FixedColumn { index: 0 }),
        s_mul: (Selector { index: 0 }),
    }
}

/// The product the circuit computes: `constant * (a * b)^2` in the
/// field.
pub open spec fn simple_product(constant: Felt, a: Felt, b: Felt) -> int {
    let m = MODULUS as int;
    let ab = (a@ * b@) % m;
    let absq = (ab * ab) % m;
    (constant@ * absq) % m
}

/// Configure the multiplication circuit, synthesize
/// `constant * a^2 * b^2` from private inputs, expose the product at
/// instance row zero, and run the checker.  The returned pair is
/// exactly that circuit and witness, and the verdict is the checker's
/// for them.
pub fn simple_circuit_run(k: usize, constant: Felt, a: Felt, b: Felt, public_input: Vec<Felt>)
    -> (r: (ConstraintSystem, Layouter, Result<CheckOutcome, Error>))
    requires
        k <= 20,
    ensures
        r.1.wf(r.0),
        r.0.num_fixed == 1 && r.0.num_advice == 2 && r.0.num_selectors == 1 && r.0.num_instance
            == 1 && r.0.num_tables == 0,
        r.0.gates@.len() == 1,
        r.0.gates@[0].name@ == "mul"@,
        r.0.gates@[0].selector == Some(fresh_field_config().s_mul),
        r.0.gates@[0].polys@ == seq![mul_poly(fresh_field_config())],
        r.0.lookups@.len() == 0,
        r.1.height == (1usize << k),
        r.1.instances@.len() == 1 && r.1.instances@[0]@ == public_input@,
        r.2 is Ok <==> (9 <= (1usize << k) && public_input@.len() >= 1),
        r.2 is Ok ==> {
            &&& r.1.instance_bindings@.len() == 1
            &&& r.1.instance_bindings@[0].1 == 0
            &&& r.1.instance_bindings@[0].2 == 0
            &&& (r.1.cell_value(r.1.instance_bindings@[0].0) matches Some(v) && v@
                == simple_product(constant, a, b))
        },
        r.2 matches Ok(out) ==> ((out is Satisfied) <==> satisfied(r.0, r.1)),
        r.2 matches Ok(out) ==> (out matches CheckOutcome::Violations(vs) ==> vs@.len() > 0),
{
    let mut meta = ConstraintSystem::new();
    let advice0 = meta.advice_column();
    let advice1 = meta.advice_column();
    let instance = meta.instance_column();
    let constant_col = meta.fixed_column();
    let cfg = FieldChip::configured(&mut meta, advice0, advice1, instance, constant_col);
    proof {
        assert(cfg == fresh_field_config());
    }
    let chip = FieldChip::construct(cfg);
    let mut instances: Vec<Vec<Felt>> = Vec::new();
    instances.push(public_input);
    let mut lay = Layouter::new(&meta, k, instances);
    let a_cell = match chip.load_private(&meta, &mut lay, a) {
        Ok(cell) => cell,
        Err(e) => {
            return (meta, lay, Err(e));
        },
    };
    let b_cell = match chip.load_private(&meta, &mut lay, b) {
        Ok(cell) => cell,
        Err(e) => {
            return (meta, lay, Err(e));
        },
    };
    let const_cell = match chip.load_constant(&meta, &mut lay, constant) {
        Ok(cell) => cell,
        Err(e) => {
            return (meta, lay, Err(e));
        },
    };
    let ab = match chip.mul(&meta, &mut lay, a_cell, b_cell) {
        Ok(cell) => cell,
        Err(e) => {
            return (meta, lay, Err(e));
        },
    };
    let absq = match chip.mul(&meta, &mut lay, ab, ab) {
        Ok(cell) => cell,
        Err(e) => {
            return (meta, lay, Err(e));
        },
    };
    let c = match chip.mul(&meta, &mut lay, const_cell, absq) {
        Ok(cell) => cell,
        Err(e) => {
            return (meta, lay, Err(e));
        },
    };
    match chip.expose_public(&meta, &mut lay, c, 0) {
        Ok(()) => {},
        Err(e) => {
            return (meta, lay, Err(e));
        },
    }
    let verdict = crate::checker::check(&meta, &lay);
    (meta, lay, verdict)
}

} // verus!
