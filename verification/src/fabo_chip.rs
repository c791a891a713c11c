//! An additive recurrence circuit: each region holds one `a + b = c`
//! row, values thread from region to region through copy constraints,
//! and the final term is exposed as a public input.  As in the layout
//! this mirrors, the addition gate's selector is enabled on the first
//! region only; the later rows are held to the recurrence by the copies
//! and the instance binding.

use vstd::prelude::*;

use crate::checker::{satisfied, sel_active, CheckOutcome};
use crate::columns::{AdviceColumn, Cell, ColumnKind, InstanceColumn, Selector};
use crate::cs::ConstraintSystem;
use crate::error::Error;
use crate::expr::{Expression, Rotation};
use crate::field::{Felt, MODULUS};
use crate::layouter::Layouter;

verus! {

/// Column and selector handles of the recurrence circuit.
pub struct FieldConfig {
    pub a: AdviceColumn,
    pub b: AdviceColumn,
    pub c: AdviceColumn,
    pub selector: Selector,
    pub instance: InstanceColumn,
}

impl FieldConfig {
    /// The handles name real, pairwise distinct columns, all enabled for
    /// the equality constraints the circuit records.
    pub open spec fn wf(self, cs: ConstraintSystem) -> bool {
        &&& cs.wf()
        &&& self.selector.index < cs.num_selectors
        &&& self.a.index < cs.num_advice
        &&& self.b.index < cs.num_advice
        &&& self.c.index < cs.num_advice
        &&& self.instance.index < cs.num_instance
        &&& cs.advice_eq@[self.a.index as int]
        &&& cs.advice_eq@[self.b.index as int]
        &&& cs.advice_eq@[self.c.index as int]
        &&& cs.instance_eq@[self.instance.index as int]
        &&& self.a.index != self.b.index
        &&& self.a.index != self.c.index
        &&& self.b.index != self.c.index
    }
}

/// The addition gate's polynomial: `s * ((a + b) - c)`.
pub open spec fn addition_poly(cfg: FieldConfig) -> Expression {
    Expression::Product(
        Box::new(Expression::Selector(cfg.selector)),
        Box::new(
            Expression::Sum(
                Box::new(
                    Expression::Sum(
                        Box::new(Expression::Advice(cfg.a, Rotation { offset: 0 })),
                        Box::new(Expression::Advice(cfg.b, Rotation { offset: 0 })),
                    ),
                ),
                Box::new(
                    Expression::Negated(
                        Box::new(Expression::Advice(cfg.c, Rotation { offset: 0 })),
                    ),
                ),
            ),
        ),
    )
}

/// The `n`-th term of the additive recurrence seeded with `a` and `b`,
/// reduced into the field.
pub open spec fn addrec(a: int, b: int, n: nat) -> int
    decreases n,
{
    if n == 0 {
        a
    } else if n == 1 {
        b
    } else {
        (addrec(a, b, (n - 2) as nat) + addrec(a, b, (n - 1) as nat)) % (MODULUS as int)
    }
}

/// The circuit driver for the additive recurrence.
pub struct FabonacciChip {
    pub config: FieldConfig,
}

impl FabonacciChip {
    /// Wrap an already-configured set of handles.
    pub fn construct(config: FieldConfig) -> (r: FabonacciChip)
        ensures
            r.config == config,
    {
        FabonacciChip { config }
    }

    /// Declare the circuit's columns, equality permissions and its gate.
    pub fn configure(meta: &mut ConstraintSystem) -> (cfg: FieldConfig)
        requires
            old(meta).wf(),
            old(meta).num_selectors < usize::MAX,
            old(meta).num_advice + 3 < usize::MAX,
            old(meta).num_instance < usize::MAX,
        ensures
            final(meta).wf(),
            cfg.wf(*final(meta)),
            cfg.a.index == old(meta).num_advice,
            cfg.b.index == old(meta).num_advice + 1,
            cfg.c.index == old(meta).num_advice + 2,
            cfg.selector.index == old(meta).num_selectors,
            cfg.instance.index == old(meta).num_instance,
            final(meta).num_fixed == old(meta).num_fixed,
            final(meta).num_advice == old(meta).num_advice + 3,
            final(meta).num_selectors == old(meta).num_selectors + 1,
            final(meta).num_instance == old(meta).num_instance + 1,
            final(meta).num_tables == old(meta).num_tables,
            final(meta).lookups@ == old(meta).lookups@,
            final(meta).gates@.len() == old(meta).gates@.len() + 1,
            final(meta).gates@.drop_last() == old(meta).gates@,
            final(meta).gates@.last().name@ == "addition gate"@,
            final(meta).gates@.last().selector == Some(cfg.selector),
            final(meta).gates@.last().polys@ == seq![addition_poly(cfg)],
    {
        let a = meta.advice_column();
        let b = meta.advice_column();
        let c = meta.advice_column();
        let instance = meta.instance_column();
        let selector = meta.selector();

        meta.enable_equality(a);
        meta.enable_equality(b);
        meta.enable_equality(c);
        meta.enable_instance_equality(instance);

        let cfg = FieldConfig { a, b, c, selector, instance };

        let a_exp = meta.query_advice(a, Rotation::cur());
        let b_exp = meta.query_advice(b, Rotation::cur());
        let c_exp = meta.query_advice(c, Rotation::cur());
        let selector_exp = meta.query_selector(selector);

        let poly = selector_exp.times(a_exp.plus(b_exp).plus(c_exp.neg()));
        let mut polys: Vec<Expression> = Vec::new();
        polys.push(poly);
        proof {
            assert(polys@ =~= seq![addition_poly(cfg)]);
        }
        meta.create_gate("addition gate", Some(selector), polys);
        cfg
    }

    /// Lay out the first region: the two seeds copied in from the public
    /// inputs and their sum.
    pub fn assign_first_row(&self, cs: &ConstraintSystem, lay: &mut Layouter) -> (r: Result<
        (Cell, Cell, Cell),
        Error,
    >)
        requires
            old(lay).wf(*cs),
            !old(lay).in_region,
            self.config.wf(*cs),
        ensures
            final(lay).wf(*cs),
            r is Ok <==> (old(lay).next_row < old(lay).height && old(lay).instances@[
                self.config.instance.index as int]@.len() >= 2),
            final(lay).height == old(lay).height,
            final(lay).instances@ == old(lay).instances@,
            r matches Err(e) ==> e == (if old(lay).next_row >= old(lay).height {
                Error::RowOutOfRange
            } else {
                Error::OutOfBounds
            }),
            r matches Ok(cells) ==> {
                let start = old(lay).next_row;
                let ins = old(lay).instances@[self.config.instance.index as int]@;
                &&& cells.0 == (Cell {
                    kind: ColumnKind::Advice,
                    index: self.config.a.index,
                    row: start,
                })
                &&& cells.1 == (Cell {
                    kind: ColumnKind::Advice,
                    index: self.config.b.index,
                    row: start,
                })
                &&& cells.2 == (Cell {
                    kind: ColumnKind::Advice,
                    index: self.config.c.index,
                    row: start,
                })
                &&& !final(lay).in_region
                &&& final(lay).height == old(lay).height
                &&& final(lay).next_row == start + 1
                &&& sel_active(*final(lay), self.config.selector, start as int)
                &&& final(lay).selectors@[self.config.selector.index as int]@ == old(
                    lay,
                ).selectors@[self.config.selector.index as int]@.update(start as int, true)
                &&& (forall|si: int|
                    0 <= si < cs.num_selectors && si != self.config.selector.index
                        ==> final(lay).selectors@[si] == old(lay).selectors@[si])
                &&& final(lay).cell_value(cells.0) == Some(ins[0])
                &&& final(lay).cell_value(cells.1) == Some(ins[1])
                &&& final(lay).cell_value(cells.2) matches Some(c) && c@ == (ins[0]@ + ins[1]@) % (
                MODULUS as int)
                &&& final(lay).copies@ == old(lay).copies@ + seq![
                    (
                        cells.0,
                        (Cell {
                            kind: ColumnKind::Instance,
                            index: self.config.instance.index,
                            row: 0,
                        }),
                    ),
                    (
                        cells.1,
                        (Cell {
                            kind: ColumnKind::Instance,
                            index: self.config.instance.index,
                            row: 1,
                        }),
                    ),
                ]
                &&& final(lay).instance_bindings@ == old(lay).instance_bindings@
                &&& final(lay).instances@ == old(lay).instances@
                &&& final(lay).tables@ == old(lay).tables@
            },
    {
        lay.start_region(cs, "fabonacci");
        match lay.enable_selector(cs, self.config.selector, 0) {
            Ok(()) => {},
            Err(e) => {
                return Err(e);
            },
        }
        let a_cell = match lay.assign_advice_from_instance(
            cs,
            self.config.instance,
            0,
            self.config.a,
            0,
        ) {
            Ok(cell) => cell,
            Err(e) => {
                return Err(e);
            },
        };
        let b_cell = match lay.assign_advice_from_instance(
            cs,
            self.config.instance,
            1,
            self.config.b,
            0,
        ) {
            Ok(cell) => cell,
            Err(e) => {
                return Err(e);
            },
        };
        let a_val = match lay.value(a_cell) {
            Ok(v) => v,
            Err(e) => {
                proof {
                    assert(false);
                }
                return Err(e);
            },
        };
        let b_val = match lay.value(b_cell) {
            Ok(v) => v,
            Err(e) => {
                proof {
                    assert(false);
                }
                return Err(e);
            },
        };
        let c_cell = match lay.assign_advice(cs, self.config.c, 0, a_val.add(b_val)) {
            Ok(cell) => cell,
            Err(e) => {
                proof {
                    assert(false);
                }
                return Err(e);
            },
        };
        lay.end_region(cs);
        Ok((a_cell, b_cell, c_cell))
    }

    /// Lay out one further region: the previous two terms copied across
    /// and their sum.  Following the original layout, the addition
    /// gate's selector is not enabled here — it constrains the first
    /// region only — so these rows are held to the recurrence through
    /// the recorded copies and the exposed instance binding alone.
    pub fn assign_row(&self, cs: &ConstraintSystem, lay: &mut Layouter, prev_b: &Cell, prev_c:
        &Cell) -> (r: Result<Cell, Error>)
        requires
            old(lay).wf(*cs),
            !old(lay).in_region,
            self.config.wf(*cs),
            prev_b.kind == ColumnKind::Advice,
            prev_b.index < cs.num_advice,
            prev_b.row < old(lay).height,
            cs.advice_eq@[prev_b.index as int],
            prev_c.kind == ColumnKind::Advice,
            prev_c.index < cs.num_advice,
            prev_c.row < old(lay).height,
            cs.advice_eq@[prev_c.index as int],
            old(lay).cell_value(*prev_b) is Some,
            old(lay).cell_value(*prev_c) is Some,
        ensures
            final(lay).wf(*cs),
            r is Ok <==> old(lay).next_row < old(lay).height,
            r is Err ==> r == Err::<Cell, Error>(Error::RowOutOfRange),
            final(lay).height == old(lay).height,
            final(lay).instances@ == old(lay).instances@,
            r matches Ok(cell) ==> {
                let start = old(lay).next_row;
                let vb = old(lay).cell_value(*prev_b).unwrap();
                let vc = old(lay).cell_value(*prev_c).unwrap();
                &&& cell == (Cell {
                    kind: ColumnKind::Advice,
                    index: self.config.c.index,
                    row: start,
                })
                &&& !final(lay).in_region
                &&& final(lay).height == old(lay).height
                &&& final(lay).next_row == start + 1
                &&& final(lay).selectors@ == old(lay).selectors@
                &&& final(lay).cell_value(
                    (Cell { kind: ColumnKind::Advice, index: self.config.a.index, row: start }),
                ) == Some(vb)
                &&& final(lay).cell_value(
                    (Cell { kind: ColumnKind::Advice, index: self.config.b.index, row: start }),
                ) == Some(vc)
                &&& final(lay).cell_value(cell) matches Some(c) && c@ == (vb@ + vc@) % (
                MODULUS as int)
                &&& (forall|cc: Cell|
                    cc.row < start ==> #[trigger] final(lay).cell_value(cc) == old(
                        lay,
                    ).cell_value(cc))
                &&& final(lay).copies@ == old(lay).copies@ + seq![
                    (
                        *prev_b,
                        (Cell { kind: ColumnKind::Advice, index: self.config.a.index, row: start }),
                    ),
                    (
                        *prev_c,
                        (Cell { kind: ColumnKind::Advice, index: self.config.b.index, row: start }),
                    ),
                ]
                &&& final(lay).instance_bindings@ == old(lay).instance_bindings@
                &&& final(lay).instances@ == old(lay).instances@
                &&& final(lay).tables@ == old(lay).tables@
            },
    {
        lay.start_region(cs, "next row");
        match lay.copy_advice(cs, *prev_b, self.config.a, 0) {
            Ok(_) => {},
            Err(e) => {
                lay.end_region(cs);
                return Err(e);
            },
        }
        match lay.copy_advice(cs, *prev_c, self.config.b, 0) {
            Ok(_) => {},
            Err(e) => {
                proof {
                    assert(false);
                }
                return Err(e);
            },
        }
        let vb = match lay.value(*prev_b) {
            Ok(v) => v,
            Err(e) => {
                proof {
                    assert(false);
                }
                return Err(e);
            },
        };
        let vc = match lay.value(*prev_c) {
            Ok(v) => v,
            Err(e) => {
                proof {
                    assert(false);
                }
                return Err(e);
            },
        };
        let c_cell = match lay.assign_advice(cs, self.config.c, 0, vb.add(vc)) {
            Ok(cell) => cell,
            Err(e) => {
                proof {
                    assert(false);
                }
                return Err(e);
            },
        };
        lay.end_region(cs);
        Ok(c_cell)
    }

    /// Bind a cell to the public input at `row`.
    pub fn expose_public(
        &self,
        cs: &ConstraintSystem,
        lay: &mut Layouter,
        out: &Cell,
        row: usize,
    ) -> (r: Result<(), Error>)
        requires
            old(lay).wf(*cs),
            self.config.wf(*cs),
            out.kind == ColumnKind::Advice,
            out.index < cs.num_advice,
        ensures
            final(lay).wf(*cs),
            r is Ok <==> (cs.advice_eq@[out.index as int] && row < old(lay).instances@[
                self.config.instance.index as int]@.len()),
            r is Err ==> *final(lay) == *old(lay),
            r is Ok ==> {
                &&& final(lay).instance_bindings@ == old(lay).instance_bindings@.push(
                    (*out, self.config.instance.index, row),
                )
                &&& old(lay).grid_unchanged(*final(lay))
                &&& final(lay).copies@ == old(lay).copies@
                &&& old(lay).layout_unchanged(*final(lay))
            },
    {
        lay.constrain_instance(cs, *out, self.config.instance, row)
    }
}

/// Synthesize the recurrence to `nterms` terms (at least three): the
/// first region holds the seeds and the third term, each further region
/// one more term, and the final term is bound to instance row two.
pub fn fabonacci_synthesize(
    cs: &ConstraintSystem,
    lay: &mut Layouter,
    chip: &FabonacciChip,
    nterms: usize,
) -> (r: Result<(), Error>)
    requires
        old(lay).wf(*cs),
        !old(lay).in_region,
        chip.config.wf(*cs),
        3 <= nterms,
    ensures
        final(lay).wf(*cs),
        r is Ok <==> (old(lay).next_row + nterms - 2 <= old(lay).height && old(lay).instances@[
            chip.config.instance.index as int]@.len() >= 3),
        final(lay).height == old(lay).height,
        final(lay).instances@ == old(lay).instances@,
        r is Ok ==> {
            let ins = old(lay).instances@[chip.config.instance.index as int]@;
            &&& final(lay).copies@.len() <= old(lay).copies@.len() + 2 * nterms
            &&& ins.len() >= 3
            &&& final(lay).instances@ == old(lay).instances@
            &&& final(lay).instance_bindings@.len() == old(lay).instance_bindings@.len() + 1
            &&& final(lay).instance_bindings@.last().1 == chip.config.instance.index
            &&& final(lay).instance_bindings@.last().2 == 2
            &&& final(lay).cell_value(final(lay).instance_bindings@.last().0) matches Some(v)
                && v@ == addrec(ins[0]@, ins[1]@, (nterms - 1) as nat)
        },
{
    let ghost ins = lay.instances@[chip.config.instance.index as int]@;
    let first = match chip.assign_first_row(cs, lay) {
        Ok(cells) => cells,
        Err(e) => {
            return Err(e);
        },
    };
    let (_a, mut prev_b, mut prev_c) = first;
    proof {
        reveal_with_fuel(addrec, 3);
        assert(addrec(ins[0]@, ins[1]@, 1) == ins[1]@);
        assert(lay.cell_value(prev_c).unwrap()@ == addrec(ins[0]@, ins[1]@, 2));
    }
    let mut n: usize = 3;
    while n < nterms
        invariant
            lay.wf(*cs),
            !lay.in_region,
            chip.config.wf(*cs),
            3 <= n <= nterms,
            lay.height == old(lay).height,
            lay.next_row == old(lay).next_row + n - 2,
            lay.instances@ == old(lay).instances@,
            lay.instances@[chip.config.instance.index as int]@ == ins,
            ins.len() >= 2,
            prev_b.kind == ColumnKind::Advice,
            prev_b.index < cs.num_advice,
            prev_b.row < lay.next_row,
            cs.advice_eq@[prev_b.index as int],
            prev_c.kind == ColumnKind::Advice,
            prev_c.index < cs.num_advice,
            prev_c.row < lay.next_row,
            cs.advice_eq@[prev_c.index as int],
            lay.cell_value(prev_b) matches Some(v) && v@ == addrec(ins[0]@, ins[1]@, (n - 2) as nat),
            lay.cell_value(prev_c) matches Some(v) && v@ == addrec(ins[0]@, ins[1]@, (n - 1) as nat),
            lay.instance_bindings@ == old(lay).instance_bindings@,
            lay.copies@.len() <= old(lay).copies@.len() + 2 * n - 4,
        decreases nterms - n,
    {
        let c_cell = match chip.assign_row(cs, lay, &prev_b, &prev_c) {
            Ok(cell) => cell,
            Err(e) => {
                return Err(e);
            },
        };
        prev_b = prev_c;
        prev_c = c_cell;
        n = n + 1;
    }
    match chip.expose_public(cs, lay, &prev_c, 2) {
        Ok(()) => {},
        Err(e) => {
            return Err(e);
        },
    }
    Ok(())
}

/// The handles a fresh constraint system deals the recurrence circuit.
pub open spec fn fresh_fabonacci_config() -> FieldConfig {
    FieldConfig {
        a: (AdviceColumn { index: 0 }),
        b: (AdviceColumn { index: 1 }),
        c: (AdviceColumn { index: 2 }),
        selector: (Selector { index: 0 }),
        instance: (InstanceColumn { index: 0 }),
    }
}

/// Configure the recurrence circuit, synthesize `nterms` terms from the
/// seeds in the public input, and run the checker.  The returned pair is
/// exactly that circuit and witness, and the verdict is the checker's
/// for them.
pub fn fabonacci_circuit_run(k: usize, nterms: usize, public_input: Vec<Felt>) -> (r: (
    ConstraintSystem,
    Layouter,
    Result<CheckOutcome, Error>,
))
    requires
        k <= 20,
        3 <= nterms <= 0x10_0000,
    ensures
        r.1.wf(r.0),
        r.0.num_fixed == 0 && r.0.num_advice == 3 && r.0.num_selectors == 1 && r.0.num_instance
            == 1 && r.0.num_tables == 0,
        r.0.gates@.len() == 1,
        r.0.gates@[0].name@ == "addition gate"@,
        r.0.gates@[0].selector == Some(fresh_fabonacci_config().selector),
        r.0.gates@[0].polys@ == seq![addition_poly(fresh_fabonacci_config())],
        r.0.lookups@.len() == 0,
        r.1.height == (1usize << k),
        r.1.instances@.len() == 1 && r.1.instances@[0]@ == public_input@,
        r.2 is Ok <==> (nterms - 2 <= (1usize << k) && public_input@.len() >= 3),
        r.2 is Ok ==> {
            let ins = public_input@;
            &&& r.1.instance_bindings@.len() == 1
            &&& r.1.instance_bindings@[0].1 == 0
            &&& r.1.instance_bindings@[0].2 == 2
            &&& (r.1.cell_value(r.1.instance_bindings@[0].0) matches Some(v) && v@ == addrec(
                ins[0]@,
                ins[1]@,
                (nterms - 1) as nat,
            ))
        },
        r.2 matches Ok(out) ==> ((out is Satisfied) <==> satisfied(r.0, r.1)),
        r.2 matches Ok(out) ==> (out matches CheckOutcome::Violations(vs) ==> vs@.len() > 0),
{
    let mut meta = ConstraintSystem::new();
    let cfg = FabonacciChip::configure(&mut meta);
    proof {
        assert(cfg == fresh_fabonacci_config());
    }
    let chip = FabonacciChip::construct(cfg);
    let mut instances: Vec<Vec<Felt>> = Vec::new();
    instances.push(public_input);
    let mut lay = Layouter::new(&meta, k, instances);
    match fabonacci_synthesize(&meta, &mut lay, &chip, nterms) {
        Ok(()) => {},
        Err(e) => {
            return (meta, lay, Err(e));
        },
    }
    let verdict = crate::checker::check(&meta, &lay);
    (meta, lay, verdict)
}

/// On a correct witness the addition gate's polynomial vanishes: at any
/// row where the selector is on and the third cell holds the field sum
/// of the first two, `s * ((a + b) - c)` evaluates to zero.
pub proof fn lemma_addition_poly_vanishes(
    lay: Layouter,
    cfg: FieldConfig,
    row: int,
    a: Felt,
    b: Felt,
    c: Felt,
)
    requires
        0 <= row < lay.height,
        cfg.a.index < lay.advice@.len(),
        cfg.b.index < lay.advice@.len(),
        cfg.c.index < lay.advice@.len(),
        forall|i: int|
            0 <= i < lay.advice@.len() ==> (#[trigger] lay.advice@[i])@.len() == lay.height,
        sel_active(lay, cfg.selector, row),
        lay.advice@[cfg.a.index as int]@[row] == Some(a),
        lay.advice@[cfg.b.index as int]@[row] == Some(b),
        lay.advice@[cfg.c.index as int]@[row] == Some(c),
        c@ == (a@ + b@) % (MODULUS as int),
    ensures
        crate::checker::poly_ok(lay, addition_poly(cfg), row),
{
    let m = MODULUS as int;
    let a_q = Expression::Advice(cfg.a, Rotation { offset: 0 });
    let b_q = Expression::Advice(cfg.b, Rotation { offset: 0 });
    let c_q = Expression::Advice(cfg.c, Rotation { offset: 0 });
    let ab = Expression::Sum(Box::new(a_q), Box::new(b_q));
    let neg_c = Expression::Negated(Box::new(c_q));
    let body = Expression::Sum(Box::new(ab), Box::new(neg_c));
    let sel_e = Expression::Selector(cfg.selector);
    let sum = (a@ + b@) % m;
    let neg = (0 - c@) % m;
    assert(crate::eval::eval_val(a_q, lay, row) == Ok::<int, Error>(a@));
    assert(crate::eval::eval_val(b_q, lay, row) == Ok::<int, Error>(b@));
    assert(crate::eval::eval_val(c_q, lay, row) == Ok::<int, Error>(c@));
    assert(crate::eval::eval_val(ab, lay, row) == Ok::<int, Error>(sum));
    assert(crate::eval::eval_val(neg_c, lay, row) == Ok::<int, Error>(neg));
    assert(crate::eval::eval_val(body, lay, row) == Ok::<int, Error>((sum + neg) % m));
    assert(crate::eval::eval_val(sel_e, lay, row) == Ok::<int, Error>(1));
    assert((sum + neg) % m == 0) by {
        vstd::arithmetic::div_mod::lemma_mod_bound(a@ + b@, m);
        if c@ == 0 {
            vstd::arithmetic::div_mod::lemma_small_mod(0nat, m as nat);
        } else {
            vstd::arithmetic::div_mod::lemma_mod_add_multiples_vanish(-c@, m);
            assert(neg == m - c@) by {
                vstd::arithmetic::div_mod::lemma_small_mod((m - c@) as nat, m as nat);
            }
            vstd::arithmetic::div_mod::lemma_mod_self_0(m);
        }
    }
    assert(addition_poly(cfg) == Expression::Product(Box::new(sel_e), Box::new(body)));
    assert(crate::eval::eval_val(addition_poly(cfg), lay, row) == Ok::<int, Error>(
        (1 * ((sum + neg) % m)) % m,
    ));
    assert((1int * ((sum + neg) % m)) % m == 0) by {
        assert(1int * 0int == 0);
        vstd::arithmetic::div_mod::lemma_small_mod(0nat, m as nat);
    }
}

} // verus!
