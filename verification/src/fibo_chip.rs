//! A recurrence circuit that alternates an addition gate with an
//! exclusive-or computed through a lookup argument: a three-column XOR
//! table is loaded first, even rows are constrained by `a + b = c`, odd
//! rows by membership of `(a, b, c)` in the table.

use vstd::prelude::*;

use crate::checker::{satisfied, sel_active, CheckOutcome};
use crate::columns::{AdviceColumn, Cell, ColumnKind, InstanceColumn, Selector, TableColumn};
use crate::cs::ConstraintSystem;
use crate::error::Error;
use crate::expr::{Expression, Rotation};
use crate::field::{spec_from_u64, Felt, MODULUS};
use crate::layouter::Layouter;

verus! {

/// Column, selector and table handles of the mixed recurrence circuit.
pub struct FibonacciConfig {
    pub col_a: AdviceColumn,
    pub col_b: AdviceColumn,
    pub col_c: AdviceColumn,
    pub s_add: Selector,
    pub s_xor: Selector,
    pub xor_a: TableColumn,
    pub xor_b: TableColumn,
    pub xor_out: TableColumn,
    pub instance: InstanceColumn,
}

impl FibonacciConfig {
    /// The handles name real, pairwise distinct columns, all enabled for
    /// the constraints the circuit records.
    pub open spec fn wf(self, cs: ConstraintSystem) -> bool {
        &&& cs.wf()
        &&& self.s_add.index < cs.num_selectors
        &&& self.s_xor.index < cs.num_selectors
        &&& self.col_a.index < cs.num_advice
        &&& self.col_b.index < cs.num_advice
        &&& self.col_c.index < cs.num_advice
        &&& self.instance.index < cs.num_instance
        &&& self.xor_a.index < cs.num_tables
        &&& self.xor_b.index < cs.num_tables
        &&& self.xor_out.index < cs.num_tables
        &&& cs.advice_eq@[self.col_a.index as int]
        &&& cs.advice_eq@[self.col_b.index as int]
        &&& cs.advice_eq@[self.col_c.index as int]
        &&& cs.instance_eq@[self.instance.index as int]
        &&& self.col_a.index != self.col_b.index
        &&& self.col_a.index != self.col_c.index
        &&& self.col_b.index != self.col_c.index
        &&& self.xor_a.index != self.xor_b.index
        &&& self.xor_a.index != self.xor_out.index
        &&& self.xor_b.index != self.xor_out.index
        &&& self.s_add.index != self.s_xor.index
    }
}

/// The addition gate's polynomial: `s_add * ((a + b) - c)`.
pub open spec fn fibo_add_poly(cfg: FibonacciConfig) -> Expression {
    Expression::Product(
        Box::new(Expression::Selector(cfg.s_add)),
        Box::new(
            Expression::Sum(
                Box::new(
                    Expression::Sum(
                        Box::new(Expression::Advice(cfg.col_a, Rotation { offset: 0 })),
                        Box::new(Expression::Advice(cfg.col_b, Rotation { offset: 0 })),
                    ),
                ),
                Box::new(
                    Expression::Negated(
                        Box::new(Expression::Advice(cfg.col_c, Rotation { offset: 0 })),
                    ),
                ),
            ),
        ),
    )
}

/// The XOR lookup's input expressions, each gated by the selector:
/// `(s_xor * a, s_xor * b, s_xor * c)` against the three table columns.
pub open spec fn fibo_lookup_entries(cfg: FibonacciConfig) -> Seq<(Expression, TableColumn)> {
    seq![
        (
            Expression::Product(
                Box::new(Expression::Selector(cfg.s_xor)),
                Box::new(Expression::Advice(cfg.col_a, Rotation { offset: 0 })),
            ),
            cfg.xor_a,
        ),
        (
            Expression::Product(
                Box::new(Expression::Selector(cfg.s_xor)),
                Box::new(Expression::Advice(cfg.col_b, Rotation { offset: 0 })),
            ),
            cfg.xor_b,
        ),
        (
            Expression::Product(
                Box::new(Expression::Selector(cfg.s_xor)),
                Box::new(Expression::Advice(cfg.col_c, Rotation { offset: 0 })),
            ),
            cfg.xor_out,
        ),
    ]
}

/// The `n`-th term of the mixed recurrence: even-index terms add their
/// two predecessors in the field, odd-index terms exclusive-or them.
pub open spec fn mix_term(a: int, b: int, n: nat) -> int
    decreases n,
{
    if n == 0 {
        a
    } else if n == 1 {
        b
    } else if n % 2 == 0 {
        (mix_term(a, b, (n - 2) as nat) + mix_term(a, b, (n - 1) as nat)) % (MODULUS as int)
    } else {
        ((mix_term(a, b, (n - 2) as nat) as u64) ^ (mix_term(a, b, (n - 1) as nat) as u64)) as int
            % (MODULUS as int)
    }
}

/// The circuit driver for the mixed recurrence.
pub struct FibonacciChip {
    pub config: FibonacciConfig,
}

impl FibonacciChip {
    /// Wrap an already-configured set of handles.
    pub fn construct(config: FibonacciConfig) -> (r: FibonacciChip)
        ensures
            r.config == config,
    {
        FibonacciChip { config }
    }

    /// Declare the circuit's columns, its addition gate and its XOR
    /// lookup argument.
    pub fn configure(meta: &mut ConstraintSystem) -> (cfg: FibonacciConfig)
        requires
            old(meta).wf(),
            old(meta).num_selectors + 2 < usize::MAX,
            old(meta).num_advice + 3 < usize::MAX,
            old(meta).num_instance < usize::MAX,
            old(meta).num_tables + 3 < usize::MAX,
        ensures
            final(meta).wf(),
            cfg.wf(*final(meta)),
            cfg.col_a.index == old(meta).num_advice,
            cfg.col_b.index == old(meta).num_advice + 1,
            cfg.col_c.index == old(meta).num_advice + 2,
            cfg.s_add.index == old(meta).num_selectors,
            cfg.s_xor.index == old(meta).num_selectors + 1,
            cfg.xor_a.index == old(meta).num_tables,
            cfg.xor_b.index == old(meta).num_tables + 1,
            cfg.xor_out.index == old(meta).num_tables + 2,
            cfg.instance.index == old(meta).num_instance,
            final(meta).num_fixed == old(meta).num_fixed,
            final(meta).num_advice == old(meta).num_advice + 3,
            final(meta).num_selectors == old(meta).num_selectors + 2,
            final(meta).num_instance == old(meta).num_instance + 1,
            final(meta).num_tables == old(meta).num_tables + 3,
            final(meta).gates@.len() == old(meta).gates@.len() + 1,
            final(meta).gates@.drop_last() == old(meta).gates@,
            final(meta).gates@.last().name@ == "add"@,
            final(meta).gates@.last().selector == Some(cfg.s_add),
            final(meta).gates@.last().polys@ == seq![fibo_add_poly(cfg)],
            final(meta).lookups@.len() == old(meta).lookups@.len() + 1,
            final(meta).lookups@.drop_last() == old(meta).lookups@,
            final(meta).lookups@.last().name@ == "lookup"@,
            final(meta).lookups@.last().selector == cfg.s_xor,
            final(meta).lookups@.last().entries@ == fibo_lookup_entries(cfg),
    {
        let col_a = meta.advice_column();
        let col_b = meta.advice_column();
        let col_c = meta.advice_column();
        let s_add = meta.selector();
        let s_xor = meta.complex_selector();
        let instance = meta.instance_column();

        let xor_a = meta.lookup_table_column();
        let xor_b = meta.lookup_table_column();
        let xor_out = meta.lookup_table_column();

        meta.enable_equality(col_a);
        meta.enable_equality(col_b);
        meta.enable_equality(col_c);
        meta.enable_instance_equality(instance);

        let cfg = FibonacciConfig {
            col_a,
            col_b,
            col_c,
            s_add,
            s_xor,
            xor_a,
            xor_b,
            xor_out,
            instance,
        };

        let s = meta.query_selector(s_add);
        let a = meta.query_advice(col_a, Rotation::cur());
        let b = meta.query_advice(col_b, Rotation::cur());
        let c = meta.query_advice(col_c, Rotation::cur());
        let poly = s.times(a.plus(b).plus(c.neg()));
        let mut polys: Vec<Expression> = Vec::new();
        polys.push(poly);
        proof {
            assert(polys@ =~= seq![fibo_add_poly(cfg)]);
        }
        meta.create_gate("add", Some(s_add), polys);

        let sx = meta.query_selector(s_xor);
        let lhs = meta.query_advice(col_a, Rotation::cur());
        let rhs = meta.query_advice(col_b, Rotation::cur());
        let out = meta.query_advice(col_c, Rotation::cur());
        let mut entries: Vec<(Expression, TableColumn)> = Vec::new();
        entries.push((sx.dup().times(lhs), xor_a));
        entries.push((sx.dup().times(rhs), xor_b));
        entries.push((sx.times(out), xor_out));
        proof {
            assert(entries@ =~= fibo_lookup_entries(cfg));
        }
        meta.create_lookup("lookup", s_xor, entries);
        cfg
    }

    /// Load the three-column XOR table: every pair of five-bit operands
    /// and their exclusive-or, one row per pair.
    pub fn load_table(&self, cs: &ConstraintSystem, lay: &mut Layouter) -> (r: Result<(), Error>)
        requires
            old(lay).wf(*cs),
            self.config.wf(*cs),
            old(lay).height >= 1024,
            old(lay).tables@[self.config.xor_a.index as int]@.len() == 0,
            old(lay).tables@[self.config.xor_b.index as int]@.len() == 0,
            old(lay).tables@[self.config.xor_out.index as int]@.len() == 0,
        ensures
            final(lay).wf(*cs),
            r is Ok,
            final(lay).tables@[self.config.xor_a.index as int]@.len() == 1024,
            final(lay).tables@[self.config.xor_b.index as int]@.len() == 1024,
            final(lay).tables@[self.config.xor_out.index as int]@.len() == 1024,
            forall|i: int|
                0 <= i < 1024 ==> #[trigger] final(lay).tables@[self.config.xor_a.index as int]@[i]
                    == Some(spec_from_u64((i / 32) as u64)),
            forall|i: int|
                0 <= i < 1024 ==> #[trigger] final(lay).tables@[self.config.xor_b.index as int]@[i]
                    == Some(spec_from_u64((i % 32) as u64)),
            forall|i: int|
                0 <= i < 1024 ==> #[trigger] final(lay).tables@[
                    self.config.xor_out.index as int]@[i] == Some(
                    spec_from_u64(((i / 32) as u64) ^ ((i % 32) as u64)),
                ),
            final(lay).fixed@ == old(lay).fixed@,
            final(lay).advice@ == old(lay).advice@,
            final(lay).selectors@ == old(lay).selectors@,
            final(lay).instances@ == old(lay).instances@,
            forall|t: int|
                0 <= t < cs.num_tables && t != self.config.xor_a.index && t
                    != self.config.xor_b.index && t != self.config.xor_out.index
                    ==> final(lay).tables@[t] == old(lay).tables@[t],
            old(lay).records_unchanged(*final(lay)),
            old(lay).layout_unchanged(*final(lay)),
    {
        let mut idx: usize = 0;
        for lhs in 0..32usize
            invariant
                lay.wf(*cs),
                self.config.wf(*cs),
                lay.height >= 1024,
                idx == lhs * 32,
                lay.tables@[self.config.xor_a.index as int]@.len() == idx,
                lay.tables@[self.config.xor_b.index as int]@.len() == idx,
                lay.tables@[self.config.xor_out.index as int]@.len() == idx,
                forall|i: int|
                    0 <= i < idx ==> #[trigger] lay.tables@[self.config.xor_a.index as int]@[i]
                        == Some(spec_from_u64((i / 32) as u64)),
                forall|i: int|
                    0 <= i < idx ==> #[trigger] lay.tables@[self.config.xor_b.index as int]@[i]
                        == Some(spec_from_u64((i % 32) as u64)),
                forall|i: int|
                    0 <= i < idx ==> #[trigger] lay.tables@[self.config.xor_out.index as int]@[i]
                        == Some(spec_from_u64(((i / 32) as u64) ^ ((i % 32) as u64))),
                lay.fixed@ == old(lay).fixed@,
                lay.advice@ == old(lay).advice@,
                lay.selectors@ == old(lay).selectors@,
                lay.instances@ == old(lay).instances@,
                forall|t: int|
                    0 <= t < cs.num_tables && t != self.config.xor_a.index && t
                        != self.config.xor_b.index && t != self.config.xor_out.index
                        ==> lay.tables@[t] == old(lay).tables@[t],
                old(lay).records_unchanged(*lay),
                old(lay).layout_unchanged(*lay),
        {
            for rhs in 0..32usize
                invariant
                    lay.wf(*cs),
                    self.config.wf(*cs),
                    lay.height >= 1024,
                    lhs < 32,
                    idx == lhs * 32 + rhs,
                    lay.tables@[self.config.xor_a.index as int]@.len() == idx,
                    lay.tables@[self.config.xor_b.index as int]@.len() == idx,
                    lay.tables@[self.config.xor_out.index as int]@.len() == idx,
                    forall|i: int|
                        0 <= i < idx ==> #[trigger] lay.tables@[self.config.xor_a.index as int]@[i]
                            == Some(spec_from_u64((i / 32) as u64)),
                    forall|i: int|
                        0 <= i < idx ==> #[trigger] lay.tables@[self.config.xor_b.index as int]@[i]
                            == Some(spec_from_u64((i % 32) as u64)),
                    forall|i: int|
                        0 <= i < idx ==> #[trigger] lay.tables@[
                            self.config.xor_out.index as int]@[i] == Some(
                            spec_from_u64(((i / 32) as u64) ^ ((i % 32) as u64)),
                        ),
                    lay.fixed@ == old(lay).fixed@,
                    lay.advice@ == old(lay).advice@,
                    lay.selectors@ == old(lay).selectors@,
                    lay.instances@ == old(lay).instances@,
                    forall|t: int|
                        0 <= t < cs.num_tables && t != self.config.xor_a.index && t
                            != self.config.xor_b.index && t != self.config.xor_out.index
                            ==> lay.tables@[t] == old(lay).tables@[t],
                    old(lay).records_unchanged(*lay),
                    old(lay).layout_unchanged(*lay),
            {
                proof {
                    assert(idx < 1024) by (nonlinear_arith)
                        requires
                            idx == lhs * 32 + rhs,
                            lhs < 32,
                            rhs < 32,
                    ;
                    vstd::arithmetic::div_mod::lemma_fundamental_div_mod_converse(
                        idx as int,
                        32,
                        lhs as int,
                        rhs as int,
                    );
                }
                match lay.assign_table_cell(cs, self.config.xor_a, idx, Felt::from_u64(lhs as u64))
                {
                    Ok(()) => {},
                    Err(e) => {
                        proof {
                            assert(false);
                        }
                        return Err(e);
                    },
                }
                match lay.assign_table_cell(cs, self.config.xor_b, idx, Felt::from_u64(rhs as u64))
                {
                    Ok(()) => {},
                    Err(e) => {
                        proof {
                            assert(false);
                        }
                        return Err(e);
                    },
                }
                match lay.assign_table_cell(
                    cs,
                    self.config.xor_out,
                    idx,
                    Felt::from_u64((lhs ^ rhs) as u64),
                ) {
                    Ok(()) => {},
                    Err(e) => {
                        proof {
                            assert(false);
                        }
                        return Err(e);
                    },
                }
                idx = idx + 1;
            }
        }
        Ok(())
    }

    /// Lay out the whole recurrence in one region: the seeds from the
    /// public inputs, then one term per row, adding on even rows and
    /// exclusive-oring on odd rows.
    #[verifier::rlimit(100)]
    pub fn assign(&self, cs: &ConstraintSystem, lay: &mut Layouter, nrows: usize) -> (r: Result<
        Cell,
        Error,
    >)
        requires
            old(lay).wf(*cs),
            !old(lay).in_region,
            self.config.wf(*cs),
            1 <= nrows,
        ensures
            final(lay).wf(*cs),
            !final(lay).in_region,
            final(lay).copies@.len() <= old(lay).copies@.len() + 2 * nrows,
            final(lay).height == old(lay).height,
            final(lay).instances@ == old(lay).instances@,
            final(lay).tables@ == old(lay).tables@,
            r is Ok <==> (old(lay).next_row + nrows <= old(lay).height && old(lay).instances@[
                self.config.instance.index as int]@.len() >= 2),
            r matches Err(e) ==> e == (if old(lay).next_row < old(lay).height && old(
                lay,
            ).instances@[self.config.instance.index as int]@.len() < 2 {
                Error::OutOfBounds
            } else {
                Error::RowOutOfRange
            }),
            r is Ok ==> {
                let ins = old(lay).instances@[self.config.instance.index as int]@;
                let cell = r.unwrap();
                &&& (forall|k: int|
                    0 <= k < old(lay).copies@.len() ==> final(lay).copies@[k] == old(
                        lay,
                    ).copies@[k])
                &&& (forall|k: int|
                    old(lay).copies@.len() <= k < final(lay).copies@.len()
                        ==> crate::equiv::pair_ok(*final(lay), #[trigger] final(lay).copies@[k]))
                &&& (forall|si: int|
                    0 <= si < cs.num_selectors && si != self.config.s_add.index && si
                        != self.config.s_xor.index ==> final(lay).selectors@[si] == old(
                        lay,
                    ).selectors@[si])
                &&& (forall|si: int, rr: int|
                    0 <= si < cs.num_selectors && 0 <= rr < old(lay).height && !(old(
                        lay,
                    ).next_row <= rr < old(lay).next_row + nrows)
                        ==> #[trigger] final(lay).selectors@[si]@[rr] == old(
                        lay,
                    ).selectors@[si]@[rr])
                &&& (forall|j: int|
                    0 <= j < nrows && j % 2 == 0 ==> #[trigger] sel_active(
                        *final(lay),
                        self.config.s_add,
                        old(lay).next_row + j,
                    ))
                &&& (forall|j: int|
                    1 <= j < nrows && j % 2 == 1 ==> #[trigger] sel_active(
                        *final(lay),
                        self.config.s_xor,
                        old(lay).next_row + j,
                    ))
                &&& (forall|j: int|
                    0 <= j < nrows && j % 2 == 1 ==> #[trigger] final(lay).selectors@[
                        self.config.s_add.index as int]@[old(lay).next_row + j] == old(
                        lay,
                    ).selectors@[self.config.s_add.index as int]@[old(lay).next_row + j])
                &&& (forall|j: int|
                    0 <= j < nrows && j % 2 == 0 ==> #[trigger] final(lay).selectors@[
                        self.config.s_xor.index as int]@[old(lay).next_row + j] == old(
                        lay,
                    ).selectors@[self.config.s_xor.index as int]@[old(lay).next_row + j])
                &&& ins.len() >= 2
                &&& cell.kind == ColumnKind::Advice
                &&& cell.index == self.config.col_c.index
                &&& cell.row < final(lay).height
                &&& final(lay).cell_value(cell) matches Some(v) && v@ == mix_term(
                    ins[0]@,
                    ins[1]@,
                    (nrows + 1) as nat,
                )
                &&& final(lay).cell_value(
                    (Cell {
                        kind: ColumnKind::Advice,
                        index: self.config.col_a.index,
                        row: old(lay).next_row,
                    }),
                ) == Some(ins[0])
                &&& final(lay).cell_value(
                    (Cell {
                        kind: ColumnKind::Advice,
                        index: self.config.col_b.index,
                        row: old(lay).next_row,
                    }),
                ) == Some(ins[1])
                &&& (forall|j: int|
                    0 <= j < nrows ==> (#[trigger] final(lay).cell_value(
                        (Cell {
                            kind: ColumnKind::Advice,
                            index: self.config.col_c.index,
                            row: (old(lay).next_row + j) as usize,
                        }),
                    ) matches Some(v) && v@ == mix_term(ins[0]@, ins[1]@, (j + 2) as nat)))
                &&& (forall|j: int|
                    1 <= j < nrows ==> (#[trigger] final(lay).cell_value(
                        (Cell {
                            kind: ColumnKind::Advice,
                            index: self.config.col_a.index,
                            row: (old(lay).next_row + j) as usize,
                        }),
                    ) matches Some(v) && v@ == mix_term(ins[0]@, ins[1]@, j as nat)))
                &&& (forall|j: int|
                    1 <= j < nrows ==> (#[trigger] final(lay).cell_value(
                        (Cell {
                            kind: ColumnKind::Advice,
                            index: self.config.col_b.index,
                            row: (old(lay).next_row + j) as usize,
                        }),
                    ) matches Some(v) && v@ == mix_term(ins[0]@, ins[1]@, (j + 1) as nat)))
                &&& final(lay).instances@ == old(lay).instances@
                &&& final(lay).instance_bindings@ == old(lay).instance_bindings@
                &&& final(lay).tables@ == old(lay).tables@
            },
    {
        let ghost ins = lay.instances@[self.config.instance.index as int]@;
        let ghost pre = *lay;
        lay.start_region(cs, "entire circuit");
        match lay.enable_selector(cs, self.config.s_add, 0) {
            Ok(()) => {},
            Err(e) => {
                lay.end_region(cs);
                return Err(e);
            },
        }
        let a_cell = match lay.assign_advice_from_instance(
            cs,
            self.config.instance,
            0,
            self.config.col_a,
            0,
        ) {
            Ok(cell) => cell,
            Err(e) => {
                lay.end_region(cs);
                return Err(e);
            },
        };
        let mut b_cell = match lay.assign_advice_from_instance(
            cs,
            self.config.instance,
            1,
            self.config.col_b,
            0,
        ) {
            Ok(cell) => cell,
            Err(e) => {
                lay.end_region(cs);
                return Err(e);
            },
        };
        let a_val = match lay.value(a_cell) {
            Ok(v) => v,
            Err(e) => {
                proof {
                    assert(false);
                }
                return Err(e);
            },
        };
        let b_val = match lay.value(b_cell) {
            Ok(v) => v,
            Err(e) => {
                proof {
                    assert(false);
                }
                return Err(e);
            },
        };
        let mut c_cell = match lay.assign_advice(cs, self.config.col_c, 0, a_val.add(b_val)) {
            Ok(cell) => cell,
            Err(e) => {
                proof {
                    assert(false);
                }
                return Err(e);
            },
        };
        let ghost start = old(lay).next_row;
        proof {
            reveal_with_fuel(mix_term, 3);
            assert(mix_term(ins[0]@, ins[1]@, 1) == ins[1]@);
            assert(mix_term(ins[0]@, ins[1]@, 2) == (ins[0]@ + ins[1]@) % (MODULUS as int));
        }
        let mut row: usize = 1;
        while row < nrows
            invariant
                lay.wf(*cs),
                self.config.wf(*cs),
                lay.in_region,
                1 <= row <= nrows,
                start == old(lay).next_row,
                start + nrows <= lay.height ==> start + nrows <= old(lay).height,
                old(lay).next_row + nrows <= old(lay).height ==> start + nrows <= lay.height,
                start == lay.region_start,
                lay.region_rows == row,
                start + row <= lay.height,
                ins.len() >= 2,
                lay.instances@ == old(lay).instances@,
                lay.instances@[self.config.instance.index as int]@ == ins,
                lay.instance_bindings@ == old(lay).instance_bindings@,
                lay.tables@ == old(lay).tables@,
                pre.wf(*cs),
                pre.selectors@ == old(lay).selectors@,
                pre.height == old(lay).height,
                pre.height == lay.height,
                old(lay).copies@.len() <= lay.copies@.len(),
                lay.copies@.len() <= old(lay).copies@.len() + 2 * row,
                forall|si: int|
                    0 <= si < cs.num_selectors && si != self.config.s_add.index && si
                        != self.config.s_xor.index ==> lay.selectors@[si] == pre.selectors@[si],
                forall|si: int, rr: int|
                    0 <= si < cs.num_selectors && 0 <= rr < pre.height && !(start <= rr < start
                        + row) ==> #[trigger] lay.selectors@[si]@[rr] == pre.selectors@[si]@[rr],
                forall|j: int|
                    0 <= j < row && j % 2 == 0 ==> #[trigger] sel_active(
                        *lay,
                        self.config.s_add,
                        start + j,
                    ),
                forall|j: int|
                    1 <= j < row && j % 2 == 1 ==> #[trigger] sel_active(
                        *lay,
                        self.config.s_xor,
                        start + j,
                    ),
                forall|j: int|
                    0 <= j < row && j % 2 == 1 ==> #[trigger] lay.selectors@[
                        self.config.s_add.index as int]@[start + j] == pre.selectors@[
                        self.config.s_add.index as int]@[start + j],
                forall|j: int|
                    0 <= j < row && j % 2 == 0 ==> #[trigger] lay.selectors@[
                        self.config.s_xor.index as int]@[start + j] == pre.selectors@[
                        self.config.s_xor.index as int]@[start + j],
                forall|k: int|
                    0 <= k < old(lay).copies@.len() ==> lay.copies@[k] == old(lay).copies@[k],
                forall|k: int|
                    old(lay).copies@.len() <= k < lay.copies@.len() ==> crate::equiv::pair_ok(
                        *lay,
                        #[trigger] lay.copies@[k],
                    ) && ((#[trigger] lay.copies@[k]).0.kind == ColumnKind::Advice
                        ==> lay.copies@[k].0.row < start + row) && (lay.copies@[k].1.kind
                        == ColumnKind::Advice ==> lay.copies@[k].1.row < start + row),
                b_cell.kind == ColumnKind::Advice,
                b_cell.index < cs.num_advice,
                cs.advice_eq@[b_cell.index as int],
                b_cell.row < start + row,
                c_cell.kind == ColumnKind::Advice,
                c_cell.index == self.config.col_c.index,
                c_cell.row < start + row,
                lay.cell_value(
                    (Cell {
                        kind: ColumnKind::Advice,
                        index: self.config.col_a.index,
                        row: start,
                    }),
                ) == Some(ins[0]),
                lay.cell_value(
                    (Cell {
                        kind: ColumnKind::Advice,
                        index: self.config.col_b.index,
                        row: start,
                    }),
                ) == Some(ins[1]),
                forall|j: int|
                    0 <= j < row ==> (#[trigger] lay.cell_value(
                        (Cell {
                            kind: ColumnKind::Advice,
                            index: self.config.col_c.index,
                            row: (start + j) as usize,
                        }),
                    ) matches Some(v) && v@ == mix_term(ins[0]@, ins[1]@, (j + 2) as nat)),
                forall|j: int|
                    1 <= j < row ==> (#[trigger] lay.cell_value(
                        (Cell {
                            kind: ColumnKind::Advice,
                            index: self.config.col_a.index,
                            row: (start + j) as usize,
                        }),
                    ) matches Some(v) && v@ == mix_term(ins[0]@, ins[1]@, j as nat)),
                forall|j: int|
                    1 <= j < row ==> (#[trigger] lay.cell_value(
                        (Cell {
                            kind: ColumnKind::Advice,
                            index: self.config.col_b.index,
                            row: (start + j) as usize,
                        }),
                    ) matches Some(v) && v@ == mix_term(ins[0]@, ins[1]@, (j + 1) as nat)),
                lay.cell_value(b_cell) matches Some(v) && v@ == mix_term(
                    ins[0]@,
                    ins[1]@,
                    row as nat,
                ),
                lay.cell_value(c_cell) matches Some(v) && v@ == mix_term(
                    ins[0]@,
                    ins[1]@,
                    (row + 1) as nat,
                ),
            decreases nrows - row,
        {
            if row >= lay.height || lay.region_start + row >= lay.height {
                lay.end_region(cs);
                return Err(Error::RowOutOfRange);
            }
            let ghost lay0 = *lay;
            let ghost abs = start + row;
            match lay.copy_advice(cs, b_cell, self.config.col_a, row) {
                Ok(_) => {},
                Err(e) => {
                    proof {
                        assert(false);
                    }
                    lay.end_region(cs);
                    return Err(e);
                },
            }
            let ghost lay1 = *lay;
            match lay.copy_advice(cs, c_cell, self.config.col_b, row) {
                Ok(_) => {},
                Err(e) => {
                    proof {
                        assert(false);
                    }
                    lay.end_region(cs);
                    return Err(e);
                },
            }
            let vb = match lay.value(b_cell) {
                Ok(v) => v,
                Err(e) => {
                    proof {
                        assert(false);
                    }
                    lay.end_region(cs);
                    return Err(e);
                },
            };
            let vc = match lay.value(c_cell) {
                Ok(v) => v,
                Err(e) => {
                    proof {
                        assert(false);
                    }
                    lay.end_region(cs);
                    return Err(e);
                },
            };
            let new_val = if row % 2 == 0 {
                match lay.enable_selector(cs, self.config.s_add, row) {
                    Ok(()) => {},
                    Err(e) => {
                        proof {
                            assert(false);
                        }
                        lay.end_region(cs);
                        return Err(e);
                    },
                }
                vb.add(vc)
            } else {
                match lay.enable_selector(cs, self.config.s_xor, row) {
                    Ok(()) => {},
                    Err(e) => {
                        proof {
                            assert(false);
                        }
                        lay.end_region(cs);
                        return Err(e);
                    },
                }
                vb.xor(vc)
            };
            let new_c = match lay.assign_advice(cs, self.config.col_c, row, new_val) {
                Ok(cell) => cell,
                Err(e) => {
                    proof {
                        assert(false);
                    }
                    lay.end_region(cs);
                    return Err(e);
                },
            };
            proof {
                assert forall|cc: Cell| cc.row < abs implies #[trigger] lay.cell_value(cc)
                    == lay0.cell_value(cc) by {
                    assert(lay.instances@ == lay0.instances@);
                    assert(lay.fixed@ == lay0.fixed@);
                }
                let acell = Cell { kind: ColumnKind::Advice, index: self.config.col_a.index, row: abs as usize };
                let bcell = Cell { kind: ColumnKind::Advice, index: self.config.col_b.index, row: abs as usize };
                assert(lay.cell_value(acell) == lay1.cell_value(acell));
                assert(lay.copies@ == lay0.copies@ + seq![(b_cell, acell), (c_cell, bcell)]) by {
                    assert(lay.copies@ =~= lay0.copies@ + seq![(b_cell, acell), (c_cell, bcell)]);
                }
                assert forall|k: int|
                    old(lay).copies@.len() <= k < lay.copies@.len() implies crate::equiv::pair_ok(
                    *lay,
                    #[trigger] lay.copies@[k],
                ) && ((lay.copies@[k]).0.kind == ColumnKind::Advice ==> lay.copies@[k].0.row < start
                    + row + 1) && ((lay.copies@[k]).1.kind == ColumnKind::Advice
                    ==> lay.copies@[k].1.row < start + row + 1) by {
                    if k < lay0.copies@.len() {
                        assert(lay.copies@[k] == lay0.copies@[k]);
                        let pr = lay0.copies@[k];
                        assert(crate::equiv::pair_ok(lay0, pr));
                        assert(lay.cell_value(pr.0) == lay0.cell_value(pr.0)) by {
                            if pr.0.kind == ColumnKind::Advice {
                                assert(pr.0.row < abs);
                            }
                        }
                        assert(lay.cell_value(pr.1) == lay0.cell_value(pr.1)) by {
                            if pr.1.kind == ColumnKind::Advice {
                                assert(pr.1.row < abs);
                            }
                        }
                    } else if k == lay0.copies@.len() {
                        assert(lay.copies@[k] == (b_cell, acell));
                        assert(lay.cell_value(b_cell) == lay0.cell_value(b_cell));
                        assert(lay1.cell_value(acell) == Some(lay0.cell_value(b_cell).unwrap()));
                    } else {
                        assert(lay.copies@[k] == (c_cell, bcell));
                        assert(lay.cell_value(c_cell) == lay0.cell_value(c_cell));
                    }
                }
                let ai = self.config.s_add.index as int;
                let xi = self.config.s_xor.index as int;
                assert(forall|si: int|
                    0 <= si < cs.num_selectors && si != ai && si != xi ==> lay.selectors@[si]
                        == lay0.selectors@[si]);
                if row % 2 == 0 {
                    assert(lay.selectors@[ai]@ == lay0.selectors@[ai]@.update(abs, true));
                    assert(lay.selectors@[xi] == lay0.selectors@[xi]);
                } else {
                    assert(lay.selectors@[xi]@ == lay0.selectors@[xi]@.update(abs, true));
                    assert(lay.selectors@[ai] == lay0.selectors@[ai]);
                }
                assert forall|si: int, rr: int|
                    0 <= si < cs.num_selectors && 0 <= rr < pre.height && !(start <= rr < start
                        + row + 1) implies #[trigger] lay.selectors@[si]@[rr]
                    == pre.selectors@[si]@[rr] by {
                    assert(rr != abs);
                    assert(lay0.selectors@[si]@[rr] == pre.selectors@[si]@[rr]);
                }
                assert forall|j: int| 0 <= j < row + 1 && j % 2 == 0 implies #[trigger] sel_active(
                    *lay,
                    self.config.s_add,
                    start + j,
                ) by {
                    if j < row {
                        assert(sel_active(lay0, self.config.s_add, start + j));
                    }
                }
                assert forall|j: int| 1 <= j < row + 1 && j % 2 == 1 implies #[trigger] sel_active(
                    *lay,
                    self.config.s_xor,
                    start + j,
                ) by {
                    if j < row {
                        assert(sel_active(lay0, self.config.s_xor, start + j));
                    }
                }
                assert forall|j: int|
                    0 <= j < row + 1 && j % 2 == 1 implies #[trigger] lay.selectors@[ai]@[start + j]
                        == pre.selectors@[ai]@[start + j] by {
                    if j < row {
                        assert(lay0.selectors@[ai]@[start + j] == pre.selectors@[ai]@[start + j]);
                    } else {
                        assert(lay0.selectors@[ai]@[abs] == pre.selectors@[ai]@[abs]);
                    }
                }
                assert forall|j: int|
                    0 <= j < row + 1 && j % 2 == 0 implies #[trigger] lay.selectors@[xi]@[start + j]
                        == pre.selectors@[xi]@[start + j] by {
                    if j < row {
                        assert(lay0.selectors@[xi]@[start + j] == pre.selectors@[xi]@[start + j]);
                    } else {
                        assert(lay0.selectors@[xi]@[abs] == pre.selectors@[xi]@[abs]);
                    }
                }
            }
            b_cell = c_cell;
            c_cell = new_c;
            row = row + 1;
        }
        let ghost layx = *lay;
        lay.end_region(cs);
        proof {
            assert(lay.selectors@ == layx.selectors@);
            assert(pre == *old(lay));
            assert forall|cc: Cell| #[trigger] lay.cell_value(cc) == layx.cell_value(cc) by {
                assert(lay.advice@ == layx.advice@);
                assert(lay.instances@ == layx.instances@);
                assert(lay.fixed@ == layx.fixed@);
            }
            assert forall|j: int| 0 <= j < nrows && j % 2 == 0 implies #[trigger] sel_active(
                *lay,
                self.config.s_add,
                start + j,
            ) by {
                assert(sel_active(layx, self.config.s_add, start + j));
            }
            assert forall|j: int| 1 <= j < nrows && j % 2 == 1 implies #[trigger] sel_active(
                *lay,
                self.config.s_xor,
                start + j,
            ) by {
                assert(sel_active(layx, self.config.s_xor, start + j));
            }
        }
        Ok(c_cell)
    }

    /// Bind a cell to the public input at `row`.
    pub fn expose_public(
        &self,
        cs: &ConstraintSystem,
        lay: &mut Layouter,
        cell: Cell,
        row: usize,
    ) -> (r: Result<(), Error>)
        requires
            old(lay).wf(*cs),
            self.config.wf(*cs),
            cell.kind == ColumnKind::Advice,
            cell.index < cs.num_advice,
        ensures
            final(lay).wf(*cs),
            r is Ok <==> (cs.advice_eq@[cell.index as int] && row < old(lay).instances@[
                self.config.instance.index as int]@.len()),
            r is Err ==> *final(lay) == *old(lay),
            r is Ok ==> {
                &&& final(lay).instance_bindings@ == old(lay).instance_bindings@.push(
                    (cell, self.config.instance.index, row),
                )
                &&& old(lay).grid_unchanged(*final(lay))
                &&& final(lay).copies@ == old(lay).copies@
                &&& old(lay).layout_unchanged(*final(lay))
            },
    {
        lay.constrain_instance(cs, cell, self.config.instance, row)
    }
}

/// The handles a fresh constraint system deals the mixed recurrence
/// circuit.
pub open spec fn fresh_fibodynamic_config() -> FibonacciConfig {
    FibonacciConfig {
        col_a: (AdviceColumn { index: 0 }),
        col_b: (AdviceColumn { index: 1 }),
        col_c: (AdviceColumn { index: 2 }),
        s_add: (Selector { index: 0 }),
        s_xor: (Selector { index: 1 }),
        xor_a: (TableColumn { index: 0 }),
        xor_b: (TableColumn { index: 1 }),
        xor_out: (TableColumn { index: 2 }),
        instance: (InstanceColumn { index: 0 }),
    }
}

/// Configure the mixed recurrence circuit, load its XOR table,
/// synthesize `nrows` rows, expose the final term at instance row two,
/// and run the checker.  The returned pair is exactly that circuit and
/// witness, and the verdict is the checker's for them.
pub fn fibodynamic_circuit_run(k: usize, nrows: usize, public_input: Vec<Felt>) -> (r: (
    ConstraintSystem,
    Layouter,
    Result<CheckOutcome, Error>,
))
    requires
        10 <= k <= 20,
        1 <= nrows <= 0x10_0000,
    ensures
        r.1.wf(r.0),
        r.0.num_fixed == 0 && r.0.num_advice == 3 && r.0.num_selectors == 2 && r.0.num_instance
            == 1 && r.0.num_tables == 3,
        r.0.gates@.len() == 1,
        r.0.gates@[0].name@ == "add"@,
        r.0.gates@[0].selector == Some(fresh_fibodynamic_config().s_add),
        r.0.gates@[0].polys@ == seq![fibo_add_poly(fresh_fibodynamic_config())],
        r.0.lookups@.len() == 1,
        r.0.lookups@[0].name@ == "lookup"@,
        r.0.lookups@[0].selector == fresh_fibodynamic_config().s_xor,
        r.0.lookups@[0].entries@ == fibo_lookup_entries(fresh_fibodynamic_config()),
        r.1.height == (1usize << k),
        r.1.instances@.len() == 1 && r.1.instances@[0]@ == public_input@,
        r.1.tables@[0]@.len() == 1024 && r.1.tables@[1]@.len() == 1024 && r.1.tables@[2]@.len()
            == 1024,
        forall|i: int|
            0 <= i < 1024 ==> #[trigger] r.1.tables@[2]@[i] == Some(
                spec_from_u64(((i / 32) as u64) ^ ((i % 32) as u64)),
            ),
        r.2 is Ok <==> (nrows <= (1usize << k) && public_input@.len() >= 3),
        r.2 is Ok ==> {
            let ins = public_input@;
            &&& r.1.instance_bindings@.len() == 1
            &&& r.1.instance_bindings@[0].1 == 0
            &&& r.1.instance_bindings@[0].2 == 2
            &&& (r.1.cell_value(r.1.instance_bindings@[0].0) matches Some(v) && v@ == mix_term(
                ins[0]@,
                ins[1]@,
                (nrows + 1) as nat,
            ))
        },
        r.2 matches Ok(out) ==> ((out is Satisfied) <==> satisfied(r.0, r.1)),
        r.2 matches Ok(out) ==> (out matches CheckOutcome::Violations(vs) ==> vs@.len() > 0),
{
    let mut meta = ConstraintSystem::new();
    let cfg = FibonacciChip::configure(&mut meta);
    proof {
        assert(cfg == fresh_fibodynamic_config());
    }
    let chip = FibonacciChip::construct(cfg);
    let mut instances: Vec<Vec<Felt>> = Vec::new();
    instances.push(public_input);
    let mut lay = Layouter::new(&meta, k, instances);
    match chip.load_table(&meta, &mut lay) {
        Ok(()) => {},
        Err(e) => {
            return (meta, lay, Err(e));
        },
    }
    let out_cell = match chip.assign(&meta, &mut lay, nrows) {
        Ok(cell) => cell,
        Err(e) => {
            return (meta, lay, Err(e));
        },
    };
    match chip.expose_public(&meta, &mut lay, out_cell, 2) {
        Ok(()) => {},
        Err(e) => {
            return (meta, lay, Err(e));
        },
    }
    let verdict = crate::checker::check(&meta, &lay);
    (meta, lay, verdict)
}

} // verus!
