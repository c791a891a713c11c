//! A hash-check circuit over a lookup table: a three-column table is
//! loaded with every pair of operands below a range and their
//! exclusive-or standing in for a hash, and a lookup argument constrains
//! witnessed triples to appear among its rows.

use vstd::prelude::*;

use crate::checker::{satisfied, sel_active, CheckOutcome};
use crate::columns::{AdviceColumn, Cell, ColumnKind, Selector, TableColumn};
use crate::cs::ConstraintSystem;
use crate::error::Error;
use crate::expr::{Expression, Rotation};
use crate::field::{spec_from_u64, Felt};
use crate::layouter::Layouter;

verus! {

/// The three table-column handles: both operands and their hash.
pub struct HashTableConfig {
    pub input_a: TableColumn,
    pub input_b: TableColumn,
    pub hash_value: TableColumn,
}

impl HashTableConfig {
    /// The handles name real, pairwise distinct table columns.
    pub open spec fn wf(self, cs: ConstraintSystem) -> bool {
        &&& cs.wf()
        &&& self.input_a.index < cs.num_tables
        &&& self.input_b.index < cs.num_tables
        &&& self.hash_value.index < cs.num_tables
        &&& self.input_a.index != self.input_b.index
        &&& self.input_a.index != self.hash_value.index
        &&& self.input_b.index != self.hash_value.index
    }

    /// Allocate the three table columns.
    pub fn configure(meta: &mut ConstraintSystem) -> (cfg: HashTableConfig)
        requires
            old(meta).wf(),
            old(meta).num_tables + 3 < usize::MAX,
        ensures
            final(meta).wf(),
            cfg.wf(*final(meta)),
            cfg.input_a.index == old(meta).num_tables,
            cfg.input_b.index == old(meta).num_tables + 1,
            cfg.hash_value.index == old(meta).num_tables + 2,
            final(meta).num_tables == old(meta).num_tables + 3,
            final(meta).num_fixed == old(meta).num_fixed,
            final(meta).num_advice == old(meta).num_advice,
            final(meta).num_instance == old(meta).num_instance,
            final(meta).num_selectors == old(meta).num_selectors,
            final(meta).gates@ == old(meta).gates@,
            final(meta).lookups@ == old(meta).lookups@,
            final(meta).advice_eq@ == old(meta).advice_eq@,
            final(meta).instance_eq@ == old(meta).instance_eq@,
            final(meta).fixed_const@ == old(meta).fixed_const@,
            final(meta).sel_complex@ == old(meta).sel_complex@,
    {
        let input_a = meta.lookup_table_column();
        let input_b = meta.lookup_table_column();
        let hash_value = meta.lookup_table_column();
        HashTableConfig { input_a, input_b, hash_value }
    }

    /// Load one row per operand pair below `range`: the operands and
    /// their exclusive-or.
    pub fn load(&self, cs: &ConstraintSystem, lay: &mut Layouter, range: usize) -> (r: Result<
        (),
        Error,
    >)
        requires
            old(lay).wf(*cs),
            self.wf(*cs),
            range <= 1024,
            range * range <= old(lay).height,
            old(lay).tables@[self.input_a.index as int]@.len() == 0,
            old(lay).tables@[self.input_b.index as int]@.len() == 0,
            old(lay).tables@[self.hash_value.index as int]@.len() == 0,
        ensures
            final(lay).wf(*cs),
            r is Ok,
            final(lay).tables@[self.input_a.index as int]@.len() == range * range,
            final(lay).tables@[self.input_b.index as int]@.len() == range * range,
            final(lay).tables@[self.hash_value.index as int]@.len() == range * range,
            forall|i: int|
                0 <= i < range * range ==> #[trigger] final(lay).tables@[
                    self.input_a.index as int]@[i] == Some(spec_from_u64((i / (range as int))
                    as u64)),
            forall|i: int|
                0 <= i < range * range ==> #[trigger] final(lay).tables@[
                    self.input_b.index as int]@[i] == Some(spec_from_u64((i % (range as int))
                    as u64)),
            forall|i: int|
                0 <= i < range * range ==> #[trigger] final(lay).tables@[
                    self.hash_value.index as int]@[i] == Some(
                    spec_from_u64(((i / (range as int)) as u64) ^ ((i % (range as int)) as u64)),
                ),
            final(lay).fixed@ == old(lay).fixed@,
            final(lay).advice@ == old(lay).advice@,
            final(lay).selectors@ == old(lay).selectors@,
            final(lay).instances@ == old(lay).instances@,
            forall|t: int|
                0 <= t < cs.num_tables && t != self.input_a.index && t != self.input_b.index && t
                    != self.hash_value.index ==> final(lay).tables@[t] == old(lay).tables@[t],
            old(lay).records_unchanged(*final(lay)),
            old(lay).layout_unchanged(*final(lay)),
    {
        let mut idx: usize = 0;
        proof {
            assert(0int * (range as int) == 0) by (nonlinear_arith);
        }
        for lhs in 0..range
            invariant
                lay.wf(*cs),
                self.wf(*cs),
                range <= 1024,
                range * range <= lay.height,
                idx == lhs * range,
                lhs <= range,
                lay.tables@[self.input_a.index as int]@.len() == idx,
                lay.tables@[self.input_b.index as int]@.len() == idx,
                lay.tables@[self.hash_value.index as int]@.len() == idx,
                forall|i: int|
                    0 <= i < idx ==> #[trigger] lay.tables@[self.input_a.index as int]@[i] == Some(
                        spec_from_u64((i / (range as int)) as u64),
                    ),
                forall|i: int|
                    0 <= i < idx ==> #[trigger] lay.tables@[self.input_b.index as int]@[i] == Some(
                        spec_from_u64((i % (range as int)) as u64),
                    ),
                forall|i: int|
                    0 <= i < idx ==> #[trigger] lay.tables@[self.hash_value.index as int]@[i]
                        == Some(
                        spec_from_u64(((i / (range as int)) as u64) ^ ((i % (range as int))
                            as u64)),
                    ),
                lay.fixed@ == old(lay).fixed@,
                lay.advice@ == old(lay).advice@,
                lay.selectors@ == old(lay).selectors@,
                lay.instances@ == old(lay).instances@,
                forall|t: int|
                    0 <= t < cs.num_tables && t != self.input_a.index && t != self.input_b.index
                        && t != self.hash_value.index ==> lay.tables@[t] == old(lay).tables@[t],
                old(lay).records_unchanged(*lay),
                old(lay).layout_unchanged(*lay),
        {
            for rhs in 0..range
                invariant
                    lay.wf(*cs),
                    self.wf(*cs),
                    range <= 1024,
                    range * range <= lay.height,
                    lhs < range,
                    rhs <= range,
                    idx == lhs * range + rhs,
                    lay.tables@[self.input_a.index as int]@.len() == idx,
                    lay.tables@[self.input_b.index as int]@.len() == idx,
                    lay.tables@[self.hash_value.index as int]@.len() == idx,
                    forall|i: int|
                        0 <= i < idx ==> #[trigger] lay.tables@[self.input_a.index as int]@[i]
                            == Some(spec_from_u64((i / (range as int)) as u64)),
                    forall|i: int|
                        0 <= i < idx ==> #[trigger] lay.tables@[self.input_b.index as int]@[i]
                            == Some(spec_from_u64((i % (range as int)) as u64)),
                    forall|i: int|
                        0 <= i < idx ==> #[trigger] lay.tables@[self.hash_value.index as int]@[i]
                            == Some(
                            spec_from_u64(((i / (range as int)) as u64) ^ ((i % (range as int))
                                as u64)),
                        ),
                    lay.fixed@ == old(lay).fixed@,
                    lay.advice@ == old(lay).advice@,
                    lay.selectors@ == old(lay).selectors@,
                    lay.instances@ == old(lay).instances@,
                    forall|t: int|
                        0 <= t < cs.num_tables && t != self.input_a.index && t
                            != self.input_b.index && t != self.hash_value.index
                            ==> lay.tables@[t] == old(lay).tables@[t],
                    old(lay).records_unchanged(*lay),
                    old(lay).layout_unchanged(*lay),
            {
                proof {
                    assert(idx < range * range && (lhs + 1) * range <= range * range)
                        by (nonlinear_arith)
                        requires
                            idx == lhs * range + rhs,
                            lhs < range,
                            rhs < range,
                    ;
                    vstd::arithmetic::div_mod::lemma_fundamental_div_mod_converse(
                        idx as int,
                        range as int,
                        lhs as int,
                        rhs as int,
                    );
                }
                match lay.assign_table_cell(cs, self.input_a, idx, Felt::from_u64(lhs as u64)) {
                    Ok(()) => {},
                    Err(e) => {
                        proof {
                            assert(false);
                        }
                        return Err(e);
                    },
                }
                match lay.assign_table_cell(cs, self.input_b, idx, Felt::from_u64(rhs as u64)) {
                    Ok(()) => {},
                    Err(e) => {
                        proof {
                            assert(false);
                        }
                        return Err(e);
                    },
                }
                match lay.assign_table_cell(
                    cs,
                    self.hash_value,
                    idx,
                    Felt::from_u64((lhs ^ rhs) as u64),
                ) {
                    Ok(()) => {},
                    Err(e) => {
                        proof {
                            assert(false);
                        }
                        return Err(e);
                    },
                }
                idx = idx + 1;
            }
            proof {
                assert(((lhs + 1) as int) * (range as int) == (lhs as int) * (range as int) + (
                range as int)) by (nonlinear_arith);
            }
        }
        Ok(())
    }
}

/// The hash lookup's input expressions, each gated by the selector:
/// `(s * lhs, s * rhs, s * value)` against the three table columns.
pub open spec fn hash_lookup_entries(cfg: HashCheckConfig) -> Seq<(Expression, TableColumn)> {
    seq![
        (
            Expression::Product(
                Box::new(Expression::Selector(cfg.q_lookup)),
                Box::new(Expression::Advice(cfg.lhs, Rotation { offset: 0 })),
            ),
            cfg.table.input_a,
        ),
        (
            Expression::Product(
                Box::new(Expression::Selector(cfg.q_lookup)),
                Box::new(Expression::Advice(cfg.rhs, Rotation { offset: 0 })),
            ),
            cfg.table.input_b,
        ),
        (
            Expression::Product(
                Box::new(Expression::Selector(cfg.q_lookup)),
                Box::new(Expression::Advice(cfg.value, Rotation { offset: 0 })),
            ),
            cfg.table.hash_value,
        ),
    ]
}

/// Column, selector and table handles of the hash-check circuit.
pub struct HashCheckConfig {
    pub q_hash_check: Selector,
    pub q_lookup: Selector,
    pub lhs: AdviceColumn,
    pub rhs: AdviceColumn,
    pub value: AdviceColumn,
    pub table: HashTableConfig,
}

impl HashCheckConfig {
    /// The handles name real, pairwise distinct columns.
    pub open spec fn wf(self, cs: ConstraintSystem) -> bool {
        &&& cs.wf()
        &&& self.q_hash_check.index < cs.num_selectors
        &&& self.q_lookup.index < cs.num_selectors
        &&& self.lhs.index < cs.num_advice
        &&& self.rhs.index < cs.num_advice
        &&& self.value.index < cs.num_advice
        &&& self.table.wf(cs)
        &&& self.lhs.index != self.rhs.index
        &&& self.lhs.index != self.value.index
        &&& self.rhs.index != self.value.index
    }

    /// Declare the selectors, the table and the lookup argument binding
    /// the witnessed triple to the table's rows.
    pub fn configure(
        meta: &mut ConstraintSystem,
        lhs: AdviceColumn,
        rhs: AdviceColumn,
        value: AdviceColumn,
    ) -> (cfg: HashCheckConfig)
        requires
            old(meta).wf(),
            old(meta).num_selectors + 2 < usize::MAX,
            old(meta).num_tables + 3 < usize::MAX,
            lhs.index < old(meta).num_advice,
            rhs.index < old(meta).num_advice,
            value.index < old(meta).num_advice,
            lhs.index != rhs.index,
            lhs.index != value.index,
            rhs.index != value.index,
        ensures
            final(meta).wf(),
            cfg.wf(*final(meta)),
            cfg.lhs == lhs,
            cfg.rhs == rhs,
            cfg.value == value,
            final(meta).num_advice == old(meta).num_advice,
            final(meta).num_instance == old(meta).num_instance,
            final(meta).num_fixed == old(meta).num_fixed,
            cfg.q_hash_check.index == old(meta).num_selectors,
            cfg.q_lookup.index == old(meta).num_selectors + 1,
            final(meta).num_selectors == old(meta).num_selectors + 2,
            final(meta).gates@ == old(meta).gates@,
            final(meta).lookups@.len() == old(meta).lookups@.len() + 1,
            final(meta).lookups@.drop_last() == old(meta).lookups@,
            final(meta).lookups@.last().name@ == "hash check"@,
            final(meta).lookups@.last().selector == cfg.q_lookup,
            final(meta).lookups@.last().entries@ == hash_lookup_entries(cfg),
            cfg.table.input_a.index == old(meta).num_tables,
            cfg.table.input_b.index == old(meta).num_tables + 1,
            cfg.table.hash_value.index == old(meta).num_tables + 2,
            final(meta).num_tables == old(meta).num_tables + 3,
    {
        let q_hash_check = meta.selector();
        let q_lookup = meta.complex_selector();
        let table = HashTableConfig::configure(meta);

        let s = meta.query_selector(q_lookup);
        let lhs_e = meta.query_advice(lhs, Rotation::cur());
        let rhs_e = meta.query_advice(rhs, Rotation::cur());
        let value_e = meta.query_advice(value, Rotation::cur());
        let mut entries: Vec<(Expression, TableColumn)> = Vec::new();
        entries.push((s.dup().times(lhs_e), table.input_a));
        entries.push((s.dup().times(rhs_e), table.input_b));
        entries.push((s.times(value_e), table.hash_value));
        let cfg = HashCheckConfig { q_hash_check, q_lookup, lhs, rhs, value, table };
        proof {
            assert(entries@ =~= hash_lookup_entries(cfg));
        }
        meta.create_lookup("hash check", q_lookup, entries);

        cfg
    }

    /// Witness a value on a row where only the plain hash-check selector
    /// is enabled; re-assigning the same value is a no-op.
    pub fn assign_simple(
        &self,
        cs: &ConstraintSystem,
        lay: &mut Layouter,
        value: Felt,
    ) -> (r: Result<Cell, Error>)
        requires
            old(lay).wf(*cs),
            !old(lay).in_region,
            self.wf(*cs),
        ensures
            final(lay).wf(*cs),
            !final(lay).in_region,
            r is Ok <==> old(lay).next_row < old(lay).height,
            r is Err ==> r == Err::<Cell, Error>(Error::RowOutOfRange),
            final(lay).height == old(lay).height,
            final(lay).instances@ == old(lay).instances@,
            final(lay).tables@ == old(lay).tables@,
            final(lay).instance_bindings@ == old(lay).instance_bindings@,
            r matches Ok(cell) ==> {
                &&& cell == (Cell {
                    kind: ColumnKind::Advice,
                    index: self.value.index,
                    row: old(lay).next_row,
                })
                &&& final(lay).height == old(lay).height
                &&& final(lay).next_row == old(lay).next_row + 1
                &&& sel_active(*final(lay), self.q_hash_check, old(lay).next_row as int)
                &&& (forall|cc: Cell|
                    cc.row < old(lay).next_row ==> #[trigger] final(lay).cell_value(cc) == old(
                        lay,
                    ).cell_value(cc))
                &&& final(lay).selectors@[self.q_hash_check.index as int]@ == old(
                    lay,
                ).selectors@[self.q_hash_check.index as int]@.update(
                    old(lay).next_row as int,
                    true,
                )
                &&& (forall|si: int|
                    0 <= si < cs.num_selectors && si != self.q_hash_check.index
                        ==> final(lay).selectors@[si] == old(lay).selectors@[si])
                &&& final(lay).cell_value(cell) == Some(value)
                &&& final(lay).copies@ == old(lay).copies@
                &&& final(lay).instance_bindings@ == old(lay).instance_bindings@
                &&& final(lay).tables@ == old(lay).tables@
                &&& final(lay).instances@ == old(lay).instances@
            },
    {
        lay.start_region(cs, "Assign value for simple hash check");
        match lay.enable_selector(cs, self.q_hash_check, 0) {
            Ok(()) => {},
            Err(e) => {
                lay.end_region(cs);
                return Err(e);
            },
        }
        match lay.assign_advice(cs, self.value, 0, value) {
            Ok(_) => {},
            Err(e) => {
                proof {
                    assert(false);
                }
                lay.end_region(cs);
                return Err(e);
            },
        }
        match lay.assign_advice(cs, self.value, 0, value) {
            Ok(_) => {},
            Err(e) => {
                proof {
                    assert(false);
                }
                lay.end_region(cs);
                return Err(e);
            },
        }
        let cell = match lay.assign_advice(cs, self.value, 0, value) {
            Ok(cell) => cell,
            Err(e) => {
                proof {
                    assert(false);
                }
                lay.end_region(cs);
                return Err(e);
            },
        };
        lay.end_region(cs);
        Ok(cell)
    }

    /// Witness a triple on a row where the lookup selector is enabled:
    /// the checker will require it to appear among the table's rows.
    pub fn assign_lookup(
        &self,
        cs: &ConstraintSystem,
        lay: &mut Layouter,
        a: Felt,
        b: Felt,
        value: Felt,
    ) -> (r: Result<Cell, Error>)
        requires
            old(lay).wf(*cs),
            !old(lay).in_region,
            self.wf(*cs),
        ensures
            final(lay).wf(*cs),
            !final(lay).in_region,
            r is Ok <==> old(lay).next_row < old(lay).height,
            r is Err ==> r == Err::<Cell, Error>(Error::RowOutOfRange),
            final(lay).height == old(lay).height,
            final(lay).instances@ == old(lay).instances@,
            final(lay).tables@ == old(lay).tables@,
            final(lay).instance_bindings@ == old(lay).instance_bindings@,
            r matches Ok(cell) ==> {
                let start = old(lay).next_row;
                &&& cell == (Cell {
                    kind: ColumnKind::Advice,
                    index: self.value.index,
                    row: start,
                })
                &&& final(lay).height == old(lay).height
                &&& final(lay).next_row == start + 1
                &&& sel_active(*final(lay), self.q_lookup, start as int)
                &&& (forall|cc: Cell|
                    cc.row < start ==> #[trigger] final(lay).cell_value(cc) == old(
                        lay,
                    ).cell_value(cc))
                &&& final(lay).selectors@[self.q_lookup.index as int]@ == old(
                    lay,
                ).selectors@[self.q_lookup.index as int]@.update(start as int, true)
                &&& (forall|si: int|
                    0 <= si < cs.num_selectors && si != self.q_lookup.index
                        ==> final(lay).selectors@[si] == old(lay).selectors@[si])
                &&& final(lay).cell_value(
                    (Cell { kind: ColumnKind::Advice, index: self.lhs.index, row: start }),
                ) == Some(a)
                &&& final(lay).cell_value(
                    (Cell { kind: ColumnKind::Advice, index: self.rhs.index, row: start }),
                ) == Some(b)
                &&& final(lay).cell_value(cell) == Some(value)
                &&& final(lay).copies@ == old(lay).copies@
                &&& final(lay).instance_bindings@ == old(lay).instance_bindings@
                &&& final(lay).tables@ == old(lay).tables@
                &&& final(lay).instances@ == old(lay).instances@
            },
    {
        lay.start_region(cs, "Assign value for lookup hash check");
        match lay.enable_selector(cs, self.q_lookup, 0) {
            Ok(()) => {},
            Err(e) => {
                lay.end_region(cs);
                return Err(e);
            },
        }
        match lay.assign_advice(cs, self.lhs, 0, a) {
            Ok(_) => {},
            Err(e) => {
                proof {
                    assert(false);
                }
                lay.end_region(cs);
                return Err(e);
            },
        }
        match lay.assign_advice(cs, self.rhs, 0, b) {
            Ok(_) => {},
            Err(e) => {
                proof {
                    assert(false);
                }
                lay.end_region(cs);
                return Err(e);
            },
        }
        let cell = match lay.assign_advice(cs, self.value, 0, value) {
            Ok(cell) => cell,
            Err(e) => {
                proof {
                    assert(false);
                }
                lay.end_region(cs);
                return Err(e);
            },
        };
        lay.end_region(cs);
        Ok(cell)
    }
}

/// The handles a fresh constraint system deals the hash-check circuit.
pub open spec fn fresh_hash_config() -> HashCheckConfig {
    HashCheckConfig {
        q_hash_check: (Selector { index: 0 }),
        q_lookup: (Selector { index: 1 }),
        lhs: (AdviceColumn { index: 0 }),
        rhs: (AdviceColumn { index: 1 }),
        value: (AdviceColumn { index: 2 }),
        table: (HashTableConfig {
            input_a: (TableColumn { index: 0 }),
            input_b: (TableColumn { index: 1 }),
            hash_value: (TableColumn { index: 2 }),
        }),
    }
}

/// Configure the hash-check circuit, load its table for the given
/// range, witness one unconstrained value and one looked-up triple, and
/// run the checker.  The returned pair is exactly that circuit and
/// witness, and the verdict is the checker's for them.
pub fn hash_circuit_run(k: usize, range: usize, simple_value: Felt, a: Felt, b: Felt, value:
    Felt) -> (r: (ConstraintSystem, Layouter, Result<CheckOutcome, Error>))
    requires
        k <= 20,
        range <= 1024,
        range * range <= (1usize << k),
        2 <= (1usize << k),
    ensures
        r.1.wf(r.0),
        r.0.num_fixed == 0 && r.0.num_advice == 3 && r.0.num_selectors == 2 && r.0.num_instance
            == 0 && r.0.num_tables == 3,
        r.0.gates@.len() == 0,
        r.0.lookups@.len() == 1,
        r.0.lookups@[0].name@ == "hash check"@,
        r.0.lookups@[0].selector == fresh_hash_config().q_lookup,
        r.0.lookups@[0].entries@ == hash_lookup_entries(fresh_hash_config()),
        r.1.height == (1usize << k),
        r.1.instances@.len() == 0,
        r.1.tables@[0]@.len() == range * range,
        forall|i: int|
            0 <= i < range * range ==> #[trigger] r.1.tables@[2]@[i] == Some(
                spec_from_u64(((i / (range as int)) as u64) ^ ((i % (range as int)) as u64)),
            ),
        r.2 is Ok,
        r.1.instance_bindings@.len() == 0,
        r.2 is Ok ==> {
            &&& r.1.cell_value((Cell { kind: ColumnKind::Advice, index: 2, row: 0 })) == Some(
                simple_value,
            )
            &&& r.1.cell_value((Cell { kind: ColumnKind::Advice, index: 0, row: 1 })) == Some(a)
            &&& r.1.cell_value((Cell { kind: ColumnKind::Advice, index: 1, row: 1 })) == Some(b)
            &&& r.1.cell_value((Cell { kind: ColumnKind::Advice, index: 2, row: 1 })) == Some(
                value,
            )
            &&& sel_active(r.1, fresh_hash_config().q_hash_check, 0)
            &&& sel_active(r.1, fresh_hash_config().q_lookup, 1)
        },
        r.2 matches Ok(out) ==> ((out is Satisfied) <==> satisfied(r.0, r.1)),
        r.2 matches Ok(out) ==> (out matches CheckOutcome::Violations(vs) ==> vs@.len() > 0),
{
    let mut meta = ConstraintSystem::new();
    let lhs = meta.advice_column();
    let rhs = meta.advice_column();
    let value_col = meta.advice_column();
    let cfg = HashCheckConfig::configure(&mut meta, lhs, rhs, value_col);
    proof {
        assert(cfg == fresh_hash_config());
    }
    let mut lay = Layouter::new(&meta, k, Vec::new());
    match cfg.table.load(&meta, &mut lay, range) {
        Ok(()) => {},
        Err(e) => {
            return (meta, lay, Err(e));
        },
    }
    match cfg.assign_simple(&meta, &mut lay, simple_value) {
        Ok(_) => {},
        Err(e) => {
            return (meta, lay, Err(e));
        },
    }
    match cfg.assign_lookup(&meta, &mut lay, a, b, value) {
        Ok(_) => {},
        Err(e) => {
            return (meta, lay, Err(e));
        },
    }
    let verdict = crate::checker::check(&meta, &lay);
    (meta, lay, verdict)
}

} // verus!
