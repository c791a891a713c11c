//! A range check through a lookup table: a single table column is loaded
//! with the permitted values, and an advice cell is constrained to lie
//! among them wherever the lookup's selector is enabled.

use vstd::prelude::*;

use crate::checker::{satisfied, sel_active, CheckOutcome};
use crate::columns::{AdviceColumn, Cell, ColumnKind, Selector, TableColumn};
use crate::cs::ConstraintSystem;
use crate::error::Error;
use crate::expr::{Expression, Rotation};
use crate::field::{spec_from_u64, Felt};
use crate::layouter::Layouter;

verus! {

/// The handle of the loaded-values table column.
pub struct RangTableConfig {
    pub col_value: TableColumn,
}

impl RangTableConfig {
    /// The handle names a real table column.
    pub open spec fn wf(self, cs: ConstraintSystem) -> bool {
        &&& cs.wf()
        &&& self.col_value.index < cs.num_tables
    }

    /// Allocate the table column.
    pub fn configure(meta: &mut ConstraintSystem) -> (cfg: RangTableConfig)
        requires
            old(meta).wf(),
            old(meta).num_tables < usize::MAX,
        ensures
            final(meta).wf(),
            cfg.wf(*final(meta)),
            cfg.col_value.index == old(meta).num_tables,
            final(meta).num_tables == old(meta).num_tables + 1,
            final(meta).num_fixed == old(meta).num_fixed,
            final(meta).num_advice == old(meta).num_advice,
            final(meta).num_instance == old(meta).num_instance,
            final(meta).num_selectors == old(meta).num_selectors,
            final(meta).gates@ == old(meta).gates@,
            final(meta).lookups@ == old(meta).lookups@,
            final(meta).advice_eq@ == old(meta).advice_eq@,
            final(meta).instance_eq@ == old(meta).instance_eq@,
            final(meta).fixed_const@ == old(meta).fixed_const@,
            final(meta).sel_complex@ == old(meta).sel_complex@,
    {
        let table_column = meta.lookup_table_column();
        RangTableConfig { col_value: table_column }
    }

    /// Load the permitted values, one table row each, in order.
    pub fn load(&self, cs: &ConstraintSystem, lay: &mut Layouter, values: &Vec<u64>) -> (r: Result<
        (),
        Error,
    >)
        requires
            old(lay).wf(*cs),
            self.wf(*cs),
            old(lay).tables@[self.col_value.index as int]@.len() == 0,
            values@.len() <= old(lay).height,
        ensures
            final(lay).wf(*cs),
            r is Ok,
            final(lay).tables@[self.col_value.index as int]@.len() == values@.len(),
            forall|i: int|
                0 <= i < values@.len() ==> #[trigger] final(lay).tables@[
                    self.col_value.index as int]@[i] == Some(spec_from_u64(values@[i])),
            forall|t: int|
                0 <= t < cs.num_tables && t != self.col_value.index ==> final(lay).tables@[t]
                    == old(lay).tables@[t],
            final(lay).fixed@ == old(lay).fixed@,
            final(lay).advice@ == old(lay).advice@,
            final(lay).selectors@ == old(lay).selectors@,
            final(lay).instances@ == old(lay).instances@,
            old(lay).records_unchanged(*final(lay)),
            old(lay).layout_unchanged(*final(lay)),
    {
        let n = values.len();
        for offset in 0..n
            invariant
                lay.wf(*cs),
                self.wf(*cs),
                n == values@.len(),
                n <= lay.height,
                lay.tables@[self.col_value.index as int]@.len() == offset,
                forall|i: int|
                    0 <= i < offset ==> #[trigger] lay.tables@[self.col_value.index as int]@[i]
                        == Some(spec_from_u64(values@[i])),
                forall|t: int|
                    0 <= t < cs.num_tables && t != self.col_value.index ==> lay.tables@[t] == old(
                        lay,
                    ).tables@[t],
                lay.fixed@ == old(lay).fixed@,
                lay.advice@ == old(lay).advice@,
                lay.selectors@ == old(lay).selectors@,
                lay.instances@ == old(lay).instances@,
                old(lay).records_unchanged(*lay),
                old(lay).layout_unchanged(*lay),
        {
            match lay.assign_table_cell(
                cs,
                self.col_value,
                offset,
                Felt::from_u64(values[offset]),
            ) {
                Ok(()) => {},
                Err(e) => {
                    proof {
                        assert(false);
                    }
                    return Err(e);
                },
            }
        }
        Ok(())
    }
}

/// The range lookup's one input expression, gated by the selector:
/// `q * value` against the loaded table column.
pub open spec fn range_lookup_entries(cfg: TestConfig) -> Seq<(Expression, TableColumn)> {
    seq![
        (
            Expression::Product(
                Box::new(Expression::Selector(cfg.q_selector)),
                Box::new(Expression::Advice(cfg.a, Rotation { offset: 0 })),
            ),
            cfg.lookup_table.col_value,
        ),
    ]
}

/// Column and selector handles of the range-check circuit.
pub struct TestConfig {
    pub a: AdviceColumn,
    pub q_selector: Selector,
    pub lookup_table: RangTableConfig,
}

impl TestConfig {
    /// The handles name real columns of the system.
    pub open spec fn wf(self, cs: ConstraintSystem) -> bool {
        &&& cs.wf()
        &&& self.a.index < cs.num_advice
        &&& self.q_selector.index < cs.num_selectors
        &&& self.lookup_table.wf(cs)
    }
}

/// Declare the advice column, the lookup selector, the table column and
/// the lookup argument tying them together.
pub fn range_circuit_configure(meta: &mut ConstraintSystem) -> (cfg: TestConfig)
    requires
        old(meta).wf(),
        old(meta).num_advice < usize::MAX,
        old(meta).num_selectors < usize::MAX,
        old(meta).num_tables < usize::MAX,
    ensures
        final(meta).wf(),
        cfg.wf(*final(meta)),
        cfg.a.index == old(meta).num_advice,
        cfg.q_selector.index == old(meta).num_selectors,
        cfg.lookup_table.col_value.index == old(meta).num_tables,
        final(meta).num_advice == old(meta).num_advice + 1,
        final(meta).num_selectors == old(meta).num_selectors + 1,
        final(meta).num_tables == old(meta).num_tables + 1,
        final(meta).num_instance == old(meta).num_instance,
        final(meta).num_fixed == old(meta).num_fixed,
        final(meta).lookups@.len() == old(meta).lookups@.len() + 1,
        final(meta).lookups@.drop_last() == old(meta).lookups@,
        final(meta).lookups@.last().name@ == "lookup"@,
        final(meta).lookups@.last().selector == cfg.q_selector,
        final(meta).lookups@.last().entries@ == range_lookup_entries(cfg),
        final(meta).gates@ == old(meta).gates@,
{
    let a = meta.advice_column();
    let q_selector = meta.complex_selector();
    let lookup_table = RangTableConfig::configure(meta);

    let q = meta.query_selector(q_selector);
    let value = meta.query_advice(a, Rotation::cur());
    let mut entries: Vec<(Expression, TableColumn)> = Vec::new();
    entries.push((q.times(value), lookup_table.col_value));
    let cfg = TestConfig { a, q_selector, lookup_table };
    proof {
        assert(entries@ =~= range_lookup_entries(cfg));
    }
    meta.create_lookup("lookup", q_selector, entries);

    cfg
}

/// Synthesize the range-check witness: load the permitted values, then
/// enable the lookup on one row holding `value`.
pub fn range_circuit_synthesize(
    cs: &ConstraintSystem,
    lay: &mut Layouter,
    cfg: &TestConfig,
    values: &Vec<u64>,
    value: Felt,
) -> (r: Result<(), Error>)
    requires
        old(lay).wf(*cs),
        !old(lay).in_region,
        cfg.wf(*cs),
        old(lay).tables@[cfg.lookup_table.col_value.index as int]@.len() == 0,
        values@.len() <= old(lay).height,
    ensures
        final(lay).wf(*cs),
        final(lay).copies@ == old(lay).copies@,
        r is Ok <==> old(lay).next_row < old(lay).height,
        final(lay).height == old(lay).height,
        final(lay).instances@ == old(lay).instances@,
        r is Ok ==> {
            let start = old(lay).next_row;
            &&& sel_active(*final(lay), cfg.q_selector, start as int)
            &&& final(lay).selectors@[cfg.q_selector.index as int]@ == old(lay).selectors@[
                cfg.q_selector.index as int]@.update(start as int, true)
            &&& (forall|si: int|
                0 <= si < cs.num_selectors && si != cfg.q_selector.index
                    ==> final(lay).selectors@[si] == old(lay).selectors@[si])
            &&& final(lay).advice@[cfg.a.index as int]@ == old(lay).advice@[
                cfg.a.index as int]@.update(start as int, Some(value))
            &&& (forall|a: int|
                0 <= a < cs.num_advice && a != cfg.a.index ==> final(lay).advice@[a] == old(
                    lay,
                ).advice@[a])
            &&& final(lay).fixed@ == old(lay).fixed@
            &&& final(lay).instances@ == old(lay).instances@
            &&& final(lay).instance_bindings@ == old(lay).instance_bindings@
            &&& final(lay).cell_value(
                (Cell { kind: ColumnKind::Advice, index: cfg.a.index, row: start }),
            ) == Some(value)
            &&& final(lay).tables@[cfg.lookup_table.col_value.index as int]@.len()
                == values@.len()
            &&& (forall|i: int|
                0 <= i < values@.len() ==> #[trigger] final(lay).tables@[
                    cfg.lookup_table.col_value.index as int]@[i] == Some(
                    spec_from_u64(values@[i]),
                ))
        },
{
    match cfg.lookup_table.load(cs, lay, values) {
        Ok(()) => {},
        Err(e) => {
            proof {
                assert(false);
            }
            return Err(e);
        },
    }
    lay.start_region(cs, "assign columns");
    match lay.enable_selector(cs, cfg.q_selector, 0) {
        Ok(()) => {},
        Err(e) => {
            lay.end_region(cs);
            return Err(e);
        },
    }
    match lay.assign_advice(cs, cfg.a, 0, value) {
        Ok(_) => {},
        Err(e) => {
            proof {
                assert(false);
            }
            lay.end_region(cs);
            return Err(e);
        },
    }
    lay.end_region(cs);
    Ok(())
}

/// The handles a fresh constraint system deals the range-check circuit.
pub open spec fn fresh_range_config() -> TestConfig {
    TestConfig {
        a: (AdviceColumn { index: 0 }),
        q_selector: (Selector { index: 0 }),
        lookup_table: (RangTableConfig { col_value: (TableColumn { index: 0 }) }),
    }
}

/// Load the fixed set of permitted values and check a single witnessed
/// value against it: the original demonstration scenario.  The returned
/// pair is exactly that circuit and witness, and the verdict is the
/// checker's for them.
#[allow(non_snake_case)]
pub fn Test(value: u64) -> (r: (ConstraintSystem, Layouter, Result<CheckOutcome, Error>))
    ensures
        r.1.wf(r.0),
        r.0.num_fixed == 0 && r.0.num_advice == 1 && r.0.num_selectors == 1 && r.0.num_instance
            == 0 && r.0.num_tables == 1,
        r.0.gates@.len() == 0,
        r.0.lookups@.len() == 1,
        r.0.lookups@[0].name@ == "lookup"@,
        r.0.lookups@[0].selector == fresh_range_config().q_selector,
        r.0.lookups@[0].entries@ == range_lookup_entries(fresh_range_config()),
        r.1.height == 16,
        r.1.instances@.len() == 0,
        r.1.instance_bindings@.len() == 0,
        r.1.tables@[0]@ == seq![
            Some(spec_from_u64(0)),
            Some(spec_from_u64(3)),
            Some(spec_from_u64(4)),
            Some(spec_from_u64(5)),
            Some(spec_from_u64(7)),
            Some(spec_from_u64(8)),
            Some(spec_from_u64(15)),
            Some(spec_from_u64(16)),
            Some(spec_from_u64(18)),
        ],
        r.1.cell_value((Cell { kind: ColumnKind::Advice, index: 0, row: 0 })) == Some(
            spec_from_u64(value),
        ),
        sel_active(r.1, fresh_range_config().q_selector, 0),
        r.2 is Ok,
        r.2 matches Ok(out) ==> ((out is Satisfied) <==> satisfied(r.0, r.1)),
        r.2 matches Ok(out) ==> (out matches CheckOutcome::Violations(vs) ==> vs@.len() > 0),
{
    let mut meta = ConstraintSystem::new();
    let cfg = range_circuit_configure(&mut meta);
    proof {
        assert(cfg == fresh_range_config());
        assert((1usize << 4usize) == 16) by (bit_vector);
    }
    let mut lay = Layouter::new(&meta, 4, Vec::new());
    let mut values: Vec<u64> = Vec::new();
    values.push(0);
    values.push(3);
    values.push(4);
    values.push(5);
    values.push(7);
    values.push(8);
    values.push(15);
    values.push(16);
    values.push(18);
    match range_circuit_synthesize(&meta, &mut lay, &cfg, &values, Felt::from_u64(value)) {
        Ok(()) => {},
        Err(e) => {
            proof {
                assert(false);
            }
            return (meta, lay, Err(e));
        },
    }
    proof {
        assert(lay.tables@[0]@ =~= seq![
            Some(spec_from_u64(0)),
            Some(spec_from_u64(3)),
            Some(spec_from_u64(4)),
            Some(spec_from_u64(5)),
            Some(spec_from_u64(7)),
            Some(spec_from_u64(8)),
            Some(spec_from_u64(15)),
            Some(spec_from_u64(16)),
            Some(spec_from_u64(18)),
        ]);
    }
    let verdict = crate::checker::check(&meta, &lay);
    (meta, lay, verdict)
}

} // verus!
