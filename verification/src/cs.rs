//! The constraint system: column registry, gates and lookup arguments.
//!
//! A constraint system is populated once, during a configuration phase,
//! and is immutable afterwards.  It owns the column counters (fresh
//! handles are handed out with monotonically increasing indices), the
//! per-column equality permissions, the named gates and the named lookup
//! arguments.  No witness value is involved at this stage.

use vstd::prelude::*;

use crate::columns::{AdviceColumn, FixedColumn, InstanceColumn, Selector, TableColumn};
use crate::expr::{Expression, Rotation};

verus! {

/// A named set of polynomials, each required to vanish wherever the
/// selector is on (everywhere, for an always-on gate).
pub struct Gate {
    pub name: String,
    pub selector: Option<Selector>,
    pub polys: Vec<Expression>,
}

/// A named lookup argument: at every row where the selector is enabled,
/// the tuple of evaluated input expressions must equal some loaded row of
/// the paired table columns.
pub struct Lookup {
    pub name: String,
    pub selector: Selector,
    pub entries: Vec<(Expression, TableColumn)>,
}

/// The column registry and the declared constraints.
pub struct ConstraintSystem {
    pub num_fixed: usize,
    pub num_advice: usize,
    pub num_instance: usize,
    pub num_selectors: usize,
    pub num_tables: usize,
    /// Per advice column: whether it may take part in equality constraints.
    pub advice_eq: Vec<bool>,
    /// Per instance column: whether it may take part in equality constraints.
    pub instance_eq: Vec<bool>,
    /// Per fixed column: whether it may carry copied-in constants.
    pub fixed_const: Vec<bool>,
    /// Per selector: whether it may be used by lookup arguments.
    pub sel_complex: Vec<bool>,
    pub gates: Vec<Gate>,
    pub lookups: Vec<Lookup>,
}

impl ConstraintSystem {
    /// The registry bookkeeping is consistent: one flag per column.
    pub open spec fn wf(self) -> bool {
        &&& self.advice_eq@.len() == self.num_advice
        &&& self.instance_eq@.len() == self.num_instance
        &&& self.fixed_const@.len() == self.num_fixed
        &&& self.sel_complex@.len() == self.num_selectors
    }

    /// An empty system: no columns, no constraints.
    pub fn new() -> (r: ConstraintSystem)
        ensures
            r.wf(),
            r.num_fixed == 0,
            r.num_advice == 0,
            r.num_instance == 0,
            r.num_selectors == 0,
            r.num_tables == 0,
            r.gates@.len() == 0,
            r.lookups@.len() == 0,
    {
        ConstraintSystem {
            num_fixed: 0,
            num_advice: 0,
            num_instance: 0,
            num_selectors: 0,
            num_tables: 0,
            advice_eq: Vec::new(),
            instance_eq: Vec::new(),
            fixed_const: Vec::new(),
            sel_complex: Vec::new(),
            gates: Vec::new(),
            lookups: Vec::new(),
        }
    }

    /// A fresh fixed column.
    pub fn fixed_column(&mut self) -> (r: FixedColumn)
        requires
            old(self).wf(),
            old(self).num_fixed < usize::MAX,
        ensures
            final(self).wf(),
            r.index == old(self).num_fixed,
            final(self).num_fixed == old(self).num_fixed + 1,
            final(self).fixed_const@ == old(self).fixed_const@.push(false),
            final(self).num_advice == old(self).num_advice,
            final(self).num_instance == old(self).num_instance,
            final(self).num_selectors == old(self).num_selectors,
            final(self).num_tables == old(self).num_tables,
            final(self).advice_eq@ == old(self).advice_eq@,
            final(self).instance_eq@ == old(self).instance_eq@,
            final(self).sel_complex@ == old(self).sel_complex@,
            final(self).gates@ == old(self).gates@,
            final(self).lookups@ == old(self).lookups@,
    {
        let index = self.num_fixed;
        self.num_fixed = self.num_fixed + 1;
        self.fixed_const.push(false);
        FixedColumn { index }
    }

    /// A fresh advice column, not yet permitted in equality constraints.
    pub fn advice_column(&mut self) -> (r: AdviceColumn)
        requires
            old(self).wf(),
            old(self).num_advice < usize::MAX,
        ensures
            final(self).wf(),
            r.index == old(self).num_advice,
            final(self).num_advice == old(self).num_advice + 1,
            final(self).advice_eq@ == old(self).advice_eq@.push(false),
            final(self).num_fixed == old(self).num_fixed,
            final(self).num_instance == old(self).num_instance,
            final(self).num_selectors == old(self).num_selectors,
            final(self).num_tables == old(self).num_tables,
            final(self).instance_eq@ == old(self).instance_eq@,
            final(self).fixed_const@ == old(self).fixed_const@,
            final(self).sel_complex@ == old(self).sel_complex@,
            final(self).gates@ == old(self).gates@,
            final(self).lookups@ == old(self).lookups@,
    {
        let index = self.num_advice;
        self.num_advice = self.num_advice + 1;
        self.advice_eq.push(false);
        AdviceColumn { index }
    }

    /// A fresh instance column, not yet permitted in equality constraints.
    pub fn instance_column(&mut self) -> (r: InstanceColumn)
        requires
            old(self).wf(),
            old(self).num_instance < usize::MAX,
        ensures
            final(self).wf(),
            r.index == old(self).num_instance,
            final(self).num_instance == old(self).num_instance + 1,
            final(self).instance_eq@ == old(self).instance_eq@.push(false),
            final(self).num_fixed == old(self).num_fixed,
            final(self).num_advice == old(self).num_advice,
            final(self).num_selectors == old(self).num_selectors,
            final(self).num_tables == old(self).num_tables,
            final(self).advice_eq@ == old(self).advice_eq@,
            final(self).fixed_const@ == old(self).fixed_const@,
            final(self).sel_complex@ == old(self).sel_complex@,
            final(self).gates@ == old(self).gates@,
            final(self).lookups@ == old(self).lookups@,
    {
        let index = self.num_instance;
        self.num_instance = self.num_instance + 1;
        self.instance_eq.push(false);
        InstanceColumn { index }
    }

    /// A fresh simple selector, usable in gates only.
    pub fn selector(&mut self) -> (r: Selector)
        requires
            old(self).wf(),
            old(self).num_selectors < usize::MAX,
        ensures
            final(self).wf(),
            r.index == old(self).num_selectors,
            final(self).num_selectors == old(self).num_selectors + 1,
            final(self).sel_complex@ == old(self).sel_complex@.push(false),
            final(self).num_fixed == old(self).num_fixed,
            final(self).num_advice == old(self).num_advice,
            final(self).num_instance == old(self).num_instance,
            final(self).num_tables == old(self).num_tables,
            final(self).advice_eq@ == old(self).advice_eq@,
            final(self).instance_eq@ == old(self).instance_eq@,
            final(self).fixed_const@ == old(self).fixed_const@,
            final(self).gates@ == old(self).gates@,
            final(self).lookups@ == old(self).lookups@,
    {
        let index = self.num_selectors;
        self.num_selectors = self.num_selectors + 1;
        self.sel_complex.push(false);
        Selector { index }
    }

    /// A fresh complex selector, usable in gates and lookup arguments.
    pub fn complex_selector(&mut self) -> (r: Selector)
        requires
            old(self).wf(),
            old(self).num_selectors < usize::MAX,
        ensures
            final(self).wf(),
            r.index == old(self).num_selectors,
            final(self).num_selectors == old(self).num_selectors + 1,
            final(self).sel_complex@ == old(self).sel_complex@.push(true),
            final(self).num_fixed == old(self).num_fixed,
            final(self).num_advice == old(self).num_advice,
            final(self).num_instance == old(self).num_instance,
            final(self).num_tables == old(self).num_tables,
            final(self).advice_eq@ == old(self).advice_eq@,
            final(self).instance_eq@ == old(self).instance_eq@,
            final(self).fixed_const@ == old(self).fixed_const@,
            final(self).gates@ == old(self).gates@,
            final(self).lookups@ == old(self).lookups@,
    {
        let index = self.num_selectors;
        self.num_selectors = self.num_selectors + 1;
        self.sel_complex.push(true);
        Selector { index }
    }

    /// A fresh lookup table column.
    pub fn lookup_table_column(&mut self) -> (r: TableColumn)
        requires
            old(self).wf(),
            old(self).num_tables < usize::MAX,
        ensures
            final(self).wf(),
            r.index == old(self).num_tables,
            final(self).num_tables == old(self).num_tables + 1,
            final(self).num_fixed == old(self).num_fixed,
            final(self).num_advice == old(self).num_advice,
            final(self).num_instance == old(self).num_instance,
            final(self).num_selectors == old(self).num_selectors,
            final(self).advice_eq@ == old(self).advice_eq@,
            final(self).instance_eq@ == old(self).instance_eq@,
            final(self).fixed_const@ == old(self).fixed_const@,
            final(self).sel_complex@ == old(self).sel_complex@,
            final(self).gates@ == old(self).gates@,
            final(self).lookups@ == old(self).lookups@,
    {
        let index = self.num_tables;
        self.num_tables = self.num_tables + 1;
        TableColumn { index }
    }

    /// Permit an advice column to take part in equality constraints.
    pub fn enable_equality(&mut self, col: AdviceColumn)
        requires
            old(self).wf(),
            col.index < old(self).num_advice,
        ensures
            final(self).wf(),
            final(self).advice_eq@ == old(self).advice_eq@.update(col.index as int, true),
            final(self).num_fixed == old(self).num_fixed,
            final(self).num_advice == old(self).num_advice,
            final(self).num_instance == old(self).num_instance,
            final(self).num_selectors == old(self).num_selectors,
            final(self).num_tables == old(self).num_tables,
            final(self).instance_eq@ == old(self).instance_eq@,
            final(self).fixed_const@ == old(self).fixed_const@,
            final(self).sel_complex@ == old(self).sel_complex@,
            final(self).gates@ == old(self).gates@,
            final(self).lookups@ == old(self).lookups@,
    {
        self.advice_eq[col.index] = true;
    }

    /// Permit an instance column to take part in equality constraints.
    pub fn enable_instance_equality(&mut self, col: InstanceColumn)
        requires
            old(self).wf(),
            col.index < old(self).num_instance,
        ensures
            final(self).wf(),
            final(self).instance_eq@ == old(self).instance_eq@.update(col.index as int, true),
            final(self).num_fixed == old(self).num_fixed,
            final(self).num_advice == old(self).num_advice,
            final(self).num_instance == old(self).num_instance,
            final(self).num_selectors == old(self).num_selectors,
            final(self).num_tables == old(self).num_tables,
            final(self).advice_eq@ == old(self).advice_eq@,
            final(self).fixed_const@ == old(self).fixed_const@,
            final(self).sel_complex@ == old(self).sel_complex@,
            final(self).gates@ == old(self).gates@,
            final(self).lookups@ == old(self).lookups@,
    {
        self.instance_eq[col.index] = true;
    }

    /// Permit a fixed column to carry constants loaded during synthesis.
    pub fn enable_constant(&mut self, col: FixedColumn)
        requires
            old(self).wf(),
            col.index < old(self).num_fixed,
        ensures
            final(self).wf(),
            final(self).fixed_const@ == old(self).fixed_const@.update(col.index as int, true),
            final(self).num_fixed == old(self).num_fixed,
            final(self).num_advice == old(self).num_advice,
            final(self).num_instance == old(self).num_instance,
            final(self).num_selectors == old(self).num_selectors,
            final(self).num_tables == old(self).num_tables,
            final(self).advice_eq@ == old(self).advice_eq@,
            final(self).instance_eq@ == old(self).instance_eq@,
            final(self).sel_complex@ == old(self).sel_complex@,
            final(self).gates@ == old(self).gates@,
            final(self).lookups@ == old(self).lookups@,
    {
        self.fixed_const[col.index] = true;
    }

    /// Record a named gate: every polynomial must vanish at every row where
    /// the selector is enabled (at every row when always on).
    pub fn create_gate(&mut self, name: &str, selector: Option<Selector>, polys: Vec<Expression>)
        requires
            old(self).wf(),
        ensures
            final(self).wf(),
            final(self).gates@.len() == old(self).gates@.len() + 1,
            final(self).gates@.last().name@ == name@,
            final(self).gates@.last().selector == selector,
            final(self).gates@.last().polys == polys,
            final(self).gates@.drop_last() == old(self).gates@,
            final(self).num_fixed == old(self).num_fixed,
            final(self).num_advice == old(self).num_advice,
            final(self).num_instance == old(self).num_instance,
            final(self).num_selectors == old(self).num_selectors,
            final(self).num_tables == old(self).num_tables,
            final(self).advice_eq@ == old(self).advice_eq@,
            final(self).instance_eq@ == old(self).instance_eq@,
            final(self).fixed_const@ == old(self).fixed_const@,
            final(self).sel_complex@ == old(self).sel_complex@,
            final(self).lookups@ == old(self).lookups@,
    {
        let gate = Gate { name: name.to_owned(), selector, polys };
        self.gates.push(gate);
        proof {
            assert(self.gates@.drop_last() =~= old(self).gates@);
        }
    }

    /// Record a named lookup argument over the given expression/table
    /// pairs.  Only a complex selector may drive a lookup.
    pub fn create_lookup(
        &mut self,
        name: &str,
        selector: Selector,
        entries: Vec<(Expression, TableColumn)>,
    )
        requires
            old(self).wf(),
            selector.index < old(self).num_selectors,
            old(self).sel_complex@[selector.index as int],
        ensures
            final(self).wf(),
            final(self).lookups@.len() == old(self).lookups@.len() + 1,
            final(self).lookups@.last().name@ == name@,
            final(self).lookups@.last().selector == selector,
            final(self).lookups@.last().entries == entries,
            final(self).lookups@.drop_last() == old(self).lookups@,
            final(self).num_fixed == old(self).num_fixed,
            final(self).num_advice == old(self).num_advice,
            final(self).num_instance == old(self).num_instance,
            final(self).num_selectors == old(self).num_selectors,
            final(self).num_tables == old(self).num_tables,
            final(self).advice_eq@ == old(self).advice_eq@,
            final(self).instance_eq@ == old(self).instance_eq@,
            final(self).fixed_const@ == old(self).fixed_const@,
            final(self).sel_complex@ == old(self).sel_complex@,
            final(self).gates@ == old(self).gates@,
    {
        let lookup = Lookup { name: name.to_owned(), selector, entries };
        self.lookups.push(lookup);
        proof {
            assert(self.lookups@.drop_last() =~= old(self).lookups@);
        }
    }

    /// The expression querying an advice column at a rotation.
    pub fn query_advice(&self, col: AdviceColumn, rot: Rotation) -> (e: Expression)
        ensures
            e == Expression::Advice(col, rot),
    {
        Expression::Advice(col, rot)
    }

    /// The expression querying a fixed column at a rotation.
    pub fn query_fixed(&self, col: FixedColumn, rot: Rotation) -> (e: Expression)
        ensures
            e == Expression::Fixed(col, rot),
    {
        Expression::Fixed(col, rot)
    }

    /// The expression querying an instance column at a rotation.
    pub fn query_instance(&self, col: InstanceColumn, rot: Rotation) -> (e: Expression)
        ensures
            e == Expression::Instance(col, rot),
    {
        Expression::Instance(col, rot)
    }

    /// The expression that is one where the selector is enabled, else zero.
    pub fn query_selector(&self, s: Selector) -> (e: Expression)
        ensures
            e == Expression::Selector(s),
    {
        Expression::Selector(s)
    }
}

} // verus!
