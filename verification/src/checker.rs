//! The satisfiability checker.
//!
//! Given a finished constraint system and witness grid, [`check`] decides
//! whether every declared constraint holds and, if not, reports every
//! violation: gate violations first, then lookup violations, then copy
//! violations, then public-input violations.  A violation never aborts
//! the run — the checker surfaces the complete picture, bounded by one
//! record per gate row, per lookup row, per equivalence class and per
//! instance binding.

use vstd::prelude::*;

use crate::columns::{Cell, Selector, TableColumn};
use crate::cs::{ConstraintSystem, Gate, Lookup};
use crate::equiv::{copies_ok, copy_conflict_groups, group_conflict, group_references};
use crate::error::Error;
use crate::eval::{eval_val, evaluate};
use crate::expr::Expression;
use crate::field::Felt;
use crate::layouter::Layouter;

verus! {

/// The selector is enabled at the row.
pub open spec fn sel_active(lay: Layouter, s: Selector, row: int) -> bool {
    &&& s.index < lay.selectors@.len()
    &&& 0 <= row < lay.selectors@[s.index as int]@.len()
    &&& lay.selectors@[s.index as int]@[row]
}

/// A gate constrains a row when its selector is on at that row, or
/// when it is always on.
pub open spec fn gate_applies(lay: Layouter, g: Gate, row: int) -> bool {
    match g.selector {
        Some(s) => sel_active(lay, s, row),
        None => true,
    }
}

/// The polynomial evaluates to the additive identity at the row.
pub open spec fn poly_ok(lay: Layouter, e: Expression, row: int) -> bool {
    eval_val(e, lay, row) == Ok::<int, Error>(0)
}

/// Each polynomial of a gate evaluates to zero at the row.
pub open spec fn gate_row_ok(lay: Layouter, g: Gate, row: int) -> bool {
    forall|p: int| 0 <= p < g.polys@.len() ==> poly_ok(lay, #[trigger] g.polys@[p], row)
}

/// Every gate holds at every row it constrains.
pub open spec fn gates_ok(cs: ConstraintSystem, lay: Layouter) -> bool {
    forall|gi: int, row: int|
        0 <= gi < cs.gates@.len() && 0 <= row < lay.height && #[trigger] gate_applies(
            lay,
            cs.gates@[gi],
            row,
        ) ==> gate_row_ok(lay, cs.gates@[gi], row)
}

/// Every loaded row of the table column holds a value.
pub open spec fn table_col_ready(lay: Layouter, t: TableColumn) -> bool {
    &&& t.index < lay.tables@.len()
    &&& (forall|r: int|
        0 <= r < lay.tables@[t.index as int]@.len() ==> lay.tables@[t.index as int]@[r] is Some)
}

/// The number of table rows the lookup is checked against.
pub open spec fn lookup_width(lay: Layouter, l: Lookup) -> int {
    if l.entries@.len() == 0 || l.entries@[0].1.index >= lay.tables@.len() {
        0
    } else {
        lay.tables@[l.entries@[0].1.index as int]@.len() as int
    }
}

/// All table columns of the lookup are fully loaded, to one length.
pub open spec fn lookup_ready(lay: Layouter, l: Lookup) -> bool {
    forall|j: int|
        0 <= j < l.entries@.len() ==> table_col_ready(lay, (#[trigger] l.entries@[j]).1)
            && lay.tables@[l.entries@[j].1.index as int]@.len() == lookup_width(lay, l)
}

/// Every lookup argument's table columns are fully and evenly loaded.
pub open spec fn tables_ready(cs: ConstraintSystem, lay: Layouter) -> bool {
    forall|li: int| 0 <= li < cs.lookups@.len() ==> lookup_ready(lay, #[trigger] cs.lookups@[li])
}

/// The value loaded at row `t` of a table column.
pub open spec fn table_val(lay: Layouter, tc: TableColumn, t: int) -> int {
    lay.tables@[tc.index as int]@[t].unwrap()@
}

/// The lookup's input tuple at `row` evaluates exactly to table row `t`.
pub open spec fn lookup_row_matches_at(lay: Layouter, l: Lookup, row: int, t: int) -> bool {
    forall|j: int|
        0 <= j < l.entries@.len() ==> eval_val((#[trigger] l.entries@[j]).0, lay, row)
            == Ok::<int, Error>(table_val(lay, l.entries@[j].1, t))
}

/// The lookup holds at the row: its input tuple appears among the loaded
/// table rows (vacuously, for a lookup with no entries).
pub open spec fn lookup_row_ok(lay: Layouter, l: Lookup, row: int) -> bool {
    l.entries@.len() == 0 || exists|t: int|
        0 <= t < lookup_width(lay, l) && #[trigger] lookup_row_matches_at(lay, l, row, t)
}

/// Every lookup holds at every row where its selector is enabled.
pub open spec fn lookups_ok(cs: ConstraintSystem, lay: Layouter) -> bool {
    forall|li: int, row: int|
        0 <= li < cs.lookups@.len() && 0 <= row < lay.height && #[trigger] sel_active(
            lay,
            cs.lookups@[li].selector,
            row,
        ) ==> lookup_row_ok(lay, cs.lookups@[li], row)
}

/// The bound cell holds exactly the public input it is bound to.
pub open spec fn binding_ok(lay: Layouter, b: (Cell, usize, usize)) -> bool {
    &&& b.1 < lay.instances@.len()
    &&& b.2 < lay.instances@[b.1 as int]@.len()
    &&& lay.cell_value(b.0) == Some(lay.instances@[b.1 as int]@[b.2 as int])
}

/// Every cell bound to a public input holds that input's value.
pub open spec fn instances_ok(lay: Layouter) -> bool {
    forall|k: int|
        0 <= k < lay.instance_bindings@.len() ==> binding_ok(
            lay,
            #[trigger] lay.instance_bindings@[k],
        )
}

/// The grid satisfies the whole constraint system: gates, lookups, copy
/// constraints and public-input bindings.
pub open spec fn satisfied(cs: ConstraintSystem, lay: Layouter) -> bool {
    &&& gates_ok(cs, lay)
    &&& lookups_ok(cs, lay)
    &&& copies_ok(lay)
    &&& instances_ok(lay)
}

/// One failure found by the checker.
pub enum Violation {
    /// A gate polynomial did not vanish (or could not be evaluated) at
    /// a constrained row; `poly` is the least such polynomial index.
    Gate { gate: usize, name: String, row: usize, poly: usize },
    /// A lookup's input tuple was not found among its table's rows at a
    /// row where its selector is enabled.
    Lookup { lookup: usize, name: String, row: usize },
    /// An equivalence class of copy-constrained cells whose members do
    /// not all hold one assigned value.
    Copy { cells: Vec<Cell> },
    /// A cell bound to a public input holds a different value, or none.
    Instance { cell: Cell, column: usize, row: usize },
}

/// The result of a run: success, or the complete list of violations.
pub enum CheckOutcome {
    Satisfied,
    Violations(Vec<Violation>),
}

impl CheckOutcome {
    /// Whether the verdict is success.
    pub fn is_satisfied(&self) -> (r: bool)
        ensures
            r == (self is Satisfied),
    {
        match self {
            CheckOutcome::Satisfied => true,
            CheckOutcome::Violations(_) => false,
        }
    }

    /// The violations carried by the verdict; none on success.
    pub open spec fn violations(self) -> Seq<Violation> {
        match self {
            CheckOutcome::Satisfied => Seq::empty(),
            CheckOutcome::Violations(vs) => vs@,
        }
    }
}

/// A report's gate records: sorted strictly by row then gate index,
/// and holding a record for every failing gate row.
#[verifier::opaque]
pub open spec fn gate_part_good(cs: ConstraintSystem, lay: Layouter, vs: Seq<Violation>) -> bool {
    &&& (forall|i: int, j: int|
        0 <= i < j < vs.len() ==> (#[trigger] vs[i])->Gate_row < (#[trigger] vs[j])->Gate_row || (
        vs[i]->Gate_row == vs[j]->Gate_row && vs[i]->Gate_gate < vs[j]->Gate_gate))
    &&& (forall|gi: int, row2: int|
        0 <= gi < cs.gates@.len() && 0 <= row2 < lay.height && #[trigger] gate_applies(
            lay,
            cs.gates@[gi],
            row2,
        ) && !gate_row_ok(lay, cs.gates@[gi], row2) ==> exists|k: int|
            0 <= k < vs.len() && (#[trigger] vs[k])->Gate_gate == gi && vs[k]->Gate_row == row2)
}

/// The lookup part of a report: sorted strictly by row then lookup
/// index, and holding a record for every failing lookup row.
#[verifier::opaque]
pub open spec fn lookup_part_good(cs: ConstraintSystem, lay: Layouter, vs: Seq<Violation>)
    -> bool {
    &&& (forall|i: int, j: int|
        0 <= i < j < vs.len() ==> (#[trigger] vs[i])->Lookup_row < (#[trigger] vs[
            j])->Lookup_row || (vs[i]->Lookup_row == vs[j]->Lookup_row && vs[i]->Lookup_lookup
            < vs[j]->Lookup_lookup))
    &&& (forall|li: int, row2: int|
        0 <= li < cs.lookups@.len() && 0 <= row2 < lay.height && #[trigger] sel_active(
            lay,
            cs.lookups@[li].selector,
            row2,
        ) && !lookup_row_ok(lay, cs.lookups@[li], row2) ==> exists|k: int|
            0 <= k < vs.len() && (#[trigger] vs[k])->Lookup_lookup == li && vs[k]->Lookup_row
                == row2)
}

/// The report is ordered as specified: by category — gates, lookups,
/// copy classes, public inputs — and, within gate and lookup records,
/// by ascending row.
#[verifier::opaque]
pub open spec fn report_well_ordered(vs: Seq<Violation>) -> bool {
    &&& (forall|i: int, j: int|
        0 <= i <= j < vs.len() ==> violation_rank(#[trigger] vs[i]) <= violation_rank(
            #[trigger] vs[j],
        ))
    &&& (forall|i: int, j: int|
        0 <= i < j < vs.len() && (#[trigger] vs[i]) is Gate && (#[trigger] vs[j]) is Gate
            ==> vs[i]->Gate_row <= vs[j]->Gate_row)
    &&& (forall|i: int, j: int|
        0 <= i < j < vs.len() && (#[trigger] vs[i]) is Lookup && (#[trigger] vs[j]) is Lookup
            ==> vs[i]->Lookup_row <= vs[j]->Lookup_row)
}

/// Every failure is named by exactly one record: each failing gate row
/// and each failing lookup row by one record with its indices, and the
/// failing public-input bindings by exactly the report's suffix of
/// instance records, in recording order.
#[verifier::opaque]
pub open spec fn report_names_each_failure(
    cs: ConstraintSystem,
    lay: Layouter,
    vs: Seq<Violation>,
) -> bool {
    &&& (forall|gi: int, row2: int|
        0 <= gi < cs.gates@.len() && 0 <= row2 < lay.height && #[trigger] gate_applies(
            lay,
            cs.gates@[gi],
            row2,
        ) && !gate_row_ok(lay, cs.gates@[gi], row2) ==> exists|k: int|
            0 <= k < vs.len() && (#[trigger] vs[k]) is Gate && vs[k]->Gate_gate == gi && vs[
                k]->Gate_row == row2 && (forall|k2: int|
                0 <= k2 < vs.len() && (#[trigger] vs[k2]) is Gate && vs[k2]->Gate_gate == gi
                    && vs[k2]->Gate_row == row2 ==> k2 == k))
    &&& (forall|li: int, row2: int|
        0 <= li < cs.lookups@.len() && 0 <= row2 < lay.height && #[trigger] sel_active(
            lay,
            cs.lookups@[li].selector,
            row2,
        ) && !lookup_row_ok(lay, cs.lookups@[li], row2) ==> exists|k: int|
            0 <= k < vs.len() && (#[trigger] vs[k]) is Lookup && vs[k]->Lookup_lookup == li && vs[
                k]->Lookup_row == row2 && (forall|k2: int|
                0 <= k2 < vs.len() && (#[trigger] vs[k2]) is Lookup && vs[k2]->Lookup_lookup == li
                    && vs[k2]->Lookup_row == row2 ==> k2 == k))
    &&& (exists|m: int|
        0 <= m <= vs.len() && (forall|i: int| 0 <= i < m ==> !((#[trigger] vs[i]) is Instance))
            && #[trigger] vs.subrange(m, vs.len() as int) == failing_instance_records(
            lay,
            lay.instance_bindings@.len() as int,
        ))
}

/// The reported violation names a real failure of the grid.
pub open spec fn violation_sound(cs: ConstraintSystem, lay: Layouter, v: Violation) -> bool {
    match v {
        Violation::Gate { gate, name, row, poly } => {
            &&& gate < cs.gates@.len()
            &&& name@ == cs.gates@[gate as int].name@
            &&& row < lay.height
            &&& gate_applies(lay, cs.gates@[gate as int], row as int)
            &&& poly < cs.gates@[gate as int].polys@.len()
            &&& !poly_ok(lay, cs.gates@[gate as int].polys@[poly as int], row as int)
            &&& (forall|q: int|
                0 <= q < poly ==> poly_ok(
                    lay,
                    #[trigger] cs.gates@[gate as int].polys@[q],
                    row as int,
                ))
        },
        Violation::Lookup { lookup, name, row } => {
            &&& lookup < cs.lookups@.len()
            &&& name@ == cs.lookups@[lookup as int].name@
            &&& row < lay.height
            &&& sel_active(lay, cs.lookups@[lookup as int].selector, row as int)
            &&& !lookup_row_ok(lay, cs.lookups@[lookup as int], row as int)
        },
        Violation::Copy { cells } => {
            &&& cells@.len() > 0
            &&& group_conflict(lay, cells@)
        },
        Violation::Instance { cell, column, row } => {
            exists|k: int|
                0 <= k < lay.instance_bindings@.len() && #[trigger] lay.instance_bindings@[k] == (
                cell,
                column,
                row,
            ) && !binding_ok(lay, lay.instance_bindings@[k])
        },
    }
}

/// The violation is a copy violation whose class is connected to `c`.
pub open spec fn violation_references(lay: Layouter, v: Violation, c: Cell) -> bool {
    match v {
        Violation::Copy { cells } => group_references(lay, cells@, c),
        _ => false,
    }
}

/// Exactly one violation of the list references `c`'s equivalence class.
pub open spec fn one_violation_references(lay: Layouter, vs: Seq<Violation>, c: Cell) -> bool {
    exists|i: int|
        0 <= i < vs.len() && #[trigger] violation_references(lay, vs[i], c) && (forall|j: int|
            0 <= j < vs.len() && #[trigger] violation_references(lay, vs[j], c) ==> j == i)
}

/// The category a violation is reported under, in report order: gates,
/// then lookups, then copy classes, then public inputs.
pub open spec fn violation_rank(v: Violation) -> int {
    match v {
        Violation::Gate { .. } => 0,
        Violation::Lookup { .. } => 1,
        Violation::Copy { .. } => 2,
        Violation::Instance { .. } => 3,
    }
}

/// The records the checker emits for the first `upto` public-input
/// bindings: one per failing binding, in recording order.
pub open spec fn failing_instance_records(lay: Layouter, upto: int) -> Seq<Violation>
    decreases upto,
{
    if upto <= 0 {
        Seq::empty()
    } else {
        let prev = failing_instance_records(lay, upto - 1);
        let b = lay.instance_bindings@[upto - 1];
        if binding_ok(lay, b) {
            prev
        } else {
            prev.push(Violation::Instance { cell: b.0, column: b.1, row: b.2 })
        }
    }
}

/// Some violation of the list concerns a gate.
pub open spec fn has_gate_violation(vs: Seq<Violation>) -> bool {
    exists|i: int| 0 <= i < vs.len() && (#[trigger] vs[i]) is Gate
}

/// Some violation of the list is of the lookup category.
pub open spec fn has_lookup_violation(vs: Seq<Violation>) -> bool {
    exists|i: int| 0 <= i < vs.len() && (#[trigger] vs[i]) is Lookup
}

/// Some violation of the list is of the copy category.
pub open spec fn has_copy_violation(vs: Seq<Violation>) -> bool {
    exists|i: int| 0 <= i < vs.len() && (#[trigger] vs[i]) is Copy
}

/// Some violation of the list is of the public-input category.
pub open spec fn has_instance_violation(vs: Seq<Violation>) -> bool {
    exists|i: int| 0 <= i < vs.len() && (#[trigger] vs[i]) is Instance
}

/// The least-index polynomial of a gate that does not vanish at the
/// row, if any.
fn first_bad_poly(g: &Gate, lay: &Layouter, row: usize) -> (r: Option<usize>)
    requires
        lay.grid_shaped(),
        row < lay.height,
    ensures
        r is None <==> gate_row_ok(*lay, *g, row as int),
        r matches Some(p) ==> {
            &&& p < g.polys@.len()
            &&& !poly_ok(*lay, g.polys@[p as int], row as int)
            &&& (forall|q: int| 0 <= q < p ==> poly_ok(*lay, #[trigger] g.polys@[q], row as int))
        },
{
    for p in 0..g.polys.len()
        invariant
            lay.grid_shaped(),
            row < lay.height,
            forall|q: int| 0 <= q < p ==> poly_ok(*lay, #[trigger] g.polys@[q], row as int),
    {
        let ok = match evaluate(&g.polys[p], lay, row) {
            Ok(v) => v.is_zero(),
            Err(_) => false,
        };
        if !ok {
            proof {
                assert(!poly_ok(*lay, g.polys@[p as int], row as int));
            }
            return Some(p);
        }
    }
    None
}

/// Whether the selector is enabled at the row.
fn sel_active_exec(lay: &Layouter, s: Selector, row: usize) -> (r: bool)
    requires
        row < lay.height,
        lay.grid_shaped(),
    ensures
        r == sel_active(*lay, s, row as int),
{
    s.index < lay.selectors.len() && lay.selectors[s.index][row]
}

/// Violations of gates, in ascending row order.
fn check_gates(cs: &ConstraintSystem, lay: &Layouter) -> (vs: Vec<Violation>)
    requires
        lay.wf(*cs),
    ensures
        forall|i: int|
            0 <= i < vs@.len() ==> (#[trigger] vs@[i]) is Gate && violation_sound(
                *cs,
                *lay,
                vs@[i],
            ),
        vs@.len() == 0 <==> gates_ok(*cs, *lay),
        gate_part_good(*cs, *lay, vs@),
{
    proof {
        reveal(gate_part_good);
    }
    let mut vs: Vec<Violation> = Vec::new();
    let height = lay.height;
    let ngates = cs.gates.len();
    for row in 0..height
        invariant
            lay.wf(*cs),
            height == lay.height,
            ngates == cs.gates@.len(),
            forall|i: int|
                0 <= i < vs@.len() ==> (#[trigger] vs@[i]) is Gate && violation_sound(
                    *cs,
                    *lay,
                    vs@[i],
                ),
            vs@.len() == 0 ==> (forall|gi: int, row2: int|
                0 <= gi < cs.gates@.len() && 0 <= row2 < row && #[trigger] gate_applies(
                    *lay,
                    cs.gates@[gi],
                    row2,
                ) ==> gate_row_ok(*lay, cs.gates@[gi], row2)),
            forall|i: int| 0 <= i < vs@.len() ==> (#[trigger] vs@[i])->Gate_row < row,
            forall|i: int, j: int|
                0 <= i < j < vs@.len() ==> (#[trigger] vs@[i])->Gate_row < (#[trigger] vs@[
                    j])->Gate_row || (vs@[i]->Gate_row == vs@[j]->Gate_row && vs@[i]->Gate_gate
                    < vs@[j]->Gate_gate),
            forall|gi: int, row2: int|
                0 <= gi < cs.gates@.len() && 0 <= row2 < row && #[trigger] gate_applies(
                    *lay,
                    cs.gates@[gi],
                    row2,
                ) && !gate_row_ok(*lay, cs.gates@[gi], row2) ==> exists|k: int|
                    0 <= k < vs@.len() && (#[trigger] vs@[k])->Gate_gate == gi && vs@[k]->Gate_row
                        == row2,
    {
        for gi in 0..ngates
            invariant
                lay.wf(*cs),
                height == lay.height,
                row < height,
                ngates == cs.gates@.len(),
                forall|i: int|
                    0 <= i < vs@.len() ==> (#[trigger] vs@[i]) is Gate && violation_sound(
                        *cs,
                        *lay,
                        vs@[i],
                    ),
                vs@.len() == 0 ==> (forall|gi2: int, row2: int|
                    0 <= gi2 < cs.gates@.len() && 0 <= row2 < row && #[trigger] gate_applies(
                        *lay,
                        cs.gates@[gi2],
                        row2,
                    ) ==> gate_row_ok(*lay, cs.gates@[gi2], row2)),
                vs@.len() == 0 ==> (forall|gi2: int|
                    0 <= gi2 < gi && #[trigger] gate_applies(*lay, cs.gates@[gi2], row as int)
                        ==> gate_row_ok(*lay, cs.gates@[gi2], row as int)),
                forall|i: int|
                    0 <= i < vs@.len() ==> (#[trigger] vs@[i])->Gate_row < row || (vs@[
                        i]->Gate_row == row && vs@[i]->Gate_gate < gi),
                forall|i: int, j: int|
                    0 <= i < j < vs@.len() ==> (#[trigger] vs@[i])->Gate_row < (#[trigger] vs@[
                        j])->Gate_row || (vs@[i]->Gate_row == vs@[j]->Gate_row && vs@[
                        i]->Gate_gate < vs@[j]->Gate_gate),
                forall|gi2: int, row2: int|
                    0 <= gi2 < cs.gates@.len() && 0 <= row2 < row && #[trigger] gate_applies(
                        *lay,
                        cs.gates@[gi2],
                        row2,
                    ) && !gate_row_ok(*lay, cs.gates@[gi2], row2) ==> exists|k: int|
                        0 <= k < vs@.len() && (#[trigger] vs@[k])->Gate_gate == gi2 && vs@[
                            k]->Gate_row == row2,
                forall|gi2: int|
                    0 <= gi2 < gi && #[trigger] gate_applies(*lay, cs.gates@[gi2], row as int)
                        && !gate_row_ok(*lay, cs.gates@[gi2], row as int) ==> exists|k: int|
                        0 <= k < vs@.len() && (#[trigger] vs@[k])->Gate_gate == gi2 && vs@[
                            k]->Gate_row == row,
        {
            let ghost vsp = vs@;
            let applies = match cs.gates[gi].selector {
                Some(s) => sel_active_exec(lay, s, row),
                None => true,
            };
            if applies {
                match first_bad_poly(&cs.gates[gi], lay, row) {
                    Some(p) => {
                        let name = cs.gates[gi].name.clone();
                        vs.push(Violation::Gate { gate: gi, name, row, poly: p });
                    },
                    None => {},
                }
            }
            proof {
                assert(forall|k: int| 0 <= k < vsp.len() ==> vs@[k] == vsp[k]);
                assert forall|gi2: int, row2: int|
                    0 <= gi2 < cs.gates@.len() && 0 <= row2 < row && #[trigger] gate_applies(
                        *lay,
                        cs.gates@[gi2],
                        row2,
                    ) && !gate_row_ok(*lay, cs.gates@[gi2], row2) implies exists|k: int|
                    0 <= k < vs@.len() && (#[trigger] vs@[k])->Gate_gate == gi2 && vs@[
                        k]->Gate_row == row2 by {
                    let k = choose|k: int|
                        0 <= k < vsp.len() && (#[trigger] vsp[k])->Gate_gate == gi2 && vsp[
                            k]->Gate_row == row2;
                    assert(0 <= k < vs@.len() && (vs@[k])->Gate_gate == gi2 && vs@[k]->Gate_row
                        == row2);
                }
                assert forall|gi2: int|
                    0 <= gi2 < gi + 1 && #[trigger] gate_applies(*lay, cs.gates@[gi2], row as int)
                        && !gate_row_ok(*lay, cs.gates@[gi2], row as int) implies exists|k: int|
                    0 <= k < vs@.len() && (#[trigger] vs@[k])->Gate_gate == gi2 && vs@[
                        k]->Gate_row == row by {
                    if gi2 < gi {
                        let k = choose|k: int|
                            0 <= k < vsp.len() && (#[trigger] vsp[k])->Gate_gate == gi2 && vsp[
                                k]->Gate_row == row;
                        assert(0 <= k < vs@.len() && (vs@[k])->Gate_gate == gi2 && vs@[
                            k]->Gate_row == row);
                    } else {
                        assert(vs@.len() == vsp.len() + 1);
                        assert((vs@[vs@.len() - 1])->Gate_gate == gi && (vs@[vs@.len()
                            - 1])->Gate_row == row);
                    }
                }
            }
        }
    }
    if vs.len() > 0 {
        proof {
            let v = vs@[0];
            assert(violation_sound(*cs, *lay, v));
            let gate = v->Gate_gate;
            let row = v->Gate_row;
            let poly = v->Gate_poly;
            assert(!poly_ok(*lay, cs.gates@[gate as int].polys@[poly as int], row as int));
            assert(!gate_row_ok(*lay, cs.gates@[gate as int], row as int));
            assert(gate_applies(*lay, cs.gates@[gate as int], row as int));
            if gates_ok(*cs, *lay) {
                assert(gate_row_ok(*lay, cs.gates@[gate as int], row as int));
                assert(false);
            }
        }
    }
    vs
}

/// Whether the lookup's input tuple at the row equals table row `t`.
fn tuple_matches(l: &Lookup, lay: &Layouter, row: usize, t: usize) -> (r: bool)
    requires
        lay.grid_shaped(),
        row < lay.height,
        lookup_ready(*lay, *l),
        t < lookup_width(*lay, *l),
    ensures
        r == lookup_row_matches_at(*lay, *l, row as int, t as int),
{
    for j in 0..l.entries.len()
        invariant
            lay.grid_shaped(),
            row < lay.height,
            lookup_ready(*lay, *l),
            t < lookup_width(*lay, *l),
            forall|j2: int|
                0 <= j2 < j ==> eval_val((#[trigger] l.entries@[j2]).0, *lay, row as int)
                    == Ok::<int, Error>(table_val(*lay, l.entries@[j2].1, t as int)),
    {
        let tc = l.entries[j].1;
        proof {
            assert(table_col_ready(*lay, l.entries@[j as int].1));
            assert(lay.tables@[tc.index as int]@.len() == lookup_width(*lay, *l));
        }
        let tv = match lay.tables[tc.index][t] {
            Some(tv) => tv,
            None => {
                proof {
                    assert(false);
                }
                return false;
            },
        };
        let matches_here = match evaluate(&l.entries[j].0, lay, row) {
            Ok(v) => v.eq_val(&tv),
            Err(_) => false,
        };
        if !matches_here {
            return false;
        }
    }
    true
}

/// Whether the lookup holds at the row.
fn lookup_row_find(l: &Lookup, lay: &Layouter, row: usize) -> (r: bool)
    requires
        lay.grid_shaped(),
        row < lay.height,
        lookup_ready(*lay, *l),
    ensures
        r == lookup_row_ok(*lay, *l, row as int),
{
    if l.entries.len() == 0 {
        return true;
    }
    let tc0 = l.entries[0].1;
    proof {
        assert(table_col_ready(*lay, l.entries@[0].1));
        assert(lay.tables@[tc0.index as int]@.len() == lookup_width(*lay, *l));
    }
    let width = lay.tables[tc0.index].len();
    for t in 0..width
        invariant
            lay.grid_shaped(),
            row < lay.height,
            lookup_ready(*lay, *l),
            l.entries@.len() > 0,
            width == lookup_width(*lay, *l),
            forall|t2: int| 0 <= t2 < t ==> !lookup_row_matches_at(*lay, *l, row as int, t2),
    {
        if tuple_matches(l, lay, row, t) {
            return true;
        }
    }
    false
}

/// Whether every lookup's table columns are fully and evenly loaded.
fn tables_ready_exec(cs: &ConstraintSystem, lay: &Layouter) -> (r: bool)
    requires
        lay.wf(*cs),
    ensures
        r == tables_ready(*cs, *lay),
{
    let nlookups = cs.lookups.len();
    for li in 0..nlookups
        invariant
            lay.wf(*cs),
            nlookups == cs.lookups@.len(),
            forall|li2: int| 0 <= li2 < li ==> lookup_ready(*lay, #[trigger] cs.lookups@[li2]),
    {
        let l = &cs.lookups[li];
        let width = if l.entries.len() == 0 || l.entries[0].1.index >= lay.tables.len() {
            0
        } else {
            lay.tables[l.entries[0].1.index].len()
        };
        for j in 0..l.entries.len()
            invariant
                lay.wf(*cs),
                li < cs.lookups@.len(),
                l == cs.lookups@[li as int],
                width == lookup_width(*lay, *l),
                forall|j2: int|
                    0 <= j2 < j ==> table_col_ready(*lay, (#[trigger] l.entries@[j2]).1)
                        && lay.tables@[l.entries@[j2].1.index as int]@.len() == lookup_width(
                        *lay,
                        *l,
                    ),
        {
            let tc = l.entries[j].1;
            if tc.index >= lay.tables.len() {
                proof {
                    assert(!table_col_ready(*lay, l.entries@[j as int].1));
                    assert(!lookup_ready(*lay, cs.lookups@[li as int]));
                }
                return false;
            }
            if lay.tables[tc.index].len() != width {
                proof {
                    assert(!lookup_ready(*lay, cs.lookups@[li as int]));
                }
                return false;
            }
            let rows = lay.tables[tc.index].len();
            for rr in 0..rows
                invariant
                    lay.wf(*cs),
                    li < cs.lookups@.len(),
                    l == cs.lookups@[li as int],
                    j < l.entries@.len(),
                    tc == l.entries@[j as int].1,
                    tc.index < lay.tables@.len(),
                    rows == lay.tables@[tc.index as int]@.len(),
                    forall|r2: int| 0 <= r2 < rr ==> lay.tables@[tc.index as int]@[r2] is Some,
            {
                match lay.tables[tc.index][rr] {
                    Some(_) => {},
                    None => {
                        proof {
                            assert(lay.tables@[tc.index as int]@[rr as int] is None);
                            assert(!table_col_ready(*lay, l.entries@[j as int].1));
                            assert(!lookup_ready(*lay, cs.lookups@[li as int]));
                        }
                        return false;
                    },
                }
            }
        }
    }
    true
}

/// The lookup violations, in ascending row order.
fn check_lookups(cs: &ConstraintSystem, lay: &Layouter) -> (vs: Vec<Violation>)
    requires
        lay.wf(*cs),
        tables_ready(*cs, *lay),
    ensures
        forall|i: int|
            0 <= i < vs@.len() ==> (#[trigger] vs@[i]) is Lookup && violation_sound(
                *cs,
                *lay,
                vs@[i],
            ),
        vs@.len() == 0 <==> lookups_ok(*cs, *lay),
        lookup_part_good(*cs, *lay, vs@),
{
    proof {
        reveal(lookup_part_good);
    }
    let mut vs: Vec<Violation> = Vec::new();
    let height = lay.height;
    let nlookups = cs.lookups.len();
    for row in 0..height
        invariant
            lay.wf(*cs),
            tables_ready(*cs, *lay),
            height == lay.height,
            nlookups == cs.lookups@.len(),
            forall|i: int|
                0 <= i < vs@.len() ==> (#[trigger] vs@[i]) is Lookup && violation_sound(
                    *cs,
                    *lay,
                    vs@[i],
                ),
            vs@.len() == 0 ==> (forall|li: int, row2: int|
                0 <= li < cs.lookups@.len() && 0 <= row2 < row && #[trigger] sel_active(
                    *lay,
                    cs.lookups@[li].selector,
                    row2,
                ) ==> lookup_row_ok(*lay, cs.lookups@[li], row2)),
            forall|i: int| 0 <= i < vs@.len() ==> (#[trigger] vs@[i])->Lookup_row < row,
            forall|i: int, j: int|
                0 <= i < j < vs@.len() ==> (#[trigger] vs@[i])->Lookup_row < (#[trigger] vs@[
                    j])->Lookup_row || (vs@[i]->Lookup_row == vs@[j]->Lookup_row && vs@[
                    i]->Lookup_lookup < vs@[j]->Lookup_lookup),
            forall|li: int, row2: int|
                0 <= li < cs.lookups@.len() && 0 <= row2 < row && #[trigger] sel_active(
                    *lay,
                    cs.lookups@[li].selector,
                    row2,
                ) && !lookup_row_ok(*lay, cs.lookups@[li], row2) ==> exists|k: int|
                    0 <= k < vs@.len() && (#[trigger] vs@[k])->Lookup_lookup == li && vs@[
                        k]->Lookup_row == row2,
    {
        for li in 0..nlookups
            invariant
                lay.wf(*cs),
                tables_ready(*cs, *lay),
                height == lay.height,
                row < height,
                nlookups == cs.lookups@.len(),
                forall|i: int|
                    0 <= i < vs@.len() ==> (#[trigger] vs@[i]) is Lookup && violation_sound(
                        *cs,
                        *lay,
                        vs@[i],
                    ),
                vs@.len() == 0 ==> (forall|li2: int, row2: int|
                    0 <= li2 < cs.lookups@.len() && 0 <= row2 < row && #[trigger] sel_active(
                        *lay,
                        cs.lookups@[li2].selector,
                        row2,
                    ) ==> lookup_row_ok(*lay, cs.lookups@[li2], row2)),
                vs@.len() == 0 ==> (forall|li2: int|
                    0 <= li2 < li && #[trigger] sel_active(
                        *lay,
                        cs.lookups@[li2].selector,
                        row as int,
                    ) ==> lookup_row_ok(*lay, cs.lookups@[li2], row as int)),
                forall|i: int|
                    0 <= i < vs@.len() ==> (#[trigger] vs@[i])->Lookup_row < row || (vs@[
                        i]->Lookup_row == row && vs@[i]->Lookup_lookup < li),
                forall|i: int, j: int|
                    0 <= i < j < vs@.len() ==> (#[trigger] vs@[i])->Lookup_row < (#[trigger] vs@[
                        j])->Lookup_row || (vs@[i]->Lookup_row == vs@[j]->Lookup_row && vs@[
                        i]->Lookup_lookup < vs@[j]->Lookup_lookup),
                forall|li2: int, row2: int|
                    0 <= li2 < cs.lookups@.len() && 0 <= row2 < row && #[trigger] sel_active(
                        *lay,
                        cs.lookups@[li2].selector,
                        row2,
                    ) && !lookup_row_ok(*lay, cs.lookups@[li2], row2) ==> exists|k: int|
                        0 <= k < vs@.len() && (#[trigger] vs@[k])->Lookup_lookup == li2 && vs@[
                            k]->Lookup_row == row2,
                forall|li2: int|
                    0 <= li2 < li && #[trigger] sel_active(
                        *lay,
                        cs.lookups@[li2].selector,
                        row as int,
                    ) && !lookup_row_ok(*lay, cs.lookups@[li2], row as int) ==> exists|k: int|
                        0 <= k < vs@.len() && (#[trigger] vs@[k])->Lookup_lookup == li2 && vs@[
                            k]->Lookup_row == row,
        {
            let ghost vsp = vs@;
            let l = &cs.lookups[li];
            if sel_active_exec(lay, l.selector, row) {
                proof {
                    assert(lookup_ready(*lay, cs.lookups@[li as int]));
                }
                if !lookup_row_find(l, lay, row) {
                    let name = l.name.clone();
                    vs.push(Violation::Lookup { lookup: li, name, row });
                }
            }
            proof {
                assert(forall|k: int| 0 <= k < vsp.len() ==> vs@[k] == vsp[k]);
                assert forall|li2: int, row2: int|
                    0 <= li2 < cs.lookups@.len() && 0 <= row2 < row && #[trigger] sel_active(
                        *lay,
                        cs.lookups@[li2].selector,
                        row2,
                    ) && !lookup_row_ok(*lay, cs.lookups@[li2], row2) implies exists|k: int|
                    0 <= k < vs@.len() && (#[trigger] vs@[k])->Lookup_lookup == li2 && vs@[
                        k]->Lookup_row == row2 by {
                    let k = choose|k: int|
                        0 <= k < vsp.len() && (#[trigger] vsp[k])->Lookup_lookup == li2 && vsp[
                            k]->Lookup_row == row2;
                    assert(0 <= k < vs@.len() && (vs@[k])->Lookup_lookup == li2 && vs@[
                        k]->Lookup_row == row2);
                }
                assert forall|li2: int|
                    0 <= li2 < li + 1 && #[trigger] sel_active(
                        *lay,
                        cs.lookups@[li2].selector,
                        row as int,
                    ) && !lookup_row_ok(*lay, cs.lookups@[li2], row as int) implies exists|k: int|
                    0 <= k < vs@.len() && (#[trigger] vs@[k])->Lookup_lookup == li2 && vs@[
                        k]->Lookup_row == row by {
                    if li2 < li {
                        let k = choose|k: int|
                            0 <= k < vsp.len() && (#[trigger] vsp[k])->Lookup_lookup == li2 && vsp[
                                k]->Lookup_row == row;
                        assert(0 <= k < vs@.len() && (vs@[k])->Lookup_lookup == li2 && vs@[
                            k]->Lookup_row == row);
                    } else {
                        assert(vs@.len() == vsp.len() + 1);
                        assert((vs@[vs@.len() - 1])->Lookup_lookup == li && (vs@[vs@.len()
                            - 1])->Lookup_row == row);
                    }
                }
            }
        }
    }
    if vs.len() > 0 {
        proof {
            let v = vs@[0];
            assert(violation_sound(*cs, *lay, v));
            let lookup = v->Lookup_lookup;
            let row = v->Lookup_row;
            assert(!lookup_row_ok(*lay, cs.lookups@[lookup as int], row as int));
            assert(sel_active(*lay, cs.lookups@[lookup as int].selector, row as int));
            if lookups_ok(*cs, *lay) {
                assert(lookup_row_ok(*lay, cs.lookups@[lookup as int], row as int));
                assert(false);
            }
        }
    }
    vs
}

/// The public-input violations, in binding order.
fn check_instances(lay: &Layouter) -> (vs: Vec<Violation>)
    ensures
        vs@ == failing_instance_records(*lay, lay.instance_bindings@.len() as int),
        forall|i: int|
            0 <= i < vs@.len() ==> (#[trigger] vs@[i]) is Instance,
        forall|i: int, cs2: ConstraintSystem|
            0 <= i < vs@.len() ==> #[trigger] violation_sound(cs2, *lay, vs@[i]),
        vs@.len() == 0 <==> instances_ok(*lay),
{
    let mut vs: Vec<Violation> = Vec::new();
    let n = lay.instance_bindings.len();
    for k in 0..n
        invariant
            n == lay.instance_bindings@.len(),
            vs@ == failing_instance_records(*lay, k as int),
            forall|i: int| 0 <= i < vs@.len() ==> (#[trigger] vs@[i]) is Instance,
            forall|i: int, cs2: ConstraintSystem|
                0 <= i < vs@.len() ==> #[trigger] violation_sound(cs2, *lay, vs@[i]),
            vs@.len() == 0 ==> (forall|k2: int|
                0 <= k2 < k ==> binding_ok(*lay, #[trigger] lay.instance_bindings@[k2])),
    {
        let (cell, ic, ir) = lay.instance_bindings[k];
        let ok = if ic < lay.instances.len() && ir < lay.instances[ic].len() {
            match lay.value_opt(cell) {
                Some(v) => v == lay.instances[ic][ir],
                None => false,
            }
        } else {
            false
        };
        proof {
            assert(lay.instance_bindings@[k as int] == (cell, ic, ir));
            assert(ok == binding_ok(*lay, lay.instance_bindings@[k as int]));
        }
        if !ok {
            vs.push(Violation::Instance { cell, column: ic, row: ir });
        }
    }
    if vs.len() > 0 {
        proof {
            let v = vs@[0];
            let cs2 = vstd::pervasive::arbitrary::<ConstraintSystem>();
            assert(violation_sound(cs2, *lay, v));
            let k = choose|k: int|
                0 <= k < lay.instance_bindings@.len() && #[trigger] lay.instance_bindings@[k] == (
                v->Instance_cell,
                v->Instance_column,
                v->Instance_row,
            ) && !binding_ok(*lay, lay.instance_bindings@[k]);
            if instances_ok(*lay) {
                assert(binding_ok(*lay, lay.instance_bindings@[k]));
                assert(false);
            }
        }
    }
    vs
}

/// Check a finished witness grid against the constraint system.
///
/// The result is `Err(TableNotLoaded)` exactly when some lookup argument's
/// table columns are not fully and evenly loaded.  Otherwise the verdict
/// is `Satisfied` exactly when every gate, lookup, copy constraint and
/// public-input binding holds; a failed run carries the complete list of
/// violations, ordered by category, each naming a real failure, and a
/// failing copy constraint is reported by exactly one violation for its
/// whole equivalence class.
#[verifier::rlimit(100)]
pub fn check(cs: &ConstraintSystem, lay: &Layouter) -> (r: Result<CheckOutcome, Error>)
    requires
        lay.wf(*cs),
        2 * lay.copies@.len() < usize::MAX,
    ensures
        r is Err <==> !tables_ready(*cs, *lay),
        r matches Err(e) ==> e == Error::TableNotLoaded,
        r matches Ok(out) ==> {
            &&& ((out is Satisfied) <==> satisfied(*cs, *lay))
            &&& (out matches CheckOutcome::Violations(vs) ==> vs@.len() > 0)
            &&& (has_gate_violation(out.violations()) <==> !gates_ok(*cs, *lay))
            &&& (has_lookup_violation(out.violations()) <==> !lookups_ok(*cs, *lay))
            &&& (has_copy_violation(out.violations()) <==> !copies_ok(*lay))
            &&& (has_instance_violation(out.violations()) <==> !instances_ok(*lay))
            &&& (forall|i: int|
                0 <= i < out.violations().len() ==> violation_sound(
                    *cs,
                    *lay,
                    #[trigger] out.violations()[i],
                ))
            &&& (forall|k: int|
                0 <= k < lay.copies@.len() && !crate::equiv::pair_ok(
                    *lay,
                    #[trigger] lay.copies@[k],
                ) ==> one_violation_references(*lay, out.violations(), lay.copies@[k].0))
            &&& report_well_ordered(out.violations())
            &&& report_names_each_failure(*cs, *lay, out.violations())
        },
{
    if !tables_ready_exec(cs, lay) {
        return Err(Error::TableNotLoaded);
    }
    let mut vs = check_gates(cs, lay);
    let ghost seq_g = vs@;
    let ghost n_gate = vs@.len() as int;
    let ghost had_gate = n_gate > 0;
    let mut lvs = check_lookups(cs, lay);
    let ghost seq_l = lvs@;
    let ghost had_lookup = lvs@.len() > 0;
    vs.append(&mut lvs);
    let ghost n_lookup_end = vs@.len() as int;
    let mut groups = copy_conflict_groups(lay);
    let ghost orig_groups = groups@;
    let ghost had_copy = orig_groups.len() > 0;
    let ghost pre_copy = vs@;
    let ghost c_start = vs@.len() as int;
    while groups.len() > 0
        invariant
            c_start == pre_copy.len(),
            groups@.len() <= orig_groups.len(),
            vs@.len() == c_start + orig_groups.len() - groups@.len(),
            forall|i: int| 0 <= i < c_start ==> vs@[i] == pre_copy[i],
            forall|i: int|
                c_start <= i < vs@.len() ==> vs@[i] == (Violation::Copy {
                    cells: orig_groups[i - c_start],
                }),
            forall|i: int|
                0 <= i < groups@.len() ==> groups@[i] == orig_groups[vs@.len() - c_start + i],
        decreases groups@.len(),
    {
        let ghost gprev = groups@;
        let ghost vprev = vs@;
        let g = groups.remove(0);
        proof {
            assert(groups@ =~= gprev.subrange(1, gprev.len() as int));
            assert(forall|i: int| 0 <= i < groups@.len() ==> groups@[i] == gprev[i + 1]);
        }
        vs.push(Violation::Copy { cells: g });
        proof {
            assert(forall|i: int| 0 <= i < vprev.len() ==> vs@[i] == vprev[i]);
            assert(g == gprev[0]);
            assert(gprev[0] == orig_groups[vprev.len() - c_start]);
            assert(vs@[vs@.len() - 1] == (Violation::Copy {
                cells: orig_groups[vs@.len() - 1 - c_start],
            }));
        }
    }
    let ghost c_end = vs@.len() as int;
    let mut ivs = check_instances(lay);
    let ghost seq_i = ivs@;
    let ghost had_instance = ivs@.len() > 0;
    let ghost pre_inst = vs@;
    vs.append(&mut ivs);
    proof {
        let all = vs@;
        // Category layout of the assembled list.
        assert(forall|i: int| 0 <= i < c_end ==> all[i] == pre_inst[i]);
        assert forall|i: int| 0 <= i < all.len() implies violation_sound(
            *cs,
            *lay,
            #[trigger] all[i],
        ) && ((all[i] is Gate) <==> i < n_gate) && ((all[i] is Lookup) <==> (n_gate <= i
            < n_lookup_end)) && ((all[i] is Copy) <==> (c_start <= i < c_end)) && ((all[
            i] is Instance) <==> c_end <= i) by {
            if i < n_gate {
                assert(all[i] == pre_copy[i]);
            } else if i < n_lookup_end {
                assert(all[i] == pre_copy[i]);
            } else if i < c_end {
                assert(all[i] == (Violation::Copy { cells: orig_groups[i - c_start] }));
                assert(group_conflict(*lay, orig_groups[i - c_start]@));
                assert(orig_groups[i - c_start]@.len() > 0);
            } else {
            }
        }
        // Category presence follows the stage that produced it.
        assert(had_gate <==> has_gate_violation(all)) by {
            if had_gate {
                assert(all[0] is Gate);
            }
            if has_gate_violation(all) {
                let i = choose|i: int| 0 <= i < all.len() && (#[trigger] all[i]) is Gate;
                assert(i < n_gate);
            }
        }
        assert(had_lookup <==> has_lookup_violation(all)) by {
            if had_lookup {
                assert(all[n_gate] is Lookup);
            }
            if has_lookup_violation(all) {
                let i = choose|i: int| 0 <= i < all.len() && (#[trigger] all[i]) is Lookup;
                assert(n_gate <= i < n_lookup_end);
            }
        }
        assert(had_copy <==> has_copy_violation(all)) by {
            if had_copy {
                assert(all[c_start] is Copy);
            }
            if has_copy_violation(all) {
                let i = choose|i: int| 0 <= i < all.len() && (#[trigger] all[i]) is Copy;
                assert(c_start <= i < c_end);
            }
        }
        assert(had_instance <==> has_instance_violation(all)) by {
            if had_instance {
                assert(all[c_end] is Instance);
            }
            if has_instance_violation(all) {
                let i = choose|i: int| 0 <= i < all.len() && (#[trigger] all[i]) is Instance;
                assert(c_end <= i);
            }
        }
        assert(all.len() == 0 <==> (!had_gate && !had_lookup && !had_copy && !had_instance));
        // A failing copy constraint is reported exactly once.
        assert forall|k: int|
            0 <= k < lay.copies@.len() && !crate::equiv::pair_ok(
                *lay,
                #[trigger] lay.copies@[k],
            ) implies one_violation_references(*lay, all, lay.copies@[k].0) by {
            let c = lay.copies@[k].0;
            let v = choose|v: int|
                0 <= v < orig_groups.len() && #[trigger] group_references(
                    *lay,
                    orig_groups[v]@,
                    c,
                ) && (forall|w: int|
                    0 <= w < orig_groups.len() && #[trigger] group_references(
                        *lay,
                        orig_groups[w]@,
                        c,
                    ) ==> w == v);
            assert(all[c_start + v] == (Violation::Copy { cells: orig_groups[v] }));
            assert(violation_references(*lay, all[c_start + v], c));
            assert forall|j: int|
                0 <= j < all.len() && #[trigger] violation_references(*lay, all[j], c) implies j
                == c_start + v by {
                assert(all[j] is Copy);
                assert(c_start <= j < c_end);
                assert(all[j] == (Violation::Copy { cells: orig_groups[j - c_start] }));
                assert(group_references(*lay, orig_groups[j - c_start]@, c));
                assert(j - c_start == v);
            }
        }
        // The parts of the assembled list, by index range.
        assert(pre_copy == seq_g + seq_l);
        assert forall|i: int| 0 <= i < n_gate implies all[i] == seq_g[i] by {
            assert(all[i] == pre_inst[i]);
            assert(pre_inst[i] == pre_copy[i]);
            assert(pre_copy[i] == (seq_g + seq_l)[i]);
        }
        assert forall|i: int| n_gate <= i < n_lookup_end implies all[i] == seq_l[i - n_gate] by {
            assert(all[i] == pre_inst[i]);
            assert(pre_inst[i] == pre_copy[i]);
            assert(pre_copy[i] == (seq_g + seq_l)[i]);
        }
        assert(all.subrange(c_end, all.len() as int) =~= seq_i);
        lemma_report_shape(*cs, *lay, all, seq_g, seq_l, n_gate, n_lookup_end, c_end);
    }
    if vs.len() == 0 {
        proof {
            assert(vs@ =~= Seq::<Violation>::empty());
        }
        Ok(CheckOutcome::Satisfied)
    } else {
        Ok(CheckOutcome::Violations(vs))
    }
}

/// An assembled report laid out gates, lookups, copy classes, then
/// instance records — with its gate and lookup parts sorted and
/// complete — is well ordered and names each failure exactly once.
proof fn lemma_report_shape(
    cs: ConstraintSystem,
    lay: Layouter,
    all: Seq<Violation>,
    seq_g: Seq<Violation>,
    seq_l: Seq<Violation>,
    n_gate: int,
    n_lend: int,
    c_end: int,
)
    requires
        0 <= n_gate <= n_lend <= c_end <= all.len(),
        seq_g.len() == n_gate,
        seq_l.len() == n_lend - n_gate,
        forall|i: int| 0 <= i < n_gate ==> all[i] == seq_g[i],
        forall|i: int| n_gate <= i < n_lend ==> all[i] == seq_l[i - n_gate],
        forall|i: int|
            0 <= i < all.len() ==> (((#[trigger] all[i]) is Gate) <==> i < n_gate) && (((all[
            i]) is Lookup) <==> (n_gate <= i < n_lend)) && (((all[i]) is Copy) <==> (n_lend <= i
                < c_end)) && (((all[i]) is Instance) <==> c_end <= i),
        gate_part_good(cs, lay, seq_g),
        lookup_part_good(cs, lay, seq_l),
        all.subrange(c_end, all.len() as int) == failing_instance_records(
            lay,
            lay.instance_bindings@.len() as int,
        ),
    ensures
        report_well_ordered(all),
        report_names_each_failure(cs, lay, all),
{
    reveal(report_well_ordered);
    reveal(report_names_each_failure);
    reveal(gate_part_good);
    reveal(lookup_part_good);
    assert forall|i: int, j: int| 0 <= i <= j < all.len() implies violation_rank(
        #[trigger] all[i],
    ) <= violation_rank(#[trigger] all[j]) by {}
    assert forall|i: int, j: int|
        0 <= i < j < all.len() && (#[trigger] all[i]) is Gate && (#[trigger] all[j]) is Gate
        implies all[i]->Gate_row <= all[j]->Gate_row by {
        assert(i < n_gate && j < n_gate);
        assert(all[i] == seq_g[i] && all[j] == seq_g[j]);
    }
    assert forall|i: int, j: int|
        0 <= i < j < all.len() && (#[trigger] all[i]) is Lookup && (#[trigger] all[j]) is Lookup
        implies all[i]->Lookup_row <= all[j]->Lookup_row by {
        assert(n_gate <= i < n_lend && n_gate <= j < n_lend);
        assert(all[i] == seq_l[i - n_gate] && all[j] == seq_l[j - n_gate]);
    }
    lemma_gate_records_unique(cs, lay, all, seq_g);
    lemma_lookup_records_unique(cs, lay, all, seq_l, n_gate, n_lend);
    assert(0 <= c_end <= all.len() && (forall|i: int|
        0 <= i < c_end ==> !((#[trigger] all[i]) is Instance)) && all.subrange(
        c_end,
        all.len() as int,
    ) == failing_instance_records(lay, lay.instance_bindings@.len() as int));
}

/// In an assembled report whose gate records form the prefix `seq_g`,
/// sorted strictly by row and gate index, every failing gate row is
/// named by exactly one record.
proof fn lemma_gate_records_unique(
    cs: ConstraintSystem,
    lay: Layouter,
    all: Seq<Violation>,
    seq_g: Seq<Violation>,
)
    requires
        seq_g.len() <= all.len(),
        forall|i: int| 0 <= i < seq_g.len() ==> all[i] == seq_g[i],
        forall|i: int| 0 <= i < all.len() ==> (((#[trigger] all[i]) is Gate) <==> i < seq_g.len()),
        forall|i: int, j: int|
            0 <= i < j < seq_g.len() ==> (#[trigger] seq_g[i])->Gate_row < (#[trigger] seq_g[
                j])->Gate_row || (seq_g[i]->Gate_row == seq_g[j]->Gate_row && seq_g[i]->Gate_gate
                < seq_g[j]->Gate_gate),
        forall|gi: int, row2: int|
            0 <= gi < cs.gates@.len() && 0 <= row2 < lay.height && #[trigger] gate_applies(
                lay,
                cs.gates@[gi],
                row2,
            ) && !gate_row_ok(lay, cs.gates@[gi], row2) ==> exists|k: int|
                0 <= k < seq_g.len() && (#[trigger] seq_g[k])->Gate_gate == gi && seq_g[
                    k]->Gate_row == row2,
    ensures
        forall|gi: int, row2: int|
            0 <= gi < cs.gates@.len() && 0 <= row2 < lay.height && #[trigger] gate_applies(
                lay,
                cs.gates@[gi],
                row2,
            ) && !gate_row_ok(lay, cs.gates@[gi], row2) ==> exists|k: int|
                0 <= k < all.len() && (#[trigger] all[k]) is Gate && all[k]->Gate_gate == gi
                    && all[k]->Gate_row == row2 && (forall|k2: int|
                    0 <= k2 < all.len() && (#[trigger] all[k2]) is Gate && all[k2]->Gate_gate
                        == gi && all[k2]->Gate_row == row2 ==> k2 == k),
{
    assert forall|gi: int, row2: int|
        0 <= gi < cs.gates@.len() && 0 <= row2 < lay.height && #[trigger] gate_applies(
            lay,
            cs.gates@[gi],
            row2,
        ) && !gate_row_ok(lay, cs.gates@[gi], row2) implies exists|k: int|
        0 <= k < all.len() && (#[trigger] all[k]) is Gate && all[k]->Gate_gate == gi && all[
        k]->Gate_row == row2 && (forall|k2: int|
            0 <= k2 < all.len() && (#[trigger] all[k2]) is Gate && all[k2]->Gate_gate == gi
                && all[k2]->Gate_row == row2 ==> k2 == k) by {
        let k = choose|k: int|
            0 <= k < seq_g.len() && (#[trigger] seq_g[k])->Gate_gate == gi && seq_g[k]->Gate_row
                == row2;
        assert(all[k] == seq_g[k]);
        assert forall|k2: int|
            0 <= k2 < all.len() && (#[trigger] all[k2]) is Gate && all[k2]->Gate_gate == gi
                && all[k2]->Gate_row == row2 implies k2 == k by {
            assert(k2 < seq_g.len());
            assert(all[k2] == seq_g[k2]);
            if k2 < k {
                assert(seq_g[k2]->Gate_row < seq_g[k]->Gate_row || (seq_g[k2]->Gate_row == seq_g[
                    k]->Gate_row && seq_g[k2]->Gate_gate < seq_g[k]->Gate_gate));
                assert(false);
            } else if k < k2 {
                assert(seq_g[k]->Gate_row < seq_g[k2]->Gate_row || (seq_g[k]->Gate_row == seq_g[
                    k2]->Gate_row && seq_g[k]->Gate_gate < seq_g[k2]->Gate_gate));
                assert(false);
            }
        }
        assert(0 <= k < all.len() && all[k] is Gate && all[k]->Gate_gate == gi && all[
        k]->Gate_row == row2 && (forall|k2: int|
            0 <= k2 < all.len() && (#[trigger] all[k2]) is Gate && all[k2]->Gate_gate == gi
                && all[k2]->Gate_row == row2 ==> k2 == k));
    }
}

/// In an assembled report whose lookup records sit at indices
/// `[n_gate, n_lend)` mirroring `seq_l`, sorted strictly by row and
/// lookup index, every failing lookup row is named by exactly one
/// record.
proof fn lemma_lookup_records_unique(
    cs: ConstraintSystem,
    lay: Layouter,
    all: Seq<Violation>,
    seq_l: Seq<Violation>,
    n_gate: int,
    n_lend: int,
)
    requires
        0 <= n_gate <= n_lend <= all.len(),
        n_lend - n_gate == seq_l.len(),
        forall|i: int| n_gate <= i < n_lend ==> all[i] == seq_l[i - n_gate],
        forall|i: int|
            0 <= i < all.len() ==> (((#[trigger] all[i]) is Lookup) <==> (n_gate <= i < n_lend)),
        forall|i: int, j: int|
            0 <= i < j < seq_l.len() ==> (#[trigger] seq_l[i])->Lookup_row < (#[trigger] seq_l[
                j])->Lookup_row || (seq_l[i]->Lookup_row == seq_l[j]->Lookup_row && seq_l[
                i]->Lookup_lookup < seq_l[j]->Lookup_lookup),
        forall|li: int, row2: int|
            0 <= li < cs.lookups@.len() && 0 <= row2 < lay.height && #[trigger] sel_active(
                lay,
                cs.lookups@[li].selector,
                row2,
            ) && !lookup_row_ok(lay, cs.lookups@[li], row2) ==> exists|k: int|
                0 <= k < seq_l.len() && (#[trigger] seq_l[k])->Lookup_lookup == li && seq_l[
                    k]->Lookup_row == row2,
    ensures
        forall|li: int, row2: int|
            0 <= li < cs.lookups@.len() && 0 <= row2 < lay.height && #[trigger] sel_active(
                lay,
                cs.lookups@[li].selector,
                row2,
            ) && !lookup_row_ok(lay, cs.lookups@[li], row2) ==> exists|k: int|
                0 <= k < all.len() && (#[trigger] all[k]) is Lookup && all[k]->Lookup_lookup == li
                    && all[k]->Lookup_row == row2 && (forall|k2: int|
                    0 <= k2 < all.len() && (#[trigger] all[k2]) is Lookup && all[
                    k2]->Lookup_lookup == li && all[k2]->Lookup_row == row2 ==> k2 == k),
{
    assert forall|li: int, row2: int|
        0 <= li < cs.lookups@.len() && 0 <= row2 < lay.height && #[trigger] sel_active(
            lay,
            cs.lookups@[li].selector,
            row2,
        ) && !lookup_row_ok(lay, cs.lookups@[li], row2) implies exists|k: int|
        0 <= k < all.len() && (#[trigger] all[k]) is Lookup && all[k]->Lookup_lookup == li && all[
        k]->Lookup_row == row2 && (forall|k2: int|
            0 <= k2 < all.len() && (#[trigger] all[k2]) is Lookup && all[k2]->Lookup_lookup == li
                && all[k2]->Lookup_row == row2 ==> k2 == k) by {
        let kl = choose|kl: int|
            0 <= kl < seq_l.len() && (#[trigger] seq_l[kl])->Lookup_lookup == li && seq_l[
                kl]->Lookup_row == row2;
        let k = kl + n_gate;
        assert(all[k] == seq_l[kl]);
        assert forall|k2: int|
            0 <= k2 < all.len() && (#[trigger] all[k2]) is Lookup && all[k2]->Lookup_lookup == li
                && all[k2]->Lookup_row == row2 implies k2 == k by {
            assert(n_gate <= k2 < n_lend);
            assert(all[k2] == seq_l[k2 - n_gate]);
            if k2 - n_gate < kl {
                assert(seq_l[k2 - n_gate]->Lookup_row < seq_l[kl]->Lookup_row || (seq_l[k2
                    - n_gate]->Lookup_row == seq_l[kl]->Lookup_row && seq_l[k2
                    - n_gate]->Lookup_lookup < seq_l[kl]->Lookup_lookup));
                assert(false);
            } else if kl < k2 - n_gate {
                assert(seq_l[kl]->Lookup_row < seq_l[k2 - n_gate]->Lookup_row || (seq_l[
                    kl]->Lookup_row == seq_l[k2 - n_gate]->Lookup_row && seq_l[
                    kl]->Lookup_lookup < seq_l[k2 - n_gate]->Lookup_lookup));
                assert(false);
            }
        }
        assert(0 <= k < all.len() && all[k] is Lookup && all[k]->Lookup_lookup == li && all[
        k]->Lookup_row == row2 && (forall|k2: int|
            0 <= k2 < all.len() && (#[trigger] all[k2]) is Lookup && all[k2]->Lookup_lookup == li
                && all[k2]->Lookup_row == row2 ==> k2 == k));
    }
}

/// A sound violation of a gate names a row where that gate's selector
/// is on: with the selector off at a row, nothing is reported there,
/// whatever the cells hold.
pub proof fn lemma_gate_violation_names_enabled_row(cs: ConstraintSystem, lay: Layouter, v:
    Violation)
    requires
        violation_sound(cs, lay, v),
        v is Gate,
        cs.gates@[v->Gate_gate as int].selector is Some,
    ensures
        sel_active(lay, cs.gates@[v->Gate_gate as int].selector.unwrap(), v->Gate_row as int),
{
}

} // verus!