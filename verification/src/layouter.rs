//! The region allocator and witness grid.
//!
//! A layouter owns the concrete two-dimensional store of field elements,
//! the enabled selector rows, the loaded table rows, the public instance
//! values, and every recorded equality constraint.  Circuit code fills it
//! region by region: a region claims the next free rows, all assignments
//! inside it use region-relative offsets, and regions never share rows.
//!
//! Re-assigning a cell with the value it already holds is a no-op;
//! re-assigning it with a different value fails with [`Error::Shadowing`].
//! An assignment at or beyond the grid height fails with
//! [`Error::RowOutOfRange`].  Nothing is written when an operation fails.

use vstd::prelude::*;

use crate::columns::{AdviceColumn, Cell, ColumnKind, FixedColumn, InstanceColumn, Selector,
    TableColumn};
use crate::cs::ConstraintSystem;
use crate::error::Error;
use crate::field::Felt;

verus! {

/// The widest grid a layouter will allocate: `2^20` rows.
pub const MAX_HEIGHT: usize = 0x10_0000;

/// A closed region: its name, its first absolute row, and how many rows
/// its assignments covered.
pub struct RegionInfo {
    pub name: String,
    pub start: usize,
    pub rows: usize,
}

/// The witness grid together with the region-allocation state.
pub struct Layouter {
    /// Grid height; every absolute row is below it.
    pub height: usize,
    /// Values of fixed columns, `fixed[column][row]`.
    pub fixed: Vec<Vec<Option<Felt>>>,
    /// Values of advice columns, `advice[column][row]`.
    pub advice: Vec<Vec<Option<Felt>>>,
    /// Enabled rows of each selector, `selectors[selector][row]`.
    pub selectors: Vec<Vec<bool>>,
    /// Loaded rows of each table column, dense from row zero.
    pub tables: Vec<Vec<Option<Felt>>>,
    /// Public input values, one vector per instance column.
    pub instances: Vec<Vec<Felt>>,
    /// Recorded equality constraints (the permutation argument).
    pub copies: Vec<(Cell, Cell)>,
    /// Cells bound to a public input, `(cell, instance column, row)`.
    pub instance_bindings: Vec<(Cell, usize, usize)>,
    /// Closed regions, in allocation order.
    pub regions: Vec<RegionInfo>,
    /// First row not yet claimed by any closed region.
    pub next_row: usize,
    /// Whether a region is currently open.
    pub in_region: bool,
    /// First absolute row of the open region.
    pub region_start: usize,
    /// Rows of the open region touched so far.
    pub region_rows: usize,
    /// Name of the open region.
    pub region_name: String,
}

impl Layouter {
    /// The grid matches the constraint system's registry and the region
    /// bookkeeping is consistent.
    pub open spec fn wf(self, cs: ConstraintSystem) -> bool {
        &&& cs.wf()
        &&& self.height <= MAX_HEIGHT
        &&& self.fixed@.len() == cs.num_fixed
        &&& (forall|i: int|
            0 <= i < self.fixed@.len() ==> (#[trigger] self.fixed@[i])@.len() == self.height)
        &&& self.advice@.len() == cs.num_advice
        &&& (forall|i: int|
            0 <= i < self.advice@.len() ==> (#[trigger] self.advice@[i])@.len() == self.height)
        &&& self.selectors@.len() == cs.num_selectors
        &&& (forall|i: int|
            0 <= i < self.selectors@.len() ==> (#[trigger] self.selectors@[i])@.len()
                == self.height)
        &&& self.tables@.len() == cs.num_tables
        &&& (forall|i: int|
            0 <= i < self.tables@.len() ==> (#[trigger] self.tables@[i])@.len() <= self.height)
        &&& self.instances@.len() == cs.num_instance
        &&& self.next_row <= self.height
        &&& self.region_start + self.region_rows <= self.height
        &&& (self.in_region ==> self.region_start == self.next_row)
        &&& (!self.in_region ==> self.region_rows == 0)
        &&& (forall|ci: int, row: int|
            0 <= ci < self.advice@.len() && self.frontier() <= row < self.height
                ==> self.advice@[ci]@[row] is None)
        &&& (forall|ci: int, row: int|
            0 <= ci < self.fixed@.len() && self.frontier() <= row < self.height
                ==> self.fixed@[ci]@[row] is None)
        &&& (forall|ci: int, row: int|
            0 <= ci < self.selectors@.len() && self.frontier() <= row < self.height
                ==> !self.selectors@[ci]@[row])
    }

    /// The first row that no region has touched: everything at or beyond
    /// it is still unassigned.
    pub open spec fn frontier(self) -> int {
        if self.in_region {
            self.region_start + self.region_rows
        } else {
            self.next_row as int
        }
    }

    /// Every value-bearing column vector matches the grid height.  This
    /// is the part of well-formedness that expression evaluation needs.
    pub open spec fn grid_shaped(self) -> bool {
        &&& self.height <= MAX_HEIGHT
        &&& (forall|i: int|
            0 <= i < self.fixed@.len() ==> (#[trigger] self.fixed@[i])@.len() == self.height)
        &&& (forall|i: int|
            0 <= i < self.advice@.len() ==> (#[trigger] self.advice@[i])@.len() == self.height)
        &&& (forall|i: int|
            0 <= i < self.selectors@.len() ==> (#[trigger] self.selectors@[i])@.len()
                == self.height)
    }

    /// The value held by a cell, if any.  Instance cells read the public
    /// input vector; fixed and advice cells read the grid.
    pub open spec fn cell_value(self, c: Cell) -> Option<Felt> {
        match c.kind {
            ColumnKind::Fixed => if c.index < self.fixed@.len() && c.row
                < self.fixed@[c.index as int]@.len() {
                self.fixed@[c.index as int]@[c.row as int]
            } else {
                None
            },
            ColumnKind::Advice => if c.index < self.advice@.len() && c.row
                < self.advice@[c.index as int]@.len() {
                self.advice@[c.index as int]@[c.row as int]
            } else {
                None
            },
            ColumnKind::Instance => if c.index < self.instances@.len() && c.row
                < self.instances@[c.index as int]@.len() {
                Some(self.instances@[c.index as int]@[c.row as int])
            } else {
                None
            },
        }
    }

    /// An existing value lets the assignment of `v` through: the slot is
    /// empty or already holds exactly `v`.
    pub open spec fn compat(slot: Option<Felt>, v: Felt) -> bool {
        slot is None || slot == Some(v)
    }

    /// The grid columns other than advice are unchanged.
    pub open spec fn grid_except_advice_unchanged(self, other: Layouter) -> bool {
        &&& other.fixed@ == self.fixed@
        &&& other.selectors@ == self.selectors@
        &&& other.tables@ == self.tables@
        &&& other.instances@ == self.instances@
    }

    /// The whole grid is unchanged.
    pub open spec fn grid_unchanged(self, other: Layouter) -> bool {
        &&& self.grid_except_advice_unchanged(other)
        &&& other.advice@ == self.advice@
    }

    /// The recorded constraints are unchanged.
    pub open spec fn records_unchanged(self, other: Layouter) -> bool {
        &&& other.copies@ == self.copies@
        &&& other.instance_bindings@ == self.instance_bindings@
        &&& other.regions@ == self.regions@
    }

    /// The region-allocation state is unchanged.
    pub open spec fn layout_unchanged(self, other: Layouter) -> bool {
        &&& other.height == self.height
        &&& other.next_row == self.next_row
        &&& other.in_region == self.in_region
        &&& other.region_start == self.region_start
        &&& other.region_rows == self.region_rows
        &&& other.region_name@ == self.region_name@
    }

    /// The region-allocation state except the touched-rows counter.
    pub open spec fn layout_unchanged_but_rows(self, other: Layouter) -> bool {
        &&& other.height == self.height
        &&& other.next_row == self.next_row
        &&& other.in_region == self.in_region
        &&& other.region_start == self.region_start
        &&& other.region_name@ == self.region_name@
        &&& other.region_rows == (if self.region_rows > other.region_rows {
            self.region_rows
        } else {
            other.region_rows
        })
    }

    /// The touched-rows counter after an assignment at relative row `rel`.
    pub open spec fn rows_after(self, rel: usize) -> usize {
        if rel + 1 > self.region_rows {
            (rel + 1) as usize
        } else {
            self.region_rows
        }
    }

    /// A fresh, fully unassigned grid of height `2^k`, holding the given
    /// public input vectors.
    pub fn new(cs: &ConstraintSystem, k: usize, instances: Vec<Vec<Felt>>) -> (r: Layouter)
        requires
            cs.wf(),
            k <= 20,
            instances@.len() == cs.num_instance,
        ensures
            r.wf(*cs),
            r.height == (1usize << k),
            r.height >= 1,
            10 <= k ==> r.height >= 1024,
            r.instances@ == instances@,
            r.copies@.len() == 0,
            r.instance_bindings@.len() == 0,
            r.regions@.len() == 0,
            r.next_row == 0,
            !r.in_region,
            forall|i: int, j: int|
                0 <= i < cs.num_fixed && 0 <= j < r.height ==> r.fixed@[i]@[j] is None,
            forall|i: int, j: int|
                0 <= i < cs.num_advice && 0 <= j < r.height ==> r.advice@[i]@[j] is None,
            forall|i: int, j: int|
                0 <= i < cs.num_selectors && 0 <= j < r.height ==> !r.selectors@[i]@[j],
            forall|i: int| 0 <= i < cs.num_tables ==> r.tables@[i]@.len() == 0,
    {
        proof {
            assert((1u64 << (k as u64)) <= 0x10_0000 && (1u64 << (k as u64)) >= 1)
                by (bit_vector)
                requires
                    k as u64 <= 20,
            ;
            assert(10 <= k as u64 <= 20 ==> (1u64 << (k as u64)) >= 1024) by (bit_vector);
        }
        let height: usize = ((1u64 << (k as u64)) as usize);
        let fixed = blank_grid(cs.num_fixed, height);
        let advice = blank_grid(cs.num_advice, height);
        let selectors = blank_flags(cs.num_selectors, height);
        let mut tables: Vec<Vec<Option<Felt>>> = Vec::new();
        for i in 0..cs.num_tables
            invariant
                tables@.len() == i,
                forall|a: int| 0 <= a < i ==> (#[trigger] tables@[a])@.len() == 0,
        {
            tables.push(Vec::new());
        }
        proof {
            assert(height == 1usize << k) by (bit_vector)
                requires
                    height == ((1u64 << (k as u64)) as usize),
                    k <= 20usize,
            ;
        }
        Layouter {
            height,
            fixed,
            advice,
            selectors,
            tables,
            instances,
            copies: Vec::new(),
            instance_bindings: Vec::new(),
            regions: Vec::new(),
            next_row: 0,
            in_region: false,
            region_start: 0,
            region_rows: 0,
            region_name: String::new(),
        }
    }

    /// Open the next region: it will start at the first free row.
    pub fn start_region(&mut self, cs: &ConstraintSystem, name: &str)
        requires
            old(self).wf(*cs),
            !old(self).in_region,
        ensures
            final(self).wf(*cs),
            final(self).in_region,
            final(self).region_start == old(self).next_row,
            final(self).region_rows == 0,
            final(self).region_name@ == name@,
            final(self).next_row == old(self).next_row,
            final(self).height == old(self).height,
            old(self).grid_unchanged(*final(self)),
            old(self).records_unchanged(*final(self)),
    {
        self.region_start = self.next_row;
        self.region_rows = 0;
        self.in_region = true;
        self.region_name = name.to_owned();
    }

    /// Close the open region; the rows it touched are now claimed.
    pub fn end_region(&mut self, cs: &ConstraintSystem)
        requires
            old(self).wf(*cs),
            old(self).in_region,
        ensures
            final(self).wf(*cs),
            !final(self).in_region,
            final(self).next_row == old(self).region_start + old(self).region_rows,
            final(self).height == old(self).height,
            final(self).regions@.len() == old(self).regions@.len() + 1,
            final(self).regions@.last().name@ == old(self).region_name@,
            final(self).regions@.last().start == old(self).region_start,
            final(self).regions@.last().rows == old(self).region_rows,
            final(self).regions@.drop_last() == old(self).regions@,
            old(self).grid_unchanged(*final(self)),
            final(self).copies@ == old(self).copies@,
            final(self).instance_bindings@ == old(self).instance_bindings@,
    {
        let name = self.region_name.clone();
        let info = RegionInfo { name, start: self.region_start, rows: self.region_rows };
        self.regions.push(info);
        self.next_row = self.region_start + self.region_rows;
        self.in_region = false;
        self.region_rows = 0;
        proof {
            assert(self.regions@.drop_last() =~= old(self).regions@);
        }
    }

    /// Enable a selector at a region-relative row.  Enabling is idempotent
    /// per row.
    pub fn enable_selector(&mut self, cs: &ConstraintSystem, s: Selector, rel: usize) -> (r:
        Result<(), Error>)
        requires
            old(self).wf(*cs),
            old(self).in_region,
            s.index < cs.num_selectors,
        ensures
            final(self).wf(*cs),
            r is Ok <==> old(self).region_start + rel < old(self).height,
            r is Err ==> *final(self) == *old(self) && r == Err::<(), Error>(Error::RowOutOfRange),
            r is Ok ==> {
                let abs = old(self).region_start + rel;
                &&& final(self).selectors@[s.index as int]@
                    == old(self).selectors@[s.index as int]@.update(abs, true)
                &&& (forall|a: int|
                    0 <= a < cs.num_selectors && a != s.index
                        ==> final(self).selectors@[a] == old(self).selectors@[a])
                &&& final(self).fixed@ == old(self).fixed@
                &&& final(self).advice@ == old(self).advice@
                &&& final(self).tables@ == old(self).tables@
                &&& final(self).instances@ == old(self).instances@
                &&& old(self).records_unchanged(*final(self))
                &&& old(self).layout_unchanged_but_rows(*final(self))
                &&& final(self).region_rows == old(self).rows_after(rel)
            },
    {
        if rel >= self.height || self.region_start + rel >= self.height {
            return Err(Error::RowOutOfRange);
        }
        let abs = self.region_start + rel;
        self.selectors[s.index][abs] = true;
        if rel + 1 > self.region_rows {
            self.region_rows = rel + 1;
        }
        Ok(())
    }

    /// Write `v` into an advice cell at a region-relative row and return
    /// the cell.  Assigning the held value again is a no-op; assigning a
    /// different value fails with `Shadowing` and writes nothing.
    pub fn assign_advice(&mut self, cs: &ConstraintSystem, col: AdviceColumn, rel: usize, v: Felt)
        -> (r: Result<Cell, Error>)
        requires
            old(self).wf(*cs),
            old(self).in_region,
            col.index < cs.num_advice,
        ensures
            final(self).wf(*cs),
            r is Ok <==> (old(self).region_start + rel < old(self).height && Layouter::compat(
                old(self).advice@[col.index as int]@[old(self).region_start + rel],
                v,
            )),
            r is Err ==> *final(self) == *old(self),
            r matches Err(e) ==> e == (if old(self).region_start + rel >= old(self).height {
                Error::RowOutOfRange
            } else {
                Error::Shadowing
            }),
            r matches Ok(cell) ==> {
                let abs = old(self).region_start + rel;
                &&& cell == (Cell {
                    kind: ColumnKind::Advice,
                    index: col.index,
                    row: (old(self).region_start + rel) as usize,
                })
                &&& final(self).cell_value(cell) == Some(v)
                &&& final(self).advice@[col.index as int]@
                    == old(self).advice@[col.index as int]@.update(abs, Some(v))
                &&& (forall|a: int|
                    0 <= a < cs.num_advice && a != col.index
                        ==> final(self).advice@[a] == old(self).advice@[a])
                &&& old(self).grid_except_advice_unchanged(*final(self))
                &&& old(self).records_unchanged(*final(self))
                &&& old(self).layout_unchanged_but_rows(*final(self))
                &&& final(self).region_rows == old(self).rows_after(rel)
            },
    {
        if rel >= self.height || self.region_start + rel >= self.height {
            return Err(Error::RowOutOfRange);
        }
        let abs = self.region_start + rel;
        let existing = self.advice[col.index][abs];
        match existing {
            Some(w) => {
                if !(w == v) {
                    return Err(Error::Shadowing);
                }
            },
            None => {},
        }
        self.advice[col.index][abs] = Some(v);
        if rel + 1 > self.region_rows {
            self.region_rows = rel + 1;
        }
        proof {
            if existing == Some(v) {
                assert(self.advice@[col.index as int]@ =~= old(self).advice@[
                    col.index as int]@.update(abs as int, Some(v)));
            }
        }
        Ok(Cell { kind: ColumnKind::Advice, index: col.index, row: abs })
    }

    /// Write `v` into a fixed cell at a region-relative row, with the same
    /// shadowing rule as advice cells.
    pub fn assign_fixed(&mut self, cs: &ConstraintSystem, col: FixedColumn, rel: usize, v: Felt)
        -> (r: Result<Cell, Error>)
        requires
            old(self).wf(*cs),
            old(self).in_region,
            col.index < cs.num_fixed,
        ensures
            final(self).wf(*cs),
            r is Ok <==> (old(self).region_start + rel < old(self).height && Layouter::compat(
                old(self).fixed@[col.index as int]@[old(self).region_start + rel],
                v,
            )),
            r is Err ==> *final(self) == *old(self),
            r matches Err(e) ==> e == (if old(self).region_start + rel >= old(self).height {
                Error::RowOutOfRange
            } else {
                Error::Shadowing
            }),
            r matches Ok(cell) ==> {
                let abs = old(self).region_start + rel;
                &&& cell == (Cell {
                    kind: ColumnKind::Fixed,
                    index: col.index,
                    row: (old(self).region_start + rel) as usize,
                })
                &&& final(self).cell_value(cell) == Some(v)
                &&& final(self).fixed@[col.index as int]@
                    == old(self).fixed@[col.index as int]@.update(abs, Some(v))
                &&& (forall|a: int|
                    0 <= a < cs.num_fixed && a != col.index
                        ==> final(self).fixed@[a] == old(self).fixed@[a])
                &&& final(self).advice@ == old(self).advice@
                &&& final(self).selectors@ == old(self).selectors@
                &&& final(self).tables@ == old(self).tables@
                &&& final(self).instances@ == old(self).instances@
                &&& old(self).records_unchanged(*final(self))
                &&& old(self).layout_unchanged_but_rows(*final(self))
                &&& final(self).region_rows == old(self).rows_after(rel)
            },
    {
        if rel >= self.height || self.region_start + rel >= self.height {
            return Err(Error::RowOutOfRange);
        }
        let abs = self.region_start + rel;
        let existing = self.fixed[col.index][abs];
        match existing {
            Some(w) => {
                if !(w == v) {
                    return Err(Error::Shadowing);
                }
            },
            None => {},
        }
        self.fixed[col.index][abs] = Some(v);
        if rel + 1 > self.region_rows {
            self.region_rows = rel + 1;
        }
        proof {
            if existing == Some(v) {
                assert(self.fixed@[col.index as int]@ =~= old(self).fixed@[
                    col.index as int]@.update(abs as int, Some(v)));
            }
        }
        Ok(Cell { kind: ColumnKind::Fixed, index: col.index, row: abs })
    }

    /// Read the public input at `irow`, write it into an advice cell at a
    /// region-relative row, and record an equality constraint between the
    /// target cell and the instance cell.  Both columns must be enabled
    /// for equality.
    pub fn assign_advice_from_instance(
        &mut self,
        cs: &ConstraintSystem,
        icol: InstanceColumn,
        irow: usize,
        col: AdviceColumn,
        rel: usize,
    ) -> (r: Result<Cell, Error>)
        requires
            old(self).wf(*cs),
            old(self).in_region,
            col.index < cs.num_advice,
            icol.index < cs.num_instance,
        ensures
            final(self).wf(*cs),
            r is Ok <==> (cs.advice_eq@[col.index as int] && cs.instance_eq@[icol.index as int]
                && irow < old(self).instances@[icol.index as int]@.len() && old(
                self,
            ).region_start + rel < old(self).height && Layouter::compat(
                old(self).advice@[col.index as int]@[old(self).region_start + rel],
                old(self).instances@[icol.index as int]@[irow as int],
            )),
            r is Err ==> *final(self) == *old(self),
            r matches Err(e) ==> e == (if !(cs.advice_eq@[col.index as int]
                && cs.instance_eq@[icol.index as int]) {
                Error::ColumnNotPermuted
            } else if irow >= old(self).instances@[icol.index as int]@.len() {
                Error::OutOfBounds
            } else if old(self).region_start + rel >= old(self).height {
                Error::RowOutOfRange
            } else {
                Error::Shadowing
            }),
            r matches Ok(cell) ==> {
                let abs = old(self).region_start + rel;
                let v = old(self).instances@[icol.index as int]@[irow as int];
                &&& cell == (Cell {
                    kind: ColumnKind::Advice,
                    index: col.index,
                    row: (old(self).region_start + rel) as usize,
                })
                &&& final(self).cell_value(cell) == Some(v)
                &&& final(self).advice@[col.index as int]@
                    == old(self).advice@[col.index as int]@.update(abs, Some(v))
                &&& (forall|a: int|
                    0 <= a < cs.num_advice && a != col.index
                        ==> final(self).advice@[a] == old(self).advice@[a])
                &&& old(self).grid_except_advice_unchanged(*final(self))
                &&& final(self).copies@ == old(self).copies@.push(
                    (cell, (Cell { kind: ColumnKind::Instance, index: icol.index, row: irow })),
                )
                &&& final(self).instance_bindings@ == old(self).instance_bindings@
                &&& final(self).regions@ == old(self).regions@
                &&& old(self).layout_unchanged_but_rows(*final(self))
                &&& final(self).region_rows == old(self).rows_after(rel)
            },
    {
        if !(self.advice_eq_enabled(cs, col) && self.instance_eq_enabled(cs, icol)) {
            return Err(Error::ColumnNotPermuted);
        }
        if irow >= self.instances[icol.index].len() {
            return Err(Error::OutOfBounds);
        }
        let v = self.instances[icol.index][irow];
        let cell = match self.assign_advice(cs, col, rel, v) {
            Ok(cell) => cell,
            Err(e) => {
                return Err(e);
            },
        };
        let icell = Cell { kind: ColumnKind::Instance, index: icol.index, row: irow };
        self.copies.push((cell, icell));
        proof {
            assert(self.copies@.drop_last() =~= old(self).copies@);
        }
        Ok(cell)
    }

    /// Write the source cell's value into a fresh advice cell and record
    /// an equality constraint between the two.  This is how a value
    /// threads from one region to the next.
    pub fn copy_advice(&mut self, cs: &ConstraintSystem, src: Cell, col: AdviceColumn, rel: usize)
        -> (r: Result<Cell, Error>)
        requires
            old(self).wf(*cs),
            old(self).in_region,
            col.index < cs.num_advice,
            src.kind == ColumnKind::Advice,
            src.index < cs.num_advice,
            src.row < old(self).height,
        ensures
            final(self).wf(*cs),
            r is Ok <==> (cs.advice_eq@[src.index as int] && cs.advice_eq@[col.index as int]
                && old(self).cell_value(src) is Some && old(self).region_start + rel < old(
                self,
            ).height && Layouter::compat(
                old(self).advice@[col.index as int]@[old(self).region_start + rel],
                old(self).cell_value(src).unwrap(),
            )),
            r is Err ==> *final(self) == *old(self),
            r matches Err(e) ==> e == (if !(cs.advice_eq@[src.index as int]
                && cs.advice_eq@[col.index as int]) {
                Error::ColumnNotPermuted
            } else if old(self).cell_value(src) is None {
                Error::UnassignedCell
            } else if old(self).region_start + rel >= old(self).height {
                Error::RowOutOfRange
            } else {
                Error::Shadowing
            }),
            r matches Ok(cell) ==> {
                let abs = old(self).region_start + rel;
                let v = old(self).cell_value(src).unwrap();
                &&& cell == (Cell {
                    kind: ColumnKind::Advice,
                    index: col.index,
                    row: (old(self).region_start + rel) as usize,
                })
                &&& final(self).cell_value(cell) == Some(v)
                &&& final(self).advice@[col.index as int]@
                    == old(self).advice@[col.index as int]@.update(abs, Some(v))
                &&& (forall|a: int|
                    0 <= a < cs.num_advice && a != col.index
                        ==> final(self).advice@[a] == old(self).advice@[a])
                &&& old(self).grid_except_advice_unchanged(*final(self))
                &&& final(self).copies@ == old(self).copies@.push((src, cell))
                &&& final(self).instance_bindings@ == old(self).instance_bindings@
                &&& final(self).regions@ == old(self).regions@
                &&& old(self).layout_unchanged_but_rows(*final(self))
                &&& final(self).region_rows == old(self).rows_after(rel)
            },
    {
        if !(self.advice_eq_enabled_idx(cs, src.index) && self.advice_eq_enabled(cs, col)) {
            return Err(Error::ColumnNotPermuted);
        }
        let v = match self.advice[src.index][src.row] {
            Some(v) => v,
            None => {
                return Err(Error::UnassignedCell);
            },
        };
        let cell = match self.assign_advice(cs, col, rel, v) {
            Ok(cell) => cell,
            Err(e) => {
                return Err(e);
            },
        };
        self.copies.push((src, cell));
        proof {
            assert(self.copies@.drop_last() =~= old(self).copies@);
        }
        Ok(cell)
    }

    /// Record that a cell must equal the public input at `irow`.
    pub fn constrain_instance(
        &mut self,
        cs: &ConstraintSystem,
        cell: Cell,
        icol: InstanceColumn,
        irow: usize,
    ) -> (r: Result<(), Error>)
        requires
            old(self).wf(*cs),
            cell.kind == ColumnKind::Advice,
            cell.index < cs.num_advice,
            icol.index < cs.num_instance,
        ensures
            final(self).wf(*cs),
            r is Ok <==> (cs.advice_eq@[cell.index as int] && cs.instance_eq@[icol.index as int]
                && irow < old(self).instances@[icol.index as int]@.len()),
            r is Err ==> *final(self) == *old(self),
            r matches Err(e) ==> e == (if !(cs.advice_eq@[cell.index as int]
                && cs.instance_eq@[icol.index as int]) {
                Error::ColumnNotPermuted
            } else {
                Error::OutOfBounds
            }),
            r is Ok ==> {
                &&& final(self).instance_bindings@ == old(self).instance_bindings@.push(
                    (cell, icol.index, irow),
                )
                &&& old(self).grid_unchanged(*final(self))
                &&& final(self).copies@ == old(self).copies@
                &&& final(self).regions@ == old(self).regions@
                &&& old(self).layout_unchanged(*final(self))
            },
    {
        if !(self.advice_eq_enabled_idx(cs, cell.index) && self.instance_eq_enabled(cs, icol)) {
            return Err(Error::ColumnNotPermuted);
        }
        if irow >= self.instances[icol.index].len() {
            return Err(Error::OutOfBounds);
        }
        self.instance_bindings.push((cell, icol.index, irow));
        proof {
            assert(self.instance_bindings@.drop_last() =~= old(self).instance_bindings@);
        }
        Ok(())
    }

    /// Write a constant into an advice cell, mirror it in a
    /// constant-enabled fixed column at the same row, and record the
    /// equality constraint between the two cells.
    pub fn assign_advice_from_constant(
        &mut self,
        cs: &ConstraintSystem,
        ccol: FixedColumn,
        col: AdviceColumn,
        rel: usize,
        c: Felt,
    ) -> (r: Result<Cell, Error>)
        requires
            old(self).wf(*cs),
            old(self).in_region,
            col.index < cs.num_advice,
            ccol.index < cs.num_fixed,
        ensures
            final(self).wf(*cs),
            r is Ok <==> (cs.fixed_const@[ccol.index as int] && cs.advice_eq@[col.index as int]
                && old(self).region_start + rel < old(self).height && Layouter::compat(
                old(self).advice@[col.index as int]@[old(self).region_start + rel],
                c,
            ) && Layouter::compat(
                old(self).fixed@[ccol.index as int]@[old(self).region_start + rel],
                c,
            )),
            r is Err ==> *final(self) == *old(self),
            r matches Err(e) ==> e == (if !(cs.fixed_const@[ccol.index as int]
                && cs.advice_eq@[col.index as int]) {
                Error::ColumnNotPermuted
            } else if old(self).region_start + rel >= old(self).height {
                Error::RowOutOfRange
            } else {
                Error::Shadowing
            }),
            r matches Ok(cell) ==> {
                let abs = old(self).region_start + rel;
                let fcell = (Cell {
                    kind: ColumnKind::Fixed,
                    index: ccol.index,
                    row: (old(self).region_start + rel) as usize,
                });
                &&& cell == (Cell {
                    kind: ColumnKind::Advice,
                    index: col.index,
                    row: (old(self).region_start + rel) as usize,
                })
                &&& final(self).cell_value(cell) == Some(c)
                &&& final(self).cell_value(fcell) == Some(c)
                &&& final(self).advice@[col.index as int]@
                    == old(self).advice@[col.index as int]@.update(abs, Some(c))
                &&& (forall|a: int|
                    0 <= a < cs.num_advice && a != col.index
                        ==> final(self).advice@[a] == old(self).advice@[a])
                &&& final(self).fixed@[ccol.index as int]@
                    == old(self).fixed@[ccol.index as int]@.update(abs, Some(c))
                &&& (forall|a: int|
                    0 <= a < cs.num_fixed && a != ccol.index
                        ==> final(self).fixed@[a] == old(self).fixed@[a])
                &&& final(self).selectors@ == old(self).selectors@
                &&& final(self).tables@ == old(self).tables@
                &&& final(self).instances@ == old(self).instances@
                &&& final(self).copies@ == old(self).copies@.push((cell, fcell))
                &&& final(self).instance_bindings@ == old(self).instance_bindings@
                &&& final(self).regions@ == old(self).regions@
                &&& old(self).layout_unchanged_but_rows(*final(self))
                &&& final(self).region_rows == old(self).rows_after(rel)
            },
    {
        if !(self.fixed_const_enabled(cs, ccol) && self.advice_eq_enabled(cs, col)) {
            return Err(Error::ColumnNotPermuted);
        }
        if rel >= self.height || self.region_start + rel >= self.height {
            return Err(Error::RowOutOfRange);
        }
        let abs = self.region_start + rel;
        let existing_a = self.advice[col.index][abs];
        match existing_a {
            Some(w) => {
                if !(w == c) {
                    return Err(Error::Shadowing);
                }
            },
            None => {},
        }
        let existing_f = self.fixed[ccol.index][abs];
        match existing_f {
            Some(w) => {
                if !(w == c) {
                    return Err(Error::Shadowing);
                }
            },
            None => {},
        }
        self.advice[col.index][abs] = Some(c);
        self.fixed[ccol.index][abs] = Some(c);
        if rel + 1 > self.region_rows {
            self.region_rows = rel + 1;
        }
        let cell = Cell { kind: ColumnKind::Advice, index: col.index, row: abs };
        let fcell = Cell { kind: ColumnKind::Fixed, index: ccol.index, row: abs };
        self.copies.push((cell, fcell));
        proof {
            assert(self.copies@.drop_last() =~= old(self).copies@);
            if existing_a == Some(c) {
                assert(self.advice@[col.index as int]@ =~= old(self).advice@[
                    col.index as int]@.update(abs as int, Some(c)));
            }
            if existing_f == Some(c) {
                assert(self.fixed@[ccol.index as int]@ =~= old(self).fixed@[
                    ccol.index as int]@.update(abs as int, Some(c)));
            }
        }
        Ok(cell)
    }

    /// Load one table row: write `v` at row `idx` of a table column.
    /// Earlier rows left unloaded stay unloaded until written.
    pub fn assign_table_cell(&mut self, cs: &ConstraintSystem, tcol: TableColumn, idx: usize, v:
        Felt) -> (r: Result<(), Error>)
        requires
            old(self).wf(*cs),
            tcol.index < cs.num_tables,
        ensures
            final(self).wf(*cs),
            r is Ok <==> (idx < old(self).height && Layouter::compat(
                if idx < old(self).tables@[tcol.index as int]@.len() {
                    old(self).tables@[tcol.index as int]@[idx as int]
                } else {
                    None
                },
                v,
            )),
            r is Err ==> *final(self) == *old(self),
            r matches Err(e) ==> e == (if idx >= old(self).height {
                Error::RowOutOfRange
            } else {
                Error::Shadowing
            }),
            r is Ok ==> {
                &&& final(self).tables@[tcol.index as int]@ == padded_to(
                    old(self).tables@[tcol.index as int]@,
                    idx + 1,
                ).update(idx as int, Some(v))
                &&& (forall|a: int|
                    0 <= a < cs.num_tables && a != tcol.index
                        ==> final(self).tables@[a] == old(self).tables@[a])
                &&& final(self).fixed@ == old(self).fixed@
                &&& final(self).advice@ == old(self).advice@
                &&& final(self).selectors@ == old(self).selectors@
                &&& final(self).instances@ == old(self).instances@
                &&& old(self).records_unchanged(*final(self))
                &&& old(self).layout_unchanged(*final(self))
            },
    {
        if idx >= self.height {
            return Err(Error::RowOutOfRange);
        }
        let t = tcol.index;
        if idx < self.tables[t].len() {
            match self.tables[t][idx] {
                Some(w) => {
                    if !(w == v) {
                        return Err(Error::Shadowing);
                    }
                },
                None => {},
            }
        }
        let ghost old_tab = self.tables@[t as int]@;
        while self.tables[t].len() < idx + 1
            invariant
                t < self.tables@.len(),
                idx < usize::MAX,
                self.tables@.len() == old(self).tables@.len(),
                old_tab.len() <= self.tables@[t as int]@.len() <= padded_to(old_tab, idx
                    + 1).len(),
                forall|j: int|
                    0 <= j < self.tables@[t as int]@.len() ==> #[trigger] self.tables@[t as int]@[j]
                        == padded_to(old_tab, idx + 1)[j],
                forall|a: int|
                    0 <= a < self.tables@.len() && a != t ==> self.tables@[a] == old(
                        self,
                    ).tables@[a],
                self.fixed@ == old(self).fixed@,
                self.advice@ == old(self).advice@,
                self.selectors@ == old(self).selectors@,
                self.instances@ == old(self).instances@,
                self.copies@ == old(self).copies@,
                self.instance_bindings@ == old(self).instance_bindings@,
                self.regions@ == old(self).regions@,
                self.height == old(self).height,
                self.next_row == old(self).next_row,
                self.in_region == old(self).in_region,
                self.region_start == old(self).region_start,
                self.region_rows == old(self).region_rows,
                self.region_name@ == old(self).region_name@,
            decreases idx + 1 - self.tables@[t as int]@.len(),
        {
            self.tables[t].push(None);
        }
        self.tables[t][idx] = Some(v);
        proof {
            assert(self.tables@[t as int]@ =~= padded_to(old_tab, idx + 1).update(
                idx as int,
                Some(v),
            ));
        }
        Ok(())
    }

    /// Whether an advice column is enabled for equality constraints.
    fn advice_eq_enabled(&self, cs: &ConstraintSystem, col: AdviceColumn) -> (r: bool)
        requires
            cs.wf(),
            col.index < cs.num_advice,
        ensures
            r == cs.advice_eq@[col.index as int],
    {
        cs.advice_eq[col.index]
    }

    /// Whether the advice column of the given index is enabled for
    /// equality constraints.
    fn advice_eq_enabled_idx(&self, cs: &ConstraintSystem, index: usize) -> (r: bool)
        requires
            cs.wf(),
            index < cs.num_advice,
        ensures
            r == cs.advice_eq@[index as int],
    {
        cs.advice_eq[index]
    }

    /// Whether an instance column is enabled for equality constraints.
    fn instance_eq_enabled(&self, cs: &ConstraintSystem, col: InstanceColumn) -> (r: bool)
        requires
            cs.wf(),
            col.index < cs.num_instance,
        ensures
            r == cs.instance_eq@[col.index as int],
    {
        cs.instance_eq[col.index]
    }

    /// Whether a fixed column is enabled for constant loading.
    fn fixed_const_enabled(&self, cs: &ConstraintSystem, col: FixedColumn) -> (r: bool)
        requires
            cs.wf(),
            col.index < cs.num_fixed,
        ensures
            r == cs.fixed_const@[col.index as int],
    {
        cs.fixed_const[col.index]
    }

    /// The value a cell holds, if any.
    pub fn value_opt(&self, cell: Cell) -> (r: Option<Felt>)
        ensures
            r == self.cell_value(cell),
    {
        match self.value(cell) {
            Ok(v) => Some(v),
            Err(_) => None,
        }
    }

    /// Read a cell's value back from the grid.
    pub fn value(&self, cell: Cell) -> (r: Result<Felt, Error>)
        ensures
            r matches Ok(v) ==> self.cell_value(cell) == Some(v),
            r is Err ==> self.cell_value(cell) is None,
            self.cell_value(cell) matches Some(v) ==> r == Ok::<Felt, Error>(v),
    {
        match cell.kind {
            ColumnKind::Fixed => {
                if cell.index < self.fixed.len() && cell.row < self.fixed[cell.index].len() {
                    match self.fixed[cell.index][cell.row] {
                        Some(v) => Ok(v),
                        None => Err(Error::UnassignedCell),
                    }
                } else {
                    Err(Error::OutOfBounds)
                }
            },
            ColumnKind::Advice => {
                if cell.index < self.advice.len() && cell.row < self.advice[cell.index].len() {
                    match self.advice[cell.index][cell.row] {
                        Some(v) => Ok(v),
                        None => Err(Error::UnassignedCell),
                    }
                } else {
                    Err(Error::OutOfBounds)
                }
            },
            ColumnKind::Instance => {
                if cell.index < self.instances.len() && cell.row
                    < self.instances[cell.index].len() {
                    Ok(self.instances[cell.index][cell.row])
                } else {
                    Err(Error::OutOfBounds)
                }
            },
        }
    }
}

/// The table column extended with unloaded rows up to length `n` (or left
/// as it is, if already that long).
pub open spec fn padded_to(s: Seq<Option<Felt>>, n: int) -> Seq<Option<Felt>> {
    if s.len() >= n {
        s
    } else {
        s + Seq::new((n - s.len()) as nat, |i: int| None)
    }
}

/// `n` columns of `height` unassigned cells.
fn blank_grid(n: usize, height: usize) -> (r: Vec<Vec<Option<Felt>>>)
    ensures
        r@.len() == n,
        forall|i: int| 0 <= i < n ==> (#[trigger] r@[i])@.len() == height,
        forall|i: int, j: int| 0 <= i < n && 0 <= j < height ==> r@[i]@[j] is None,
{
    let mut r: Vec<Vec<Option<Felt>>> = Vec::new();
    for i in 0..n
        invariant
            r@.len() == i,
            forall|a: int| 0 <= a < i ==> (#[trigger] r@[a])@.len() == height,
            forall|a: int, j: int| 0 <= a < i && 0 <= j < height ==> r@[a]@[j] is None,
    {
        let mut col: Vec<Option<Felt>> = Vec::new();
        for j in 0..height
            invariant
                col@.len() == j,
                forall|b: int| 0 <= b < j ==> col@[b] is None,
        {
            col.push(None);
        }
        r.push(col);
    }
    r
}

/// `n` selector columns of `height` disabled rows.
fn blank_flags(n: usize, height: usize) -> (r: Vec<Vec<bool>>)
    ensures
        r@.len() == n,
        forall|i: int| 0 <= i < n ==> (#[trigger] r@[i])@.len() == height,
        forall|i: int, j: int| 0 <= i < n && 0 <= j < height ==> !r@[i]@[j],
{
    let mut r: Vec<Vec<bool>> = Vec::new();
    for i in 0..n
        invariant
            r@.len() == i,
            forall|a: int| 0 <= a < i ==> (#[trigger] r@[a])@.len() == height,
            forall|a: int, j: int| 0 <= a < i && 0 <= j < height ==> !r@[a]@[j],
    {
        let mut col: Vec<bool> = Vec::new();
        for j in 0..height
            invariant
                col@.len() == j,
                forall|b: int| 0 <= b < j ==> !col@[b],
        {
            col.push(false);
        }
        r.push(col);
    }
    r
}

} // verus!
