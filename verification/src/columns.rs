//! Column, selector and cell handles.
//!
//! A column is identified by its kind and a stable index handed out by the
//! constraint system; a cell is a column together with an absolute row.

use vstd::prelude::*;

verus! {

/// The kinds of value-bearing columns a cell can live in.
#[derive(Clone, Copy, PartialEq, Eq, Structural, Debug)]
pub enum ColumnKind {
    Fixed,
    Advice,
    Instance,
}

/// A column of circuit constants, written during configuration.
#[derive(Clone, Copy, PartialEq, Eq, Structural, Debug)]
pub struct FixedColumn {
    pub index: usize,
}

/// A column of private witness values, written during synthesis.
#[derive(Clone, Copy, PartialEq, Eq, Structural, Debug)]
pub struct AdviceColumn {
    pub index: usize,
}

/// A column of public values supplied by the caller.
#[derive(Clone, Copy, PartialEq, Eq, Structural, Debug)]
pub struct InstanceColumn {
    pub index: usize,
}

/// A column holding the rows of a lookup table.
#[derive(Clone, Copy, PartialEq, Eq, Structural, Debug)]
pub struct TableColumn {
    pub index: usize,
}

/// A boolean column that switches a gate or lookup on per row.
#[derive(Clone, Copy, PartialEq, Eq, Structural, Debug)]
pub struct Selector {
    pub index: usize,
}

/// An addressable unit of the witness grid: a column and an absolute row.
#[derive(Clone, Copy, PartialEq, Eq, Structural, Debug)]
pub struct Cell {
    pub kind: ColumnKind,
    pub index: usize,
    pub row: usize,
}

} // verus!
