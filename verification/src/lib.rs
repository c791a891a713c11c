//! A PLONKish arithmetization engine with a mock satisfiability checker.
//!
//! Circuits declare typed columns, polynomial gates, lookup arguments and
//! equality constraints against a [`cs::ConstraintSystem`]; a
//! [`layouter::Layouter`] fills a witness grid region by region using
//! relative offsets; and [`checker::check`] decides, for a finished grid,
//! whether every declared constraint holds, reporting each violation by
//! row and constraint name.
//!
//! The engine's core is the constraint-system builder ([`cs`]), the
//! expression tree and its evaluator ([`expr`], [`eval`]), the region
//! allocator and witness grid ([`layouter`]), the equivalence classes of
//! the permutation argument ([`equiv`]) and the checker itself
//! ([`checker`]), all over the prime field of [`field`].  The remaining
//! modules are example circuits built on the engine: selection gates,
//! additive and mixed recurrences, field multiplication, a comparison
//! chip over sorted sequences, and range and hash checks through lookup
//! tables.

pub mod checker;
pub mod columns;
pub mod cs;
pub mod equiv;
pub mod error;
pub mod eval;
pub mod expr;
pub mod fabo_chip;
pub mod fibo_chip;
pub mod field;
pub mod field_chip;
pub mod function_chip;
pub mod hash_check;
pub mod layouter;
pub mod range_table;
pub mod select_chip;
pub mod sort_chip;
pub mod trace;
