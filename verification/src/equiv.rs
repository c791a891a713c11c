//! Equivalence classes of cells under recorded copy constraints.
//!
//! The copy constraints recorded during synthesis form a graph on cells;
//! its connected components are the equivalence classes of the
//! permutation argument.  The checker needs the classes so that an
//! inconsistent class yields exactly one violation, however many recorded
//! pairs inside it disagree.

use vstd::prelude::*;

use crate::columns::Cell;
use crate::layouter::Layouter;

verus! {

/// The two cells stand together in some recorded pair.
pub open spec fn adj(pairs: Seq<(Cell, Cell)>, x: Cell, y: Cell) -> bool {
    exists|k: int|
        0 <= k < pairs.len() && ((pairs[k].0 == x && pairs[k].1 == y) || (pairs[k].0 == y
            && pairs[k].1 == x))
}

/// `y` is reachable from `x` along recorded pairs in at most `n` steps.
pub open spec fn reach(pairs: Seq<(Cell, Cell)>, x: Cell, y: Cell, n: nat) -> bool
    decreases n,
{
    if n == 0 {
        x == y
    } else {
        reach(pairs, x, y, (n - 1) as nat) || (exists|m: Cell|
            reach(pairs, x, m, (n - 1) as nat) && adj(pairs, m, y))
    }
}

/// The cells are in the same equivalence class: some chain of recorded
/// pairs links them.
pub open spec fn conn(pairs: Seq<(Cell, Cell)>, x: Cell, y: Cell) -> bool {
    exists|n: nat| reach(pairs, x, y, n)
}

/// A recorded pair holds: both cells carry the same assigned value.
pub open spec fn pair_ok(lay: Layouter, pr: (Cell, Cell)) -> bool {
    lay.cell_value(pr.0) is Some && lay.cell_value(pr.0) == lay.cell_value(pr.1)
}

/// Every recorded copy constraint of the grid holds.
pub open spec fn copies_ok(lay: Layouter) -> bool {
    forall|k: int| 0 <= k < lay.copies@.len() ==> pair_ok(lay, #[trigger] lay.copies@[k])
}

/// Some two cells of the group conflict: one is unassigned, or they hold
/// different values.
pub open spec fn group_conflict(lay: Layouter, members: Seq<Cell>) -> bool {
    exists|i: int, j: int|
        0 <= i < members.len() && 0 <= j < members.len() && !(lay.cell_value(#[trigger] members[i])
            is Some && lay.cell_value(members[i]) == lay.cell_value(#[trigger] members[j]))
}

/// Reachability survives recording one more pair.
pub proof fn lemma_reach_push(pairs: Seq<(Cell, Cell)>, e: (Cell, Cell), x: Cell, y: Cell, n: nat)
    requires
        reach(pairs, x, y, n),
    ensures
        reach(pairs.push(e), x, y, n),
    decreases n,
{
    if n > 0 {
        if reach(pairs, x, y, (n - 1) as nat) {
            lemma_reach_push(pairs, e, x, y, (n - 1) as nat);
        } else {
            let m = choose|m: Cell| reach(pairs, x, m, (n - 1) as nat) && adj(pairs, m, y);
            lemma_reach_push(pairs, e, x, m, (n - 1) as nat);
            let k = choose|k: int|
                0 <= k < pairs.len() && ((pairs[k].0 == m && pairs[k].1 == y) || (pairs[k].0 == y
                    && pairs[k].1 == m));
            assert(pairs.push(e)[k] == pairs[k]);
            assert(adj(pairs.push(e), m, y));
        }
    }
}

/// Chains of reachability concatenate.
pub proof fn lemma_reach_trans(pairs: Seq<(Cell, Cell)>, x: Cell, y: Cell, z: Cell, n: nat, m: nat)
    requires
        reach(pairs, x, y, n),
        reach(pairs, y, z, m),
    ensures
        reach(pairs, x, z, n + m),
    decreases m,
{
    if m == 0 {
        lemma_reach_widen(pairs, x, z, n, n + m);
    } else {
        if reach(pairs, y, z, (m - 1) as nat) {
            lemma_reach_trans(pairs, x, y, z, n, (m - 1) as nat);
        } else {
            let mid = choose|mid: Cell| reach(pairs, y, mid, (m - 1) as nat) && adj(pairs, mid, z);
            lemma_reach_trans(pairs, x, y, mid, n, (m - 1) as nat);
            assert(reach(pairs, x, mid, (n + m - 1) as nat) && adj(pairs, mid, z));
        }
    }
}

/// A bound on the step count can always be raised.
pub proof fn lemma_reach_widen(pairs: Seq<(Cell, Cell)>, x: Cell, y: Cell, n: nat, n2: nat)
    requires
        reach(pairs, x, y, n),
        n <= n2,
    ensures
        reach(pairs, x, y, n2),
    decreases n2,
{
    if n < n2 {
        lemma_reach_widen(pairs, x, y, n, (n2 - 1) as nat);
    }
}

/// Connectivity is symmetric.
pub proof fn lemma_conn_sym(pairs: Seq<(Cell, Cell)>, x: Cell, y: Cell)
    requires
        conn(pairs, x, y),
    ensures
        conn(pairs, y, x),
{
    let n = choose|n: nat| reach(pairs, x, y, n);
    lemma_reach_sym(pairs, x, y, n);
}

proof fn lemma_reach_sym(pairs: Seq<(Cell, Cell)>, x: Cell, y: Cell, n: nat)
    requires
        reach(pairs, x, y, n),
    ensures
        conn(pairs, y, x),
    decreases n,
{
    if n == 0 {
        assert(reach(pairs, y, x, 0));
    } else if reach(pairs, x, y, (n - 1) as nat) {
        lemma_reach_sym(pairs, x, y, (n - 1) as nat);
    } else {
        let m = choose|m: Cell| reach(pairs, x, m, (n - 1) as nat) && adj(pairs, m, y);
        lemma_reach_sym(pairs, x, m, (n - 1) as nat);
        let n2 = choose|n2: nat| reach(pairs, m, x, n2);
        assert(reach(pairs, y, y, 0));
        assert(adj(pairs, y, m));
        assert(reach(pairs, y, m, 1));
        lemma_reach_trans(pairs, y, m, x, 1, n2);
    }
}

/// Connectivity is transitive.
pub proof fn lemma_conn_trans(pairs: Seq<(Cell, Cell)>, x: Cell, y: Cell, z: Cell)
    requires
        conn(pairs, x, y),
        conn(pairs, y, z),
    ensures
        conn(pairs, x, z),
{
    let n = choose|n: nat| reach(pairs, x, y, n);
    let m = choose|m: nat| reach(pairs, y, z, m);
    lemma_reach_trans(pairs, x, y, z, n, m);
}

/// When every recorded pair holds, connected cells carry the same value.
/// This is why checking classes is exactly as strong as checking pairs:
/// value equality propagates along any chain of satisfied copies.
pub proof fn lemma_conn_same_value(lay: Layouter, x: Cell, y: Cell)
    requires
        copies_ok(lay),
        conn(lay.copies@, x, y),
    ensures
        lay.cell_value(x) == lay.cell_value(y),
{
    let n = choose|n: nat| reach(lay.copies@, x, y, n);
    lemma_reach_same_value(lay, x, y, n);
}

proof fn lemma_reach_same_value(lay: Layouter, x: Cell, y: Cell, n: nat)
    requires
        copies_ok(lay),
        reach(lay.copies@, x, y, n),
    ensures
        lay.cell_value(x) == lay.cell_value(y),
    decreases n,
{
    let pairs = lay.copies@;
    if n == 0 {
    } else if reach(pairs, x, y, (n - 1) as nat) {
        lemma_reach_same_value(lay, x, y, (n - 1) as nat);
    } else {
        let m = choose|m: Cell| reach(pairs, x, m, (n - 1) as nat) && adj(pairs, m, y);
        lemma_reach_same_value(lay, x, m, (n - 1) as nat);
        let k = choose|k: int|
            0 <= k < pairs.len() && ((pairs[k].0 == m && pairs[k].1 == y) || (pairs[k].0 == y
                && pairs[k].1 == m));
        assert(pair_ok(lay, pairs[k]));
    }
}

/// Both endpoints of the `k`-th pair are registered, with equal labels.
pub open spec fn pair_covered(
    pairs: Seq<(Cell, Cell)>,
    cells: Seq<Cell>,
    label: Seq<usize>,
    k: int,
) -> bool {
    exists|i: int, j: int|
        #![trigger cells[i], cells[j]]
        0 <= i < cells.len() && 0 <= j < cells.len() && cells[i] == pairs[k].0 && cells[j]
            == pairs[k].1 && label[i] == label[j]
}

/// Processed pairs have both endpoints registered, with equal labels.
pub open spec fn covered(pairs: Seq<(Cell, Cell)>, cells: Seq<Cell>, label: Seq<usize>) -> bool {
    forall|k: int| 0 <= k < pairs.len() ==> #[trigger] pair_covered(pairs, cells, label, k)
}

/// No cell is registered twice.
pub open spec fn distinct(cells: Seq<Cell>) -> bool {
    forall|i: int, j: int|
        0 <= i < cells.len() && 0 <= j < cells.len() && i != j ==> #[trigger] cells[i]
            != #[trigger] cells[j]
}

/// Connected cells share a label: label classes are at least as coarse as
/// the equivalence classes.
pub proof fn lemma_conn_same_label(
    pairs: Seq<(Cell, Cell)>,
    cells: Seq<Cell>,
    label: Seq<usize>,
    x: Cell,
    y: Cell,
    ix: int,
)
    requires
        covered(pairs, cells, label),
        distinct(cells),
        label.len() == cells.len(),
        conn(pairs, x, y),
        0 <= ix < cells.len(),
        cells[ix] == x,
    ensures
        exists|iy: int| 0 <= iy < cells.len() && cells[iy] == y && label[iy] == label[ix],
{
    let n = choose|n: nat| reach(pairs, x, y, n);
    lemma_reach_same_label(pairs, cells, label, x, y, ix, n);
}

proof fn lemma_reach_same_label(
    pairs: Seq<(Cell, Cell)>,
    cells: Seq<Cell>,
    label: Seq<usize>,
    x: Cell,
    y: Cell,
    ix: int,
    n: nat,
)
    requires
        covered(pairs, cells, label),
        distinct(cells),
        label.len() == cells.len(),
        reach(pairs, x, y, n),
        0 <= ix < cells.len(),
        cells[ix] == x,
    ensures
        exists|iy: int| 0 <= iy < cells.len() && cells[iy] == y && label[iy] == label[ix],
    decreases n,
{
    if n == 0 {
        assert(0 <= ix < cells.len() && cells[ix] == y && label[ix] == label[ix]);
    } else if reach(pairs, x, y, (n - 1) as nat) {
        lemma_reach_same_label(pairs, cells, label, x, y, ix, (n - 1) as nat);
    } else {
        let m = choose|m: Cell| reach(pairs, x, m, (n - 1) as nat) && adj(pairs, m, y);
        lemma_reach_same_label(pairs, cells, label, x, m, ix, (n - 1) as nat);
        let im = choose|im: int| 0 <= im < cells.len() && cells[im] == m && label[im] == label[ix];
        let k = choose|k: int|
            0 <= k < pairs.len() && ((pairs[k].0 == m && pairs[k].1 == y) || (pairs[k].0 == y
                && pairs[k].1 == m));
        assert(pair_covered(pairs, cells, label, k));
        let (i, j) = choose|i: int, j: int|
            0 <= i < cells.len() && 0 <= j < cells.len() && cells[i] == pairs[k].0 && cells[j]
                == pairs[k].1 && label[i] == label[j];
        if pairs[k].0 == m && pairs[k].1 == y {
            assert(cells[i] == cells[im]);
            assert(i == im);
            assert(0 <= j < cells.len() && cells[j] == y && label[j] == label[ix]);
        } else {
            assert(cells[j] == cells[im]);
            assert(j == im);
            assert(0 <= i < cells.len() && cells[i] == y && label[i] == label[ix]);
        }
    }
}

/// The cell occurs somewhere in the recorded pairs.
pub open spec fn cell_in(pairs: Seq<(Cell, Cell)>, c: Cell) -> bool {
    exists|k: int| 0 <= k < pairs.len() && ((#[trigger] pairs[k]).0 == c || pairs[k].1 == c)
}

/// Labels never exceed their own index, so a fresh index is a fresh label.
pub open spec fn labels_ok(label: Seq<usize>) -> bool {
    forall|t: int| 0 <= t < label.len() ==> #[trigger] label[t] <= t
}

/// Cells with equal labels are connected: label classes are no finer
/// than the equivalence classes.
pub open spec fn same_label_conn(
    pairs: Seq<(Cell, Cell)>,
    cells: Seq<Cell>,
    label: Seq<usize>,
) -> bool {
    forall|i: int, j: int|
        0 <= i < cells.len() && 0 <= j < cells.len() && #[trigger] label[i] == #[trigger] label[j]
            ==> conn(pairs, cells[i], cells[j])
}

/// Every registered cell occurs in some recorded pair.
pub open spec fn endpoints_reg(pairs: Seq<(Cell, Cell)>, cells: Seq<Cell>) -> bool {
    forall|i: int| 0 <= i < cells.len() ==> cell_in(pairs, #[trigger] cells[i])
}

/// `mem` holds exactly the registered cells labelled `root`.
pub open spec fn members_match(cells: Seq<Cell>, label: Seq<usize>, root: int, mem: Seq<Cell>)
    -> bool {
    &&& (forall|t: int|
        0 <= t < mem.len() ==> exists|i: int|
            0 <= i < cells.len() && label[i] == root && cells[i] == #[trigger] mem[t])
    &&& (forall|i: int|
        0 <= i < cells.len() && #[trigger] label[i] == root ==> exists|t: int|
            0 <= t < mem.len() && mem[t] == cells[i])
}

/// The label class `r` holds two cells that conflict.
pub open spec fn label_class_conflict(
    lay: Layouter,
    cells: Seq<Cell>,
    label: Seq<usize>,
    r: int,
) -> bool {
    exists|i: int, j: int|
        0 <= i < cells.len() && 0 <= j < cells.len() && #[trigger] label[i] == r && #[trigger]
        label[j] == r && !(lay.cell_value(cells[i]) is Some && lay.cell_value(cells[i])
            == lay.cell_value(cells[j]))
}

/// Some member of the group is connected to `c`.
pub open spec fn group_references(lay: Layouter, mem: Seq<Cell>, c: Cell) -> bool {
    exists|m: int| 0 <= m < mem.len() && conn(lay.copies@, #[trigger] mem[m], c)
}

/// Exactly one group of the list references `c`'s equivalence class.
pub open spec fn one_group_references(lay: Layouter, groups: Seq<Vec<Cell>>, c: Cell) -> bool {
    exists|v: int|
        0 <= v < groups.len() && #[trigger] group_references(lay, groups[v]@, c) && (forall|w: int|
            0 <= w < groups.len() && #[trigger] group_references(lay, groups[w]@, c) ==> w == v)
}

/// Connectivity survives recording one more pair.
pub proof fn lemma_conn_push(pairs: Seq<(Cell, Cell)>, e: (Cell, Cell), x: Cell, y: Cell)
    requires
        conn(pairs, x, y),
    ensures
        conn(pairs.push(e), x, y),
{
    let n = choose|n: nat| reach(pairs, x, y, n);
    lemma_reach_push(pairs, e, x, y, n);
}

/// Occurring in the pairs survives recording one more pair.
proof fn lemma_cell_in_push(pairs: Seq<(Cell, Cell)>, e: (Cell, Cell))
    ensures
        forall|c: Cell| cell_in(pairs, c) ==> cell_in(pairs.push(e), c),
{
    assert forall|c: Cell| cell_in(pairs, c) implies cell_in(pairs.push(e), c) by {
        let k = choose|k: int|
            0 <= k < pairs.len() && ((#[trigger] pairs[k]).0 == c || pairs[k].1 == c);
        assert(pairs.push(e)[k] == pairs[k]);
    }
}

/// Registering a fresh cell under a fresh label keeps the coverage and
/// connectivity invariants, the pairs being unchanged.
proof fn lemma_registration_keeps(
    pairs: Seq<(Cell, Cell)>,
    cells_old: Seq<Cell>,
    label_old: Seq<usize>,
    cells_new: Seq<Cell>,
    label_new: Seq<usize>,
    c: Cell,
)
    requires
        label_old.len() == cells_old.len(),
        cells_old.len() < usize::MAX,
        labels_ok(label_old),
        covered(pairs, cells_old, label_old),
        same_label_conn(pairs, cells_old, label_old),
        (cells_new == cells_old && label_new == label_old) || (cells_new == cells_old.push(c)
            && label_new == label_old.push(cells_old.len() as usize)),
    ensures
        covered(pairs, cells_new, label_new),
        same_label_conn(pairs, cells_new, label_new),
{
    if cells_new == cells_old && label_new == label_old {
    } else {
        let n = cells_old.len() as int;
        assert forall|k: int| 0 <= k < pairs.len() implies #[trigger] pair_covered(
            pairs,
            cells_new,
            label_new,
            k,
        ) by {
            assert(pair_covered(pairs, cells_old, label_old, k));
            let (i, j) = choose|i: int, j: int|
                0 <= i < cells_old.len() && 0 <= j < cells_old.len() && cells_old[i] == pairs[k].0
                    && cells_old[j] == pairs[k].1 && label_old[i] == label_old[j];
            assert(cells_new[i] == pairs[k].0 && cells_new[j] == pairs[k].1 && label_new[i]
                == label_new[j]);
        }
        assert forall|i: int, j: int|
            0 <= i < cells_new.len() && 0 <= j < cells_new.len() && #[trigger] label_new[i]
                == #[trigger] label_new[j] implies conn(pairs, cells_new[i], cells_new[j]) by {
            if i < n && j < n {
                assert(conn(pairs, cells_old[i], cells_old[j]));
            } else if i == n && j == n {
                assert(reach(pairs, c, c, 0));
            } else if i == n {
                assert(label_new[j] == label_old[j]);
                assert(label_old[j] <= j);
                assert(label_new[i] == n);
                assert(false);
            } else {
                assert(label_new[i] == label_old[i]);
                assert(label_old[i] <= i);
                assert(label_new[j] == n);
                assert(false);
            }
        }
    }
}

/// Recording a pair whose endpoints already share a label keeps the
/// invariants without any relabelling.
proof fn lemma_no_merge_ok(
    pairs: Seq<(Cell, Cell)>,
    e: (Cell, Cell),
    cells: Seq<Cell>,
    label: Seq<usize>,
    ia: int,
    ib: int,
)
    requires
        label.len() == cells.len(),
        covered(pairs, cells, label),
        same_label_conn(pairs, cells, label),
        0 <= ia < cells.len(),
        0 <= ib < cells.len(),
        cells[ia] == e.0,
        cells[ib] == e.1,
        label[ia] == label[ib],
    ensures
        covered(pairs.push(e), cells, label),
        same_label_conn(pairs.push(e), cells, label),
{
    let pairs2 = pairs.push(e);
    assert forall|k: int| 0 <= k < pairs2.len() implies #[trigger] pair_covered(
        pairs2,
        cells,
        label,
        k,
    ) by {
        if k < pairs.len() {
            assert(pairs2[k] == pairs[k]);
            assert(pair_covered(pairs, cells, label, k));
            let (i, j) = choose|i: int, j: int|
                0 <= i < cells.len() && 0 <= j < cells.len() && cells[i] == pairs[k].0 && cells[j]
                    == pairs[k].1 && label[i] == label[j];
            assert(cells[i] == pairs2[k].0 && cells[j] == pairs2[k].1 && label[i] == label[j]);
        } else {
            assert(pairs2[k] == e);
            assert(cells[ia] == pairs2[k].0 && cells[ib] == pairs2[k].1 && label[ia] == label[ib]);
        }
    }
    assert forall|i: int, j: int|
        0 <= i < cells.len() && 0 <= j < cells.len() && #[trigger] label[i] == #[trigger] label[j]
        implies conn(pairs2, cells[i], cells[j]) by {
        assert(conn(pairs, cells[i], cells[j]));
        lemma_conn_push(pairs, e, cells[i], cells[j]);
    }
}

/// Recording a pair that joins two label classes and relabelling the
/// source class onto the target keeps the invariants.
proof fn lemma_merge_ok(
    pairs: Seq<(Cell, Cell)>,
    e: (Cell, Cell),
    cells: Seq<Cell>,
    label_old: Seq<usize>,
    label_new: Seq<usize>,
    ia: int,
    ib: int,
    target: usize,
    src: usize,
)
    requires
        label_old.len() == cells.len(),
        label_new.len() == cells.len(),
        covered(pairs, cells, label_old),
        same_label_conn(pairs, cells, label_old),
        0 <= ia < cells.len(),
        0 <= ib < cells.len(),
        cells[ia] == e.0,
        cells[ib] == e.1,
        label_old[ia] != label_old[ib],
        (target == label_old[ia] && src == label_old[ib]) || (target == label_old[ib] && src
            == label_old[ia]),
        forall|t: int|
            0 <= t < label_new.len() ==> #[trigger] label_new[t] == (if label_old[t] == src {
                target
            } else {
                label_old[t]
            }),
    ensures
        covered(pairs.push(e), cells, label_new),
        same_label_conn(pairs.push(e), cells, label_new),
{
    let pairs2 = pairs.push(e);
    let isrc: int = if label_old[ia] == src {
        ia
    } else {
        ib
    };
    let itgt: int = if label_old[ia] == src {
        ib
    } else {
        ia
    };
    assert(label_old[isrc] == src && label_old[itgt] == target);
    assert(pairs2[pairs.len() as int] == e);
    assert(adj(pairs2, cells[isrc], cells[itgt]));
    assert(reach(pairs2, cells[isrc], cells[isrc], 0));
    assert(reach(pairs2, cells[isrc], cells[itgt], 1));
    assert forall|k: int| 0 <= k < pairs2.len() implies #[trigger] pair_covered(
        pairs2,
        cells,
        label_new,
        k,
    ) by {
        if k < pairs.len() {
            assert(pairs2[k] == pairs[k]);
            assert(pair_covered(pairs, cells, label_old, k));
            let (i, j) = choose|i: int, j: int|
                0 <= i < cells.len() && 0 <= j < cells.len() && cells[i] == pairs[k].0 && cells[j]
                    == pairs[k].1 && label_old[i] == label_old[j];
            assert(cells[i] == pairs2[k].0 && cells[j] == pairs2[k].1 && label_new[i]
                == label_new[j]);
        } else {
            assert(pairs2[k] == e);
            assert(label_new[ia] == target && label_new[ib] == target);
            assert(cells[ia] == pairs2[k].0 && cells[ib] == pairs2[k].1 && label_new[ia]
                == label_new[ib]);
        }
    }
    assert forall|i: int, j: int|
        0 <= i < cells.len() && 0 <= j < cells.len() && #[trigger] label_new[i] == #[trigger]
        label_new[j] implies conn(pairs2, cells[i], cells[j]) by {
        if label_old[i] == label_old[j] {
            assert(conn(pairs, cells[i], cells[j]));
            lemma_conn_push(pairs, e, cells[i], cells[j]);
        } else {
            let (iis, ijt): (int, int) = if label_old[i] == src {
                (i, j)
            } else {
                (j, i)
            };
            assert(label_old[iis] == src && label_old[ijt] == target);
            assert(conn(pairs, cells[iis], cells[isrc]));
            lemma_conn_push(pairs, e, cells[iis], cells[isrc]);
            assert(conn(pairs2, cells[isrc], cells[itgt])) by {
                assert(reach(pairs2, cells[isrc], cells[itgt], 1));
            }
            assert(conn(pairs, cells[itgt], cells[ijt]));
            lemma_conn_push(pairs, e, cells[itgt], cells[ijt]);
            lemma_conn_trans(pairs2, cells[iis], cells[isrc], cells[itgt]);
            lemma_conn_trans(pairs2, cells[iis], cells[itgt], cells[ijt]);
            if label_old[i] == src {
            } else {
                lemma_conn_sym(pairs2, cells[iis], cells[ijt]);
            }
        }
    }
}

/// A conflicting group is impossible while every recorded pair holds.
proof fn lemma_conflict_impossible_when_ok(
    lay: Layouter,
    cells: Seq<Cell>,
    label: Seq<usize>,
    root: int,
    mem: Seq<Cell>,
)
    requires
        label.len() == cells.len(),
        same_label_conn(lay.copies@, cells, label),
        endpoints_reg(lay.copies@, cells),
        members_match(cells, label, root, mem),
        group_conflict(lay, mem),
    ensures
        !copies_ok(lay),
{
    if copies_ok(lay) {
        let (i, j) = choose|i: int, j: int|
            0 <= i < mem.len() && 0 <= j < mem.len() && !(lay.cell_value(#[trigger] mem[i])
                is Some && lay.cell_value(mem[i]) == lay.cell_value(#[trigger] mem[j]));
        let ci = choose|a: int| 0 <= a < cells.len() && label[a] == root && cells[a] == mem[i];
        let cj = choose|a: int| 0 <= a < cells.len() && label[a] == root && cells[a] == mem[j];
        assert(conn(lay.copies@, cells[ci], cells[cj]));
        lemma_conn_same_value(lay, cells[ci], cells[cj]);
        let k = choose|k: int|
            0 <= k < lay.copies@.len() && ((#[trigger] lay.copies@[k]).0 == cells[ci]
                || lay.copies@[k].1 == cells[ci]);
        assert(pair_ok(lay, lay.copies@[k]));
        assert(lay.cell_value(cells[ci]) is Some);
        assert(false);
    }
}

/// What the computed bad groups mean for the whole copy-constraint set.
proof fn lemma_final_classes(
    lay: Layouter,
    cells: Seq<Cell>,
    label: Seq<usize>,
    groups: Seq<Vec<Cell>>,
    roots: Seq<int>,
)
    requires
        label.len() == cells.len(),
        distinct(cells),
        labels_ok(label),
        covered(lay.copies@, cells, label),
        same_label_conn(lay.copies@, cells, label),
        endpoints_reg(lay.copies@, cells),
        roots.len() == groups.len(),
        forall|v: int, w: int| 0 <= v < w < roots.len() ==> roots[v] < roots[w],
        forall|v: int|
            0 <= v < groups.len() ==> members_match(cells, label, roots[v], (#[trigger] groups[
                v])@),
        forall|r2: int|
            0 <= r2 < cells.len() && #[trigger] label_class_conflict(lay, cells, label, r2)
                ==> exists|v: int| 0 <= v < roots.len() && roots[v] == r2,
    ensures
        groups.len() == 0 ==> copies_ok(lay),
        forall|k: int|
            0 <= k < lay.copies@.len() && !pair_ok(lay, #[trigger] lay.copies@[k])
                ==> one_group_references(lay, groups, lay.copies@[k].0),
{
    if groups.len() == 0 {
        assert forall|k: int| 0 <= k < lay.copies@.len() implies pair_ok(
            lay,
            #[trigger] lay.copies@[k],
        ) by {
            assert(pair_covered(lay.copies@, cells, label, k));
            let (i, j) = choose|i: int, j: int|
                0 <= i < cells.len() && 0 <= j < cells.len() && cells[i] == lay.copies@[k].0
                    && cells[j] == lay.copies@[k].1 && label[i] == label[j];
            if !pair_ok(lay, lay.copies@[k]) {
                let r = label[i] as int;
                assert(label[j] == r);
                assert(!(lay.cell_value(cells[i]) is Some && lay.cell_value(cells[i])
                    == lay.cell_value(cells[j])));
                assert(label_class_conflict(lay, cells, label, r));
                assert(0 <= r < cells.len());
                assert(false);
            }
        }
    }
    assert forall|k: int|
        0 <= k < lay.copies@.len() && !pair_ok(lay, #[trigger] lay.copies@[k]) implies
        one_group_references(lay, groups, lay.copies@[k].0) by {
        let x = lay.copies@[k].0;
        assert(pair_covered(lay.copies@, cells, label, k));
        let (i, j) = choose|i: int, j: int|
            0 <= i < cells.len() && 0 <= j < cells.len() && cells[i] == lay.copies@[k].0
                && cells[j] == lay.copies@[k].1 && label[i] == label[j];
        let r = label[i] as int;
        assert(!(lay.cell_value(cells[i]) is Some && lay.cell_value(cells[i]) == lay.cell_value(
            cells[j],
        )));
        assert(label_class_conflict(lay, cells, label, r));
        assert(0 <= r < cells.len());
        let v = choose|v: int| 0 <= v < roots.len() && roots[v] == r;
        assert(members_match(cells, label, roots[v], groups[v]@));
        let t = choose|t: int| 0 <= t < groups[v]@.len() && groups[v]@[t] == cells[i];
        assert(reach(lay.copies@, groups[v]@[t], x, 0));
        assert(group_references(lay, groups[v]@, x));
        assert forall|w: int|
            0 <= w < groups.len() && #[trigger] group_references(lay, groups[w]@, x) implies w
            == v by {
            let m = choose|m: int|
                0 <= m < groups[w]@.len() && conn(lay.copies@, #[trigger] groups[w]@[m], x);
            let im = choose|a: int|
                0 <= a < cells.len() && label[a] == roots[w] && cells[a] == groups[w]@[m];
            lemma_conn_same_label(lay.copies@, cells, label, cells[im], x, im);
            let iy = choose|iy: int|
                0 <= iy < cells.len() && cells[iy] == x && label[iy] == label[im];
            assert(cells[iy] == cells[i]);
            assert(iy == i);
            assert(roots[w] == r);
            assert(roots[v] == roots[w]);
            if v < w {
                assert(roots[v] < roots[w]);
                assert(false);
            } else if w < v {
                assert(roots[w] < roots[v]);
                assert(false);
            }
        }
    }
}

/// Register a cell if it is new; return its index either way.
fn find_or_add(cells: &mut Vec<Cell>, label: &mut Vec<usize>, c: Cell) -> (i: usize)
    requires
        old(label)@.len() == old(cells)@.len(),
        distinct(old(cells)@),
        labels_ok(old(label)@),
        old(cells)@.len() < usize::MAX,
    ensures
        final(label)@.len() == final(cells)@.len(),
        distinct(final(cells)@),
        labels_ok(final(label)@),
        i < final(cells)@.len(),
        final(cells)@[i as int] == c,
        (exists|j: int| 0 <= j < old(cells)@.len() && old(cells)@[j] == c)
            ==> final(cells)@ == old(cells)@ && final(label)@ == old(label)@,
        !(exists|j: int| 0 <= j < old(cells)@.len() && old(cells)@[j] == c) ==> {
            &&& final(cells)@ == old(cells)@.push(c)
            &&& final(label)@ == old(label)@.push(old(cells)@.len() as usize)
            &&& i == old(cells)@.len()
        },
{
    let n = cells.len();
    for t in 0..n
        invariant
            n == cells@.len(),
            cells@ == old(cells)@,
            label@ == old(label)@,
            label@.len() == cells@.len(),
            distinct(cells@),
            labels_ok(label@),
            forall|j: int| 0 <= j < t ==> cells@[j] != c,
    {
        if cells[t] == c {
            return t;
        }
    }
    cells.push(c);
    label.push(n);
    proof {
        assert(cells@ == old(cells)@.push(c));
        assert forall|i: int, j: int|
            0 <= i < cells@.len() && 0 <= j < cells@.len() && i != j implies #[trigger] cells@[i]
            != #[trigger] cells@[j] by {
            if i == n as int {
                assert(cells@[j] == old(cells)@[j]);
            } else if j == n as int {
                assert(cells@[i] == old(cells)@[i]);
            } else {
                assert(cells@[i] == old(cells)@[i] && cells@[j] == old(cells)@[j]);
            }
        }
        assert forall|t: int| 0 <= t < label@.len() implies #[trigger] label@[t] <= t by {
            if t < n as int {
                assert(label@[t] == old(label)@[t]);
            } else {
                assert(label@[t] == n);
            }
        }
    }
    n
}

/// The cells of the group, each with the grid value it holds.
fn group_is_consistent(lay: &Layouter, mem: &Vec<Cell>) -> (ok: bool)
    ensures
        ok == !group_conflict(*lay, mem@),
{
    if mem.len() == 0 {
        return true;
    }
    let first = match lay.value_opt(mem[0]) {
        Some(v) => v,
        None => {
            return false;
        },
    };
    for t in 1..mem.len()
        invariant
            mem@.len() > 0,
            lay.cell_value(mem@[0]) == Some(first),
            forall|u: int| 0 <= u < t ==> lay.cell_value(#[trigger] mem@[u]) == Some(first),
    {
        match lay.value_opt(mem[t]) {
            Some(v) => {
                if !(v == first) {
                    return false;
                }
            },
            None => {
                return false;
            },
        }
    }
    true
}

/// The registered cells labelled `root`.
fn collect_group(cells: &Vec<Cell>, label: &Vec<usize>, root: usize) -> (mem: Vec<Cell>)
    requires
        label@.len() == cells@.len(),
    ensures
        members_match(cells@, label@, root as int, mem@),
        mem@.len() > 0 <==> exists|i: int| 0 <= i < label@.len() && label@[i] == root,
{
    let mut mem: Vec<Cell> = Vec::new();
    for i in 0..cells.len()
        invariant
            label@.len() == cells@.len(),
            forall|t: int|
                0 <= t < mem@.len() ==> exists|a: int|
                    0 <= a < cells@.len() && label@[a] == root && cells@[a] == #[trigger] mem@[t],
            forall|a: int|
                0 <= a < i && #[trigger] label@[a] == root ==> exists|t: int|
                    0 <= t < mem@.len() && mem@[t] == cells@[a],
            mem@.len() > 0 ==> exists|a: int| 0 <= a < label@.len() && label@[a] == root,
    {
        if label[i] == root {
            let ghost prev = mem@;
            mem.push(cells[i]);
            proof {
                assert(mem@[prev.len() as int] == cells@[i as int]);
                assert(forall|t: int| 0 <= t < prev.len() ==> #[trigger] mem@[t] == prev[t]);
                assert forall|a: int| 0 <= a < i + 1 && #[trigger] label@[a] == root implies
                    exists|t: int| 0 <= t < mem@.len() && mem@[t] == cells@[a] by {
                    if a < i {
                        let t = choose|t: int| 0 <= t < prev.len() && prev[t] == cells@[a];
                        assert(mem@[t] == cells@[a]);
                    } else {
                        assert(mem@[prev.len() as int] == cells@[a]);
                    }
                }
            }
        }
    }
    mem
}

/// Group the cells of the recorded copy constraints into equivalence
/// classes and return the members of every class that is inconsistent:
/// a class holding an unassigned cell or two different values.
///
/// The list is empty exactly when every recorded copy constraint holds,
/// and a failing constraint is reported by exactly one group.
pub fn copy_conflict_groups(lay: &Layouter) -> (out: Vec<Vec<Cell>>)
    requires
        2 * lay.copies@.len() < usize::MAX,
    ensures
        (out@.len() == 0) <==> copies_ok(*lay),
        forall|v: int| 0 <= v < out@.len() ==> group_conflict(*lay, #[trigger] out@[v]@),
        forall|v: int| 0 <= v < out@.len() ==> (#[trigger] out@[v])@.len() > 0,
        forall|k: int|
            0 <= k < lay.copies@.len() && !pair_ok(*lay, #[trigger] lay.copies@[k])
                ==> one_group_references(*lay, out@, lay.copies@[k].0),
{
    let mut cells: Vec<Cell> = Vec::new();
    let mut label: Vec<usize> = Vec::new();
    let n = lay.copies.len();
    for k in 0..n
        invariant
            n == lay.copies@.len(),
            2 * n < usize::MAX,
            label@.len() == cells@.len(),
            cells@.len() <= 2 * k,
            distinct(cells@),
            labels_ok(label@),
            covered(lay.copies@.take(k as int), cells@, label@),
            same_label_conn(lay.copies@.take(k as int), cells@, label@),
            endpoints_reg(lay.copies@.take(k as int), cells@),
    {
        let ghost pairs_k = lay.copies@.take(k as int);
        let ghost pairs_k1 = lay.copies@.take(k as int + 1);
        proof {
            assert(pairs_k1 =~= pairs_k.push(lay.copies@[k as int]));
        }
        let (a, b) = lay.copies[k];
        let ghost cells0 = cells@;
        let ghost label0 = label@;
        let ia = find_or_add(&mut cells, &mut label, a);
        let ghost cells1 = cells@;
        let ghost label1 = label@;
        let ib = find_or_add(&mut cells, &mut label, b);
        let ghost cells2 = cells@;
        let ghost label2 = label@;
        proof {
            lemma_registration_keeps(pairs_k, cells0, label0, cells1, label1, a);
            lemma_registration_keeps(pairs_k, cells1, label1, cells2, label2, b);
        }
        let la = label[ia];
        let lb = label[ib];
        if la != lb {
            let target = if la < lb {
                la
            } else {
                lb
            };
            let src = if la < lb {
                lb
            } else {
                la
            };
            let m = label.len();
            for idx in 0..m
                invariant
                    m == label@.len(),
                    label@.len() == cells@.len(),
                    label2.len() == label@.len(),
                    cells@ == cells2,
                    forall|t: int|
                        0 <= t < idx ==> #[trigger] label@[t] == (if label2[t] == src {
                            target
                        } else {
                            label2[t]
                        }),
                    forall|t: int| idx <= t < label@.len() ==> #[trigger] label@[t] == label2[t],
            {
                if label[idx] == src {
                    label[idx] = target;
                }
            }
            proof {
                lemma_merge_ok(
                    pairs_k,
                    lay.copies@[k as int],
                    cells2,
                    label2,
                    label@,
                    ia as int,
                    ib as int,
                    target,
                    src,
                );
                assert(covered(pairs_k1, cells@, label@));
                assert(same_label_conn(pairs_k1, cells@, label@));
            }
        } else {
            proof {
                lemma_no_merge_ok(pairs_k, lay.copies@[k as int], cells2, label2, ia as int,
                    ib as int);
            }
        }
        proof {
            lemma_cell_in_push(pairs_k, lay.copies@[k as int]);
            assert(pairs_k1[k as int] == lay.copies@[k as int]);
            assert(cell_in(pairs_k1, a));
            assert(cell_in(pairs_k1, b));
            assert forall|i: int| 0 <= i < cells@.len() implies cell_in(
                pairs_k1,
                #[trigger] cells@[i],
            ) by {
                if i < cells0.len() {
                    assert(cells@[i] == cells0[i]);
                    assert(cell_in(pairs_k, cells0[i]));
                } else {
                    assert(cells@[i] == a || cells@[i] == b);
                }
            }
        }
    }
    proof {
        assert(lay.copies@.take(n as int) =~= lay.copies@);
    }
    let mut out: Vec<Vec<Cell>> = Vec::new();
    let ghost mut roots: Seq<int> = Seq::empty();
    let cn = cells.len();
    for root in 0..cn
        invariant
            cn == cells@.len(),
            label@.len() == cells@.len(),
            distinct(cells@),
            labels_ok(label@),
            covered(lay.copies@, cells@, label@),
            same_label_conn(lay.copies@, cells@, label@),
            endpoints_reg(lay.copies@, cells@),
            roots.len() == out@.len(),
            forall|v: int| 0 <= v < roots.len() ==> 0 <= #[trigger] roots[v] < root,
            forall|v: int, w: int| 0 <= v < w < roots.len() ==> roots[v] < roots[w],
            forall|v: int|
                0 <= v < out@.len() ==> members_match(cells@, label@, roots[v], (#[trigger] out@[
                    v])@),
            forall|v: int| 0 <= v < out@.len() ==> group_conflict(*lay, #[trigger] out@[v]@),
            forall|v: int| 0 <= v < out@.len() ==> (#[trigger] out@[v])@.len() > 0,
            forall|r2: int|
                0 <= r2 < root && #[trigger] label_class_conflict(*lay, cells@, label@, r2)
                    ==> exists|v: int| 0 <= v < roots.len() && roots[v] == r2,
            copies_ok(*lay) ==> out@.len() == 0,
    {
        let mem = collect_group(&cells, &label, root);
        if mem.len() > 0 {
            if !group_is_consistent(lay, &mem) {
                proof {
                    lemma_conflict_impossible_when_ok(*lay, cells@, label@, root as int, mem@);
                }
                let ghost out0 = out@;
                let ghost roots0 = roots;
                out.push(mem);
                proof {
                    roots = roots.push(root as int);
                    assert(roots[roots.len() - 1] == root as int);
                    assert(out@[out@.len() - 1] == mem);
                    assert(forall|v: int| 0 <= v < out0.len() ==> #[trigger] out@[v] == out0[v]);
                    assert(forall|v: int| 0 <= v < roots0.len() ==> #[trigger] roots[v]
                        == roots0[v]);
                    assert forall|r2: int|
                        0 <= r2 < root + 1 && #[trigger] label_class_conflict(
                            *lay,
                            cells@,
                            label@,
                            r2,
                        ) implies exists|v: int| 0 <= v < roots.len() && roots[v] == r2 by {
                        if r2 == root as int {
                            assert(roots[roots.len() - 1] == r2);
                        } else {
                            let v = choose|v: int| 0 <= v < roots0.len() && roots0[v] == r2;
                            assert(roots[v] == r2);
                        }
                    }
                }
            } else {
                proof {
                    assert(!label_class_conflict(*lay, cells@, label@, root as int)) by {
                        if label_class_conflict(*lay, cells@, label@, root as int) {
                            let (i, j) = choose|i: int, j: int|
                                0 <= i < cells@.len() && 0 <= j < cells@.len() && label@[i]
                                    == root as int && label@[j] == root as int && !(lay.cell_value(
                                    cells@[i],
                                ) is Some && lay.cell_value(cells@[i]) == lay.cell_value(
                                    cells@[j],
                                ));
                            let t1 = choose|t: int|
                                0 <= t < mem@.len() && mem@[t] == cells@[i];
                            let t2 = choose|t: int|
                                0 <= t < mem@.len() && mem@[t] == cells@[j];
                            assert(group_conflict(*lay, mem@));
                        }
                    };
                }
            }
        } else {
            proof {
                assert(!label_class_conflict(*lay, cells@, label@, root as int));
            }
        }
    }
    proof {
        lemma_final_classes(*lay, cells@, label@, out@, roots);
    }
    out
}

} // verus!
