//! The uniform-cell broad-phase index.
//!
//! A grid of `rows x cols` cells, each holding the handles (indices into
//! the simulation's item list) of the objects registered there.  The grid
//! is rebuilt every simulation step: an object is inserted into every cell
//! its bounding box overlaps, and a query returns the handles found in a
//! rectangular block of cells.  Out-of-bounds access is signalled by an
//! absent result, never a fault.

use vstd::prelude::*;

verus! {

/// A row index into the grid.
#[derive(Clone, Copy, PartialEq, Eq, Structural, Debug)]
pub struct Row(pub usize);

/// A column index into the grid.
#[derive(Clone, Copy, PartialEq, Eq, Structural, Debug)]
pub struct Col(pub usize);

/// One grid cell: the handles registered in it, in insertion order.
#[derive(Debug, PartialEq)]
pub struct Cell(pub Vec<usize>);

impl Cell {
    pub fn empty() -> (c: Cell)
        ensures
            c.0@ == Seq::<usize>::empty(),
    {
        Cell(Vec::new())
    }

    pub fn single(item: usize) -> (c: Cell)
        ensures
            c.0@ == seq![item],
    {
        let mut v: Vec<usize> = Vec::new();
        v.push(item);
        assert(v@ == seq![item]);
        Cell(v)
    }

    pub fn insert(&mut self, item: usize)
        ensures
            final(self).0@ == old(self).0@.push(item),
    {
        self.0.push(item);
    }

    /// Appends `item` only if the cell does not already hold it; reports
    /// whether an insertion happened.
    pub fn insert_unique(&mut self, item: usize) -> (inserted: bool)
        ensures
            inserted == !old(self).0@.contains(item),
            inserted ==> final(self).0@ == old(self).0@.push(item),
            !inserted ==> final(self).0@ == old(self).0@,
    {
        if vec_contains(&self.0, item) {
            false
        } else {
            self.0.push(item);
            true
        }
    }
}

impl Default for Cell {
    /// An empty cell, as `Cell::empty` builds it.
    fn default() -> (c: Cell)
        ensures
            c.0@ == Seq::<usize>::empty(),
    {
        Cell(Vec::new())
    }
}

/// Whether `v` holds `x`.
pub fn vec_contains(v: &Vec<usize>, x: usize) -> (b: bool)
    ensures
        b == v@.contains(x),
{
    let mut i: usize = 0;
    while i < v.len()
        invariant
            0 <= i <= v@.len(),
            forall|k: int| 0 <= k < i ==> v@[k] != x,
        decreases v@.len() - i,
    {
        if v[i] == x {
            assert(v@.contains(x));
            return true;
        }
        i += 1;
    }
    false
}

/// The broad-phase index: `rows * cols` cells of handles, plus the
/// world-unit size of one (square) cell.
pub struct Grid {
    pub data: Vec<Cell>,
    pub rows: usize,
    pub cols: usize,
    pub spacing: i64,
}

impl Grid {
    /// The backing vector holds exactly one cell per grid position.
    pub open spec fn wf(&self) -> bool {
        self.data@.len() == self.rows * self.cols
    }

    pub open spec fn in_bounds(&self, row: int, col: int) -> bool {
        0 <= row < self.rows && 0 <= col < self.cols
    }

    /// The handles registered in the cell at `(row, col)`.
    pub open spec fn cell_seq(&self, row: int, col: int) -> Seq<usize> {
        self.data@[row * self.cols + col].0@
    }

    /// Same dimensions and cell size.
    pub open spec fn same_shape(&self, other: &Grid) -> bool {
        self.rows == other.rows && self.cols == other.cols && self.spacing == other.spacing
    }
}

proof fn lemma_index_in_bounds(row: int, col: int, rows: int, cols: int)
    by (nonlinear_arith)
    requires
        0 <= row < rows,
        0 <= col < cols,
    ensures
        0 <= row * cols + col < rows * cols,
        row * cols + col >= row * cols >= 0,
{
}

proof fn lemma_index_injective(r1: int, c1: int, r2: int, c2: int, cols: int)
    by (nonlinear_arith)
    requires
        0 <= r1,
        0 <= r2,
        0 <= c1 < cols,
        0 <= c2 < cols,
        r1 * cols + c1 == r2 * cols + c2,
    ensures
        r1 == r2 && c1 == c2,
{
}

impl Grid {
    /// Allocates `rows * cols` empty cells.
    pub fn new(rows: usize, cols: usize, spacing: i64) -> (g: Grid)
        requires
            rows * cols <= usize::MAX,
        ensures
            g.wf(),
            g.rows == rows,
            g.cols == cols,
            g.spacing == spacing,
            forall|r: int, c: int|
                g.in_bounds(r, c) ==> #[trigger] g.cell_seq(r, c) == Seq::<usize>::empty(),
    {
        let n: usize = rows * cols;
        let mut data: Vec<Cell> = Vec::new();
        let mut i: usize = 0;
        while i < n
            invariant
                0 <= i <= n,
                data@.len() == i,
                forall|j: int| 0 <= j < i ==> #[trigger] data@[j].0@ == Seq::<usize>::empty(),
            decreases n - i,
        {
            data.push(Cell(Vec::new()));
            i += 1;
        }
        let g = Grid { data, rows, cols, spacing };
        assert forall|r: int, c: int| g.in_bounds(r, c) implies #[trigger] g.cell_seq(r, c)
            == Seq::<usize>::empty() by {
            lemma_index_in_bounds(r, c, rows as int, cols as int);
        }
        g
    }

    /// Index of `(row, col)` in the backing vector.
    fn get_index(&self, row: &Row, col: &Col) -> (idx: usize)
        requires
            self.wf(),
            self.in_bounds(row.0 as int, col.0 as int),
        ensures
            idx == row.0 * self.cols + col.0,
            idx < self.data@.len(),
    {
        let n: usize = self.data.len();
        proof {
            lemma_index_in_bounds(row.0 as int, col.0 as int, self.rows as int, self.cols as int);
        }
        assert(row.0 * self.cols + col.0 < n);
        row.0 * self.cols + col.0
    }

    /// Index of `(row, col)` in a row-major vector of `cols` columns.
    pub fn get_vec_index(row: &Row, col: &Col, cols: usize) -> (idx: usize)
        requires
            row.0 * cols + col.0 <= usize::MAX,
        ensures
            idx == row.0 * cols + col.0,
    {
        row.0 * cols + col.0
    }

    /// Inverse of `get_vec_index`: the `(row, col)` a row-major index
    /// falls in.
    pub fn get_grid_index(index: usize, cols: usize) -> (rc: (Row, Col))
        requires
            cols > 0,
        ensures
            rc.0.0 == index as int / cols as int,
            rc.1.0 == index as int % cols as int,
    {
        let row: usize = index / cols;
        let col: usize = index % cols;
        (Row(row), Col(col))
    }

    /// The contents of one cell, or `None` when `(row, col)` is outside
    /// the grid.
    pub fn get(&self, row: &Row, col: &Col) -> (r: Option<&Vec<usize>>)
        requires
            self.wf(),
        ensures
            r is Some <==> self.in_bounds(row.0 as int, col.0 as int),
            r matches Some(v) ==> v@ == self.cell_seq(row.0 as int, col.0 as int),
    {
        if row.0 < self.rows && col.0 < self.cols {
            let idx = self.get_index(row, col);
            Some(&self.data[idx].0)
        } else {
            None
        }
    }

    /// Appends `item` to the cell at `(row, col)`; `None` (and no change)
    /// when the position is outside the grid.
    pub fn set(&mut self, item: usize, row: &Row, col: &Col) -> (r: Option<()>)
        requires
            old(self).wf(),
        ensures
            final(self).wf(),
            final(self).same_shape(old(self)),
            r is Some <==> old(self).in_bounds(row.0 as int, col.0 as int),
            r is None ==> *final(self) == *old(self),
            r is Some ==> final(self).cell_seq(row.0 as int, col.0 as int) == old(self).cell_seq(
                row.0 as int,
                col.0 as int,
            ).push(item),
            forall|r2: int, c2: int|
                old(self).in_bounds(r2, c2) && !(r2 == row.0 && c2 == col.0)
                    ==> #[trigger] final(self).cell_seq(r2, c2) == old(self).cell_seq(r2, c2),
    {
        if row.0 < self.rows && col.0 < self.cols {
            let idx = self.get_index(row, col);
            let cell = &mut self.data[idx];
            cell.0.push(item);
            proof {
                self.lemma_one_cell_update(*old(self), row.0 as int, col.0 as int);
            }
            Some(())
        } else {
            None
        }
    }

    /// Appends `item` to the cell at `(row, col)` only if that cell does
    /// not already hold it; reports whether an insertion happened, or
    /// `None` (and no change) when the position is outside the grid.
    pub fn set_unique(&mut self, item: usize, row: &Row, col: &Col) -> (r: Option<bool>)
        requires
            old(self).wf(),
        ensures
            final(self).wf(),
            final(self).same_shape(old(self)),
            r is Some <==> old(self).in_bounds(row.0 as int, col.0 as int),
            r is None ==> *final(self) == *old(self),
            r matches Some(inserted) ==> inserted == !old(self).cell_seq(
                row.0 as int,
                col.0 as int,
            ).contains(item),
            r == Some(true) ==> final(self).cell_seq(row.0 as int, col.0 as int) == old(
                self,
            ).cell_seq(row.0 as int, col.0 as int).push(item),
            r == Some(false) ==> final(self).cell_seq(row.0 as int, col.0 as int) == old(
                self,
            ).cell_seq(row.0 as int, col.0 as int),
            forall|r2: int, c2: int|
                old(self).in_bounds(r2, c2) && !(r2 == row.0 && c2 == col.0)
                    ==> #[trigger] final(self).cell_seq(r2, c2) == old(self).cell_seq(r2, c2),
    {
        if row.0 < self.rows && col.0 < self.cols {
            let idx = self.get_index(row, col);
            let cell = &mut self.data[idx];
            let inserted = cell.insert_unique(item);
            proof {
                self.lemma_one_cell_update(*old(self), row.0 as int, col.0 as int);
            }
            Some(inserted)
        } else {
            None
        }
    }

    /// The cell contents at `(row, col)`, or nothing when that position
    /// is outside the grid: queries skip out-of-bounds cells.
    pub open spec fn cell_or_empty(&self, row: int, col: int) -> Seq<usize> {
        if self.in_bounds(row, col) {
            self.cell_seq(row, col)
        } else {
            Seq::empty()
        }
    }

    /// Flattened contents of the cells of column `c`, rows `r0..=r1`.
    pub open spec fn col_block_seq(&self, c: int, r0: int, r1: int) -> Seq<usize>
        decreases r1 - r0 + 1,
    {
        if r0 > r1 {
            Seq::empty()
        } else {
            self.cell_or_empty(r0, c) + self.col_block_seq(c, r0 + 1, r1)
        }
    }

    /// Flattened contents of the cell block rows `r0..=r1`, columns
    /// `c0..=c1`, in traversal order: columns outermost, rows within a
    /// column.
    pub open spec fn query_seq(&self, r0: int, r1: int, c0: int, c1: int) -> Seq<usize>
        decreases c1 - c0 + 1,
    {
        if c0 > c1 {
            Seq::empty()
        } else {
            self.col_block_seq(c0, r0, r1) + self.query_seq(r0, r1, c0 + 1, c1)
        }
    }

    proof fn lemma_col_block_snoc(&self, c: int, r0: int, r: int)
        requires
            r0 <= r,
        ensures
            self.col_block_seq(c, r0, r) == self.col_block_seq(c, r0, r - 1) + self.cell_or_empty(
                r,
                c,
            ),
        decreases r - r0,
    {
        if r0 == r {
            assert(self.col_block_seq(c, r0, r - 1) == Seq::<usize>::empty());
            assert(self.col_block_seq(c, r0 + 1, r) == Seq::<usize>::empty());
            assert(self.col_block_seq(c, r0, r) =~= self.col_block_seq(c, r0, r - 1)
                + self.cell_or_empty(r, c));
        } else {
            self.lemma_col_block_snoc(c, r0 + 1, r);
            assert(self.col_block_seq(c, r0, r) =~= self.col_block_seq(c, r0, r - 1)
                + self.cell_or_empty(r, c));
        }
    }

    proof fn lemma_query_snoc(&self, r0: int, r1: int, c0: int, c: int)
        requires
            c0 <= c,
        ensures
            self.query_seq(r0, r1, c0, c) == self.query_seq(r0, r1, c0, c - 1)
                + self.col_block_seq(c, r0, r1),
        decreases c - c0,
    {
        if c0 == c {
            assert(self.query_seq(r0, r1, c0, c - 1) == Seq::<usize>::empty());
            assert(self.query_seq(r0, r1, c0 + 1, c) == Seq::<usize>::empty());
            assert(self.query_seq(r0, r1, c0, c) =~= self.query_seq(r0, r1, c0, c - 1)
                + self.col_block_seq(c, r0, r1));
        } else {
            self.lemma_query_snoc(r0, r1, c0 + 1, c);
            assert(self.query_seq(r0, r1, c0, c) =~= self.query_seq(r0, r1, c0, c - 1)
                + self.col_block_seq(c, r0, r1));
        }
    }

    /// The handles found in the cell block rows `rows.0 ..= rows.1`,
    /// columns `cols.0 ..= cols.1`, flattened in traversal order, with
    /// duplicates kept; cells outside the grid contribute nothing.
    pub fn get_many(&self, rows: (Row, Row), cols: (Col, Col)) -> (out: Vec<usize>)
        requires
            self.wf(),
        ensures
            out@ == self.query_seq(rows.0.0 as int, rows.1.0 as int, cols.0.0 as int, cols.1.0 as int),
    {
        let r0: usize = rows.0.0;
        let r1: usize = rows.1.0;
        let c0: usize = cols.0.0;
        let c1: usize = cols.1.0;
        let ghost gr0 = r0 as int;
        let ghost gr1 = r1 as int;
        let ghost gc0 = c0 as int;
        let ghost gc1 = c1 as int;
        let mut out: Vec<usize> = Vec::new();
        let mut c: usize = c0;
        while c <= c1
            invariant_except_break
                self.wf(),
                gr0 == r0 && gr1 == r1 && gc0 == c0 && gc1 == c1,
                c == gc0 || gc0 <= c <= gc1,
                out@ == self.query_seq(gr0, gr1, gc0, c - 1),
            ensures
                out@ == self.query_seq(gr0, gr1, gc0, gc1),
            decreases gc1 + 1 - c,
        {
            let mut r: usize = r0;
            while r <= r1
                invariant_except_break
                    self.wf(),
                    gr0 == r0 && gr1 == r1 && gc0 == c0 && gc1 == c1,
                    gc0 <= c <= gc1,
                    r == gr0 || gr0 <= r <= gr1,
                    out@ == self.query_seq(gr0, gr1, gc0, c - 1) + self.col_block_seq(
                        c as int,
                        gr0,
                        r - 1,
                    ),
                ensures
                    out@ == self.query_seq(gr0, gr1, gc0, c - 1) + self.col_block_seq(
                        c as int,
                        gr0,
                        gr1,
                    ),
                decreases gr1 + 1 - r,
            {
                if r < self.rows && c < self.cols {
                    let idx = self.get_index(&Row(r), &Col(c));
                    let cell = &self.data[idx].0;
                    let mut k: usize = 0;
                    while k < cell.len()
                        invariant
                            gr0 == r0 && gr1 == r1 && gc0 == c0 && gc1 == c1,
                            gr0 <= r && gc0 <= c,
                            out@ == self.query_seq(gr0, gr1, gc0, c - 1) + self.col_block_seq(
                                c as int,
                                gr0,
                                r - 1,
                            ) + cell@.subrange(0, k as int),
                            cell@ == self.cell_seq(r as int, c as int),
                            self.in_bounds(r as int, c as int),
                            k <= cell@.len(),
                        decreases cell@.len() - k,
                    {
                        out.push(cell[k]);
                        proof {
                            assert(cell@.subrange(0, k + 1) =~= cell@.subrange(0, k as int)
                                + seq![cell@[k as int]]);
                            assert(out@ =~= self.query_seq(gr0, gr1, gc0, c - 1)
                                + self.col_block_seq(c as int, gr0, r - 1) + cell@.subrange(
                                0,
                                k + 1,
                            ));
                        }
                        k += 1;
                    }
                    proof {
                        assert(cell@.subrange(0, cell@.len() as int) =~= cell@);
                        self.lemma_col_block_snoc(c as int, gr0, r as int);
                        assert(out@ =~= self.query_seq(gr0, gr1, gc0, c - 1)
                            + self.col_block_seq(c as int, gr0, r as int));
                    }
                } else {
                    proof {
                        self.lemma_col_block_snoc(c as int, gr0, r as int);
                        assert(self.cell_or_empty(r as int, c as int) == Seq::<usize>::empty());
                        assert(out@ =~= self.query_seq(gr0, gr1, gc0, c - 1)
                            + self.col_block_seq(c as int, gr0, r as int));
                    }
                }
                if r == r1 {
                    break;
                }
                r += 1;
            }
            proof {
                self.lemma_query_snoc(gr0, gr1, gc0, c as int);
                assert(out@ =~= self.query_seq(gr0, gr1, gc0, c as int));
            }
            if c == c1 {
                break;
            }
            c += 1;
        }
        out
    }

    /// After an update of the single backing slot of `(row, col)`, every
    /// other cell reads unchanged.
    proof fn lemma_one_cell_update(&self, prev: Grid, row: int, col: int)
        requires
            prev.wf(),
            prev.in_bounds(row, col),
            self.rows == prev.rows,
            self.cols == prev.cols,
            self.data@.len() == prev.data@.len(),
            forall|k: int|
                0 <= k < prev.data@.len() && k != row * prev.cols + col ==> self.data@[k]
                    == prev.data@[k],
        ensures
            forall|r2: int, c2: int|
                prev.in_bounds(r2, c2) && !(r2 == row && c2 == col)
                    ==> #[trigger] self.cell_seq(r2, c2) == prev.cell_seq(r2, c2),
    {
        assert forall|r2: int, c2: int|
            prev.in_bounds(r2, c2) && !(r2 == row && c2 == col) implies #[trigger] self.cell_seq(
            r2,
            c2,
        ) == prev.cell_seq(r2, c2) by {
            lemma_index_in_bounds(r2, c2, prev.rows as int, prev.cols as int);
            lemma_index_in_bounds(row, col, prev.rows as int, prev.cols as int);
            if r2 * prev.cols + c2 == row * prev.cols + col {
                lemma_index_injective(r2, c2, row, col, prev.cols as int);
            }
        }
    }
}

/// Whether `(r, c)` lies in the inclusive block rows `r0..=r1`, columns
/// `c0..=c1`.
pub open spec fn in_cell_block(r0: int, r1: int, c0: int, c1: int, r: int, c: int) -> bool {
    r0 <= r <= r1 && c0 <= c <= c1
}

impl Grid {
    /// The cartesian product of the two inclusive ranges is either empty
    /// or lies entirely within the grid.
    pub open spec fn block_in_bounds(&self, r0: int, r1: int, c0: int, c1: int) -> bool {
        (r0 <= r1 && c0 <= c1) ==> (r1 < self.rows && c1 < self.cols)
    }

    /// Registers `item` in every cell of the inclusive block rows
    /// `rows.0 ..= rows.1`, columns `cols.0 ..= cols.1`.  If any cell of a
    /// non-empty block is out of grid bounds, nothing is inserted and
    /// `None` is returned; an empty block succeeds trivially.
    pub fn set_many(&mut self, item: usize, rows: (Row, Row), cols: (Col, Col)) -> (res: Option<
        (),
    >)
        requires
            old(self).wf(),
        ensures
            final(self).wf(),
            final(self).same_shape(old(self)),
            res is Some <==> old(self).block_in_bounds(
                rows.0.0 as int,
                rows.1.0 as int,
                cols.0.0 as int,
                cols.1.0 as int,
            ),
            res is None ==> *final(self) == *old(self),
            res is Some ==> forall|r2: int, c2: int|
                old(self).in_bounds(r2, c2) ==> #[trigger] final(self).cell_seq(r2, c2) == (
                if in_cell_block(
                    rows.0.0 as int,
                    rows.1.0 as int,
                    cols.0.0 as int,
                    cols.1.0 as int,
                    r2,
                    c2,
                ) {
                    old(self).cell_seq(r2, c2).push(item)
                } else {
                    old(self).cell_seq(r2, c2)
                }),
    {
        let r0: usize = rows.0.0;
        let r1: usize = rows.1.0;
        let c0: usize = cols.0.0;
        let c1: usize = cols.1.0;
        let ghost gr0 = r0 as int;
        let ghost gr1 = r1 as int;
        let ghost gc0 = c0 as int;
        let ghost gc1 = c1 as int;
        if r0 > r1 || c0 > c1 {
            return Some(());
        }
        if !(r1 < self.rows && c1 < self.cols) {
            return None;
        }
        let mut c: usize = c0;
        while c <= c1
            invariant_except_break
                gr0 == r0 && gr1 == r1 && gc0 == c0 && gc1 == c1,
                gr0 <= gr1 && gc0 <= gc1,
                gr1 < old(self).rows && gc1 < old(self).cols,
                gc0 <= c <= gc1,
                self.wf(),
                self.same_shape(old(self)),
                forall|r2: int, c2: int|
                    old(self).in_bounds(r2, c2) ==> #[trigger] self.cell_seq(r2, c2) == (
                    if in_cell_block(gr0, gr1, gc0, c - 1, r2, c2) {
                        old(self).cell_seq(r2, c2).push(item)
                    } else {
                        old(self).cell_seq(r2, c2)
                    }),
            ensures
                self.wf(),
                self.same_shape(old(self)),
                forall|r2: int, c2: int|
                    old(self).in_bounds(r2, c2) ==> #[trigger] self.cell_seq(r2, c2) == (
                    if in_cell_block(gr0, gr1, gc0, gc1, r2, c2) {
                        old(self).cell_seq(r2, c2).push(item)
                    } else {
                        old(self).cell_seq(r2, c2)
                    }),
            decreases gc1 - c,
        {
            let mut r: usize = r0;
            while r <= r1
                invariant_except_break
                    gr0 == r0 && gr1 == r1 && gc0 == c0 && gc1 == c1,
                    gr0 <= gr1 && gc0 <= gc1,
                    gr1 < old(self).rows && gc1 < old(self).cols,
                    gc0 <= c <= gc1,
                    gr0 <= r <= gr1,
                    self.wf(),
                    self.same_shape(old(self)),
                    forall|r2: int, c2: int|
                        old(self).in_bounds(r2, c2) ==> #[trigger] self.cell_seq(r2, c2) == (
                        if in_cell_block(gr0, gr1, gc0, c - 1, r2, c2) || (c2 == c && gr0 <= r2
                            <= r - 1) {
                            old(self).cell_seq(r2, c2).push(item)
                        } else {
                            old(self).cell_seq(r2, c2)
                        }),
                ensures
                    self.wf(),
                    self.same_shape(old(self)),
                    forall|r2: int, c2: int|
                        old(self).in_bounds(r2, c2) ==> #[trigger] self.cell_seq(r2, c2) == (
                        if in_cell_block(gr0, gr1, gc0, c - 1, r2, c2) || (c2 == c && gr0 <= r2
                            <= gr1) {
                            old(self).cell_seq(r2, c2).push(item)
                        } else {
                            old(self).cell_seq(r2, c2)
                        }),
                decreases gr1 - r,
            {
                let ghost prev = *self;
                let idx = self.get_index(&Row(r), &Col(c));
                let cell = &mut self.data[idx];
                cell.0.push(item);
                proof {
                    self.lemma_one_cell_update(prev, r as int, c as int);
                    assert(self.cell_seq(r as int, c as int) == prev.cell_seq(
                        r as int,
                        c as int,
                    ).push(item));
                    assert forall|r2: int, c2: int|
                        old(self).in_bounds(r2, c2) implies #[trigger] self.cell_seq(r2, c2) == (
                    if in_cell_block(gr0, gr1, gc0, c - 1, r2, c2) || (c2 == c && gr0 <= r2
                        <= r) {
                        old(self).cell_seq(r2, c2).push(item)
                    } else {
                        old(self).cell_seq(r2, c2)
                    }) by {
                        assert(prev.cell_seq(r2, c2) == (if in_cell_block(gr0, gr1, gc0, c - 1, r2, c2)
                            || (c2 == c && gr0 <= r2 <= r - 1) {
                            old(self).cell_seq(r2, c2).push(item)
                        } else {
                            old(self).cell_seq(r2, c2)
                        }));
                    }
                }
                if r == r1 {
                    break;
                }
                r += 1;
            }
            if c == c1 {
                break;
            }
            c += 1;
        }
        Some(())
    }
}

proof fn lemma_contains_snoc(s: Seq<usize>, x: usize, y: usize)
    ensures
        s.push(x).contains(y) <==> s.contains(y) || y == x,
{
    if s.contains(y) {
        let i = choose|i: int| 0 <= i < s.len() && s[i] == y;
        assert(s.push(x)[i] == y);
    }
    if y == x {
        assert(s.push(x)[s.len() as int] == y);
    }
    if s.push(x).contains(y) {
        let i = choose|i: int| 0 <= i < s.push(x).len() && s.push(x)[i] == y;
        if i < s.len() {
            assert(s[i] == y);
        }
    }
}

proof fn lemma_concat_contains(a: Seq<usize>, b: Seq<usize>, x: usize)
    ensures
        (a + b).contains(x) <==> a.contains(x) || b.contains(x),
{
    if a.contains(x) {
        let i = choose|i: int| 0 <= i < a.len() && a[i] == x;
        assert((a + b)[i] == x);
    }
    if b.contains(x) {
        let i = choose|i: int| 0 <= i < b.len() && b[i] == x;
        assert((a + b)[a.len() + i] == x);
    }
    if (a + b).contains(x) {
        let i = choose|i: int| 0 <= i < (a + b).len() && (a + b)[i] == x;
        if i < a.len() {
            assert(a[i] == x);
        } else {
            assert(b[i - a.len()] == x);
        }
    }
}

/// A sequence with its duplicates dropped: each element keeps its first
/// occurrence, in order.
pub open spec fn dedup_first(s: Seq<usize>) -> Seq<usize>
    decreases s.len(),
{
    if s.len() == 0 {
        Seq::empty()
    } else {
        let pre = dedup_first(s.drop_last());
        if pre.contains(s.last()) {
            pre
        } else {
            pre.push(s.last())
        }
    }
}

impl Grid {
    /// The handles found in the cell block, de-duplicated by first
    /// occurrence: each handle appears at most once, in the order the
    /// traversal first sees it, and a handle appears exactly when some
    /// cell of the block holds it.
    pub fn get_many_unique(&self, rows: (Row, Row), cols: (Col, Col)) -> (out: Vec<usize>)
        requires
            self.wf(),
        ensures
            out@ == dedup_first(
                self.query_seq(
                    rows.0.0 as int,
                    rows.1.0 as int,
                    cols.0.0 as int,
                    cols.1.0 as int,
                ),
            ),
            forall|i: int, j: int| 0 <= i < j < out@.len() ==> out@[i] != out@[j],
            forall|x: usize| #[trigger] out@.contains(x) <==> self.query_seq(
                rows.0.0 as int,
                rows.1.0 as int,
                cols.0.0 as int,
                cols.1.0 as int,
            ).contains(x),
    {
        let flat = self.get_many(rows, cols);
        let mut out: Vec<usize> = Vec::new();
        let mut i: usize = 0;
        while i < flat.len()
            invariant
                i <= flat@.len(),
                out@ == dedup_first(flat@.subrange(0, i as int)),
                forall|p: int, q: int| 0 <= p < q < out@.len() ==> out@[p] != out@[q],
                forall|x: usize| #[trigger] out@.contains(x) <==> flat@.subrange(
                    0,
                    i as int,
                ).contains(x),
            decreases flat@.len() - i,
        {
            let item = flat[i];
            let ghost prev_out = out@;
            if !vec_contains(&out, item) {
                out.push(item);
                proof {
                    assert forall|p: int, q: int|
                        0 <= p < q < out@.len() implies out@[p] != out@[q] by {
                        if q == out@.len() - 1 {
                            assert(out@[q] == item);
                            assert(prev_out[p] == out@[p]);
                            if out@[p] == item {
                                assert(prev_out.contains(item));
                            }
                        }
                    }
                }
            }
            proof {
                assert(flat@.subrange(0, i + 1) =~= flat@.subrange(0, i as int).push(
                    flat@[i as int],
                ));
                lemma_contains_snoc(flat@.subrange(0, i as int), flat@[i as int], item);
                assert forall|x: usize| #[trigger] out@.contains(x) <==> flat@.subrange(
                    0,
                    i + 1,
                ).contains(x) by {
                    lemma_contains_snoc(flat@.subrange(0, i as int), flat@[i as int], x);
                    lemma_contains_snoc(prev_out, item, x);
                    if prev_out.contains(item) && out@ == prev_out {
                    }
                }
                let snoc = flat@.subrange(0, i + 1);
                assert(snoc.drop_last() =~= flat@.subrange(0, i as int));
                assert(snoc.last() == flat@[i as int]);
                assert(dedup_first(snoc) == (if dedup_first(snoc.drop_last()).contains(
                    snoc.last(),
                ) {
                    dedup_first(snoc.drop_last())
                } else {
                    dedup_first(snoc.drop_last()).push(snoc.last())
                }));
                assert(out@ == dedup_first(flat@.subrange(0, i + 1)));
            }
            i += 1;
        }
        proof {
            assert(flat@.subrange(0, flat@.len() as int) =~= flat@);
        }
        out
    }

    /// Everything a block cell holds shows up in the block's column
    /// traversal.
    proof fn lemma_col_block_covers_cell(&self, c: int, r0: int, r1: int, r: int, x: usize)
        requires
            r0 <= r <= r1,
            self.in_bounds(r, c),
            self.cell_seq(r, c).contains(x),
        ensures
            self.col_block_seq(c, r0, r1).contains(x),
        decreases r - r0,
    {
        lemma_concat_contains(self.cell_or_empty(r0, c), self.col_block_seq(c, r0 + 1, r1), x);
        if r == r0 {
            assert(self.cell_or_empty(r0, c).contains(x));
        } else {
            self.lemma_col_block_covers_cell(c, r0 + 1, r1, r, x);
        }
    }

    /// Everything a block cell holds shows up in the block query.
    proof fn lemma_query_seq_covers_cell(
        &self,
        r0: int,
        r1: int,
        c0: int,
        c1: int,
        r: int,
        c: int,
        x: usize,
    )
        requires
            r0 <= r <= r1,
            c0 <= c <= c1,
            self.in_bounds(r, c),
            self.cell_seq(r, c).contains(x),
        ensures
            self.query_seq(r0, r1, c0, c1).contains(x),
        decreases c - c0,
    {
        lemma_concat_contains(self.col_block_seq(c0, r0, r1), self.query_seq(r0, r1, c0 + 1, c1), x);
        if c == c0 {
            self.lemma_col_block_covers_cell(c0, r0, r1, r, x);
        } else {
            self.lemma_query_seq_covers_cell(r0, r1, c0 + 1, c1, r, c, x);
        }
    }
}

/// Registering an item over a non-empty in-bounds block and then querying
/// the same block with de-duplication returns the item at least once, and
/// returns nothing twice.  `g0` is the grid before the insertion, `g1` the
/// grid after it (as `set_many` describes it), and `out` the contents of a
/// de-duplicated query of `g1` (as `get_many_unique` describes it).
pub proof fn lemma_insert_then_query_unique(
    g0: Grid,
    g1: Grid,
    out: Seq<usize>,
    item: usize,
    r0: int,
    r1: int,
    c0: int,
    c1: int,
)
    requires
        g0.wf(),
        0 <= r0 <= r1 < g0.rows,
        0 <= c0 <= c1 < g0.cols,
        g1.wf(),
        g1.same_shape(&g0),
        forall|r2: int, c2: int|
            g0.in_bounds(r2, c2) ==> #[trigger] g1.cell_seq(r2, c2) == (if in_cell_block(
                r0,
                r1,
                c0,
                c1,
                r2,
                c2,
            ) {
                g0.cell_seq(r2, c2).push(item)
            } else {
                g0.cell_seq(r2, c2)
            }),
        forall|i: int, j: int| 0 <= i < j < out.len() ==> out[i] != out[j],
        forall|x: usize| #[trigger] out.contains(x) <==> g1.query_seq(r0, r1, c0, c1).contains(x),
    ensures
        out.contains(item),
        forall|i: int, j: int| 0 <= i < j < out.len() ==> out[i] != out[j],
{
    assert(g1.cell_seq(r0, c0) == g0.cell_seq(r0, c0).push(item));
    assert(g1.cell_seq(r0, c0)[g0.cell_seq(r0, c0).len() as int] == item);
    assert(g1.cell_seq(r0, c0).contains(item));
    g1.lemma_query_seq_covers_cell(r0, r1, c0, c1, r0, c0, item);
}

} // verus!
