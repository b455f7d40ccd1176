//! The cached data of one representation: the table of its values and the
//! statistics derived from it.
use vstd::prelude::*;

verus! {

/// Whether `n` is the number of cells of a square grid.
pub open spec fn is_square(n: nat) -> bool {
    exists|side: nat| #[trigger] (side * side) == n
}

/// The number of values in a table over a square grid of edge `grid_side`
/// whose rows are `width` wide.
pub open spec fn cell_count(grid_side: nat, width: nat) -> nat {
    grid_side * grid_side * width
}

/// What a [`Table`] is: `rows` positions with `width` values each, the values
/// as half-precision patterns in row-major order.
pub struct TableView {
    pub rows: nat,
    pub width: nat,
    pub cells: Seq<u16>,
}

impl TableView {
    /// The shape fits the cells, and the positions fill a square grid.
    pub open spec fn wf(self) -> bool {
        &&& self.cells.len() == self.rows * self.width
        &&& is_square(self.rows)
    }

    /// The values of row `i`.
    pub open spec fn row(self, i: int) -> Seq<u16> {
        self.cells.subrange(i * self.width, (i + 1) * self.width)
    }
}

/// A row-major table of half-precision patterns, one row per position of a
/// square grid.
#[derive(Debug, PartialEq, Eq)]
pub struct Table {
    rows: usize,
    width: usize,
    cells: Vec<u16>,
}

impl View for Table {
    type V = TableView;

    closed spec fn view(&self) -> TableView {
        TableView { rows: self.rows as nat, width: self.width as nat, cells: self.cells@ }
    }
}

/// Row `i` of a table with `rows` rows lies inside its `rows * width` cells.
pub proof fn lemma_row_in_bounds(rows: int, width: int, i: int)
    requires
        0 <= i < rows,
        0 <= width,
    ensures
        0 <= i * width,
        i * width + width == (i + 1) * width,
        (i + 1) * width <= rows * width,
{
    assert(0 <= i * width) by (nonlinear_arith)
        requires
            0 <= i,
            0 <= width,
    ;
    assert(i * width + width == (i + 1) * width) by (nonlinear_arith);
    assert((i + 1) * width <= rows * width) by (nonlinear_arith)
        requires
            i + 1 <= rows,
            0 <= width,
    ;
}

impl Table {
    /// Every table is well formed.
    #[verifier::type_invariant]
    pub open spec fn inv(self) -> bool {
        self@.wf()
    }

    /// Shapes `cells` into the table of a grid of edge `grid_side` with rows
    /// `width` wide. There is such a table exactly when the number of
    /// positions is a machine word and the number of cells is
    /// `grid_side * grid_side * width`.
    pub fn new(grid_side: usize, width: usize, cells: Vec<u16>) -> (made: Option<Table>)
        ensures
            made is Some <==> grid_side * grid_side <= usize::MAX && cells@.len() == cell_count(
                grid_side as nat,
                width as nat,
            ),
            made matches Some(t) ==> t@ == (TableView {
                rows: (grid_side * grid_side) as nat,
                width: width as nat,
                cells: cells@,
            }) && t@.wf(),
    {
        let rows = match grid_side.checked_mul(grid_side) {
            Some(rows) => rows,
            None => {
                return None;
            },
        };
        assert(cell_count(grid_side as nat, width as nat) == rows * width);
        let len = cells.len();
        let fits = match rows.checked_mul(width) {
            Some(count) => count == len,
            None => false,
        };
        if !fits {
            return None;
        }
        assert((grid_side as nat) * (grid_side as nat) == rows as nat);
        Some(Table { rows, width, cells })
    }

    /// The number of positions.
    pub fn rows(&self) -> (n: usize)
        ensures
            n == self@.rows,
    {
        self.rows
    }

    /// The number of values per position.
    pub fn width(&self) -> (n: usize)
        ensures
            n == self@.width,
    {
        self.width
    }

    /// All values, row after row.
    pub fn cells(&self) -> (cells: &[u16])
        ensures
            cells@ == self@.cells,
    {
        self.cells.as_slice()
    }

    /// The values of the position with flat index `i`.
    pub fn row(&self, i: usize) -> (row: &[u16])
        requires
            i < self@.rows,
        ensures
            row@ == self@.row(i as int),
            row@.len() == self@.width,
    {
        let cells = self.cells.as_slice();
        let len = cells.len();
        proof {
            use_type_invariant(self);
            lemma_row_in_bounds(self.rows as int, self.width as int, i as int);
            assert((i + 1) * self.width <= len);
        }
        let start = i * self.width;
        let end = start + self.width;
        vstd::slice::slice_subrange(cells, start, end)
    }
}

/// What a [`Bundle`] is: a table with its statistics, one single-precision
/// pattern per column for the mean of the column and one per row for the
/// Euclidean norm of the row. That the patterns are those means and norms is
/// the part of whoever made the bundle: the library combines no scalars.
pub struct BundleView {
    pub table: TableView,
    pub global_mean: Seq<u32>,
    pub row_norms: Seq<u32>,
}

impl BundleView {
    /// The table is well formed, there is one mean per column and one norm
    /// per row.
    pub open spec fn wf(self) -> bool {
        &&& self.table.wf()
        &&& self.global_mean.len() == self.table.width
        &&& self.row_norms.len() == self.table.rows
    }
}

/// The immutable data cached for one key: a table and its statistics.
#[derive(Debug, PartialEq, Eq)]
pub struct Bundle {
    table: Table,
    global_mean: Vec<u32>,
    row_norms: Vec<u32>,
}

impl View for Bundle {
    type V = BundleView;

    closed spec fn view(&self) -> BundleView {
        BundleView {
            table: self.table@,
            global_mean: self.global_mean@,
            row_norms: self.row_norms@,
        }
    }
}

impl Bundle {
    /// Every bundle is well formed.
    #[verifier::type_invariant]
    pub open spec fn inv(self) -> bool {
        self@.wf()
    }

    /// Joins a table with its statistics. There is such a bundle exactly when
    /// `global_mean` has one entry per column and `row_norms` one per row.
    pub fn new(table: Table, global_mean: Vec<u32>, row_norms: Vec<u32>) -> (made: Option<Bundle>)
        ensures
            made is Some <==> global_mean@.len() == table@.width && row_norms@.len()
                == table@.rows,
            made matches Some(b) ==> b@ == (BundleView {
                table: table@,
                global_mean: global_mean@,
                row_norms: row_norms@,
            }) && b@.wf(),
    {
        proof {
            use_type_invariant(&table);
        }
        if global_mean.len() != table.width() || row_norms.len() != table.rows() {
            return None;
        }
        Some(Bundle { table, global_mean, row_norms })
    }

    /// The table of values.
    pub fn table(&self) -> (table: &Table)
        ensures
            table@ == self@.table,
    {
        &self.table
    }

    /// The number of positions.
    pub fn rows(&self) -> (n: usize)
        ensures
            n == self@.table.rows,
    {
        self.table.rows()
    }

    /// The number of values per position.
    pub fn width(&self) -> (n: usize)
        ensures
            n == self@.table.width,
    {
        self.table.width()
    }

    /// The mean of every column.
    pub fn global_mean(&self) -> (mean: &[u32])
        ensures
            mean@ == self@.global_mean,
    {
        self.global_mean.as_slice()
    }

    /// The norm of every row.
    pub fn row_norms(&self) -> (norms: &[u32])
        ensures
            norms@ == self@.row_norms,
    {
        self.row_norms.as_slice()
    }

    /// The norm of the position with flat index `i`.
    pub fn row_norm(&self, i: usize) -> (norm: u32)
        requires
            i < self@.table.rows,
        ensures
            norm == self@.row_norms[i as int],
    {
        proof {
            use_type_invariant(self);
        }
        self.row_norms[i]
    }
}

} // verus!
