use vstd::prelude::*;
use crate::error::EditorError;

verus! {

/// What a cell holds, as a value of specifications: the icon's name, or nothing.
pub type CellModel = Option<Seq<char>>;

/// The mathematical value of a grid: its dimensions and its cells in row-major order.
pub struct GridModel {
    pub rows: nat,
    pub cols: nat,
    pub cells: Seq<CellModel>,
}

impl GridModel {
    /// Both dimensions are positive and there is exactly one cell per coordinate.
    pub open spec fn wf(self) -> bool {
        &&& self.rows >= 1
        &&& self.cols >= 1
        &&& self.cells.len() == self.rows * self.cols
    }

    /// Whether the grid has a cell in column `x` of row `y`.
    pub open spec fn in_bounds(self, x: int, y: int) -> bool {
        0 <= x < self.cols && 0 <= y < self.rows
    }

    /// The cell in column `x` of row `y`.
    pub open spec fn cell(self, x: int, y: int) -> CellModel {
        self.cells[y * self.cols + x]
    }

    /// The cell in column `x` of row `y`, or nothing where the grid has no such cell.
    pub open spec fn cell_or_unset(self, x: int, y: int) -> CellModel {
        if self.in_bounds(x, y) {
            self.cell(x, y)
        } else {
            None
        }
    }

    /// The grid of the given dimensions in which no cell is set.
    pub open spec fn blank(rows: nat, cols: nat) -> GridModel {
        GridModel { rows, cols, cells: Seq::new(rows * cols, |i: int| None::<Seq<char>>) }
    }

    /// This grid with the cell in column `x` of row `y` replaced by `value`.
    pub open spec fn with_cell(self, x: int, y: int, value: CellModel) -> GridModel {
        GridModel { rows: self.rows, cols: self.cols, cells: self.cells.update(y * self.cols + x, value) }
    }

    /// This grid reshaped to `rows` by `cols`, anchored at the top left corner:
    /// a coordinate that both shapes have keeps its cell, a new one is unset.
    pub open spec fn resized(self, rows: nat, cols: nat) -> GridModel {
        GridModel {
            rows,
            cols,
            cells: Seq::new(
                rows * cols,
                |i: int| self.cell_or_unset(i % (cols as int), i / (cols as int)),
            ),
        }
    }
}

/// Row-major addressing: within a grid of `rows` by `cols` cells, the cell in
/// column `x` of row `y` has an index of its own below `rows * cols`, from
/// which division by `cols` gives the coordinate back.
pub proof fn lemma_row_major(x: int, y: int, rows: int, cols: int)
    requires
        0 <= x < cols,
        0 <= y < rows,
    ensures
        0 <= y * cols + x < rows * cols,
        (y * cols + x) / cols == y,
        (y * cols + x) % cols == x,
{
    assert(y * cols + cols <= rows * cols) by (nonlinear_arith)
        requires
            0 <= y < rows,
            0 < cols,
    ;
    assert(0 <= y * cols) by (nonlinear_arith)
        requires
            0 <= y,
            0 < cols,
    ;
    vstd::arithmetic::div_mod::lemma_fundamental_div_mod_converse(y * cols + x, cols, y, x);
}

/// Where both shapes have a coordinate, resizing keeps its cell; a coordinate
/// that only the new shape has starts unset.
pub proof fn lemma_resized_cell(g: GridModel, rows: nat, cols: nat, x: int, y: int)
    requires
        0 <= x < cols,
        0 <= y < rows,
    ensures
        g.resized(rows, cols).cell(x, y) == g.cell_or_unset(x, y),
{
    lemma_row_major(x, y, rows as int, cols as int);
}

/// In a blank grid every cell is unset.
pub proof fn law_blank_is_unset(rows: nat, cols: nat, x: int, y: int)
    requires
        0 <= x < cols,
        0 <= y < rows,
    ensures
        GridModel::blank(rows, cols).wf(),
        GridModel::blank(rows, cols).cell(x, y) == None::<Seq<char>>,
{
    lemma_row_major(x, y, rows as int, cols as int);
}

/// Overwriting a cell changes that cell and no other: afterwards the cell
/// holds the new value, and every other cell holds what it held before.
pub proof fn law_set_then_get(g: GridModel, x: int, y: int, value: CellModel, other_x: int, other_y: int)
    requires
        g.wf(),
        g.in_bounds(x, y),
        g.in_bounds(other_x, other_y),
    ensures
        g.with_cell(x, y, value).wf(),
        g.with_cell(x, y, value).cell(other_x, other_y) == if other_x == x && other_y == y {
            value
        } else {
            g.cell(other_x, other_y)
        },
{
    lemma_row_major(x, y, g.rows as int, g.cols as int);
    lemma_row_major(other_x, other_y, g.rows as int, g.cols as int);
}

/// Resizing preserves every cell whose coordinate lies within both the old
/// and the new dimensions.
pub proof fn law_resize_preserves(g: GridModel, rows: nat, cols: nat, x: int, y: int)
    requires
        g.wf(),
        rows >= 1,
        cols >= 1,
        g.in_bounds(x, y),
        0 <= x < cols,
        0 <= y < rows,
    ensures
        g.resized(rows, cols).cell(x, y) == g.cell(x, y),
{
    lemma_resized_cell(g, rows, cols, x, y);
}

/// After resizing, the grid is well formed and exactly the coordinates below
/// the new dimensions are in bounds.
pub proof fn law_resize_bounds(g: GridModel, rows: nat, cols: nat, x: int, y: int)
    requires
        rows >= 1,
        cols >= 1,
    ensures
        g.resized(rows, cols).wf(),
        g.resized(rows, cols).in_bounds(x, y) <==> (0 <= x < cols && 0 <= y < rows),
{
}

/// Resizing does not bring back what an earlier resize dropped: after a
/// detour through `mid_rows` by `mid_cols`, every cell outside that smaller
/// shape is unset, whatever it held before.
pub proof fn law_resize_discards(
    g: GridModel,
    mid_rows: nat,
    mid_cols: nat,
    rows: nat,
    cols: nat,
    x: int,
    y: int,
)
    requires
        mid_rows >= 1,
        mid_cols >= 1,
        0 <= x < cols,
        0 <= y < rows,
        !(0 <= x < mid_cols && 0 <= y < mid_rows),
    ensures
        g.resized(mid_rows, mid_cols).resized(rows, cols).cell(x, y) == None::<Seq<char>>,
{
    lemma_resized_cell(g.resized(mid_rows, mid_cols), rows, cols, x, y);
}

/// The coordinate `(x, y)` of the cell with the given row-major index in a
/// grid of the given size, rows first. Within the grid this is the inverse
/// of `y * cols + x`.
pub fn index_to_pos(index: usize, size: (usize, usize)) -> (pos: (usize, usize))
    requires
        size.1 > 0,
    ensures
        pos.0 == index % size.1,
        pos.1 == index / size.1,
        pos.1 * size.1 + pos.0 == index,
        pos.0 < size.1,
        index < size.0 * size.1 ==> pos.1 < size.0,
{
    let cols: usize = size.1;
    proof {
        vstd::arithmetic::div_mod::lemma_fundamental_div_mod(index as int, cols as int);
        let q = (index as int) / (cols as int);
        let r = (index as int) % (cols as int);
        assert(q * (cols as int) == (cols as int) * q) by (nonlinear_arith);
        if index < size.0 * size.1 && q >= size.0 {
            assert(q * (cols as int) >= size.0 * (cols as int)) by (nonlinear_arith)
                requires
                    q >= size.0,
                    cols > 0,
            ;
        }
    }
    (index % cols, index / cols)
}

/// The model of a borrowed cell.
pub open spec fn name_model(name: Option<&String>) -> CellModel {
    match name {
        Some(n) => Some(n@),
        None => None,
    }
}

/// The model of a stored cell.
pub open spec fn cell_model(cell: Option<String>) -> CellModel {
    match cell {
        Some(name) => Some(name@),
        None => None,
    }
}

/// A rectangular grid of cells, each holding the name of an icon or nothing.
#[derive(Debug, PartialEq, Eq)]
pub struct TileGrid {
    rows: usize,
    cols: usize,
    cells: Vec<Option<String>>,
}

impl View for TileGrid {
    type V = GridModel;

    closed spec fn view(&self) -> GridModel {
        GridModel {
            rows: self.rows as nat,
            cols: self.cols as nat,
            cells: self.cells@.map_values(|c: Option<String>| cell_model(c)),
        }
    }
}

impl TileGrid {
    /// Every grid is well formed (see [`GridModel::wf`]), and the number of
    /// its cells fits the machine.
    #[verifier::type_invariant]
    spec fn inv(&self) -> bool {
        self@.wf() && self.rows * self.cols <= usize::MAX
    }

    /// The grid's invariant, which every grid of this type meets.
    pub open spec fn wf(&self) -> bool {
        self@.wf()
    }

    /// Where the cell in column `x` of row `y` is stored.
    proof fn lemma_stored_at(&self, x: int, y: int)
        requires
            self.inv(),
            self@.in_bounds(x, y),
        ensures
            0 <= y * self.cols <= y * self.cols + x < self.cells@.len() <= usize::MAX,
            cell_model(self.cells@[y * self.cols + x]) == self@.cell(x, y),
    {
        lemma_row_major(x, y, self.rows as int, self.cols as int);
        assert(self.cells@.len() == self@.cells.len());
        assert(0 <= y * self.cols) by (nonlinear_arith)
            requires
                0 <= y,
                0 <= self.cols,
        ;
    }

    /// A grid of `rows` by `cols` cells, none of them set.
    pub fn new(rows: usize, cols: usize) -> (r: Result<TileGrid, EditorError>)
        requires
            rows * cols <= usize::MAX,
        ensures
            (rows == 0 || cols == 0) ==> r == Err::<TileGrid, EditorError>(EditorError::InvalidDimension),
            (rows >= 1 && cols >= 1) ==> r is Ok && r->Ok_0.wf() && r->Ok_0@ == GridModel::blank(
                rows as nat,
                cols as nat,
            ),
    {
        if rows == 0 || cols == 0 {
            return Err(EditorError::InvalidDimension);
        }
        let total: usize = rows * cols;
        let mut cells: Vec<Option<String>> = Vec::new();
        let mut i: usize = 0;
        while i < total
            invariant
                i <= total,
                cells@.len() == i,
                forall|k: int| 0 <= k < i ==> cells@[k] is None,
            decreases total - i,
        {
            cells.push(None);
            i += 1;
        }
        let grid = TileGrid { rows, cols, cells };
        assert(grid@.cells =~= GridModel::blank(rows as nat, cols as nat).cells);
        Ok(grid)
    }

    /// A grid made of its parts: `cells` holds the rows one after another.
    pub(crate) fn from_parts(rows: usize, cols: usize, cells: Vec<Option<String>>) -> (r: TileGrid)
        requires
            rows >= 1,
            cols >= 1,
            cells@.len() == rows * cols <= usize::MAX,
        ensures
            r.wf(),
            r@.rows == rows,
            r@.cols == cols,
            r@.cells == cells@.map_values(|c: Option<String>| cell_model(c)),
    {
        TileGrid { rows, cols, cells }
    }

    /// The stored cells, row after row.
    pub(crate) fn stored_cells(&self) -> (r: &Vec<Option<String>>)
        ensures
            self.wf(),
            r@.map_values(|c: Option<String>| cell_model(c)) == self@.cells,
    {
        proof {
            use_type_invariant(self);
        }
        &self.cells
    }

    /// The number of rows.
    pub fn rows(&self) -> (r: usize)
        ensures
            r == self@.rows,
            r >= 1,
    {
        proof {
            use_type_invariant(self);
        }
        self.rows
    }

    /// The number of columns.
    pub fn cols(&self) -> (r: usize)
        ensures
            r == self@.cols,
            r >= 1,
    {
        proof {
            use_type_invariant(self);
        }
        self.cols
    }

    /// The dimensions: rows first, then columns.
    pub fn size(&self) -> (r: (usize, usize))
        ensures
            self.wf(),
            r.0 == self@.rows,
            r.1 == self@.cols,
            r.0 * r.1 <= usize::MAX,
    {
        proof {
            use_type_invariant(self);
        }
        (self.rows, self.cols)
    }

    /// What the cell in column `x` of row `y` holds.
    pub fn get(&self, x: usize, y: usize) -> (r: Result<Option<&String>, EditorError>)
        ensures
            match r {
                Ok(name) => self@.in_bounds(x as int, y as int) && name_model(name) == self@.cell(
                    x as int,
                    y as int,
                ),
                Err(e) => !self@.in_bounds(x as int, y as int) && e == EditorError::OutOfBounds,
            },
    {
        proof {
            use_type_invariant(self);
        }
        if x >= self.cols || y >= self.rows {
            return Err(EditorError::OutOfBounds);
        }
        proof {
            self.lemma_stored_at(x as int, y as int);
        }
        let index: usize = y * self.cols + x;
        match &self.cells[index] {
            Some(name) => Ok(Some(name)),
            None => Ok(None),
        }
    }

    /// Overwrites the cell in column `x` of row `y`. Any name is accepted.
    pub fn set(&mut self, x: usize, y: usize, value: Option<String>) -> (r: Result<(), EditorError>)
        ensures
            final(self).wf(),
            match r {
                Ok(_) => old(self)@.in_bounds(x as int, y as int) && final(self)@ == old(self)@.with_cell(
                    x as int,
                    y as int,
                    cell_model(value),
                ),
                Err(e) => !old(self)@.in_bounds(x as int, y as int) && e == EditorError::OutOfBounds
                    && final(self)@ == old(self)@,
            },
    {
        proof {
            use_type_invariant(&*self);
        }
        if x >= self.cols || y >= self.rows {
            return Err(EditorError::OutOfBounds);
        }
        proof {
            self.lemma_stored_at(x as int, y as int);
        }
        let index: usize = y * self.cols + x;
        self.cells[index] = value;
        assert(self@.cells =~= old(self)@.with_cell(x as int, y as int, cell_model(value)).cells);
        Ok(())
    }

    /// Reshapes the grid to `rows` by `cols`, anchored at the top left corner.
    /// Cells that the new shape lacks are dropped for good.
    pub fn resize(&mut self, rows: usize, cols: usize) -> (r: Result<(), EditorError>)
        requires
            rows * cols <= usize::MAX,
        ensures
            final(self).wf(),
            match r {
                Ok(_) => rows >= 1 && cols >= 1 && final(self)@ == old(self)@.resized(
                    rows as nat,
                    cols as nat,
                ),
                Err(e) => (rows == 0 || cols == 0) && e == EditorError::InvalidDimension && final(self)@
                    == old(self)@,
            },
    {
        proof {
            use_type_invariant(&*self);
        }
        if rows == 0 || cols == 0 {
            return Err(EditorError::InvalidDimension);
        }
        let ghost target = self@.resized(rows as nat, cols as nat);
        let mut cells: Vec<Option<String>> = Vec::new();
        let mut y: usize = 0;
        while y < rows
            invariant
                self.inv(),
                cols >= 1,
                rows * cols <= usize::MAX,
                y <= rows,
                target == self@.resized(rows as nat, cols as nat),
                cells@.len() == y * cols,
                target.cells.len() == rows * cols,
                forall|k: int| 0 <= k < cells@.len() ==> cell_model(#[trigger] cells@[k]) == target.cells[k],
            decreases rows - y,
        {
            let mut x: usize = 0;
            while x < cols
                invariant
                    self.inv(),
                    cols >= 1,
                    rows * cols <= usize::MAX,
                    y < rows,
                    x <= cols,
                    target == self@.resized(rows as nat, cols as nat),
                    cells@.len() == y * cols + x,
                    target.cells.len() == rows * cols,
                    forall|k: int| 0 <= k < cells@.len() ==> cell_model(#[trigger] cells@[k]) == target.cells[k],
                decreases cols - x,
            {
                proof {
                    lemma_row_major(x as int, y as int, rows as int, cols as int);
                }
                let cell: Option<String> = if x < self.cols && y < self.rows {
                    proof {
                        self.lemma_stored_at(x as int, y as int);
                    }
                    match &self.cells[y * self.cols + x] {
                        Some(name) => Some(name.clone()),
                        None => None,
                    }
                } else {
                    None
                };
                assert(cell_model(cell) == target.cells[y * cols + x]);
                cells.push(cell);
                x += 1;
            }
            assert((y + 1) * cols == y * cols + cols) by (nonlinear_arith);
            y += 1;
        }
        assert(cells@.map_values(|c: Option<String>| cell_model(c)) =~= target.cells);
        *self = TileGrid { rows, cols, cells };
        Ok(())
    }
}

} // verus!
