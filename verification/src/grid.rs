use vstd::prelude::*;
use crate::fixed::ONE;
use crate::fixed::MAX_EXTENT;

verus! {

/// The kinds of cell a maze grid can hold.
#[derive(Clone, Copy, Debug, PartialEq, Eq, Structural)]
pub enum CellKind {
    Empty,
    WallA,
    Door,
    Goal,
    Collectible,
    SpawnMarker,
}

impl CellKind {
    /// Whether a cell of this kind is solid: a ray stops at it and nothing
    /// inside it can be seen.
    pub open spec fn wall_like(self) -> bool {
        self == CellKind::WallA || self == CellKind::Door || self == CellKind::Goal
    }

    pub fn is_wall_like(self) -> (r: bool)
        ensures
            r == self.wall_like(),
    {
        match self {
            CellKind::WallA | CellKind::Door | CellKind::Goal => true,
            _ => false,
        }
    }

    /// The kind that a character of a maze description stands for.
    pub open spec fn of_char(c: char) -> Option<CellKind> {
        if c == ' ' {
            Some(CellKind::Empty)
        } else if c == '+' || c == '-' || c == '|' {
            Some(CellKind::WallA)
        } else if c == 'd' {
            Some(CellKind::Door)
        } else if c == 'g' {
            Some(CellKind::Goal)
        } else if c == 'z' {
            Some(CellKind::Collectible)
        } else if c == 'p' {
            Some(CellKind::SpawnMarker)
        } else {
            None
        }
    }

    pub fn from_char(c: char) -> (r: Option<CellKind>)
        ensures
            r == Self::of_char(c),
    {
        if c == ' ' {
            Some(CellKind::Empty)
        } else if c == '+' || c == '-' || c == '|' {
            Some(CellKind::WallA)
        } else if c == 'd' {
            Some(CellKind::Door)
        } else if c == 'g' {
            Some(CellKind::Goal)
        } else if c == 'z' {
            Some(CellKind::Collectible)
        } else if c == 'p' {
            Some(CellKind::SpawnMarker)
        } else {
            None
        }
    }
}

/// Why a layout of cells is no grid.
#[derive(Clone, Copy, Debug, PartialEq, Eq, Structural)]
pub enum GridError {
    /// There is no row, or the first row has no cell.
    Empty,
    /// A row is not as long as the first.
    Ragged,
    /// The cell size is zero.
    ZeroCellSize,
    /// The grid is wider or taller than `MAX_EXTENT` world units.
    TooLarge,
    /// A character stands for no kind of cell.
    UnknownSymbol,
}

/// The lengths of the rows of a layout.
pub open spec fn shape_of(cells: Seq<Vec<CellKind>>) -> Seq<nat> {
    Seq::new(cells.len(), |r: int| cells[r]@.len())
}

/// The lengths of the rows of a maze description.
pub open spec fn text_shape(text: Seq<Vec<char>>) -> Seq<nat> {
    Seq::new(text.len(), |r: int| text[r]@.len())
}

/// Whether every row is as long as the first.
pub open spec fn rectangular(lengths: Seq<nat>) -> bool {
    forall|r: int| 0 <= r < lengths.len() ==> #[trigger] lengths[r] == lengths[0]
}

/// What is wrong with a layout whose rows have these lengths, if anything; of
/// several faults the first in the order of `GridError`.
pub open spec fn shape_fault(lengths: Seq<nat>, cell_size: int) -> Option<GridError> {
    if lengths.len() == 0 || lengths[0] == 0 {
        Some(GridError::Empty)
    } else if !rectangular(lengths) {
        Some(GridError::Ragged)
    } else if cell_size == 0 {
        Some(GridError::ZeroCellSize)
    } else if lengths[0] * cell_size > MAX_EXTENT || lengths.len() * cell_size > MAX_EXTENT {
        Some(GridError::TooLarge)
    } else {
        None
    }
}

/// What is wrong with a layout of cells, if anything.
pub open spec fn layout_fault(cells: Seq<Vec<CellKind>>, cell_size: int) -> Option<GridError> {
    shape_fault(shape_of(cells), cell_size)
}

/// What is wrong with a maze description, if anything: a character that
/// stands for no kind of cell, or else the fault of its layout.
pub open spec fn text_fault(text: Seq<Vec<char>>, cell_size: int) -> Option<GridError> {
    if !all_known(text) {
        Some(GridError::UnknownSymbol)
    } else {
        shape_fault(text_shape(text), cell_size)
    }
}

/// The kinds that the rows of characters `text` stand for, where every
/// character stands for one.
pub open spec fn kinds_of(text: Seq<Vec<char>>) -> Seq<Seq<CellKind>> {
    Seq::new(
        text.len(),
        |r: int| Seq::new(text[r]@.len(), |c: int| CellKind::of_char(text[r]@[c]).unwrap()),
    )
}

/// Whether every character of `text` stands for a kind of cell.
pub open spec fn all_known(text: Seq<Vec<char>>) -> bool {
    forall|r: int, c: int|
        0 <= r < text.len() && 0 <= c < text[r]@.len() ==> CellKind::of_char(
            #[trigger] text[r]@[c],
        ) is Some
}

/// A maze: a rectangle of square cells, each `cell_size` world units wide.
pub struct Grid {
    pub cells: Vec<Vec<CellKind>>,
    pub cell_size: usize,
}

impl View for Grid {
    type V = Seq<Seq<CellKind>>;

    /// The kinds of the cells, row by row.
    open spec fn view(&self) -> Seq<Seq<CellKind>> {
        Seq::new(self.cells@.len(), |r: int| self.cells@[r]@)
    }
}

impl Grid {
    pub open spec fn rows(&self) -> int {
        self.cells@.len() as int
    }

    pub open spec fn cols(&self) -> int {
        self.cells@[0]@.len() as int
    }

    /// A grid is well formed when it has a cell, all its rows are of one
    /// length, its cell size is positive and it is no larger than
    /// `MAX_EXTENT` world units either way.
    pub open spec fn wf(&self) -> bool {
        layout_fault(self.cells@, self.cell_size as int) is None
    }

    /// Whether `(row, col)` is a cell of the grid.
    pub open spec fn inside(&self, row: int, col: int) -> bool {
        0 <= row < self.rows() && 0 <= col < self.cols()
    }

    /// The kind of the cell `(row, col)`.
    pub open spec fn kind(&self, row: int, col: int) -> CellKind {
        self.cells@[row]@[col]
    }

    /// The width of a cell in fixed-point units.
    pub open spec fn span(&self) -> int {
        self.cell_size * ONE
    }

    /// The row or column that the fixed-point coordinate `v` falls in:
    /// `floor(v / cell_size)`.
    pub open spec fn index_of(&self, v: int) -> int {
        v / self.span()
    }

    /// The cell `(row, col)` that the world point `(x, y)` lies in, if it lies
    /// in the grid.
    pub open spec fn cell_of(&self, x: int, y: int) -> Option<(int, int)> {
        if self.inside(self.index_of(y), self.index_of(x)) {
            Some((self.index_of(y), self.index_of(x)))
        } else {
            None
        }
    }

    /// The kind of the cell that the world point `(x, y)` lies in, if it lies
    /// in the grid.
    pub open spec fn kind_at_point(&self, x: int, y: int) -> Option<CellKind> {
        match self.cell_of(x, y) {
            Some((row, col)) => Some(self.kind(row, col)),
            None => None,
        }
    }

    /// Whether the world point `(x, y)` lies in a solid cell.
    pub open spec fn solid_at(&self, x: int, y: int) -> bool {
        self.kind_at_point(x, y) matches Some(kind) && kind.wall_like()
    }

    /// Makes a grid of `cells`, or says what is wrong with them.
    pub fn new(cells: Vec<Vec<CellKind>>, cell_size: usize) -> (r: Result<Grid, GridError>)
        ensures
            match r {
                Ok(grid) => layout_fault(cells@, cell_size as int) is None && grid.cells == cells
                    && grid.cell_size == cell_size && grid.wf(),
                Err(e) => layout_fault(cells@, cell_size as int) == Some(e),
            },
    {
        match fault_of(&cells, cell_size) {
            Some(e) => Err(e),
            None => Ok(Grid { cells, cell_size }),
        }
    }

    /// Whether the grid is well formed.
    pub fn is_wf(&self) -> (r: bool)
        ensures
            r == self.wf(),
    {
        fault_of(&self.cells, self.cell_size).is_none()
    }

    pub fn num_rows(&self) -> (n: usize)
        ensures
            n == self.rows(),
    {
        self.cells.len()
    }

    pub fn num_cols(&self) -> (n: usize)
        requires
            self.wf(),
        ensures
            n == self.cols(),
    {
        assert(shape_of(self.cells@).len() > 0);
        self.cells[0].len()
    }

    /// The kind of the cell `(row, col)`, if the grid has such a cell.
    pub fn kind_at(&self, row: usize, col: usize) -> (r: Option<CellKind>)
        requires
            self.wf(),
        ensures
            r == (if self.inside(row as int, col as int) {
                Some(self.kind(row as int, col as int))
            } else {
                None
            }),
    {
        proof {
            if row < self.rows() {
                self.lemma_rows_alike(row as int);
            }
        }
        if row < self.cells.len() && col < self.cells[row].len() {
            Some(self.cells[row][col])
        } else {
            None
        }
    }

    /// The cell `(row, col)` that the world point `(x, y)` lies in, if it lies
    /// in the grid.
    pub fn locate(&self, x: i64, y: i64) -> (r: Option<(usize, usize)>)
        requires
            self.wf(),
        ensures
            match r {
                Some((row, col)) => self.cell_of(x as int, y as int) == Some(
                    (row as int, col as int),
                ),
                None => self.cell_of(x as int, y as int) is None,
            },
    {
        proof {
            self.lemma_extent();
            lemma_floor_div_sign(x as int, self.span());
            lemma_floor_div_sign(y as int, self.span());
        }
        if x < 0 || y < 0 {
            return None;
        }
        let span = (self.cell_size as u64) * (ONE as u64);
        let col = (x as u64) / span;
        let row = (y as u64) / span;
        if row < self.cells.len() as u64 && col < self.cells[0].len() as u64 {
            Some((row as usize, col as usize))
        } else {
            None
        }
    }

    /// The kind of the cell that the world point `(x, y)` lies in, if it lies
    /// in the grid.
    pub fn kind_at_world(&self, x: i64, y: i64) -> (r: Option<CellKind>)
        requires
            self.wf(),
        ensures
            r == self.kind_at_point(x as int, y as int),
    {
        match self.locate(x, y) {
            Some((row, col)) => self.kind_at(row, col),
            None => None,
        }
    }

    /// Empties the cell `(row, col)`, as when the collectible in it was taken.
    pub fn clear_cell(&mut self, row: usize, col: usize)
        requires
            old(self).wf(),
            old(self).inside(row as int, col as int),
        ensures
            final(self).wf(),
            final(self).cell_size == old(self).cell_size,
            final(self).rows() == old(self).rows(),
            final(self).cols() == old(self).cols(),
            forall|r: int, c: int|
                old(self).inside(r, c) ==> #[trigger] final(self).kind(r, c) == (if r == row && c
                    == col {
                    CellKind::Empty
                } else {
                    old(self).kind(r, c)
                }),
    {
        proof {
            self.lemma_rows_alike(row as int);
        }
        let ghost before = self.cells@;
        self.cells[row][col] = CellKind::Empty;
        proof {
            assert(shape_of(self.cells@) =~= shape_of(before));
        }
    }

    /// Every row of a well-formed grid is as long as the first.
    pub proof fn lemma_rows_alike(&self, row: int)
        requires
            self.wf(),
            0 <= row < self.rows(),
        ensures
            self.cells@[row]@.len() == self.cols(),
            self.rows() > 0,
            self.cols() > 0,
    {
        let lengths = shape_of(self.cells@);
        assert(lengths[row] == lengths[0]);
    }

    /// A well-formed grid is at most `MAX_EXTENT` world units wide and tall,
    /// and so is each of its cells.
    pub proof fn lemma_extent(&self)
        requires
            self.wf(),
        ensures
            0 < self.rows(),
            0 < self.cols(),
            0 < self.cell_size <= MAX_EXTENT,
            0 < self.span() <= MAX_EXTENT * ONE,
            self.cols() * self.span() <= MAX_EXTENT * ONE,
            self.rows() * self.span() <= MAX_EXTENT * ONE,
    {
        let lengths = shape_of(self.cells@);
        let cols = self.cols();
        let rows = self.rows();
        let size = self.cell_size as int;
        assert(lengths[0] == cols);
        assert(size <= cols * size) by (nonlinear_arith)
            requires
                cols >= 1,
                size >= 0,
        ;
        assert(cols * (size * ONE) == (cols * size) * ONE) by (nonlinear_arith);
        assert(rows * (size * ONE) == (rows * size) * ONE) by (nonlinear_arith);
    }

    /// A world point inside the grid has coordinates from zero up to the
    /// grid's extent.
    pub proof fn lemma_point_inside(&self, x: int, y: int)
        requires
            self.wf(),
            self.cell_of(x, y) is Some,
        ensures
            0 <= x < self.cols() * self.span() <= MAX_EXTENT * ONE,
            0 <= y < self.rows() * self.span() <= MAX_EXTENT * ONE,
    {
        self.lemma_extent();
        lemma_floor_div_bounds(x, self.span(), self.cols());
        lemma_floor_div_bounds(y, self.span(), self.rows());
    }

    /// Makes a grid of the rows of characters of a maze description.
    pub fn from_chars(text: &Vec<Vec<char>>, cell_size: usize) -> (r: Result<Grid, GridError>)
        ensures
            match r {
                Ok(grid) => text_fault(text@, cell_size as int) is None && grid@ == kinds_of(text@)
                    && grid.cell_size == cell_size && grid.wf(),
                Err(e) => text_fault(text@, cell_size as int) == Some(e),
            },
    {
        let mut cells: Vec<Vec<CellKind>> = Vec::new();
        let mut r: usize = 0;
        while r < text.len()
            invariant
                r <= text.len(),
                cells@.len() == r,
                forall|i: int|
                    0 <= i < r ==> (#[trigger] cells@[i])@.len() == text@[i]@.len(),
                forall|i: int, j: int|
                    0 <= i < r && 0 <= j < text@[i]@.len() ==> CellKind::of_char(
                        #[trigger] text@[i]@[j],
                    ) == Some(cells@[i]@[j]),
            decreases text.len() - r,
        {
            let line = &text[r];
            let mut row: Vec<CellKind> = Vec::new();
            let mut c: usize = 0;
            while c < line.len()
                invariant
                    c <= line.len(),
                    r < text.len(),
                    *line == text@[r as int],
                    row@.len() == c,
                    forall|j: int|
                        0 <= j < c ==> CellKind::of_char(#[trigger] line@[j]) == Some(row@[j]),
                decreases line.len() - c,
            {
                match CellKind::from_char(line[c]) {
                    Some(kind) => {
                        row.push(kind);
                    },
                    None => {
                        assert(CellKind::of_char(text@[r as int]@[c as int]) is None);
                        return Err(GridError::UnknownSymbol);
                    },
                }
                c = c + 1;
            }
            cells.push(row);
            r = r + 1;
        }
        assert(shape_of(cells@) =~= text_shape(text@));
        match Grid::new(cells, cell_size) {
            Ok(grid) => {
                assert(grid@ =~~= kinds_of(text@));
                Ok(grid)
            },
            Err(e) => {
                Err(e)
            },
        }
    }
}

/// Flooring division by a positive number keeps the sign.
pub proof fn lemma_floor_div_sign(v: int, d: int)
    requires
        d > 0,
    ensures
        v < 0 ==> v / d < 0,
        v >= 0 ==> v / d >= 0,
{
    vstd::arithmetic::div_mod::lemma_fundamental_div_mod(v, d);
    assert(v < 0 ==> v / d < 0) by (nonlinear_arith)
        requires
            d > 0,
            v == d * (v / d) + v % d,
            0 <= v % d < d,
    ;
    assert(v >= 0 ==> v / d >= 0) by (nonlinear_arith)
        requires
            d > 0,
            v == d * (v / d) + v % d,
            0 <= v % d < d,
    ;
}

/// `0 <= v / d < n` exactly when `0 <= v < n * d`, for positive `d`.
pub proof fn lemma_floor_div_bounds(v: int, d: int, n: int)
    requires
        d > 0,
    ensures
        (0 <= v / d < n) <==> (0 <= v < n * d),
{
    vstd::arithmetic::div_mod::lemma_fundamental_div_mod(v, d);
    let q = v / d;
    let r = v % d;
    assert((0 <= q < n) <==> (0 <= v < n * d)) by (nonlinear_arith)
        requires
            d > 0,
            v == d * q + r,
            0 <= r < d,
    ;
}

/// What is wrong with a layout of cells, if anything.
fn fault_of(cells: &Vec<Vec<CellKind>>, cell_size: usize) -> (r: Option<GridError>)
    ensures
        r == layout_fault(cells@, cell_size as int),
{
    if cells.len() == 0 || cells[0].len() == 0 {
        return Some(GridError::Empty);
    }
    let cols = cells[0].len();
    let mut r: usize = 1;
    while r < cells.len()
        invariant
            1 <= r <= cells.len(),
            cols == cells@[0]@.len(),
            forall|k: int| 0 <= k < r ==> (#[trigger] cells@[k])@.len() == cols,
            shape_of(cells@).len() == cells@.len(),
            shape_of(cells@)[0] == cols,
            cols > 0,
        decreases cells.len() - r,
    {
        if cells[r].len() != cols {
            assert(shape_of(cells@)[r as int] != shape_of(cells@)[0]);
            return Some(GridError::Ragged);
        }
        r = r + 1;
    }
    if cell_size == 0 {
        return Some(GridError::ZeroCellSize);
    }
    if !fits(cols, cell_size) || !fits(cells.len(), cell_size) {
        return Some(GridError::TooLarge);
    }
    None
}

/// Whether `count` cells of `cell_size` world units are no more than
/// `MAX_EXTENT`.
fn fits(count: usize, cell_size: usize) -> (r: bool)
    ensures
        r == (count * cell_size <= MAX_EXTENT),
{
    assert(count * cell_size <= 0xffff_ffff_ffff_ffff * 0xffff_ffff_ffff_ffff) by (nonlinear_arith)
        requires
            count <= 0xffff_ffff_ffff_ffff,
            cell_size <= 0xffff_ffff_ffff_ffff,
    ;
    (count as u128) * (cell_size as u128) <= MAX_EXTENT as u128
}

} // verus!
