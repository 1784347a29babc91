//! Marks, positions and the board that stores them.
use vstd::prelude::*;

verus! {

/// The mark of one of the two players.
#[derive(Clone, Copy, Debug, PartialEq, Eq, Structural)]
pub enum DotColor {
    RED,
    BLUE,
}

impl DotColor {
    /// The mark of the other player.
    pub open spec fn other_spec(self) -> DotColor {
        match self {
            DotColor::RED => DotColor::BLUE,
            DotColor::BLUE => DotColor::RED,
        }
    }

    /// The mark of the other player.
    pub fn other(&self) -> (r: DotColor)
        ensures
            r == self.other_spec(),
    {
        match self {
            DotColor::RED => DotColor::BLUE,
            DotColor::BLUE => DotColor::RED,
        }
    }
}

/// A cell of the grid: `x` and `y` both range over `0..n`.
#[derive(Clone, Copy, Debug, PartialEq, Eq, Structural)]
pub struct TilePos {
    pub x: u32,
    pub y: u32,
}

/// A mark placed on the grid.
#[derive(Clone, Copy, Debug, PartialEq, Eq, Structural)]
pub struct Dot {
    pub color: DotColor,
    pub pos: TilePos,
}

/// Why the board refused a placement.
#[derive(Clone, Copy, Debug, PartialEq, Eq, Structural)]
pub enum PlacementError {
    OutOfBounds,
    CellOccupied,
    BoardFull,
}

/// Whether `(x, y)` lies on an `n` by `n` grid.
pub open spec fn in_bounds(n: nat, x: int, y: int) -> bool {
    0 <= x < n && 0 <= y < n
}

/// Where cell `(x, y)` is kept in the flat, row-major storage.
pub open spec fn slot(n: nat, x: int, y: int) -> int {
    x * n + y
}

/// The number of occupied cells.
pub open spec fn count_filled(cells: Seq<Option<Dot>>) -> nat
    decreases cells.len(),
{
    if cells.len() == 0 {
        0
    } else {
        count_filled(cells.drop_last()) + if cells.last() is Some {
            1nat
        } else {
            0nat
        }
    }
}

/// The content of cell `(x, y)`.
pub open spec fn cell_at(n: nat, cells: Seq<Option<Dot>>, x: int, y: int) -> Option<Dot> {
    cells[slot(n, x, y)]
}

/// The cells of an `n` by `n` board: one per position, each mark stored
/// at the position it names.
pub open spec fn cells_wf(n: nat, cells: Seq<Option<Dot>>) -> bool {
    &&& cells.len() == n * n
    &&& forall|i: int|
        0 <= i < cells.len() && (#[trigger] cells[i]) is Some ==> slot(
            n,
            cells[i]->0.pos.x as int,
            cells[i]->0.pos.y as int,
        ) == i && in_bounds(n, cells[i]->0.pos.x as int, cells[i]->0.pos.y as int)
}

/// What placing a mark at `pos` does to a board with these cells.
pub open spec fn placement_outcome(n: nat, cells: Seq<Option<Dot>>, pos: TilePos) -> Result<
    (),
    PlacementError,
> {
    if !in_bounds(n, pos.x as int, pos.y as int) {
        Err(PlacementError::OutOfBounds)
    } else if cell_at(n, cells, pos.x as int, pos.y as int) is Some {
        Err(PlacementError::CellOccupied)
    } else {
        Ok(())
    }
}

/// The cells once `dot` is placed, where the placement is accepted.
pub open spec fn cells_after(n: nat, cells: Seq<Option<Dot>>, dot: Dot) -> Seq<Option<Dot>> {
    if placement_outcome(n, cells, dot.pos) is Ok {
        cells.update(slot(n, dot.pos.x as int, dot.pos.y as int), Some(dot))
    } else {
        cells
    }
}

/// A cell on the grid is stored inside the flat storage.
pub proof fn lemma_slot_in_bounds(n: nat, x: int, y: int)
    requires
        in_bounds(n, x, y),
    ensures
        0 <= slot(n, x, y) < n * n,
{
    assert(0 <= x * n + y < n * n) by (nonlinear_arith)
        requires
            0 <= x < n,
            0 <= y < n,
    ;
}

/// There are no more marks than cells; as many only when every cell is
/// marked.
pub proof fn lemma_count_filled_bound(cells: Seq<Option<Dot>>)
    ensures
        count_filled(cells) <= cells.len(),
        count_filled(cells) == cells.len() ==> forall|i: int|
            0 <= i < cells.len() ==> (#[trigger] cells[i]) is Some,
    decreases cells.len(),
{
    if cells.len() > 0 {
        lemma_count_filled_bound(cells.drop_last());
        assert forall|i: int| 0 <= i < cells.len() - 1 implies cells.drop_last()[i] == cells[i] by {}
    }
}

/// Cells that are all empty hold no mark.
pub proof fn lemma_count_filled_none(cells: Seq<Option<Dot>>)
    requires
        forall|i: int| 0 <= i < cells.len() ==> (#[trigger] cells[i]) is None,
    ensures
        count_filled(cells) == 0,
    decreases cells.len(),
{
    if cells.len() > 0 {
        lemma_count_filled_none(cells.drop_last());
    }
}

/// Marking an empty cell adds one to the count.
pub proof fn lemma_count_filled_update(cells: Seq<Option<Dot>>, i: int, d: Dot)
    requires
        0 <= i < cells.len(),
        cells[i] is None,
    ensures
        count_filled(cells.update(i, Some(d))) == count_filled(cells) + 1,
    decreases cells.len(),
{
    let u = cells.update(i, Some(d));
    if i == cells.len() - 1 {
        assert(u.drop_last() =~= cells.drop_last());
    } else {
        lemma_count_filled_update(cells.drop_last(), i, d);
        assert(u.drop_last() =~= cells.drop_last().update(i, Some(d)));
    }
}

/// What a board holds: its side, the count of marks placed and its cells.
pub struct BoardView {
    pub n: nat,
    pub dot_count: nat,
    pub cells: Seq<Option<Dot>>,
}

impl BoardView {
    /// The board's invariant: one cell per position, each mark at the
    /// position it names, and `dot_count` the number of marks.
    pub open spec fn wf(self) -> bool {
        &&& cells_wf(self.n, self.cells)
        &&& self.dot_count == count_filled(self.cells)
        &&& self.n * self.n <= u32::MAX
        &&& self.n < 0x10000
    }

    /// The content of cell `(x, y)`.
    pub open spec fn cell(self, x: int, y: int) -> Option<Dot> {
        cell_at(self.n, self.cells, x, y)
    }
}

/// An `n` by `n` grid of optional marks, with the count of marks placed.
/// Marks are only ever added: nothing clears or overwrites a cell.
#[derive(Clone)]
pub struct DotStorage {
    pub dot_count: u32,
    pub n: usize,
    matrix: Vec<Option<Dot>>,
}

impl View for DotStorage {
    type V = BoardView;

    closed spec fn view(&self) -> BoardView {
        BoardView { n: self.n as nat, dot_count: self.dot_count as nat, cells: self.matrix@ }
    }
}

impl DotStorage {
    pub open spec fn wf(&self) -> bool {
        self@.wf()
    }

    /// The side of the grid.
    pub fn size(&self) -> (r: usize)
        ensures
            r == self@.n,
    {
        self.n
    }

    /// The number of marks placed.
    pub fn filled(&self) -> (r: u32)
        ensures
            r == self@.dot_count,
    {
        self.dot_count
    }

    /// An empty `map_size` by `map_size` board.
    pub fn empty(map_size: usize) -> (r: DotStorage)
        requires
            map_size * map_size <= u32::MAX,
        ensures
            r.wf(),
            r@.n == map_size,
            r@.dot_count == 0,
            r@.cells == Seq::new((map_size * map_size) as nat, |i: int| None::<Dot>),
    {
        assert(map_size < 0x10000) by (nonlinear_arith)
            requires
                map_size * map_size <= u32::MAX,
        ;
        let total: usize = map_size * map_size;
        let mut matrix: Vec<Option<Dot>> = Vec::new();
        let mut i: usize = 0;
        while i < total
            invariant
                i <= total,
                matrix@ == Seq::new(i as nat, |j: int| None::<Dot>),
            decreases total - i,
        {
            matrix.push(None);
            i = i + 1;
        }
        let r = DotStorage { dot_count: 0, matrix, n: map_size };
        proof {
            let s = r@.cells;
            assert(count_filled(s) == 0) by {
                lemma_count_filled_none(s);
            }
        }
        r
    }

    /// A detached copy of the board.
    pub fn snapshot(&self) -> (r: DotStorage)
        requires
            self.wf(),
        ensures
            r@ == self@,
    {
        let mut matrix: Vec<Option<Dot>> = Vec::new();
        let mut i: usize = 0;
        while i < self.matrix.len()
            invariant
                i <= self.matrix@.len(),
                matrix@ == self.matrix@.subrange(0, i as int),
            decreases self.matrix@.len() - i,
        {
            matrix.push(self.matrix[i]);
            i = i + 1;
            assert(matrix@ =~= self.matrix@.subrange(0, i as int));
        }
        assert(matrix@ =~= self.matrix@);
        DotStorage { dot_count: self.dot_count, n: self.n, matrix }
    }

    /// The content of cell `(x, y)`.
    pub fn get(&self, x: usize, y: usize) -> (r: &Option<Dot>)
        requires
            self.wf(),
            x < self@.n,
            y < self@.n,
        ensures
            *r == self@.cell(x as int, y as int),
    {
        proof {
            lemma_slot_in_bounds(self.n as nat, x as int, y as int);
        }
        &self.matrix[x * self.n + y]
    }

    /// The content of the cell at `pos`.
    pub fn peek(&self, pos: &TilePos) -> (r: &Option<Dot>)
        requires
            self.wf(),
            in_bounds(self@.n, pos.x as int, pos.y as int),
        ensures
            *r == self@.cell(pos.x as int, pos.y as int),
    {
        self.get(pos.x as usize, pos.y as usize)
    }

    /// Places `dot` at the position it names. Fails with `OutOfBounds`
    /// off the grid and with `CellOccupied` on a marked cell; on success
    /// the cell holds `dot`, the count grows by one and nothing else
    /// changes. The board is left as it was on failure.
    pub fn push(&mut self, dot: Dot) -> (r: Result<(), PlacementError>)
        requires
            old(self).wf(),
        ensures
            final(self).wf(),
            final(self)@.n == old(self)@.n,
            r == placement_outcome(old(self)@.n, old(self)@.cells, dot.pos),
            final(self)@.cells == cells_after(old(self)@.n, old(self)@.cells, dot),
            r is Ok ==> final(self)@.dot_count == old(self)@.dot_count + 1,
            r is Err ==> final(self)@.dot_count == old(self)@.dot_count,
    {
        let (x, y) = (dot.pos.x as usize, dot.pos.y as usize);
        if x >= self.n || y >= self.n {
            return Err(PlacementError::OutOfBounds);
        }
        proof {
            lemma_slot_in_bounds(self.n as nat, x as int, y as int);
        }
        let idx: usize = x * self.n + y;
        if self.matrix[idx].is_some() {
            return Err(PlacementError::CellOccupied);
        }
        proof {
            lemma_count_filled_bound(self@.cells);
        }
        if self.dot_count as usize >= self.matrix.len() {
            return Err(PlacementError::BoardFull);
        }
        proof {
            lemma_count_filled_update(self@.cells, idx as int, dot);
        }
        self.matrix.set(idx, Some(dot));
        self.dot_count = self.dot_count + 1;
        Ok(())
    }
}

} // verus!
