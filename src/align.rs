//! Detection of K marks of one color in an unbroken line.
use vstd::prelude::*;
use crate::dot::{DotColor, DotStorage, Dot, in_bounds, cell_at};

verus! {

/// The four families of lines on the grid.
#[derive(Clone, Copy, Debug, PartialEq, Eq, Structural)]
pub enum Direction {
    /// `x` grows, `y` stays.
    Horizontal,
    /// `y` grows, `x` stays.
    Vertical,
    /// `x` and `y` both grow: `y - x` is constant.
    Diagonal,
    /// `x` grows while `y` shrinks: `x + y` is constant.
    AntiDiagonal,
}

/// The column of the cell `t` steps from `(x, _)` along `d`.
pub open spec fn step_x(d: Direction, x: int, t: int) -> int {
    match d {
        Direction::Vertical => x,
        _ => x + t,
    }
}

/// The row of the cell `t` steps from `(_, y)` along `d`.
pub open spec fn step_y(d: Direction, y: int, t: int) -> int {
    match d {
        Direction::Horizontal => y,
        Direction::AntiDiagonal => y - t,
        _ => y + t,
    }
}

/// Cell `(x, y)` is on the board and holds a mark of `color`.
pub open spec fn holds(n: nat, cells: Seq<Option<Dot>>, color: DotColor, x: int, y: int) -> bool {
    &&& in_bounds(n, x, y)
    &&& cell_at(n, cells, x, y) is Some
    &&& cell_at(n, cells, x, y)->0.color == color
}

/// The cell `i` steps from `(x0, y0)` along `d` holds a mark of `color`.
pub open spec fn holds_on(
    n: nat,
    cells: Seq<Option<Dot>>,
    color: DotColor,
    d: Direction,
    x0: int,
    y0: int,
    i: int,
) -> bool {
    holds(n, cells, color, step_x(d, x0, i), step_y(d, y0, i))
}

/// The `k` cells from step `s` on, along `d` from `(x0, y0)`, all hold
/// marks of `color`.
pub open spec fn run_on(
    n: nat,
    cells: Seq<Option<Dot>>,
    color: DotColor,
    d: Direction,
    x0: int,
    y0: int,
    s: int,
    k: int,
) -> bool {
    forall|t: int| 0 <= t < k ==> #[trigger] holds_on(n, cells, color, d, x0, y0, s + t)
}

/// Some `k` consecutive cells of some line, in any of the four
/// directions, all hold marks of `color`: the brute-force statement of a
/// win, checking every start and direction explicitly.
pub open spec fn has_line_spec(n: nat, cells: Seq<Option<Dot>>, color: DotColor, k: int) -> bool {
    exists|d: Direction, x: int, y: int| #[trigger] run_on(n, cells, color, d, x, y, 0, k)
}

/// A run in direction `d` exists.
pub open spec fn has_line_in(
    n: nat,
    cells: Seq<Option<Dot>>,
    color: DotColor,
    d: Direction,
    k: int,
) -> bool {
    exists|x: int, y: int| #[trigger] run_on(n, cells, color, d, x, y, 0, k)
}

/// A run that starts `s` steps along the line from `(x0, y0)` is the run
/// that starts at that cell.
proof fn lemma_shift(
    n: nat,
    cells: Seq<Option<Dot>>,
    color: DotColor,
    d: Direction,
    x0: int,
    y0: int,
    s: int,
    k: int,
)
    ensures
        run_on(n, cells, color, d, x0, y0, s, k) == run_on(
            n,
            cells,
            color,
            d,
            step_x(d, x0, s),
            step_y(d, y0, s),
            0,
            k,
        ),
{
    let x = step_x(d, x0, s);
    let y = step_y(d, y0, s);
    if run_on(n, cells, color, d, x0, y0, s, k) {
        assert forall|t: int| 0 <= t < k implies #[trigger] holds_on(
            n,
            cells,
            color,
            d,
            x,
            y,
            0 + t,
        ) by {
            assert(holds_on(n, cells, color, d, x0, y0, s + t));
        }
    }
    if run_on(n, cells, color, d, x, y, 0, k) {
        assert forall|t: int| 0 <= t < k implies #[trigger] holds_on(
            n,
            cells,
            color,
            d,
            x0,
            y0,
            s + t,
        ) by {
            assert(holds_on(n, cells, color, d, x, y, 0 + t));
        }
    }
}

/// Scans the `len` cells of the line from `(x0, y0)` along `d`, counting
/// consecutive marks of `color`; true as soon as `k` of them follow one
/// another.
fn scan_line(
    board: &DotStorage,
    color: DotColor,
    k: u32,
    d: Direction,
    x0: usize,
    y0: usize,
    len: usize,
) -> (r: bool)
    requires
        board.wf(),
        k >= 1,
        forall|i: int|
            0 <= i < len ==> in_bounds(
                board@.n,
                #[trigger] step_x(d, x0 as int, i),
                step_y(d, y0 as int, i),
            ),
    ensures
        r == exists|s: int|
            0 <= s && s + k <= len && #[trigger] run_on(
                board@.n,
                board@.cells,
                color,
                d,
                x0 as int,
                y0 as int,
                s,
                k as int,
            ),
{
    let ghost n = board@.n;
    let ghost cells = board@.cells;
    let mut count: u32 = 0;
    let mut i: usize = 0;
    while i < len
        invariant
            board.wf(),
            n == board@.n,
            cells == board@.cells,
            k >= 1,
            forall|j: int|
                0 <= j < len ==> in_bounds(n, #[trigger] step_x(d, x0 as int, j), step_y(d, y0 as int, j)),
            i <= len,
            count < k,
            count <= i,
            forall|t: int|
                i - count <= t < i ==> #[trigger] holds_on(n, cells, color, d, x0 as int, y0 as int, t),
            count < i ==> !holds_on(n, cells, color, d, x0 as int, y0 as int, i - count - 1),
            forall|s: int|
                0 <= s && s + k <= i ==> !#[trigger] run_on(
                    n,
                    cells,
                    color,
                    d,
                    x0 as int,
                    y0 as int,
                    s,
                    k as int,
                ),
        decreases len - i,
    {
        assert(in_bounds(n, step_x(d, x0 as int, i as int), step_y(d, y0 as int, i as int)));
        let (x, y): (usize, usize) = match d {
            Direction::Horizontal => (x0 + i, y0),
            Direction::Vertical => (x0, y0 + i),
            Direction::Diagonal => (x0 + i, y0 + i),
            Direction::AntiDiagonal => (x0 + i, y0 - i),
        };
        let hit = match board.get(x, y) {
            Some(dot) => dot.color == color,
            None => false,
        };
        assert(hit == holds_on(n, cells, color, d, x0 as int, y0 as int, i as int));
        let ghost old_count = count;
        if hit {
            count = count + 1;
        } else {
            count = 0;
        }
        if count == k {
            proof {
                let s = i + 1 - k;
                assert forall|t: int| 0 <= t < k implies #[trigger] holds_on(
                    n,
                    cells,
                    color,
                    d,
                    x0 as int,
                    y0 as int,
                    s + t,
                ) by {
                    if s + t < i {
                        assert(holds_on(n, cells, color, d, x0 as int, y0 as int, s + t));
                    }
                }
                assert(run_on(n, cells, color, d, x0 as int, y0 as int, s, k as int));
            }
            return true;
        }
        proof {
            assert forall|s: int| 0 <= s && s + k <= i + 1 implies !#[trigger] run_on(
                n,
                cells,
                color,
                d,
                x0 as int,
                y0 as int,
                s,
                k as int,
            ) by {
                if s + k == i + 1 {
                    if !hit {
                        assert(!holds_on(n, cells, color, d, x0 as int, y0 as int, s + (k - 1)));
                    } else {
                        let t = i - old_count - 1 - s;
                        assert(!holds_on(n, cells, color, d, x0 as int, y0 as int, s + t));
                    }
                }
            }
        }
        i = i + 1;
    }
    false
}


/// Both end cells of a run of `k >= 1` marks lie on the board.
proof fn lemma_run_ends(
    n: nat,
    cells: Seq<Option<Dot>>,
    color: DotColor,
    d: Direction,
    x: int,
    y: int,
    k: int,
)
    requires
        k >= 1,
        run_on(n, cells, color, d, x, y, 0, k),
    ensures
        in_bounds(n, x, y),
        in_bounds(n, step_x(d, x, k - 1), step_y(d, y, k - 1)),
{
    assert(holds_on(n, cells, color, d, x, y, 0int + 0int));
    assert(holds_on(n, cells, color, d, x, y, 0int + (k - 1)));
}

/// True iff some horizontal run of `k` marks of `color` exists: scans the
/// line of each row `y`.
fn check_rows(board: &DotStorage, color: DotColor, k: u32) -> (r: bool)
    requires
        board.wf(),
        k >= 1,
    ensures
        r == has_line_in(board@.n, board@.cells, color, Direction::Horizontal, k as int),
{
    let ghost n = board@.n;
    let ghost cells = board@.cells;
    let ghost d = Direction::Horizontal;
    let size = board.size();
    let mut y: usize = 0;
    while y < size
        invariant
            board.wf(),
            n == board@.n,
            cells == board@.cells,
            d == Direction::Horizontal,
            size == n,
            k >= 1,
            y <= size,
            forall|x: int, yy: int|
                0 <= yy < y ==> !#[trigger] run_on(n, cells, color, d, x, yy, 0, k as int),
        decreases size - y,
    {
        if scan_line(board, color, k, Direction::Horizontal, 0, y, size) {
            proof {
                let s = choose|s: int|
                    0 <= s && s + k <= size && #[trigger] run_on(
                        n,
                        cells,
                        color,
                        d,
                        0,
                        y as int,
                        s,
                        k as int,
                    );
                lemma_shift(n, cells, color, d, 0, y as int, s, k as int);
                assert(run_on(n, cells, color, d, s, y as int, 0, k as int));
            }
            return true;
        }
        proof {
            assert forall|x: int| !#[trigger] run_on(n, cells, color, d, x, y as int, 0, k as int) by {
                if run_on(n, cells, color, d, x, y as int, 0, k as int) {
                    lemma_run_ends(n, cells, color, d, x, y as int, k as int);
                    lemma_shift(n, cells, color, d, 0, y as int, x, k as int);
                }
            }
        }
        y = y + 1;
    }
    proof {
        assert forall|x: int, yy: int| !#[trigger] run_on(n, cells, color, d, x, yy, 0, k as int) by {
            if run_on(n, cells, color, d, x, yy, 0, k as int) {
                lemma_run_ends(n, cells, color, d, x, yy, k as int);
            }
        }
    }
    false
}


/// True iff some vertical run of `k` marks of `color` exists: scans the
/// line of each column `x`.
fn check_cols(board: &DotStorage, color: DotColor, k: u32) -> (r: bool)
    requires
        board.wf(),
        k >= 1,
    ensures
        r == has_line_in(board@.n, board@.cells, color, Direction::Vertical, k as int),
{
    let ghost n = board@.n;
    let ghost cells = board@.cells;
    let ghost d = Direction::Vertical;
    let size = board.size();
    let mut x: usize = 0;
    while x < size
        invariant
            board.wf(),
            n == board@.n,
            cells == board@.cells,
            d == Direction::Vertical,
            size == n,
            k >= 1,
            x <= size,
            forall|xx: int, y: int|
                0 <= xx < x ==> !#[trigger] run_on(n, cells, color, d, xx, y, 0, k as int),
        decreases size - x,
    {
        if scan_line(board, color, k, Direction::Vertical, x, 0, size) {
            proof {
                let s = choose|s: int|
                    0 <= s && s + k <= size && #[trigger] run_on(
                        n,
                        cells,
                        color,
                        d,
                        x as int,
                        0,
                        s,
                        k as int,
                    );
                lemma_shift(n, cells, color, d, x as int, 0, s, k as int);
                assert(run_on(n, cells, color, d, x as int, s, 0, k as int));
            }
            return true;
        }
        proof {
            assert forall|y: int| !#[trigger] run_on(n, cells, color, d, x as int, y, 0, k as int) by {
                if run_on(n, cells, color, d, x as int, y, 0, k as int) {
                    lemma_run_ends(n, cells, color, d, x as int, y, k as int);
                    lemma_shift(n, cells, color, d, x as int, 0, y, k as int);
                }
            }
        }
        x = x + 1;
    }
    proof {
        assert forall|xx: int, y: int| !#[trigger] run_on(n, cells, color, d, xx, y, 0, k as int) by {
            if run_on(n, cells, color, d, xx, y, 0, k as int) {
                lemma_run_ends(n, cells, color, d, xx, y, k as int);
            }
        }
    }
    false
}

/// True iff some diagonal run of `k` marks of `color` exists. Each
/// diagonal is the set of cells with one value of `y - x`: first those
/// starting on the column `x = 0` (`y - x >= 0`), then those starting on
/// the row `y = 0` (`y - x < 0`).
fn check_diags(board: &DotStorage, color: DotColor, k: u32) -> (r: bool)
    requires
        board.wf(),
        k >= 1,
    ensures
        r == has_line_in(board@.n, board@.cells, color, Direction::Diagonal, k as int),
{
    let ghost n = board@.n;
    let ghost cells = board@.cells;
    let ghost d = Direction::Diagonal;
    let size = board.size();
    let mut y0: usize = 0;
    while y0 < size
        invariant
            board.wf(),
            n == board@.n,
            cells == board@.cells,
            d == Direction::Diagonal,
            size == n,
            k >= 1,
            y0 <= size,
            forall|x: int, y: int|
                0 <= y - x < y0 ==> !#[trigger] run_on(n, cells, color, d, x, y, 0, k as int),
        decreases size - y0,
    {
        if scan_line(board, color, k, Direction::Diagonal, 0, y0, size - y0) {
            proof {
                let s = choose|s: int|
                    0 <= s && s + k <= size - y0 && #[trigger] run_on(
                        n,
                        cells,
                        color,
                        d,
                        0,
                        y0 as int,
                        s,
                        k as int,
                    );
                lemma_shift(n, cells, color, d, 0, y0 as int, s, k as int);
                assert(run_on(n, cells, color, d, s, y0 + s, 0, k as int));
            }
            return true;
        }
        proof {
            assert forall|x: int, y: int| y - x == y0 implies !#[trigger] run_on(
                n,
                cells,
                color,
                d,
                x,
                y,
                0,
                k as int,
            ) by {
                if run_on(n, cells, color, d, x, y, 0, k as int) {
                    lemma_run_ends(n, cells, color, d, x, y, k as int);
                    lemma_shift(n, cells, color, d, 0, y0 as int, x, k as int);
                }
            }
        }
        y0 = y0 + 1;
    }
    let mut x0: usize = 1;
    while x0 < size
        invariant
            board.wf(),
            n == board@.n,
            cells == board@.cells,
            d == Direction::Diagonal,
            size == n,
            k >= 1,
            1 <= x0,
            x0 <= size || size == 0,
            forall|x: int, y: int|
                0 <= y - x < size ==> !#[trigger] run_on(n, cells, color, d, x, y, 0, k as int),
            forall|x: int, y: int|
                1 <= x - y < x0 ==> !#[trigger] run_on(n, cells, color, d, x, y, 0, k as int),
        decreases size - x0,
    {
        if scan_line(board, color, k, Direction::Diagonal, x0, 0, size - x0) {
            proof {
                let s = choose|s: int|
                    0 <= s && s + k <= size - x0 && #[trigger] run_on(
                        n,
                        cells,
                        color,
                        d,
                        x0 as int,
                        0,
                        s,
                        k as int,
                    );
                lemma_shift(n, cells, color, d, x0 as int, 0, s, k as int);
                assert(run_on(n, cells, color, d, x0 + s, s, 0, k as int));
            }
            return true;
        }
        proof {
            assert forall|x: int, y: int| x - y == x0 implies !#[trigger] run_on(
                n,
                cells,
                color,
                d,
                x,
                y,
                0,
                k as int,
            ) by {
                if run_on(n, cells, color, d, x, y, 0, k as int) {
                    lemma_run_ends(n, cells, color, d, x, y, k as int);
                    lemma_shift(n, cells, color, d, x0 as int, 0, y, k as int);
                }
            }
        }
        x0 = x0 + 1;
    }
    proof {
        assert forall|x: int, y: int| !#[trigger] run_on(n, cells, color, d, x, y, 0, k as int) by {
            if run_on(n, cells, color, d, x, y, 0, k as int) {
                lemma_run_ends(n, cells, color, d, x, y, k as int);
            }
        }
    }
    false
}

/// True iff some anti-diagonal run of `k` marks of `color` exists. Each
/// anti-diagonal is the set of cells with one value of `x + y`: first
/// those starting on the column `x = 0` (`x + y < n`), then those
/// starting on the row `y = n - 1` (`x + y >= n`).
fn check_anti_diags(board: &DotStorage, color: DotColor, k: u32) -> (r: bool)
    requires
        board.wf(),
        k >= 1,
    ensures
        r == has_line_in(board@.n, board@.cells, color, Direction::AntiDiagonal, k as int),
{
    let ghost n = board@.n;
    let ghost cells = board@.cells;
    let ghost d = Direction::AntiDiagonal;
    let size = board.size();
    let mut y0: usize = 0;
    while y0 < size
        invariant
            board.wf(),
            n == board@.n,
            cells == board@.cells,
            d == Direction::AntiDiagonal,
            size == n,
            k >= 1,
            y0 <= size,
            forall|x: int, y: int|
                0 <= x + y < y0 ==> !#[trigger] run_on(n, cells, color, d, x, y, 0, k as int),
        decreases size - y0,
    {
        if scan_line(board, color, k, Direction::AntiDiagonal, 0, y0, y0 + 1) {
            proof {
                let s = choose|s: int|
                    0 <= s && s + k <= y0 + 1 && #[trigger] run_on(
                        n,
                        cells,
                        color,
                        d,
                        0,
                        y0 as int,
                        s,
                        k as int,
                    );
                lemma_shift(n, cells, color, d, 0, y0 as int, s, k as int);
                assert(run_on(n, cells, color, d, s, y0 - s, 0, k as int));
            }
            return true;
        }
        proof {
            assert forall|x: int, y: int| x + y == y0 implies !#[trigger] run_on(
                n,
                cells,
                color,
                d,
                x,
                y,
                0,
                k as int,
            ) by {
                if run_on(n, cells, color, d, x, y, 0, k as int) {
                    lemma_run_ends(n, cells, color, d, x, y, k as int);
                    lemma_shift(n, cells, color, d, 0, y0 as int, x, k as int);
                }
            }
        }
        y0 = y0 + 1;
    }
    let mut x0: usize = 1;
    while x0 < size
        invariant
            board.wf(),
            n == board@.n,
            cells == board@.cells,
            d == Direction::AntiDiagonal,
            size == n,
            k >= 1,
            1 <= x0,
            x0 <= size || size == 0,
            forall|x: int, y: int|
                0 <= x + y < size ==> !#[trigger] run_on(n, cells, color, d, x, y, 0, k as int),
            forall|x: int, y: int|
                size <= x + y < size - 1 + x0 ==> !#[trigger] run_on(
                    n,
                    cells,
                    color,
                    d,
                    x,
                    y,
                    0,
                    k as int,
                ),
        decreases size - x0,
    {
        if scan_line(board, color, k, Direction::AntiDiagonal, x0, size - 1, size - x0) {
            proof {
                let s = choose|s: int|
                    0 <= s && s + k <= size - x0 && #[trigger] run_on(
                        n,
                        cells,
                        color,
                        d,
                        x0 as int,
                        size - 1,
                        s,
                        k as int,
                    );
                lemma_shift(n, cells, color, d, x0 as int, size - 1, s, k as int);
                assert(run_on(n, cells, color, d, x0 + s, size - 1 - s, 0, k as int));
            }
            return true;
        }
        proof {
            assert forall|x: int, y: int| x + y == size - 1 + x0 implies !#[trigger] run_on(
                n,
                cells,
                color,
                d,
                x,
                y,
                0,
                k as int,
            ) by {
                if run_on(n, cells, color, d, x, y, 0, k as int) {
                    lemma_run_ends(n, cells, color, d, x, y, k as int);
                    lemma_shift(n, cells, color, d, x0 as int, size - 1, x - x0, k as int);
                }
            }
        }
        x0 = x0 + 1;
    }
    proof {
        assert forall|x: int, y: int| !#[trigger] run_on(n, cells, color, d, x, y, 0, k as int) by {
            if run_on(n, cells, color, d, x, y, 0, k as int) {
                lemma_run_ends(n, cells, color, d, x, y, k as int);
            }
        }
    }
    false
}

/// Whether `color` has `k` marks in an unbroken line, in any of the four
/// directions. Every run of `k` consecutive cells is looked at: the
/// result is exactly the brute-force statement `has_line_spec`.
pub fn has_line(board: &DotStorage, color: DotColor, k: u32) -> (r: bool)
    requires
        board.wf(),
    ensures
        r == has_line_spec(board@.n, board@.cells, color, k as int),
{
    let ghost n = board@.n;
    let ghost cells = board@.cells;
    if k == 0 {
        assert(run_on(n, cells, color, Direction::Horizontal, 0, 0, 0, 0));
        return true;
    }
    let r = check_rows(board, color, k) || check_cols(board, color, k) || check_diags(
        board,
        color,
        k,
    ) || check_anti_diags(board, color, k);
    proof {
        if !r {
            assert forall|d: Direction, x: int, y: int| !#[trigger] run_on(
                n,
                cells,
                color,
                d,
                x,
                y,
                0,
                k as int,
            ) by {
                if run_on(n, cells, color, d, x, y, 0, k as int) {
                    assert(has_line_in(n, cells, color, d, k as int));
                }
            }
        }
    }
    r
}

} // verus!
