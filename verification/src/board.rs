//! The playing field: a rectangular grid of cells, each either empty or
//! holding the identifier of the piece that filled it.

use crate::geometry::{Point, NUM_TETROMINOS};
use vstd::prelude::*;

verus! {

/// The value of an unoccupied cell. An occupied cell holds its piece type
/// plus one.
pub const EMPTY: u8 = 0;

/// The mathematical content of a [`Board`]: `rows[y][x]` is the cell in
/// column `x` of row `y`, row 0 being the top.
#[verifier::ext_equal]
pub struct Grid {
    pub width: int,
    pub rows: Seq<Seq<u8>>,
}

/// A row with no empty cell.
pub open spec fn row_complete(row: Seq<u8>) -> bool {
    forall|x: int| 0 <= x < row.len() ==> row[x] != EMPTY
}

/// The rows that line clearing keeps.
pub open spec fn row_incomplete() -> spec_fn(Seq<u8>) -> bool {
    |row: Seq<u8>| !row_complete(row)
}

/// A row of `width` empty cells.
pub open spec fn empty_row(width: int) -> Seq<u8> {
    Seq::new(width as nat, |x: int| EMPTY)
}

/// `count` empty rows of `width` cells each.
pub open spec fn empty_rows(count: int, width: int) -> Seq<Seq<u8>> {
    Seq::new(count as nat, |y: int| empty_row(width))
}

/// The cells that count as occupied.
pub open spec fn cell_occupied() -> spec_fn(u8) -> bool {
    |cell: u8| cell != EMPTY
}

/// Number of occupied cells in a row.
pub open spec fn occupied_in_row(row: Seq<u8>) -> nat {
    row.filter(cell_occupied()).len()
}

/// Number of occupied cells in a sequence of rows.
pub open spec fn occupied_in_rows(rows: Seq<Seq<u8>>) -> nat
    decreases rows.len(),
{
    if rows.len() == 0 {
        0
    } else {
        occupied_in_rows(rows.drop_last()) + occupied_in_row(rows.last())
    }
}

impl Grid {
    /// Number of rows.
    pub open spec fn height(self) -> int {
        self.rows.len() as int
    }

    /// Every row has `width` cells, every cell is empty or a piece
    /// identifier, and both dimensions fit the machine.
    pub open spec fn wf(self) -> bool {
        &&& 0 <= self.width <= u32::MAX
        &&& self.rows.len() <= u32::MAX
        &&& forall|y: int| 0 <= y < self.rows.len() ==> (#[trigger] self.rows[y]).len() == self.width
        &&& forall|y: int, x: int|
            0 <= y < self.rows.len() && 0 <= x < self.width ==> #[trigger] self.rows[y][x]
                <= NUM_TETROMINOS
    }

    /// Both grids have the same number of columns and of rows.
    pub open spec fn same_size(self, other: Grid) -> bool {
        self.width == other.width && self.height() == other.height()
    }

    /// `p` names a cell of the grid.
    pub open spec fn contains(self, p: Point) -> bool {
        0 <= p.x < self.width && 0 <= p.y < self.height()
    }

    /// The value of cell `p`.
    pub open spec fn at(self, p: Point) -> u8
        recommends
            self.contains(p),
    {
        self.rows[p.y][p.x]
    }

    /// The grid with cell `p` overwritten by `value`.
    pub open spec fn set(self, p: Point, value: u8) -> Grid
        recommends
            self.contains(p),
    {
        Grid { width: self.width, rows: self.rows.update(p.y, self.rows[p.y].update(p.x, value)) }
    }

    /// The all-empty grid of the given dimensions.
    pub open spec fn empty(width: int, height: int) -> Grid {
        Grid { width, rows: empty_rows(height, width) }
    }

    /// No cell is occupied.
    pub open spec fn is_empty(self) -> bool {
        forall|p: Point| self.contains(p) ==> #[trigger] self.at(p) == EMPTY
    }

    /// Row `y` has no empty cell.
    pub open spec fn row_is_complete(self, y: int) -> bool
        recommends
            0 <= y < self.height(),
    {
        row_complete(self.rows[y])
    }

    /// The rows that have at least one empty cell, top to bottom.
    pub open spec fn remaining_rows(self) -> Seq<Seq<u8>> {
        self.rows.filter(row_incomplete())
    }

    /// Number of rows that have no empty cell.
    pub open spec fn complete_count(self) -> nat {
        (self.rows.len() - self.remaining_rows().len()) as nat
    }

    /// The grid after line clearing: complete rows are gone, the other rows
    /// have dropped to the bottom in their old order, and as many empty rows
    /// as were removed fill the top.
    pub open spec fn cleared(self) -> Grid {
        Grid {
            width: self.width,
            rows: empty_rows(self.complete_count() as int, self.width) + self.remaining_rows(),
        }
    }

    /// Total number of occupied cells.
    pub open spec fn occupied(self) -> nat {
        occupied_in_rows(self.rows)
    }

    /// `p` is one of the first `n` of the four cells in `cells`.
    pub open spec fn among(cells: Seq<Point>, n: int, p: Point) -> bool {
        ||| (n > 0 && cells[0] == p)
        ||| (n > 1 && cells[1] == p)
        ||| (n > 2 && cells[2] == p)
        ||| (n > 3 && cells[3] == p)
    }

    /// The grid with `value` written into the first `n` of the four cells in
    /// `cells`; every other cell keeps its value.
    pub open spec fn stamp_first(self, cells: Seq<Point>, n: int, value: u8) -> Grid {
        Grid {
            width: self.width,
            rows: Seq::new(
                self.rows.len(),
                |y: int|
                    Seq::new(
                        self.rows[y].len(),
                        |x: int|
                            if Self::among(cells, n, Point { x, y }) {
                                value
                            } else {
                                self.rows[y][x]
                            },
                    ),
            ),
        }
    }

    /// The grid with `value` written into all four cells in `cells`.
    pub open spec fn stamp(self, cells: Seq<Point>, value: u8) -> Grid {
        self.stamp_first(cells, 4, value)
    }
}

/// The playing field. Its dimensions are fixed at construction.
#[derive(Clone, Debug, PartialEq, Eq)]
pub struct Board {
    width: u32,
    cells: Vec<Vec<u8>>,
}

impl View for Board {
    type V = Grid;

    closed spec fn view(&self) -> Grid {
        Grid {
            width: self.width as int,
            rows: Seq::new(self.cells.len() as nat, |y: int| self.cells[y]@),
        }
    }
}

impl Board {
    /// Creates an all-empty board.
    pub fn new(width: u32, height: u32) -> (board: Board)
        ensures
            board@ == Grid::empty(width as int, height as int),
            board@.wf(),
    {
        let board = Board { width, cells: vec![vec![EMPTY; width as usize]; height as usize] };
        assert(board@.rows =~~= empty_rows(height as int, width as int));
        board
    }

    /// Number of columns.
    pub fn width(&self) -> (width: u32)
        ensures
            width == self@.width,
    {
        self.width
    }

    /// Number of rows.
    pub fn height(&self) -> (height: u32)
        requires
            self@.wf(),
        ensures
            height == self@.height(),
    {
        self.cells.len() as u32
    }

    /// Reads the cell in column `x` of row `y`.
    pub fn cell(&self, x: u32, y: u32) -> (value: u8)
        requires
            self@.wf(),
            self@.contains(Point { x: x as int, y: y as int }),
        ensures
            value == self@.at(Point { x: x as int, y: y as int }),
            value <= NUM_TETROMINOS,
    {
        assert(self@.rows[y as int] == self.cells[y as int]@);
        assert(self@.rows[y as int][x as int] <= NUM_TETROMINOS);
        self.cells[y as usize][x as usize]
    }

    /// Overwrites the cell in column `x` of row `y`, whatever it held.
    pub fn set_cell(&mut self, x: u32, y: u32, value: u8)
        requires
            old(self)@.wf(),
            old(self)@.contains(Point { x: x as int, y: y as int }),
            value <= NUM_TETROMINOS,
        ensures
            final(self)@ == old(self)@.set(Point { x: x as int, y: y as int }, value),
            final(self)@.wf(),
            final(self)@.same_size(old(self)@),
    {
        assert(self@.rows[y as int] == self.cells[y as int]@);
        self.cells[y as usize][x as usize] = value;
        assert(self@.rows =~~= old(self)@.set(Point { x: x as int, y: y as int }, value).rows);
    }

    /// Tells whether row `y` has no empty cell.
    pub fn is_row_complete(&self, y: u32) -> (complete: bool)
        requires
            self@.wf(),
            y < self@.height(),
        ensures
            complete == self@.row_is_complete(y as int),
    {
        assert(self@.rows[y as int] == self.cells[y as int]@);
        let mut has_hole = false;
        let mut x: u32 = 0;
        while x < self.width && !has_hole
            invariant
                x <= self.width,
                y < self.cells.len(),
                self.cells[y as int].len() == self.width,
                has_hole ==> !row_complete(self.cells[y as int]@),
                !has_hole ==> forall|j: int| 0 <= j < x ==> self.cells[y as int]@[j] != EMPTY,
            decreases self.width - x + if has_hole { 0int } else { 1int },
        {
            has_hole = self.cells[y as usize][x as usize] == EMPTY;
            x += 1;
        }
        !has_hole
    }

    /// Removes every complete row. Scanning from the bottom row upwards,
    /// each complete row is taken out, the rows above it drop by one, and an
    /// empty row enters at the top; the row that dropped into the scanned
    /// position is examined next. Returns the number of rows removed.
    pub fn clear_completed_rows(&mut self) -> (deleted: u32)
        requires
            old(self)@.wf(),
        ensures
            final(self)@ == old(self)@.cleared(),
            deleted == old(self)@.complete_count(),
            final(self)@.wf(),
            final(self)@.same_size(old(self)@),
            final(self)@.width > 0 ==> forall|y: int|
                0 <= y < final(self)@.height() ==> !final(self)@.row_is_complete(y),
            final(self)@.occupied() + deleted * final(self)@.width == old(self)@.occupied(),
    {
        let height = self.cells.len();
        let ghost before = self@;
        let mut deleted: usize = 0;
        let mut row: usize = height;
        proof {
            lemma_scan_start(before);
        }
        while row > deleted
            invariant
                before.wf(),
                before.height() == height,
                self@.width == before.width,
                self.cells.len() == height,
                deleted <= row <= height,
                scan_consistent(before, row - deleted, deleted as int),
                self@.rows == scan_state(before, row - deleted, deleted as int),
            decreases row - deleted,
        {
            proof {
                lemma_scan_state_wf(before, row - deleted, deleted as int);
            }
            let ghost current = self@;
            if self.is_row_complete((row - 1) as u32) {
                self.cells.remove(row - 1);
                self.cells.insert(0, vec![EMPTY; self.width as usize]);
                proof {
                    assert(self@.rows =~~= current.rows.remove(row - 1).insert(
                        0,
                        empty_row(before.width),
                    ));
                    lemma_scan_delete(before, row - deleted, deleted as int);
                }
                deleted += 1;
            } else {
                proof {
                    lemma_scan_keep(before, row - deleted, deleted as int);
                }
                row -= 1;
            }
        }
        proof {
            lemma_scan_end(before, deleted as int);
            lemma_cleared_wf(before);
            if before.width > 0 {
                lemma_cleared_has_no_complete_row(before);
            }
            lemma_cleared_occupied(before);
        }
        deleted as u32
    }
}

/// The rows of the board while line clearing is under way: the top
/// `unscanned` rows of `before` have not been examined yet, `deleted`
/// complete rows have been taken out from below them and replaced by empty
/// rows at the top, and the incomplete rows from below have settled at the
/// bottom.
spec fn scan_state(before: Grid, unscanned: int, deleted: int) -> Seq<Seq<u8>> {
    empty_rows(deleted, before.width) + before.rows.take(unscanned) + before.rows.skip(
        unscanned,
    ).filter(row_incomplete())
}

/// The scan is consistent when the rows taken out so far are exactly the
/// complete rows among the scanned ones.
spec fn scan_consistent(before: Grid, unscanned: int, deleted: int) -> bool {
    &&& 0 <= unscanned <= before.height()
    &&& 0 <= deleted
    &&& deleted + before.rows.skip(unscanned).filter(row_incomplete()).len() == before.height()
        - unscanned
}

/// Before the scan starts nothing is scanned, nothing is taken out, and the
/// board is as it was.
proof fn lemma_scan_start(before: Grid)
    ensures
        scan_consistent(before, before.height(), 0),
        scan_state(before, before.height(), 0) == before.rows,
{
    reveal(Seq::filter);
    assert(before.rows.skip(before.height()) =~= Seq::empty());
    assert(scan_state(before, before.height(), 0) =~= before.rows);
}

/// Once every row is scanned the board is the cleared board, and the rows
/// taken out are its complete rows.
proof fn lemma_scan_end(before: Grid, deleted: int)
    requires
        scan_consistent(before, 0, deleted),
    ensures
        deleted == before.complete_count(),
        scan_state(before, 0, deleted) == before.cleared().rows,
{
    assert(before.rows.skip(0) =~= before.rows);
    assert(scan_state(before, 0, deleted) =~= before.cleared().rows);
}

/// During the scan the board stays well formed, and the row under
/// examination is the lowest unscanned row of the board as it was.
proof fn lemma_scan_state_wf(before: Grid, unscanned: int, deleted: int)
    requires
        before.wf(),
        scan_consistent(before, unscanned, deleted),
    ensures
        (Grid { width: before.width, rows: scan_state(before, unscanned, deleted) }).wf(),
        scan_state(before, unscanned, deleted).len() == before.height(),
        unscanned > 0 ==> scan_state(before, unscanned, deleted)[deleted + unscanned - 1]
            == before.rows[unscanned - 1],
{
    let rows = scan_state(before, unscanned, deleted);
    let settled = before.rows.skip(unscanned).filter(row_incomplete());
    assert forall|y: int| 0 <= y < rows.len() implies (#[trigger] rows[y]).len() == before.width
        && (forall|x: int| 0 <= x < before.width ==> #[trigger] rows[y][x] <= NUM_TETROMINOS) by {
        if y < deleted {
            assert(rows[y] == empty_row(before.width));
        } else if y < deleted + unscanned {
            assert(rows[y] == before.rows[y - deleted]);
        } else {
            let row = settled[y - deleted - unscanned];
            assert(rows[y] == row);
            assert(settled.contains(row));
            before.rows.skip(unscanned).lemma_filter_contains_rev(row_incomplete(), row);
            let k = choose|k: int|
                0 <= k < before.rows.skip(unscanned).len() && before.rows.skip(unscanned)[k]
                    == row;
            assert(row == before.rows[unscanned + k]);
        }
    }
}

/// Scanning one more row adds it to the settled rows if and only if it is
/// incomplete.
proof fn lemma_scan_peel(before: Grid, unscanned: int)
    requires
        0 < unscanned <= before.height(),
    ensures
        before.rows.skip(unscanned - 1).filter(row_incomplete()) == (if row_complete(
            before.rows[unscanned - 1],
        ) {
            Seq::<Seq<u8>>::empty()
        } else {
            seq![before.rows[unscanned - 1]]
        }) + before.rows.skip(unscanned).filter(row_incomplete()),
{
    let line = before.rows[unscanned - 1];
    let below = before.rows.skip(unscanned);
    assert(before.rows.skip(unscanned - 1) =~= seq![line] + below);
    below.lemma_filter_prepend(line, row_incomplete());
}

/// Taking out a complete row under examination and letting an empty row in
/// at the top is one step of the scan.
proof fn lemma_scan_delete(before: Grid, unscanned: int, deleted: int)
    requires
        before.wf(),
        scan_consistent(before, unscanned, deleted),
        unscanned > 0,
        row_complete(before.rows[unscanned - 1]),
    ensures
        scan_consistent(before, unscanned - 1, deleted + 1),
        scan_state(before, unscanned, deleted).remove(deleted + unscanned - 1).insert(
            0,
            empty_row(before.width),
        ) == scan_state(before, unscanned - 1, deleted + 1),
{
    lemma_scan_peel(before, unscanned);
    let settled = before.rows.skip(unscanned).filter(row_incomplete());
    assert(Seq::<Seq<u8>>::empty() + settled =~= settled);
    assert(scan_state(before, unscanned, deleted).remove(deleted + unscanned - 1).insert(
        0,
        empty_row(before.width),
    ) =~= scan_state(before, unscanned - 1, deleted + 1));
}

/// Passing over an incomplete row under examination is one step of the
/// scan and leaves the board as it is.
proof fn lemma_scan_keep(before: Grid, unscanned: int, deleted: int)
    requires
        before.wf(),
        scan_consistent(before, unscanned, deleted),
        unscanned > 0,
        !row_complete(before.rows[unscanned - 1]),
    ensures
        scan_consistent(before, unscanned - 1, deleted),
        scan_state(before, unscanned, deleted) == scan_state(before, unscanned - 1, deleted),
{
    lemma_scan_peel(before, unscanned);
    assert(scan_state(before, unscanned, deleted) =~= scan_state(
        before,
        unscanned - 1,
        deleted,
    ));
}

/// An empty row holds no occupied cell.
proof fn lemma_empty_row_unoccupied(width: int)
    ensures
        occupied_in_row(empty_row(width)) == 0,
{
    empty_row(width).lemma_all_neg_filter_empty(cell_occupied());
}

/// A complete row holds as many occupied cells as it has cells.
proof fn lemma_complete_row_occupied(row: Seq<u8>)
    requires
        row_complete(row),
    ensures
        occupied_in_row(row) == row.len(),
{
    lemma_filter_keeps_all(row, cell_occupied());
}

/// A filter that every element passes keeps the whole sequence.
proof fn lemma_filter_keeps_all<A>(s: Seq<A>, pred: spec_fn(A) -> bool)
    requires
        forall|i: int| 0 <= i < s.len() ==> pred(#[trigger] s[i]),
    ensures
        s.filter(pred) == s,
    decreases s.len(),
{
    reveal(Seq::filter);
    if s.len() > 0 {
        lemma_filter_keeps_all(s.drop_last(), pred);
        assert(s.drop_last().push(s.last()) =~= s);
    }
}

/// Occupied cells add up over concatenated rows.
proof fn lemma_occupied_concat(a: Seq<Seq<u8>>, b: Seq<Seq<u8>>)
    ensures
        occupied_in_rows(a + b) == occupied_in_rows(a) + occupied_in_rows(b),
    decreases b.len(),
{
    if b.len() == 0 {
        assert(a + b =~= a);
    } else {
        assert((a + b).drop_last() =~= a + b.drop_last());
        assert((a + b).last() == b.last());
        lemma_occupied_concat(a, b.drop_last());
    }
}

/// Empty rows hold no occupied cell.
proof fn lemma_empty_rows_unoccupied(count: nat, width: int)
    ensures
        occupied_in_rows(empty_rows(count as int, width)) == 0,
    decreases count,
{
    if count > 0 {
        let rows = empty_rows(count as int, width);
        assert(rows.drop_last() =~= empty_rows(count - 1, width));
        assert(rows.last() == empty_row(width));
        lemma_empty_rows_unoccupied((count - 1) as nat, width);
        lemma_empty_row_unoccupied(width);
    }
}

/// The rows that clearing removes account for `width` occupied cells each.
proof fn lemma_remaining_occupied(rows: Seq<Seq<u8>>, width: int)
    requires
        forall|y: int| 0 <= y < rows.len() ==> (#[trigger] rows[y]).len() == width,
    ensures
        occupied_in_rows(rows.filter(row_incomplete())) + (rows.len() - rows.filter(
            row_incomplete(),
        ).len()) * width == occupied_in_rows(rows),
        rows.filter(row_incomplete()).len() <= rows.len(),
    decreases rows.len(),
{
    reveal(Seq::filter);
    let all = rows.filter(row_incomplete());
    if rows.len() == 0 {
        assert(all.len() == 0);
        assert((rows.len() - all.len()) * width == 0);
    } else {
        let front = rows.drop_last();
        let last = rows.last();
        let kept = front.filter(row_incomplete());
        lemma_remaining_occupied(front, width);
        assert(occupied_in_rows(rows) == occupied_in_rows(front) + occupied_in_row(last));
        let gone_before = front.len() - kept.len();
        if row_complete(last) {
            assert(all == kept);
            lemma_complete_row_occupied(last);
            assert(occupied_in_row(last) == width);
            assert(rows.len() - all.len() == gone_before + 1);
            assert((gone_before + 1) * width == gone_before * width + width)
                by (nonlinear_arith);
        } else {
            assert(row_incomplete()(last));
            assert(all == kept.push(last));
            assert(all.drop_last() =~= kept);
            assert(all.last() == last);
            assert(occupied_in_rows(all) == occupied_in_rows(kept) + occupied_in_row(last));
            assert(rows.len() - all.len() == gone_before);
        }
    }
}

/// After line clearing no complete row is left, on any board that has at
/// least one column.
pub proof fn lemma_cleared_has_no_complete_row(grid: Grid)
    requires
        grid.wf(),
        grid.width > 0,
    ensures
        forall|y: int| 0 <= y < grid.cleared().height() ==> !grid.cleared().row_is_complete(y),
        grid.cleared().complete_count() == 0,
{
    let after = grid.cleared();
    let gone = grid.complete_count() as int;
    broadcast use Seq::lemma_filter_pred;

    assert forall|y: int| 0 <= y < after.rows.len() implies row_incomplete()(
        #[trigger] after.rows[y],
    ) by {
        if y < gone {
            assert(after.rows[y] == empty_row(grid.width));
            assert(after.rows[y][0] == EMPTY);
        } else {
            assert(after.rows[y] == grid.remaining_rows()[y - gone]);
            assert(row_incomplete()(grid.remaining_rows()[y - gone]));
        }
    }
    lemma_filter_keeps_all(after.rows, row_incomplete());
}

/// Line clearing removes exactly `width` occupied cells per cleared row and
/// no others.
pub proof fn lemma_cleared_occupied(grid: Grid)
    requires
        grid.wf(),
    ensures
        grid.cleared().occupied() + grid.complete_count() * grid.width == grid.occupied(),
{
    lemma_remaining_occupied(grid.rows, grid.width);
    lemma_empty_rows_unoccupied(grid.complete_count(), grid.width);
    lemma_occupied_concat(
        empty_rows(grid.complete_count() as int, grid.width),
        grid.remaining_rows(),
    );
}

/// Line clearing keeps the board well formed and its dimensions unchanged.
pub proof fn lemma_cleared_wf(grid: Grid)
    requires
        grid.wf(),
    ensures
        grid.cleared().wf(),
        grid.cleared().same_size(grid),
        grid.complete_count() <= grid.height(),
{
    broadcast use Seq::lemma_filter_len;

    assert(grid.rows.skip(0) =~= grid.rows);
    assert(grid.rows.take(0) =~= Seq::empty());
    assert(scan_state(grid, 0, grid.complete_count() as int) =~= grid.cleared().rows);
    lemma_scan_state_wf(grid, 0, grid.complete_count() as int);
}

/// Writing into none of the cells leaves the grid as it is.
pub proof fn lemma_stamp_none(grid: Grid, cells: Seq<Point>, value: u8)
    ensures
        grid.stamp_first(cells, 0, value) == grid,
{
    assert(grid.stamp_first(cells, 0, value).rows =~~= grid.rows);
}

/// Writing into one more cell is overwriting that cell.
pub proof fn lemma_stamp_next(grid: Grid, cells: Seq<Point>, n: int, value: u8)
    requires
        grid.wf(),
        0 <= n < 4,
        grid.contains(cells[n]),
    ensures
        grid.stamp_first(cells, n, value).set(cells[n], value) == grid.stamp_first(
            cells,
            n + 1,
            value,
        ),
{
    assert(grid.stamp_first(cells, n, value).set(cells[n], value).rows =~~= grid.stamp_first(
        cells,
        n + 1,
        value,
    ).rows);
}

/// Writing a cell value into some cells keeps the grid well formed and its
/// dimensions unchanged.
pub proof fn lemma_stamp_wf(grid: Grid, cells: Seq<Point>, n: int, value: u8)
    requires
        grid.wf(),
        value <= NUM_TETROMINOS,
    ensures
        grid.stamp_first(cells, n, value).wf(),
        grid.stamp_first(cells, n, value).same_size(grid),
{
}

} // verus!
