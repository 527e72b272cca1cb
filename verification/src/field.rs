use vstd::prelude::*;

use crate::fill::{player_index, Fill};

verus! {

/// How many equal pieces in a line win the round.
pub const WIN_COUNT: usize = 4;

/// A board of `width` columns and `height` rows.
///
/// The model of a board, `self@`, is the sequence of its columns from left to
/// right; each column is the sequence of its cells from the lowest row up, so
/// `self@[x][y]` is the cell in column `x` and row `y`.
pub struct Field {
    pub height: usize,
    pub width: usize,
    /// One slot for every cell, column after column: the cell `(x, y)` has
    /// the slot `x * height + y`.
    pub state: Vec<Fill>,
}

/// The model of a board of the given size on which no piece lies.
pub open spec fn empty_grid(width: nat, height: nat) -> Seq<Seq<Fill>> {
    Seq::new(width, |x: int| Seq::new(height, |y: int| Fill::Empty))
}

/// Whether the scan for a winner visits `(x1, y1)` before `(x2, y2)`: it goes
/// through the rows from the lowest up, and through each row from left to right.
pub open spec fn scans_before(x1: int, y1: int, x2: int, y2: int) -> bool {
    y1 < y2 || (y1 == y2 && x1 < x2)
}

impl View for Field {
    type V = Seq<Seq<Fill>>;

    closed spec fn view(&self) -> Seq<Seq<Fill>> {
        Seq::new(
            self.width as nat,
            |x: int| Seq::new(self.height as nat, |y: int| self.state@[x * self.height + y]),
        )
    }
}

/// The model: what the board holds, where a piece comes to rest, who has won.
impl Field {
    /// The number of slots that the board has allocated.
    pub closed spec fn slots(&self) -> nat {
        self.state@.len()
    }

    /// The board is well formed: its model has `width` columns of `height`
    /// cells each, and one slot is allocated for every cell.
    pub open spec fn wf(&self) -> bool {
        &&& self@.len() == self.width
        &&& forall|x: int| 0 <= x < self.width ==> (#[trigger] self@[x]).len() == self.height
        &&& self.slots() == self.width * self.height
    }

    /// Whether `(x, y)` names a cell of the board.
    pub open spec fn in_bounds(&self, x: int, y: int) -> bool {
        0 <= x < self.width && 0 <= y < self.height
    }

    /// What a read at `(x, y)` yields: the cell's fill, or `OutOfBounds`
    /// where the board has no such cell.
    pub open spec fn fill_at(&self, x: int, y: int) -> Fill {
        if self.in_bounds(x, y) {
            self@[x][y]
        } else {
            Fill::OutOfBounds
        }
    }

    /// Whether a piece dropped into column `x` comes to rest in row `y`:
    /// the cell is `Empty` and no cell below it in the column is.
    pub open spec fn is_drop_row(&self, x: int, y: int) -> bool {
        &&& self.fill_at(x, y) == Fill::Empty
        &&& forall|k: int| 0 <= k < y ==> self.fill_at(x, k) != Fill::Empty
    }

    /// Whether column `x` takes no further piece: none of its cells is
    /// `Empty`. This holds of every column that the board does not have.
    pub open spec fn column_full(&self, x: int) -> bool {
        forall|y: int| self.fill_at(x, y) != Fill::Empty
    }

    /// The row in which a piece dropped into column `x` comes to rest, or
    /// `-1` where the column takes none.
    pub open spec fn drop_row(&self, x: int) -> int {
        if self.column_full(x) {
            -1
        } else {
            choose|y: int| self.is_drop_row(x, y)
        }
    }

    /// Whether the three reads that follow `(x, y)` in the direction
    /// `(dx, dy)` all yield `fill`.
    pub open spec fn run_at(&self, fill: Fill, x: int, y: int, dx: int, dy: int) -> bool {
        &&& self.fill_at(x + dx, y + dy) == fill
        &&& self.fill_at(x + 2 * dx, y + 2 * dy) == fill
        &&& self.fill_at(x + 3 * dx, y + 3 * dy) == fill
    }

    /// Whether a winning line starts at `(x, y)` and runs in the direction
    /// `(dx, dy)`: the cell holds a player's piece, and the next three cells
    /// in that direction hold pieces of the same player.
    pub open spec fn line_at(&self, x: int, y: int, dx: int, dy: int) -> bool {
        &&& self.fill_at(x, y).is_player()
        &&& self.run_at(self.fill_at(x, y), x, y, dx, dy)
    }

    /// Whether a winning line starts at `(x, y)`: to the right, upward,
    /// diagonally up to the right or diagonally down to the right.
    pub open spec fn wins_at(&self, x: int, y: int) -> bool {
        ||| self.line_at(x, y, 1, 0)
        ||| self.line_at(x, y, 0, 1)
        ||| self.line_at(x, y, 1, 1)
        ||| self.line_at(x, y, 1, -1)
    }

    /// The player whose winning line starts at `(x, y)`, or `Empty` where
    /// none starts there.
    pub open spec fn winner_at(&self, x: int, y: int) -> Fill {
        if self.wins_at(x, y) {
            self.fill_at(x, y)
        } else {
            Fill::Empty
        }
    }

    /// Whether a winning line starts at `(x, y)` and at no cell that the scan
    /// visits before it.
    pub open spec fn is_first_win(&self, x: int, y: int) -> bool {
        &&& self.wins_at(x, y)
        &&& forall|i: int, j: int| scans_before(i, j, x, y) ==> !#[trigger] self.wins_at(i, j)
    }

    /// The winner of the round: the number of the player whose winning line
    /// the scan meets first, or `-1` where the board holds no winning line.
    pub open spec fn winner(&self) -> int {
        if exists|x: int, y: int| self.is_first_win(x, y) {
            let (x, y) = choose|x: int, y: int| self.is_first_win(x, y);
            player_index(self.fill_at(x, y))
        } else {
            -1
        }
    }
}

/// The operations on a board.
impl Field {
    /// A board of the given size with every cell `Empty`.
    pub fn new(height: usize, width: usize) -> (field: Field)
        requires
            height * width <= usize::MAX,
        ensures
            field.wf(),
            field.height == height,
            field.width == width,
            field@ == empty_grid(width as nat, height as nat),
    {
        let field = Field { height, width, state: vec![Fill::Empty; height * width] };
        proof {
            assert(height * width == width * height) by (nonlinear_arith);
            assert forall|x: int, y: int| 0 <= x < width && 0 <= y < height implies (
            #[trigger] field@[x][y]) == Fill::Empty by {
                lemma_slot_in_range(x, y, width as int, height as int);
            }
            assert(field@ =~~= empty_grid(width as nat, height as nat));
        }
        field
    }

    /// The fill at `(x, y)`, or `OutOfBounds` for a coordinate outside the board.
    pub fn get_fill(&self, x: usize, y: usize) -> (fill: Fill)
        requires
            self.wf(),
        ensures
            fill == self.fill_at(x as int, y as int),
            x >= self.width || y >= self.height ==> fill == Fill::OutOfBounds,
    {
        if self.is_out_of_bounds(x, y) {
            return Fill::OutOfBounds;
        }
        self.state[self.translate_to_index(x, y)]
    }

    /// Drops a piece into column `x`: stores `fill` in the lowest `Empty` cell
    /// of the column and returns its row. Where the board has no such column,
    /// or the column has no `Empty` cell, returns `-1` and changes nothing.
    ///
    /// Any `fill` is stored as given.
    pub fn insert(&mut self, x: usize, fill: Fill) -> (row: i32)
        requires
            old(self).wf(),
            old(self).height <= i32::MAX,
        ensures
            final(self).wf(),
            final(self).height == old(self).height,
            final(self).width == old(self).width,
            row == old(self).drop_row(x as int),
            row == -1 ==> *final(self) == *old(self),
            row != -1 ==> final(self)@ == old(self)@.update(
                x as int,
                old(self)@[x as int].update(row as int, fill),
            ),
            row != -1 ==> final(self).fill_at(x as int, row as int) == fill,
            row != -1 ==> forall|i: int, j: int|
                i != x || j != row ==> final(self).fill_at(i, j) == old(self).fill_at(i, j),
            // The row is that of the lowest `Empty` cell of the column.
            row == -1 <==> old(self).column_full(x as int),
            row != -1 ==> old(self).is_drop_row(x as int, row as int),
            x >= old(self).width ==> row == -1,
            // The cell below the one that takes the piece is taken, and so is
            // the highest cell of a column that takes none.
            row > 0 ==> old(self).fill_at(x as int, row - 1) != Fill::Empty,
            row == -1 ==> old(self).fill_at(x as int, old(self).height - 1) != Fill::Empty,
    {
        let height = self.height;
        for y in 0..height
            invariant
                *self == *old(self),
                self.wf(),
                height == self.height <= i32::MAX,
                forall|k: int| 0 <= k < y ==> self.fill_at(x as int, k) != Fill::Empty,
        {
            if self.get_fill(x, y) == Fill::Empty {
                proof {
                    self.lemma_drop_row(x as int, y as int);
                }
                self.set_fill(x, y, fill);
                return y as i32;
            }
        }
        -1
    }

    /// Stores `fill` in the cell `(x, y)`; does nothing where the board has
    /// no such cell.
    fn set_fill(&mut self, x: usize, y: usize, fill: Fill)
        requires
            old(self).wf(),
        ensures
            final(self).wf(),
            final(self).height == old(self).height,
            final(self).width == old(self).width,
            !old(self).in_bounds(x as int, y as int) ==> *final(self) == *old(self),
            old(self).in_bounds(x as int, y as int) ==> final(self)@ == old(self)@.update(
                x as int,
                old(self)@[x as int].update(y as int, fill),
            ),
    {
        if self.is_out_of_bounds(x, y) {
            return;
        }
        let index = self.translate_to_index(x, y);
        self.state[index] = fill;
        proof {
            let height = self.height as int;
            assert forall|i: int, j: int| 0 <= i < self.width && 0 <= j < height implies (
            #[trigger] self@[i][j]) == (if i == x && j == y {
                fill
            } else {
                old(self)@[i][j]
            }) by {
                lemma_slot_in_range(i, j, self.width as int, height);
                if i * height + j == x * height + y {
                    lemma_slot_unique(i, j, x as int, y as int, height);
                }
                assert(self.state@[i * height + j] == old(self).state@.update(
                    index as int,
                    fill,
                )[i * height + j]);
            }
            assert(self@ =~~= old(self)@.update(
                x as int,
                old(self)@[x as int].update(y as int, fill),
            ));
        }
    }

    fn is_out_of_bounds(&self, x: usize, y: usize) -> (out: bool)
        ensures
            out == !self.in_bounds(x as int, y as int),
    {
        x >= self.width || y >= self.height
    }

    fn translate_to_index(&self, x: usize, y: usize) -> (index: usize)
        requires
            self.wf(),
            self.in_bounds(x as int, y as int),
        ensures
            index == x * self.height + y,
            index < self.state@.len(),
            self.state@[index as int] == self@[x as int][y as int],
    {
        proof {
            lemma_slot_in_range(x as int, y as int, self.width as int, self.height as int);
            assert(self.state.len() == self.width * self.height);
        }
        x * self.height + y
    }

    /// Clears the board: every cell is `Empty` again, the size stays, and
    /// nobody has won.
    pub fn reset(&mut self)
        requires
            old(self).wf(),
        ensures
            final(self).wf(),
            final(self).height == old(self).height,
            final(self).width == old(self).width,
            final(self)@ == empty_grid(old(self).width as nat, old(self).height as nat),
            forall|x: int, y: int|
                final(self).in_bounds(x, y) ==> final(self).fill_at(x, y) == Fill::Empty,
            final(self).winner() == -1,
    {
        let slots = self.state.len();
        for index in 0..slots
            invariant
                self.height == old(self).height,
                self.width == old(self).width,
                self.state@.len() == slots == self.width * self.height,
                forall|i: int| 0 <= i < index ==> self.state@[i] == Fill::Empty,
        {
            self.state[index] = Fill::Empty;
        }
        proof {
            assert forall|x: int, y: int| 0 <= x < self.width && 0 <= y < self.height implies (
            #[trigger] self@[x][y]) == Fill::Empty by {
                lemma_slot_in_range(x, y, self.width as int, self.height as int);
            }
            assert(self@ =~~= empty_grid(self.width as nat, self.height as nat));
            self.lemma_empty_board();
        }
    }

    /// The number of the player who has won the round, `0` or `1`, or `-1`
    /// where nobody has.
    ///
    /// The board is scanned row by row from the lowest up, each row from left
    /// to right; the first cell at which a winning line starts decides.
    pub fn get_winner(&self) -> (winner: i32)
        requires
            self.wf(),
        ensures
            winner == self.winner(),
            winner == -1 || winner == 0 || winner == 1,
            winner == -1 <==> forall|x: int, y: int| !self.wins_at(x, y),
            self@ == empty_grid(self.width as nat, self.height as nat) ==> winner == -1,
            // The scan starts at `(0, 0)`: a winning line that starts there decides.
            self.wins_at(0, 0) ==> winner == player_index(self.fill_at(0, 0)),
    {
        proof {
            self.lemma_winner_iff_line();
            if self@ == empty_grid(self.width as nat, self.height as nat) {
                self.lemma_empty_board();
            }
            if self.wins_at(0, 0) {
                self.lemma_first_win_decides(0, 0);
            }
        }
        for y in 0..self.height
            invariant
                self.wf(),
                forall|i: int, j: int| j < y ==> !#[trigger] self.wins_at(i, j),
        {
            for x in 0..self.width
                invariant
                    self.wf(),
                    forall|i: int, j: int| scans_before(i, j, x as int, y as int) ==> !#[trigger]
                    self.wins_at(i, j),
            {
                let fill = self.find_winner_at_block(x, y);
                if fill != Fill::Empty {
                    proof {
                        self.lemma_first_win_decides(x as int, y as int);
                    }
                    return fill_enum_to_player_index(fill);
                }
            }
        }
        -1
    }

    /// The player whose winning line starts at `(x, y)`, or `Empty`.
    fn find_winner_at_block(&self, x: usize, y: usize) -> (winner: Fill)
        requires
            self.wf(),
        ensures
            winner == self.winner_at(x as int, y as int),
    {
        let fill: Fill = self.get_fill(x, y);

        if fill != Fill::Player1 && fill != Fill::Player2 {
            return Fill::Empty;
        }
        if self.find_winner_horizontally(fill, x, y) {
            return fill;
        }
        if self.find_winner_vertically(fill, x, y) {
            return fill;
        }
        if self.find_winner_diagonally(fill, x, y) {
            return fill;
        }
        if self.find_winner_diagonally_downward(fill, x, y) {
            return fill;
        }
        Fill::Empty
    }

    /// Whether the three cells to the right of `(x, y)` hold `fill`.
    fn find_winner_horizontally(&self, fill: Fill, x: usize, y: usize) -> (found: bool)
        requires
            self.wf(),
            fill.is_player(),
        ensures
            found == self.run_at(fill, x as int, y as int, 1, 0),
    {
        for i in 1..WIN_COUNT
            invariant
                self.wf(),
                fill.is_player(),
                i > 1 ==> self.fill_at(x + 1, y as int) == fill,
                i > 2 ==> self.fill_at(x + 2, y as int) == fill,
                i > 3 ==> self.fill_at(x + 3, y as int) == fill,
        {
            if x > usize::MAX - i {
                return false;
            }
            if self.get_fill(x + i, y) != fill {
                return false;
            }
        }
        true
    }

    /// Whether the three cells above `(x, y)` hold `fill`.
    fn find_winner_vertically(&self, fill: Fill, x: usize, y: usize) -> (found: bool)
        requires
            self.wf(),
            fill.is_player(),
        ensures
            found == self.run_at(fill, x as int, y as int, 0, 1),
    {
        for i in 1..WIN_COUNT
            invariant
                self.wf(),
                fill.is_player(),
                i > 1 ==> self.fill_at(x as int, y + 1) == fill,
                i > 2 ==> self.fill_at(x as int, y + 2) == fill,
                i > 3 ==> self.fill_at(x as int, y + 3) == fill,
        {
            if y > usize::MAX - i {
                return false;
            }
            if self.get_fill(x, y + i) != fill {
                return false;
            }
        }
        true
    }

    /// Whether the three cells up and to the right of `(x, y)` hold `fill`.
    fn find_winner_diagonally(&self, fill: Fill, x: usize, y: usize) -> (found: bool)
        requires
            self.wf(),
            fill.is_player(),
        ensures
            found == self.run_at(fill, x as int, y as int, 1, 1),
    {
        for i in 1..WIN_COUNT
            invariant
                self.wf(),
                fill.is_player(),
                i > 1 ==> self.fill_at(x + 1, y + 1) == fill,
                i > 2 ==> self.fill_at(x + 2, y + 2) == fill,
                i > 3 ==> self.fill_at(x + 3, y + 3) == fill,
        {
            if x > usize::MAX - i || y > usize::MAX - i {
                return false;
            }
            if self.get_fill(x + i, y + i) != fill {
                return false;
            }
        }
        true
    }

    /// Whether the three cells down and to the right of `(x, y)` hold `fill`.
    /// Below the lowest row the board has no cell, so a line ends there.
    fn find_winner_diagonally_downward(&self, fill: Fill, x: usize, y: usize) -> (found: bool)
        requires
            self.wf(),
            fill.is_player(),
        ensures
            found == self.run_at(fill, x as int, y as int, 1, -1),
    {
        for i in 1..WIN_COUNT
            invariant
                self.wf(),
                fill.is_player(),
                i > 1 ==> self.fill_at(x + 1, y - 1) == fill,
                i > 2 ==> self.fill_at(x + 2, y - 2) == fill,
                i > 3 ==> self.fill_at(x + 3, y - 3) == fill,
        {
            if y < i || x > usize::MAX - i {
                return false;
            }
            if self.get_fill(x + i, y - i) != fill {
                return false;
            }
        }
        true
    }
}

/// What holds of every board.
impl Field {
    /// A piece that comes to rest in `(x, row)` is read back from that cell,
    /// and every other read yields what it did before.
    pub proof fn lemma_insert_changes_one_cell(
        before: Field,
        after: Field,
        x: int,
        row: int,
        fill: Fill,
    )
        requires
            before.wf(),
            after.width == before.width,
            after.height == before.height,
            before.in_bounds(x, row),
            after@ == before@.update(x, before@[x].update(row, fill)),
        ensures
            after.fill_at(x, row) == fill,
            forall|i: int, j: int|
                i != x || j != row ==> after.fill_at(i, j) == before.fill_at(i, j),
    {
    }

    /// A piece comes to rest on top of its column: after it, the cells of
    /// the column up to its row are taken, a further piece comes to rest
    /// higher, and a piece in the highest row leaves the column full.
    pub proof fn lemma_piece_tops_column(
        before: Field,
        after: Field,
        x: int,
        row: int,
        fill: Fill,
    )
        requires
            before.wf(),
            after.width == before.width,
            after.height == before.height,
            before.is_drop_row(x, row),
            fill != Fill::Empty,
            after@ == before@.update(x, before@[x].update(row, fill)),
        ensures
            forall|k: int| 0 <= k <= row ==> after.fill_at(x, k) != Fill::Empty,
            after.drop_row(x) == -1 || after.drop_row(x) > row,
            row == before.height - 1 ==> after.column_full(x),
    {
        Self::lemma_insert_changes_one_cell(before, after, x, row, fill);
        assert forall|k: int| 0 <= k <= row implies after.fill_at(x, k) != Fill::Empty by {
            if k != row {
                assert(before.fill_at(x, k) != Fill::Empty);
            }
        }
        after.lemma_drop_row_cells(x);
    }

    /// A piece dropped into a column comes to rest in one row only.
    pub proof fn lemma_drop_row(&self, x: int, y: int)
        requires
            self.is_drop_row(x, y),
        ensures
            self.drop_row(x) == y,
            !self.column_full(x),
    {
        let chosen = choose|r: int| self.is_drop_row(x, r);
        assert(!(chosen < y));
        assert(!(y < chosen));
    }

    /// The cells that decide where a piece dropped into column `x` comes to
    /// rest: the cell that takes it is `Empty` and the one below it is not,
    /// and the highest cell of a column that takes none is not `Empty`.
    pub proof fn lemma_drop_row_cells(&self, x: int)
        ensures
            -1 <= self.drop_row(x) < self.height,
            self.drop_row(x) == -1 <==> self.column_full(x),
            self.drop_row(x) != -1 ==> self.is_drop_row(x, self.drop_row(x)),
            self.drop_row(x) > 0 ==> self.fill_at(x, self.drop_row(x) - 1) != Fill::Empty,
            self.drop_row(x) == -1 ==> self.fill_at(x, self.height - 1) != Fill::Empty,
    {
        if !self.column_full(x) {
            let y = choose|y: int| self.fill_at(x, y) == Fill::Empty;
            self.lemma_lowest_empty(x, y);
        }
    }

    /// Below an `Empty` cell of column `x`, or at it, lies the lowest one.
    proof fn lemma_lowest_empty(&self, x: int, y: int)
        requires
            self.fill_at(x, y) == Fill::Empty,
        ensures
            exists|r: int| self.is_drop_row(x, r),
        decreases y,
    {
        if !self.is_drop_row(x, y) {
            let k = choose|k: int| 0 <= k < y && self.fill_at(x, k) == Fill::Empty;
            self.lemma_lowest_empty(x, k);
        }
    }

    /// Where the first winning line in scan order starts at `(x, y)`, the
    /// player who owns that cell is the winner.
    pub proof fn lemma_first_win_decides(&self, x: int, y: int)
        requires
            self.is_first_win(x, y),
        ensures
            self.winner() == player_index(self.fill_at(x, y)),
            self.winner() == 0 || self.winner() == 1,
    {
        let (cx, cy) = choose|cx: int, cy: int| self.is_first_win(cx, cy);
        assert(!scans_before(cx, cy, x, y));
        assert(!scans_before(x, y, cx, cy));
    }

    /// Where a winning line starts at `(x, y)`, some winning line is the
    /// first that the scan meets.
    pub proof fn lemma_first_win_exists(&self, x: int, y: int)
        requires
            self.wins_at(x, y),
        ensures
            exists|i: int, j: int| self.is_first_win(i, j),
        decreases y, x,
    {
        if !self.is_first_win(x, y) {
            let (i, j) = choose|i: int, j: int| scans_before(i, j, x, y) && self.wins_at(i, j);
            assert(self.in_bounds(i, j) && self.in_bounds(x, y));
            self.lemma_first_win_exists(i, j);
        }
    }

    /// Nobody has won exactly where the board holds no winning line;
    /// otherwise the winner is one of the two players.
    pub proof fn lemma_winner_iff_line(&self)
        ensures
            self.winner() == -1 <==> forall|x: int, y: int| !self.wins_at(x, y),
            self.winner() == -1 || self.winner() == 0 || self.winner() == 1,
    {
        if exists|x: int, y: int| self.wins_at(x, y) {
            let (x, y) = choose|x: int, y: int| self.wins_at(x, y);
            self.lemma_first_win_exists(x, y);
            let (i, j) = choose|i: int, j: int| self.is_first_win(i, j);
            self.lemma_first_win_decides(i, j);
        }
    }

    /// On a board without pieces nobody has won, and every cell reads `Empty`.
    pub proof fn lemma_empty_board(&self)
        requires
            self.wf(),
            self@ == empty_grid(self.width as nat, self.height as nat),
        ensures
            self.winner() == -1,
            forall|x: int, y: int| self.in_bounds(x, y) ==> self.fill_at(x, y) == Fill::Empty,
    {
        assert forall|x: int, y: int| !self.wins_at(x, y) by {
            assert(!self.fill_at(x, y).is_player());
        }
        self.lemma_winner_iff_line();
    }
}

/// The number under which a player is reported: `0` for the first player,
/// `1` for the second, `-1` for a fill that is no player's piece.
fn fill_enum_to_player_index(fill: Fill) -> (index: i32)
    ensures
        index == player_index(fill),
{
    match fill {
        Fill::Player1 => 0,
        Fill::Player2 => 1,
        _ => -1,
    }
}

/// Slots are laid out column after column: the slots of a column are neighbours.
proof fn lemma_slot_in_range(x: int, y: int, width: int, height: int)
    by (nonlinear_arith)
    requires
        0 <= x < width,
        0 <= y < height,
    ensures
        0 <= x * height + y < width * height,
        0 <= x * height <= width * height,
{
}

/// Two cells share a slot only if they are the same cell.
proof fn lemma_slot_unique(x1: int, y1: int, x2: int, y2: int, height: int)
    by (nonlinear_arith)
    requires
        0 <= y1 < height,
        0 <= y2 < height,
        x1 * height + y1 == x2 * height + y2,
    ensures
        x1 == x2,
        y1 == y2,
{
}

} // verus!
