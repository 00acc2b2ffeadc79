use crate::snake::Snake;
use crate::utils::{Panel, Position, Tint, MAP_SIZE};
use vstd::prelude::*;

verus! {

/// The one piece of food on the grid.
#[derive(PartialEq, Eq, Structural, Clone, Copy, Debug)]
pub struct Food {
    pub position: Position,
}

/// The cells of column `x` in rows 1 to `rows` that `body` leaves free, by
/// rising row.
pub open spec fn vacant_in_column(body: Seq<Position>, x: int, rows: int) -> Seq<Position>
    decreases rows,
{
    if rows <= 0 {
        Seq::empty()
    } else {
        let above = vacant_in_column(body, x, rows - 1);
        let cell = Position { x: x as i32, y: rows as i32 };
        if body.contains(cell) {
            above
        } else {
            above.push(cell)
        }
    }
}

/// The interior cells of columns 1 to `columns` that `body` leaves free, by
/// rising column and, within a column, by rising row.
pub open spec fn vacant_in_columns(body: Seq<Position>, columns: int) -> Seq<Position>
    decreases columns,
{
    if columns <= 0 {
        Seq::empty()
    } else {
        vacant_in_columns(body, columns - 1) + vacant_in_column(body, columns, MAP_SIZE - 2)
    }
}

/// Every interior cell that `body` leaves free, by rising column and,
/// within a column, by rising row.
pub open spec fn vacant(body: Seq<Position>) -> Seq<Position> {
    vacant_in_columns(body, MAP_SIZE - 2)
}

/// Where the food lies after a respawn with choice `pick` among the cells
/// that `body` leaves free: the chosen cell, or `current` where there is no
/// such choice.
pub open spec fn respawned(current: Position, body: Seq<Position>, pick: int) -> Position {
    if 0 <= pick < vacant(body).len() {
        vacant(body)[pick]
    } else {
        current
    }
}

/// Where the food of a new snake lies for choice `pick`: on the free cell
/// with that index, counted round the list of free cells where the choice
/// is beyond its end.
pub open spec fn placed(body: Seq<Position>, pick: int) -> Position
    recommends
        vacant(body).len() > 0,
{
    vacant(body)[pick % (vacant(body).len() as int)]
}

/// A cell is listed in `vacant_in_column` exactly when it lies in that
/// column, in one of the rows asked for, and outside `body`.
pub proof fn lemma_vacant_in_column_members(
    body: Seq<Position>,
    x: int,
    rows: int,
    cell: Position,
)
    requires
        i32::MIN <= x <= i32::MAX,
        rows <= i32::MAX,
    ensures
        vacant_in_column(body, x, rows).contains(cell) <==> (cell.x == x && 1 <= cell.y <= rows
            && !body.contains(cell)),
        vacant_in_column(body, x, rows).len() <= (if rows <= 0 {
            0
        } else {
            rows
        }),
    decreases rows,
{
    broadcast use vstd::seq_lib::lemma_seq_contains_after_push;

    if rows > 0 {
        lemma_vacant_in_column_members(body, x, rows - 1, cell);
    }
}

/// A cell is listed in `vacant_in_columns` exactly when it lies in one of
/// the columns asked for, in an interior row, and outside `body`.
pub proof fn lemma_vacant_in_columns_members(body: Seq<Position>, columns: int, cell: Position)
    requires
        columns <= i32::MAX,
    ensures
        vacant_in_columns(body, columns).contains(cell) <==> (1 <= cell.x <= columns && 1
            <= cell.y <= MAP_SIZE - 2 && !body.contains(cell)),
        vacant_in_columns(body, columns).len() <= (if columns <= 0 {
            0
        } else {
            columns * (MAP_SIZE - 2)
        }),
    decreases columns,
{
    broadcast use vstd::seq_lib::lemma_seq_concat_contains_all_elements;

    if columns > 0 {
        lemma_vacant_in_columns_members(body, columns - 1, cell);
        lemma_vacant_in_column_members(body, columns, MAP_SIZE - 2, cell);
    }
}

/// The free cells are exactly the interior cells outside the body.
pub proof fn lemma_vacant_members(body: Seq<Position>, cell: Position)
    ensures
        vacant(body).contains(cell) <==> (cell.interior() && !body.contains(cell)),
        vacant(body).len() <= (MAP_SIZE - 2) * (MAP_SIZE - 2),
{
    lemma_vacant_in_columns_members(body, MAP_SIZE - 2, cell);
}

/// A respawn with a choice among the free cells puts the food on an
/// interior cell outside the body.
pub proof fn lemma_respawn_avoids_body(current: Position, body: Seq<Position>, pick: int)
    requires
        0 <= pick < vacant(body).len(),
    ensures
        !body.contains(respawned(current, body, pick)),
        respawned(current, body, pick).interior(),
{
    let cell = vacant(body)[pick];
    assert(vacant(body).contains(cell));
    lemma_vacant_members(body, cell);
}

/// No free cell of a column is listed twice.
pub proof fn lemma_vacant_in_column_lists_once(body: Seq<Position>, x: int, rows: int)
    requires
        i32::MIN <= x <= i32::MAX,
        rows <= i32::MAX,
    ensures
        vacant_in_column(body, x, rows).no_duplicates(),
    decreases rows,
{
    if rows > 0 {
        let above = vacant_in_column(body, x, rows - 1);
        let cell = Position { x: x as i32, y: rows as i32 };
        lemma_vacant_in_column_lists_once(body, x, rows - 1);
        lemma_vacant_in_column_members(body, x, rows - 1, cell);
        if !body.contains(cell) {
            let listed = above.push(cell);
            assert forall|i: int, j: int|
                0 <= i < listed.len() && 0 <= j < listed.len() && i != j implies listed[i]
                != listed[j] by {
                if i < above.len() && j < above.len() {
                    assert(above[i] != above[j]);
                } else if i < above.len() {
                    assert(above.contains(above[i]));
                } else {
                    assert(above.contains(above[j]));
                }
            }
        }
    }
}

/// No free cell of the first `columns` columns is listed twice.
pub proof fn lemma_vacant_in_columns_lists_once(body: Seq<Position>, columns: int)
    requires
        columns <= i32::MAX,
    ensures
        vacant_in_columns(body, columns).no_duplicates(),
    decreases columns,
{
    if columns > 0 {
        let left = vacant_in_columns(body, columns - 1);
        let last = vacant_in_column(body, columns, MAP_SIZE - 2);
        lemma_vacant_in_columns_lists_once(body, columns - 1);
        lemma_vacant_in_column_lists_once(body, columns, MAP_SIZE - 2);
        assert forall|i: int, j: int| 0 <= i < left.len() && 0 <= j < last.len() implies left[i]
            != last[j] by {
            assert(left.contains(left[i]));
            assert(last.contains(last[j]));
            lemma_vacant_in_columns_members(body, columns - 1, left[i]);
            lemma_vacant_in_column_members(body, columns, MAP_SIZE - 2, last[j]);
        }
        vstd::seq_lib::lemma_no_dup_in_concat(left, last);
    }
}

/// Every free cell is listed exactly once: a choice that is uniform over
/// the indices is uniform over the free cells.
pub proof fn lemma_vacant_lists_once(body: Seq<Position>)
    ensures
        vacant(body).no_duplicates(),
{
    lemma_vacant_in_columns_lists_once(body, MAP_SIZE - 2);
}

/// The food of a new snake lies on an interior cell outside the body,
/// whatever the choice; a choice below the number of free cells stands for
/// the free cell with that index.
pub proof fn lemma_placed_avoids_body(body: Seq<Position>, pick: int)
    requires
        vacant(body).len() > 0,
    ensures
        !body.contains(placed(body, pick)),
        placed(body, pick).interior(),
        0 <= pick < vacant(body).len() ==> placed(body, pick) == vacant(body)[pick],
{
    let count = vacant(body).len() as int;
    vstd::arithmetic::div_mod::lemma_mod_bound(pick, count);
    if 0 <= pick < count {
        vstd::arithmetic::div_mod::lemma_small_mod(pick as nat, count as nat);
    }
    let cell = vacant(body)[pick % count];
    assert(vacant(body).contains(cell));
    lemma_vacant_members(body, cell);
}

impl Food {
    /// The food of a new round: on the free cell with index `pick`, counted
    /// by rising column and row among the interior cells that the snake
    /// leaves free, and round that list where `pick` is beyond its end.
    /// The food never lies on the snake.
    pub fn new(pick: usize, snake: &Snake) -> (food: Food)
        requires
            vacant(snake.body@).len() > 0,
        ensures
            food.position == placed(snake.body@, pick as int),
            food.position.interior(),
            !snake.body@.contains(food.position),
    {
        let cells = Food::free_cells(snake);
        let index: usize = pick % cells.len();
        proof {
            lemma_placed_avoids_body(snake.body@, pick as int);
        }
        Food { position: cells[index] }
    }

    /// The highest choice that stands for a free cell of its own, the
    /// lowest being 0; `None` where the snake leaves no cell free.
    pub fn last_choice(snake: &Snake) -> (last: Option<usize>)
        ensures
            last is None <==> vacant(snake.body@).len() == 0,
            last matches Some(k) ==> k + 1 == vacant(snake.body@).len(),
    {
        let count: usize = Food::free_cells(snake).len();
        if count == 0 {
            None
        } else {
            Some(count - 1)
        }
    }

    /// The tile to paint.
    pub fn draw(&self) -> (panel: Panel)
        ensures
            panel == (Panel { rect: self.position.spec_tile(), color: Tint::Magenta }),
    {
        Panel { rect: self.position.tile(), color: Tint::Magenta }
    }

    /// Every interior cell that the snake leaves free, by rising column and,
    /// within a column, by rising row.
    pub fn free_cells(snake: &Snake) -> (cells: Vec<Position>)
        ensures
            cells@ == vacant(snake.body@),
            cells@.len() <= (MAP_SIZE - 2) * (MAP_SIZE - 2),
            cells@.no_duplicates(),
            forall|c: Position|
                cells@.contains(c) <==> (c.interior() && !snake.body@.contains(c)),
    {
        let ghost body = snake.body@;
        let mut cells: Vec<Position> = Vec::new();
        let mut x: i32 = 1;
        while x <= MAP_SIZE - 2
            invariant
                1 <= x <= MAP_SIZE - 1,
                body == snake.body@,
                cells@ == vacant_in_columns(body, x - 1),
            decreases MAP_SIZE - x,
        {
            let ghost before = cells@;
            let mut y: i32 = 1;
            while y <= MAP_SIZE - 2
                invariant
                    1 <= x <= MAP_SIZE - 2,
                    1 <= y <= MAP_SIZE - 1,
                    body == snake.body@,
                    before == vacant_in_columns(body, x - 1),
                    cells@ == before + vacant_in_column(body, x as int, y - 1),
                decreases MAP_SIZE - y,
            {
                let cell = Position { x, y };
                if !snake.occupies(cell) {
                    cells.push(cell);
                }
                assert(cells@ =~= before + vacant_in_column(body, x as int, y as int));
                y += 1;
            }
            x += 1;
        }
        proof {
            assert forall|c: Position|
                cells@.contains(c) <==> (c.interior() && !snake.body@.contains(c)) by {
                lemma_vacant_members(body, c);
            }
            lemma_vacant_members(body, Position { x: 0, y: 0 });
            lemma_vacant_lists_once(body);
        }
        cells
    }

    /// Moves the food to the free cell with index `pick`, counted by rising
    /// column and row among the interior cells that the snake leaves free.
    /// Where there is no such cell, as on a full board, the food stays.
    pub fn respawn(&mut self, pick: usize, snake: &Snake)
        ensures
            final(self).position == respawned(old(self).position, snake.body@, pick as int),
            pick < vacant(snake.body@).len() ==> final(self).position.interior()
                && !snake.body@.contains(final(self).position),
            pick >= vacant(snake.body@).len() ==> final(self).position == old(self).position,
    {
        let cells = Food::free_cells(snake);
        if pick < cells.len() {
            self.position = cells[pick];
            proof {
                lemma_respawn_avoids_body(old(self).position, snake.body@, pick as int);
            }
        }
    }
}

} // verus!
