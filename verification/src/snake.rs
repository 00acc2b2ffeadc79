use crate::utils::{Direction, Panel, Position, Tint, MAP_SIZE};
use std::collections::VecDeque;
use vstd::prelude::*;

verus! {

/// The snake: its cells from head (index 0) to tail, the heading it moves in,
/// and the heading asked for next.
pub struct Snake {
    pub body: VecDeque<Position>,
    pub direction: Direction,
    pub next_direction: Direction,
}

/// What a snake is, as plain values.
pub struct SnakeView {
    pub body: Seq<Position>,
    pub direction: Direction,
    pub next_direction: Direction,
}

/// The request `wanted` as the guard lets it through: a direct reversal of
/// `current` is dropped.
pub open spec fn guarded(current: Direction, wanted: Direction) -> Direction {
    if wanted == current.spec_opposite() {
        current
    } else {
        wanted
    }
}

/// The heading that turn `i` of `turns` meets: `start` for the first turn,
/// the turn before it for every other.
pub open spec fn heading_before(start: Direction, turns: Seq<Direction>, i: int) -> Direction {
    if i == 0 {
        start
    } else {
        turns[i - 1]
    }
}

/// No turn in `turns` reverses the heading that it meets, `start` being the
/// heading before the first.
pub open spec fn no_reversal(start: Direction, turns: Seq<Direction>) -> bool {
    forall|i: int|
        0 <= i < turns.len() ==> turns[i] != (#[trigger] heading_before(
            start,
            turns,
            i,
        )).spec_opposite()
}

/// The cell reached from `from` by one step in each heading of `turns`, in
/// order, wrapping at the border ring.
pub open spec fn travel(from: Position, turns: Seq<Direction>) -> Position
    decreases turns.len(),
{
    if turns.len() == 0 {
        from
    } else {
        travel(from, turns.drop_last()).spec_shifted(turns.last())
    }
}

impl SnakeView {
    /// The snake at the start of a game.
    pub open spec fn fresh() -> SnakeView {
        SnakeView {
            body: seq![
                Position { x: 4, y: (MAP_SIZE / 2) as i32 },
                Position { x: 3, y: (MAP_SIZE / 2) as i32 },
                Position { x: 2, y: (MAP_SIZE / 2) as i32 },
            ],
            direction: Direction::Right,
            next_direction: Direction::Left,
        }
    }

    /// The head cell.
    pub open spec fn head(self) -> Position
        recommends
            self.body.len() > 0,
    {
        self.body[0]
    }

    /// The same snake asked to turn to `wanted`.
    pub open spec fn steer(self, wanted: Direction) -> SnakeView {
        SnakeView { next_direction: wanted, ..self }
    }

    /// The snake one cell further: the tail cell leaves, the heading asked
    /// for is taken unless it reverses the current one, and the cell next to
    /// the old head in that heading becomes the new head.
    pub open spec fn step(self) -> SnakeView
        recommends
            self.body.len() >= 2,
    {
        let heading = guarded(self.direction, self.next_direction);
        SnakeView {
            body: seq![self.body[0].spec_shifted(heading)] + self.body.drop_last(),
            direction: heading,
            next_direction: heading,
        }
    }

    /// The snake after one step for each heading of `turns`, each asked for
    /// just before its step.
    pub open spec fn drive(self, turns: Seq<Direction>) -> SnakeView
        decreases turns.len(),
    {
        if turns.len() == 0 {
            self
        } else {
            self.drive(turns.drop_last()).steer(turns.last()).step()
        }
    }

    /// Every cell lies inside the border ring.
    pub open spec fn inside(self) -> bool {
        forall|i: int| 0 <= i < self.body.len() ==> (#[trigger] self.body[i]).interior()
    }

    /// The head lies on another cell of the body.
    pub open spec fn bites_itself(self) -> bool {
        exists|i: int| 1 <= i < self.body.len() && #[trigger] self.body[i] == self.body[0]
    }

    /// The same snake with its tail cell doubled.
    pub open spec fn grown(self) -> SnakeView
        recommends
            self.body.len() > 0,
    {
        SnakeView { body: self.body.push(self.body.last()), ..self }
    }

    /// What `draw` paints: one tile per cell, the head green, the rest white.
    pub open spec fn panels(self) -> Seq<Panel> {
        Seq::new(
            self.body.len(),
            |i: int|
                Panel {
                    rect: self.body[i].spec_tile(),
                    color: if i == 0 {
                        Tint::Green
                    } else {
                        Tint::RayWhite
                    },
                },
        )
    }
}

impl View for Snake {
    type V = SnakeView;

    open spec fn view(&self) -> SnakeView {
        SnakeView {
            body: self.body@,
            direction: self.direction,
            next_direction: self.next_direction,
        }
    }
}

impl Snake {
    /// A snake of three cells in the middle row, heading right.
    pub fn new() -> (snake: Snake)
        ensures
            snake@ == SnakeView::fresh(),
    {
        let mut body: VecDeque<Position> = VecDeque::new();
        body.push_back(Position { x: 4, y: MAP_SIZE / 2 });
        body.push_back(Position { x: 3, y: MAP_SIZE / 2 });
        body.push_back(Position { x: 2, y: MAP_SIZE / 2 });
        let snake = Snake { body, direction: Direction::Right, next_direction: Direction::Left };
        assert(snake@.body =~= SnakeView::fresh().body);
        snake
    }

    /// Moves the snake one cell. A pending reversal of the heading is
    /// dropped; any other pending turn is taken. The number of cells stays.
    pub fn update(&mut self)
        requires
            old(self).body@.len() >= 2,
        ensures
            final(self)@ == old(self)@.step(),
            final(self).body@.len() == old(self).body@.len(),
            old(self).next_direction == old(self).direction.spec_opposite()
                ==> final(self).direction == old(self).direction,
            old(self).next_direction != old(self).direction.spec_opposite()
                ==> final(self).direction == old(self).next_direction,
            final(self).body@[0] == old(self).body@[0].spec_shifted(final(self).direction),
            forall|i: int|
                1 <= i < old(self).body@.len() ==> final(self).body@[i] == old(self).body@[i - 1],
            old(self)@.inside() ==> final(self)@.inside(),
    {
        let _ = self.body.pop_back();
        let head: Position = self.body[0];
        if self.next_direction == self.direction.opposite() {
            self.next_direction = self.direction;
        }
        self.direction = self.next_direction;
        self.body.push_front(head.shifted(self.direction));
        assert(self.body@ =~= old(self)@.step().body);
    }

    /// Whether `cell` is one of the snake's cells.
    pub fn occupies(&self, cell: Position) -> (found: bool)
        ensures
            found == self.body@.contains(cell),
    {
        let n: usize = self.body.len();
        let mut i: usize = 0;
        while i < n
            invariant
                n == self.body@.len(),
                i <= n,
                forall|j: int| 0 <= j < i ==> self.body@[j] != cell,
            decreases n - i,
        {
            if self.body[i] == cell {
                return true;
            }
            i += 1;
        }
        false
    }

    /// Whether the head lies on another cell of the body.
    pub fn bites_itself(&self) -> (hit: bool)
        ensures
            hit == self@.bites_itself(),
    {
        let n: usize = self.body.len();
        let mut i: usize = 1;
        while i < n
            invariant
                n == self.body@.len(),
                1 <= i,
                forall|j: int| 1 <= j < i && j < n ==> #[trigger] self.body@[j] != self.body@[0],
            decreases n - i,
        {
            if self.body[i] == self.body[0] {
                assert(self@.body[i as int] == self@.body[0]);
                return true;
            }
            i += 1;
        }
        false
    }

    /// Doubles the tail cell, which makes the snake one cell longer.
    pub fn grow(&mut self)
        requires
            old(self).body@.len() >= 1,
        ensures
            final(self)@ == old(self)@.grown(),
            final(self).body@.len() == old(self).body@.len() + 1,
    {
        let tail: Position = self.body[self.body.len() - 1];
        self.body.push_back(tail);
    }

    /// The tiles to paint, head first: the head green, every other cell
    /// white.
    pub fn draw(&self) -> (panels: Vec<Panel>)
        ensures
            panels@ == self@.panels(),
    {
        let n: usize = self.body.len();
        let mut panels: Vec<Panel> = Vec::new();
        let mut color = Tint::Green;
        let mut i: usize = 0;
        while i < n
            invariant
                n == self.body@.len(),
                i <= n,
                panels@.len() == i,
                color == (if i == 0 {
                    Tint::Green
                } else {
                    Tint::RayWhite
                }),
                forall|j: int| 0 <= j < i ==> panels@[j] == self@.panels()[j],
            decreases n - i,
        {
            panels.push(Panel { rect: self.body[i].tile(), color });
            if color == Tint::Green {
                color = Tint::RayWhite;
            }
            i += 1;
        }
        assert(panels@ =~= self@.panels());
        panels
    }
}

/// Driving a snake through `turns`, none of which reverses the heading
/// before it, takes every turn as asked: the head ends where `travel` leads
/// from the first head, the heading is the last turn, and the number of
/// cells is the same.
pub proof fn lemma_drive_follows_turns(snake: SnakeView, turns: Seq<Direction>)
    requires
        snake.body.len() >= 2,
        no_reversal(snake.direction, turns),
    ensures
        snake.drive(turns).body.len() == snake.body.len(),
        snake.drive(turns).head() == travel(snake.head(), turns),
        snake.drive(turns).direction == (if turns.len() == 0 {
            snake.direction
        } else {
            turns.last()
        }),
    decreases turns.len(),
{
    if turns.len() > 0 {
        let before = turns.drop_last();
        assert forall|i: int| 0 <= i < before.len() implies before[i] != (#[trigger] heading_before(
            snake.direction,
            before,
            i,
        )).spec_opposite() by {
            assert(before[i] == turns[i]);
            assert(heading_before(snake.direction, before, i) == heading_before(
                snake.direction,
                turns,
                i,
            ));
        }
        lemma_drive_follows_turns(snake, before);
        let k = turns.len() - 1;
        let met = heading_before(snake.direction, turns, k);
        assert(turns[k] != met.spec_opposite());
        assert(snake.drive(before).direction == met);
    }
}

/// A snake whose cells all lie inside the border ring stays inside it when
/// it moves.
pub proof fn lemma_step_stays_inside(snake: SnakeView)
    requires
        snake.body.len() >= 2,
        snake.inside(),
    ensures
        snake.step().inside(),
{
    let after = snake.step().body;
    assert forall|i: int| 0 <= i < after.len() implies (#[trigger] after[i]).interior() by {
        if i > 0 {
            assert(after[i] == snake.body[i - 1]);
        } else {
            assert(snake.body[0].interior());
        }
    }
}

/// Asking for the exact opposite of the heading changes neither the heading
/// nor the cell the head moves to.
pub proof fn lemma_reversal_is_dropped(snake: SnakeView)
    requires
        snake.body.len() >= 2,
    ensures
        snake.steer(snake.direction.spec_opposite()).step().direction == snake.direction,
        snake.steer(snake.direction.spec_opposite()).step() == snake.steer(snake.direction).step(),
{
}

} // verus!
