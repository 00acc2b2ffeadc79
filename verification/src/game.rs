use crate::food::{
    lemma_placed_avoids_body, lemma_respawn_avoids_body, lemma_vacant_members, placed, respawned,
    vacant, Food,
};
use crate::game_state::{CaptionWidths, DrawCommand, GameState};
use crate::snake::{lemma_step_stays_inside, Snake, SnakeView};
use crate::utils::{border_panels, draw_border, Direction, GameStatus, Panel, Position, Tint};
use vstd::prelude::*;

verus! {

/// The keys that were freshly pressed in one tick.
#[derive(PartialEq, Eq, Structural, Clone, Copy, Debug)]
pub struct TickInput {
    pub toggle: bool,
    pub up: bool,
    pub down: bool,
    pub left: bool,
    pub right: bool,
}

/// What a tick came to.
#[derive(PartialEq, Eq, Structural, Clone, Copy, Debug)]
pub enum TickEvent {
    /// The game is not being played: nothing moved.
    Idle,
    /// The snake moved one cell.
    Moved,
    /// The snake moved onto itself: the round is over.
    Crashed,
    /// The snake moved onto the food.
    Ate,
}

/// One session: the snake, the food and the scores.
pub struct Game {
    pub snake: Snake,
    pub food: Food,
    pub state: GameState,
}

/// What a session is, as plain values.
pub struct GameView {
    pub snake: SnakeView,
    pub food: Food,
    pub state: GameState,
}

impl View for Game {
    type V = GameView;

    open spec fn view(&self) -> GameView {
        GameView { snake: self.snake@, food: self.food, state: self.state }
    }
}

/// No cell but the last occurs twice.
pub open spec fn apart_but_tail(body: Seq<Position>) -> bool {
    body.drop_last().no_duplicates()
}

/// One command to fill each panel, in the same order.
pub open spec fn fills(panels: Seq<Panel>) -> Seq<DrawCommand> {
    Seq::new(panels.len(), |i: int| DrawCommand::Fill(panels[i]))
}

fn push_fills(commands: &mut Vec<DrawCommand>, panels: &Vec<Panel>)
    ensures
        final(commands)@ == old(commands)@ + fills(panels@),
{
    let n: usize = panels.len();
    let mut i: usize = 0;
    while i < n
        invariant
            n == panels@.len(),
            i <= n,
            commands@ == old(commands)@ + fills(panels@).take(i as int),
        decreases n - i,
    {
        commands.push(DrawCommand::Fill(panels[i]));
        assert(commands@ =~= old(commands)@ + fills(panels@).take(i + 1));
        i += 1;
    }
    assert(fills(panels@).take(n as int) =~= fills(panels@));
}

impl TickInput {
    /// The heading asked for once the keys are read: of several arrow keys
    /// right wins over left, left over down, down over up; with none,
    /// `pending` stays.
    pub open spec fn wanted(self, pending: Direction) -> Direction {
        if self.right {
            Direction::Right
        } else if self.left {
            Direction::Left
        } else if self.down {
            Direction::Down
        } else if self.up {
            Direction::Up
        } else {
            pending
        }
    }
}

impl GameView {
    /// The snake has a head and a cell behind it.
    pub open spec fn wf(self) -> bool {
        self.snake.body.len() >= 2
    }

    /// The food does not lie on the snake.
    pub open spec fn food_is_free(self) -> bool {
        !self.snake.body.contains(self.food.position)
    }

    /// A new snake with its food, placed off the snake by choice `pick`.
    pub open spec fn fresh_pieces(pick: int) -> (SnakeView, Food) {
        (SnakeView::fresh(), Food { position: placed(SnakeView::fresh().body, pick) })
    }

    /// A session at its start, with the food placed by choice `pick`.
    pub open spec fn fresh(pick: int) -> GameView {
        GameView {
            snake: GameView::fresh_pieces(pick).0,
            food: GameView::fresh_pieces(pick).1,
            state: GameState {
                current_score: 0,
                highest_score: 0,
                status: GameStatus::Paused,
            },
        }
    }

    /// Whether the toggle key starts a new round in this tick.
    pub open spec fn restarts(self, input: TickInput) -> bool {
        input.toggle && self.state.status == GameStatus::GameOver
    }

    /// The session once the toggle key is read. A new round has a new
    /// snake, and its food placed off that snake by choice `spare`.
    pub open spec fn entered(self, input: TickInput, spare: int) -> GameView {
        if !input.toggle {
            self
        } else if self.state.status == GameStatus::GameOver {
            GameView {
                snake: GameView::fresh_pieces(spare).0,
                food: GameView::fresh_pieces(spare).1,
                state: self.state.toggled(),
            }
        } else {
            GameView { state: self.state.toggled(), ..self }
        }
    }

    /// The session with the snake turned as the arrow keys ask and moved
    /// one cell.
    pub open spec fn moved(self, input: TickInput) -> GameView {
        GameView {
            snake: self.snake.steer(input.wanted(self.snake.next_direction)).step(),
            ..self
        }
    }

    /// What a tick comes to, before any food is eaten.
    pub open spec fn event(self, input: TickInput, spare: int) -> TickEvent {
        let entered = self.entered(input, spare);
        let moved = entered.moved(input);
        if entered.state.status != GameStatus::Playing {
            TickEvent::Idle
        } else if moved.snake.bites_itself() {
            TickEvent::Crashed
        } else if moved.snake.head() == moved.food.position {
            TickEvent::Ate
        } else {
            TickEvent::Moved
        }
    }

    /// The session after the first part of a tick: the toggle key, and,
    /// while playing, the move. A snake that bit itself ends the round:
    /// snake and food are made anew, the food placed by choice `spare`.
    pub open spec fn advanced(self, input: TickInput, spare: int) -> GameView {
        let entered = self.entered(input, spare);
        let moved = entered.moved(input);
        match self.event(input, spare) {
            TickEvent::Idle => entered,
            TickEvent::Crashed => GameView {
                snake: GameView::fresh_pieces(spare).0,
                food: GameView::fresh_pieces(spare).1,
                state: moved.state.crashed(),
            },
            _ => moved,
        }
    }

    /// The session after the snake has eaten: the food lies on the free
    /// cell with index `pick`, or stays where there is none; the snake is
    /// one cell longer; the score is one higher.
    pub open spec fn fed(self, pick: int) -> GameView {
        GameView {
            snake: self.snake.grown(),
            food: Food { position: respawned(self.food.position, self.snake.body, pick) },
            state: self.state.scored(),
        }
    }

    /// What `draw` asks to paint, in painting order: the snake, the food,
    /// the border in red, then the scores and banners.
    pub open spec fn frame(self, widths: CaptionWidths) -> Seq<DrawCommand> {
        fills(self.snake.panels()) + seq![
            DrawCommand::Fill(
                Panel { rect: self.food.position.spec_tile(), color: Tint::Magenta },
            ),
        ] + fills(border_panels(Tint::Red)) + self.state.commands(widths)
    }

    /// The session after a whole tick.
    pub open spec fn ticked(self, input: TickInput, spare: int, pick: int) -> GameView {
        let advanced = self.advanced(input, spare);
        if self.event(input, spare) == TickEvent::Ate {
            advanced.fed(pick)
        } else {
            advanced
        }
    }
}

impl Game {
    /// A new snake and its food, which choice `pick` places on a free
    /// interior cell.
    pub fn fresh_pieces(pick: usize) -> (pieces: (Snake, Food))
        ensures
            pieces.0@ == GameView::fresh_pieces(pick as int).0,
            pieces.1 == GameView::fresh_pieces(pick as int).1,
            !pieces.0.body@.contains(pieces.1.position),
            pieces.1.position.interior(),
    {
        let snake = Snake::new();
        proof {
            lemma_fresh_snake_leaves_room();
        }
        let food = Food::new(pick, &snake);
        (snake, food)
    }

    /// A paused session with a new snake and its food, which choice `pick`
    /// places on a free interior cell.
    pub fn new(pick: usize) -> (game: Game)
        ensures
            game@ == GameView::fresh(pick as int),
            game@.wf(),
            game@.food_is_free(),
            game.food.position.interior(),
    {
        let (snake, food) = Game::fresh_pieces(pick);
        Game { snake, food, state: GameState::new() }
    }

    /// Hands the arrow keys to the snake as its next heading.
    pub fn steer(&mut self, input: &TickInput)
        ensures
            final(self)@ == (GameView {
                snake: old(self)@.snake.steer(input.wanted(old(self).snake.next_direction)),
                ..old(self)@
            }),
    {
        if input.up {
            self.snake.next_direction = Direction::Up;
        }
        if input.down {
            self.snake.next_direction = Direction::Down;
        }
        if input.left {
            self.snake.next_direction = Direction::Left;
        }
        if input.right {
            self.snake.next_direction = Direction::Right;
        }
    }

    /// The first part of a tick: reads the toggle key and, while playing,
    /// turns and moves the snake and looks for a collision, first with the
    /// snake itself, then with the food. `spare` is the choice drawn for
    /// the food of a new snake, should this tick make one. After `Ate` the
    /// caller owes a call of `feed`; after any other tick the food is off
    /// the snake, if it was so before or the tick made the pieces anew.
    pub fn advance(&mut self, input: &TickInput, spare: usize) -> (event: TickEvent)
        requires
            old(self)@.wf(),
        ensures
            event == old(self)@.event(*input, spare as int),
            final(self)@ == old(self)@.advanced(*input, spare as int),
            final(self)@.wf(),
            final(self).state.current_score <= old(self).state.current_score,
            event == TickEvent::Crashed ==> final(self)@.food_is_free(),
            event != TickEvent::Ate && (old(self)@.restarts(*input) || old(self)@.food_is_free())
                ==> final(self)@.food_is_free(),
    {
        proof {
            lemma_advance_keeps_food_free(old(self)@, *input, spare as int);
        }
        if input.toggle {
            let restart = self.state.toggle();
            if restart {
                let (snake, food) = Game::fresh_pieces(spare);
                self.snake = snake;
                self.food = food;
            }
        }
        if self.state.status != GameStatus::Playing {
            return TickEvent::Idle;
        }
        self.steer(input);
        self.snake.update();
        if self.snake.bites_itself() {
            self.state.crash();
            let (snake, food) = Game::fresh_pieces(spare);
            self.snake = snake;
            self.food = food;
            TickEvent::Crashed
        } else if self.snake.body[0] == self.food.position {
            TickEvent::Ate
        } else {
            TickEvent::Moved
        }
    }

    /// The second part of a tick in which the snake ate: puts the food on
    /// the free cell with index `pick`, lets the snake grow by one cell and
    /// adds one point. On a board without a free cell the food stays.
    pub fn feed(&mut self, pick: usize)
        requires
            old(self).snake.body@.len() >= 1,
            old(self).state.current_score < u32::MAX,
        ensures
            final(self)@ == old(self)@.fed(pick as int),
            final(self).snake.body@.len() == old(self).snake.body@.len() + 1,
            final(self).state.current_score == old(self).state.current_score + 1,
    {
        self.food.respawn(pick, &self.snake);
        self.snake.grow();
        self.state.score();
    }

    /// Everything to paint for the session, in painting order, given the
    /// width of each caption on the screen.
    pub fn draw(&self, widths: &CaptionWidths) -> (commands: Vec<DrawCommand>)
        ensures
            commands@ == self@.frame(*widths),
    {
        let mut commands: Vec<DrawCommand> = Vec::new();
        let cells = self.snake.draw();
        push_fills(&mut commands, &cells);
        commands.push(DrawCommand::Fill(self.food.draw()));
        let border = draw_border(Tint::Red);
        push_fills(&mut commands, &border);
        let mut texts = self.state.draw(widths);
        commands.append(&mut texts);
        assert(commands@ =~= self@.frame(*widths));
        commands
    }

    /// One whole tick, for a caller that has drawn `pick` beforehand.
    pub fn tick(&mut self, input: &TickInput, spare: usize, pick: usize) -> (event: TickEvent)
        requires
            old(self)@.wf(),
            old(self).state.current_score < u32::MAX,
        ensures
            event == old(self)@.event(*input, spare as int),
            final(self)@ == old(self)@.ticked(*input, spare as int, pick as int),
            final(self)@.wf(),
            (old(self)@.restarts(*input) || old(self)@.food_is_free()) && (event == TickEvent::Ate
                ==> pick < vacant(old(self)@.advanced(*input, spare as int).snake.body).len())
                ==> final(self)@.food_is_free(),
    {
        proof {
            let before = old(self)@;
            if (before.restarts(*input) || before.food_is_free()) && (before.event(
                *input,
                spare as int,
            ) == TickEvent::Ate ==> pick < vacant(
                before.advanced(*input, spare as int).snake.body,
            ).len()) {
                lemma_tick_keeps_food_free(before, *input, spare as int, pick as int);
            }
        }
        let event = self.advance(input, spare);
        if event == TickEvent::Ate {
            self.feed(pick);
        }
        event
    }
}

/// The larger of two scores.
pub open spec fn larger(a: u32, b: u32) -> u32 {
    if a >= b {
        a
    } else {
        b
    }
}

/// A new snake leaves interior cells free, so its food can be placed.
pub proof fn lemma_fresh_snake_leaves_room()
    ensures
        vacant(SnakeView::fresh().body).len() > 0,
{
    let corner = Position { x: 1, y: 1 };
    lemma_vacant_members(SnakeView::fresh().body, corner);
    assert(vacant(SnakeView::fresh().body).contains(corner));
}

/// The food made with a new snake lies on an interior cell off that snake,
/// whatever the choice.
pub proof fn lemma_fresh_food_is_free(pick: int)
    ensures
        !GameView::fresh_pieces(pick).0.body.contains(GameView::fresh_pieces(pick).1.position),
        GameView::fresh_pieces(pick).1.position.interior(),
        GameView::fresh(pick).food_is_free(),
{
    lemma_fresh_snake_leaves_room();
    lemma_placed_avoids_body(SnakeView::fresh().body, pick);
}

/// Food that is off the snake, or made anew in this tick, is off the snake
/// after the first part of the tick, unless the head has just reached it.
/// After a crash the new food is off the new snake.
pub proof fn lemma_advance_keeps_food_free(game: GameView, input: TickInput, spare: int)
    requires
        game.wf(),
    ensures
        game.event(input, spare) == TickEvent::Crashed ==> game.advanced(
            input,
            spare,
        ).food_is_free(),
        game.event(input, spare) != TickEvent::Ate && (game.restarts(input)
            || game.food_is_free()) ==> game.advanced(input, spare).food_is_free(),
{
    lemma_fresh_food_is_free(spare);
    let entered = game.entered(input, spare);
    assert(game.restarts(input) || game.food_is_free() ==> entered.food_is_free());
    if game.event(input, spare) == TickEvent::Moved && entered.food_is_free() {
        let before = entered.snake.body;
        let after = entered.moved(input).snake.body;
        let food = entered.food.position;
        assert forall|i: int| 0 <= i < after.len() implies after[i] != food by {
            if i > 0 {
                assert(after[i] == before[i - 1]);
                assert(before.contains(before[i - 1]));
            }
        }
    }
}

/// The food stays off the snake over a whole tick: where it was off the
/// snake before, or the tick starts a new round, it is off the snake
/// after, given that a snake that ate had a free cell to choose.
pub proof fn lemma_tick_keeps_food_free(game: GameView, input: TickInput, spare: int, pick: int)
    requires
        game.wf(),
        game.restarts(input) || game.food_is_free(),
        game.event(input, spare) == TickEvent::Ate ==> 0 <= pick < vacant(
            game.advanced(input, spare).snake.body,
        ).len(),
    ensures
        game.ticked(input, spare, pick).food_is_free(),
{
    lemma_advance_keeps_food_free(game, input, spare);
    if game.event(input, spare) == TickEvent::Ate {
        lemma_fed_food_is_off_the_snake(game.advanced(input, spare), pick);
    }
}

/// A new snake has no cell twice, and after its first move, whatever the
/// arrow keys ask, it has not bitten itself.
pub proof fn lemma_fresh_snake_is_safe(input: TickInput)
    ensures
        SnakeView::fresh().body.no_duplicates(),
        !SnakeView::fresh().steer(
            input.wanted(SnakeView::fresh().next_direction),
        ).step().bites_itself(),
{
    let fresh = SnakeView::fresh();
    let after = fresh.steer(input.wanted(fresh.next_direction)).step();
    assert(after.body.len() == 3);
    assert(after.body[1] == fresh.body[0]);
    assert(after.body[2] == fresh.body[1]);
}

/// Where the moved snake has not bitten itself and no cell but the last
/// occurred twice before the move, no cell occurs twice after it.
pub proof fn lemma_step_keeps_cells_apart(snake: SnakeView)
    requires
        snake.body.len() >= 2,
        apart_but_tail(snake.body),
        !snake.step().bites_itself(),
    ensures
        snake.step().body.no_duplicates(),
        snake.step().body.len() == snake.body.len(),
{
    let after = snake.step().body;
    let kept = snake.body.drop_last();
    assert forall|i: int, j: int| 0 <= i < after.len() && 0 <= j < after.len() && i != j implies
        after[i] != after[j] by {
        if i == 0 {
            assert(after[j] != after[0]);
        } else if j == 0 {
            assert(after[i] != after[0]);
        } else {
            assert(after[i] == kept[i - 1]);
            assert(after[j] == kept[j - 1]);
        }
    }
}

/// A tick changes the number of cells in three ways only. The toggle key
/// that starts a new round gives a new snake of three cells, and so does a
/// crash. The move itself keeps the number. The snake gains exactly one
/// cell in the ticks in which its head reaches the food, and in no other.
pub proof fn lemma_tick_length(game: GameView, input: TickInput, spare: int, pick: int)
    requires
        game.wf(),
    ensures
        game.entered(input, spare).snake.body.len() == (if game.restarts(input) {
            3
        } else {
            game.snake.body.len()
        }),
        game.moved(input).snake.body.len() == game.snake.body.len(),
        game.ticked(input, spare, pick).snake.body.len() == (match game.event(input, spare) {
            TickEvent::Ate => game.entered(input, spare).snake.body.len() + 1,
            TickEvent::Crashed => 3,
            _ => game.entered(input, spare).snake.body.len(),
        }),
{
}

/// Where no cell of the snake but the last occurs twice before a tick, the
/// same holds after it; and after a tick in which the snake did not eat
/// and a move was made, no cell occurs twice at all. A snake whose head
/// lies on its body after the move ends the round in that very tick.
pub proof fn lemma_tick_keeps_cells_apart(
    game: GameView,
    input: TickInput,
    spare: int,
    pick: int,
)
    requires
        game.wf(),
        apart_but_tail(game.snake.body),
    ensures
        apart_but_tail(game.ticked(input, spare, pick).snake.body),
        game.event(input, spare) == TickEvent::Moved || game.event(input, spare)
            == TickEvent::Crashed ==> game.ticked(input, spare, pick).snake.body.no_duplicates(),
        game.event(input, spare) == TickEvent::Crashed <==> (game.entered(
            input,
            spare,
        ).state.status == GameStatus::Playing && game.entered(input, spare).moved(
            input,
        ).snake.bites_itself()),
{
    lemma_fresh_snake_is_safe(input);
    let fresh = SnakeView::fresh();
    assert(fresh.body.drop_last().no_duplicates()) by {
        assert forall|i: int, j: int|
            0 <= i < fresh.body.drop_last().len() && 0 <= j < fresh.body.drop_last().len() && i
                != j implies fresh.body.drop_last()[i] != fresh.body.drop_last()[j] by {
            assert(fresh.body.drop_last()[i] == fresh.body[i]);
            assert(fresh.body.drop_last()[j] == fresh.body[j]);
        }
    }
    let entered = game.entered(input, spare);
    let turned = entered.snake.steer(input.wanted(entered.snake.next_direction));
    let after = game.ticked(input, spare, pick).snake.body;
    match game.event(input, spare) {
        TickEvent::Idle => {},
        TickEvent::Crashed => {},
        TickEvent::Ate => {
            lemma_step_keeps_cells_apart(turned);
            assert(after.drop_last() =~= turned.step().body);
        },
        TickEvent::Moved => {
            lemma_step_keeps_cells_apart(turned);
            assert forall|i: int, j: int|
                0 <= i < after.drop_last().len() && 0 <= j < after.drop_last().len() && i
                    != j implies after.drop_last()[i] != after.drop_last()[j] by {
                assert(after.drop_last()[i] == after[i]);
                assert(after.drop_last()[j] == after[j]);
            }
        },
    }
}

/// After the snake has eaten, with a choice among the free cells, the food
/// lies on an interior cell that the grown snake does not cover.
pub proof fn lemma_fed_food_is_off_the_snake(game: GameView, pick: int)
    requires
        game.snake.body.len() >= 1,
        0 <= pick < vacant(game.snake.body).len(),
    ensures
        !game.fed(pick).snake.body.contains(game.fed(pick).food.position),
        game.fed(pick).food.position.interior(),
{
    broadcast use vstd::seq_lib::lemma_seq_contains_after_push;

    lemma_respawn_avoids_body(game.food.position, game.snake.body, pick);
    assert(game.snake.body.contains(game.snake.body.last()));
}

/// A snake inside the border ring is still inside it after a tick.
pub proof fn lemma_tick_keeps_snake_inside(
    game: GameView,
    input: TickInput,
    spare: int,
    pick: int,
)
    requires
        game.wf(),
        game.snake.inside(),
    ensures
        game.ticked(input, spare, pick).snake.inside(),
{
    let entered = game.entered(input, spare);
    let turned = entered.snake.steer(input.wanted(entered.snake.next_direction));
    assert(SnakeView::fresh().inside());
    assert(turned.inside()) by {
        let cells = turned.body;
        assert forall|i: int| 0 <= i < cells.len() implies (#[trigger] cells[i]).interior() by {
            assert(entered.snake.body[i].interior());
        }
    }
    lemma_step_stays_inside(turned);
    let after = game.ticked(input, spare, pick).snake.body;
    if game.event(input, spare) == TickEvent::Ate {
        let moved = turned.step().body;
        assert forall|i: int| 0 <= i < after.len() implies (#[trigger] after[i]).interior() by {
            if i < moved.len() {
                assert(after[i] == moved[i]);
            } else {
                assert(after[i] == moved[moved.len() - 1]);
            }
        }
    }
}

/// A crash ends the round with the highest score at the larger of itself
/// and the score of the round, which stays as it is; no other tick changes
/// the highest score. The score of the round falls only in a tick whose
/// toggle key starts a new round after a game over, where it starts at 0;
/// in every other tick it rises by one where the snake ate and else stays.
pub proof fn lemma_tick_scores(game: GameView, input: TickInput, spare: int, pick: int)
    requires
        game.wf(),
        game.state.current_score < u32::MAX,
    ensures
        game.event(input, spare) == TickEvent::Crashed ==> {
            &&& !game.restarts(input)
            &&& game.ticked(input, spare, pick).state.status == GameStatus::GameOver
            &&& game.ticked(input, spare, pick).state.highest_score == larger(
                game.state.highest_score,
                game.state.current_score,
            )
            &&& game.ticked(input, spare, pick).state.current_score == game.state.current_score
        },
        game.event(input, spare) != TickEvent::Crashed ==> game.ticked(
            input,
            spare,
            pick,
        ).state.highest_score == game.state.highest_score,
        game.ticked(input, spare, pick).state.current_score < game.state.current_score
            ==> game.restarts(input),
        game.restarts(input) ==> game.entered(input, spare).state.current_score == 0
            && game.entered(input, spare).state.status == GameStatus::Playing,
        !game.restarts(input) ==> game.ticked(input, spare, pick).state.current_score
            == game.state.current_score + (if game.event(input, spare) == TickEvent::Ate {
            1int
        } else {
            0int
        }),
{
    lemma_fresh_snake_is_safe(input);
}

} // verus!
