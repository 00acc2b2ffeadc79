use crate::utils::{
    widen, GameStatus, Panel, Rect, Tint, FONT_SIZE, MAP_SIZE, SCREEN_HEIGHT, SCREEN_WIDTH,
    TILE_SIZE,
};
use vstd::prelude::*;
use vstd::string::StringExecFns;

verus! {

/// The scores and the status of a session.
#[derive(PartialEq, Eq, Structural, Clone, Copy, Debug)]
pub struct GameState {
    pub current_score: u32,
    pub highest_score: u32,
    pub status: GameStatus,
}

/// The texts that the game writes.
#[derive(PartialEq, Eq, Structural, Clone, Copy, Debug)]
pub enum Caption {
    Score,
    HighestScore,
    Paused,
    GameOver,
}

/// How wide each caption is on the screen at `FONT_SIZE`, in pixels.
#[derive(PartialEq, Eq, Structural, Clone, Copy, Debug)]
pub struct CaptionWidths {
    pub score: i32,
    pub highest_score: i32,
    pub paused: i32,
    pub game_over: i32,
}

/// A caption to write with its top left corner at `(x, y)`.
#[derive(PartialEq, Eq, Structural, Clone, Copy, Debug)]
pub struct Label {
    pub caption: Caption,
    pub x: i32,
    pub y: i32,
    pub font_size: i32,
    pub color: Tint,
}

/// One thing to paint.
#[derive(PartialEq, Eq, Structural, Clone, Copy, Debug)]
pub enum DrawCommand {
    Fill(Panel),
    Write(Label),
}

/// The character for one decimal digit.
pub open spec fn digit(d: int) -> char {
    if d == 0 {
        '0'
    } else if d == 1 {
        '1'
    } else if d == 2 {
        '2'
    } else if d == 3 {
        '3'
    } else if d == 4 {
        '4'
    } else if d == 5 {
        '5'
    } else if d == 6 {
        '6'
    } else if d == 7 {
        '7'
    } else if d == 8 {
        '8'
    } else {
        '9'
    }
}

/// A number in decimal, without leading zeros.
pub open spec fn decimal(n: nat) -> Seq<char>
    decreases n,
{
    if n < 10 {
        seq![digit(n as int)]
    } else {
        decimal(n / 10).push(digit((n % 10) as int))
    }
}

/// Half of a width, rounded towards zero.
pub open spec fn half(w: int) -> int {
    if w >= 0 {
        w / 2
    } else {
        -((-w) / 2)
    }
}

/// The x coordinate at which a text of width `w` stands centred.
pub open spec fn centred(w: int) -> int {
    SCREEN_WIDTH / 2 - half(w)
}

/// A box behind a centred text of width `w`, one font height wider than
/// the text on either side.
pub open spec fn backdrop(w: int, y: int, height: int, color: Tint) -> Panel {
    Panel {
        rect: Rect {
            x: (SCREEN_WIDTH / 2 - (half(w) + FONT_SIZE)) as i64,
            y: y as i64,
            width: (FONT_SIZE * 2 + w) as i64,
            height: height as i64,
        },
        color,
    }
}

/// A caption in white at the font size of the game.
pub open spec fn white_label(caption: Caption, x: int, y: int) -> Label {
    Label { caption, x: x as i32, y: y as i32, font_size: FONT_SIZE, color: Tint::White }
}

impl GameState {
    /// The text of a caption.
    pub open spec fn caption_text(self, caption: Caption) -> Seq<char> {
        match caption {
            Caption::Score => "SCORE: "@ + decimal(self.current_score as nat),
            Caption::HighestScore => "HIGHEST SCORE: "@ + decimal(self.highest_score as nat),
            Caption::Paused => "GAME PAUSED"@,
            Caption::GameOver => "GAME OVER!"@,
        }
    }

    /// What `draw` asks to paint: the score centred in the top border;
    /// while paused, a banner in the middle of the screen; after a game
    /// over, a banner with the highest score under it.
    pub open spec fn commands(self, widths: CaptionWidths) -> Seq<DrawCommand> {
        let score = DrawCommand::Write(
            white_label(Caption::Score, centred(widths.score as int), TILE_SIZE / 4),
        );
        match self.status {
            GameStatus::Playing => seq![score],
            GameStatus::Paused => seq![
                score,
                DrawCommand::Fill(
                    backdrop(
                        widths.paused as int,
                        SCREEN_HEIGHT / 2,
                        TILE_SIZE as int,
                        Tint::YellowGreen,
                    ),
                ),
                DrawCommand::Write(
                    white_label(
                        Caption::Paused,
                        centred(widths.paused as int),
                        SCREEN_HEIGHT / 2,
                    ),
                ),
            ],
            GameStatus::GameOver => seq![
                score,
                DrawCommand::Fill(
                    backdrop(
                        widths.highest_score as int,
                        (MAP_SIZE / 2 - 1) * TILE_SIZE,
                        TILE_SIZE * 2,
                        Tint::Green,
                    ),
                ),
                DrawCommand::Write(
                    white_label(
                        Caption::GameOver,
                        centred(widths.game_over as int),
                        (MAP_SIZE / 2 - 1) * TILE_SIZE,
                    ),
                ),
                DrawCommand::Write(
                    white_label(
                        Caption::HighestScore,
                        centred(widths.highest_score as int),
                        MAP_SIZE / 2 * TILE_SIZE,
                    ),
                ),
            ],
        }
    }

    /// The state after the toggle key: a pause starts or ends; after a game
    /// over a new round starts with no points.
    pub open spec fn toggled(self) -> GameState {
        match self.status {
            GameStatus::Paused => GameState { status: GameStatus::Playing, ..self },
            GameStatus::Playing => GameState { status: GameStatus::Paused, ..self },
            GameStatus::GameOver => GameState {
                status: GameStatus::Playing,
                current_score: 0,
                ..self
            },
        }
    }

    /// The state after the snake has run into itself: the round is over and
    /// the highest score is the larger of itself and the score of the round.
    pub open spec fn crashed(self) -> GameState {
        GameState {
            status: GameStatus::GameOver,
            highest_score: if self.highest_score >= self.current_score {
                self.highest_score
            } else {
                self.current_score
            },
            ..self
        }
    }

    /// The state with one more point.
    pub open spec fn scored(self) -> GameState {
        GameState { current_score: (self.current_score + 1) as u32, ..self }
    }

    /// A paused session with no points.
    pub fn new() -> (state: GameState)
        ensures
            state == (GameState {
                current_score: 0,
                highest_score: 0,
                status: GameStatus::Paused,
            }),
    {
        GameState { current_score: 0, highest_score: 0, status: GameStatus::Paused }
    }

    /// Applies the toggle key and tells whether a new round starts, for
    /// which snake and food are to be made anew.
    pub fn toggle(&mut self) -> (restart: bool)
        ensures
            *final(self) == old(self).toggled(),
            restart == (old(self).status == GameStatus::GameOver),
    {
        match self.status {
            GameStatus::Paused => {
                self.status = GameStatus::Playing;
                false
            },
            GameStatus::Playing => {
                self.status = GameStatus::Paused;
                false
            },
            GameStatus::GameOver => {
                self.current_score = 0;
                self.status = GameStatus::Playing;
                true
            },
        }
    }

    /// Ends the round and raises the highest score to the score of the
    /// round where that is larger.
    pub fn crash(&mut self)
        ensures
            *final(self) == old(self).crashed(),
    {
        self.status = GameStatus::GameOver;
        if self.current_score > self.highest_score {
            self.highest_score = self.current_score;
        }
    }

    /// Adds one point.
    pub fn score(&mut self)
        requires
            old(self).current_score < u32::MAX,
        ensures
            *final(self) == old(self).scored(),
            final(self).current_score == old(self).current_score + 1,
    {
        self.current_score = self.current_score + 1;
    }

    /// The text of a caption: the two scores in decimal behind their
    /// titles, and the two banners.
    pub fn caption(&self, caption: Caption) -> (text: String)
        ensures
            text@ == self.caption_text(caption),
    {
        match caption {
            Caption::Score => {
                let mut text = String::from_str("SCORE: ");
                append_decimal(&mut text, self.current_score);
                text
            },
            Caption::HighestScore => {
                let mut text = String::from_str("HIGHEST SCORE: ");
                append_decimal(&mut text, self.highest_score);
                text
            },
            Caption::Paused => String::from_str("GAME PAUSED"),
            Caption::GameOver => String::from_str("GAME OVER!"),
        }
    }

    /// What to paint for the session, in painting order, given the width
    /// of each caption on the screen.
    pub fn draw(&self, widths: &CaptionWidths) -> (commands: Vec<DrawCommand>)
        ensures
            commands@ == self.commands(*widths),
    {
        let mut commands: Vec<DrawCommand> = Vec::new();
        commands.push(
            DrawCommand::Write(label(Caption::Score, centre(widths.score), TILE_SIZE / 4)),
        );
        match self.status {
            GameStatus::Playing => {},
            GameStatus::Paused => {
                commands.push(
                    DrawCommand::Fill(
                        panel_behind(
                            widths.paused,
                            SCREEN_HEIGHT / 2,
                            TILE_SIZE,
                            Tint::YellowGreen,
                        ),
                    ),
                );
                commands.push(
                    DrawCommand::Write(
                        label(Caption::Paused, centre(widths.paused), SCREEN_HEIGHT / 2),
                    ),
                );
            },
            GameStatus::GameOver => {
                let top: i32 = (MAP_SIZE / 2 - 1) * TILE_SIZE;
                commands.push(
                    DrawCommand::Fill(
                        panel_behind(widths.highest_score, top, TILE_SIZE * 2, Tint::Green),
                    ),
                );
                commands.push(
                    DrawCommand::Write(label(Caption::GameOver, centre(widths.game_over), top)),
                );
                commands.push(
                    DrawCommand::Write(
                        label(
                            Caption::HighestScore,
                            centre(widths.highest_score),
                            MAP_SIZE / 2 * TILE_SIZE,
                        ),
                    ),
                );
            },
        }
        assert(commands@ =~= self.commands(*widths));
        commands
    }
}

fn halve(w: i32) -> (h: i32)
    ensures
        h == half(w as int),
{
    if w >= 0 {
        w / 2
    } else if w == i32::MIN {
        -1073741824
    } else {
        -((-w) / 2)
    }
}

fn centre(w: i32) -> (x: i32)
    ensures
        x == centred(w as int),
{
    SCREEN_WIDTH / 2 - halve(w)
}

fn label(caption: Caption, x: i32, y: i32) -> (l: Label)
    ensures
        l == white_label(caption, x as int, y as int),
{
    Label { caption, x, y, font_size: FONT_SIZE, color: Tint::White }
}

fn panel_behind(w: i32, y: i32, height: i32, color: Tint) -> (p: Panel)
    ensures
        p == backdrop(w as int, y as int, height as int, color),
{
    let side: i64 = widen(SCREEN_WIDTH / 2) - (widen(halve(w)) + widen(FONT_SIZE));
    Panel {
        rect: Rect {
            x: side,
            y: widen(y),
            width: widen(FONT_SIZE) * 2 + widen(w),
            height: widen(height),
        },
        color,
    }
}

fn digit_text(d: u32) -> (s: &'static str)
    requires
        d < 10,
    ensures
        s@ == seq![digit(d as int)],
{
    proof {
        reveal_strlit("0");
        reveal_strlit("1");
        reveal_strlit("2");
        reveal_strlit("3");
        reveal_strlit("4");
        reveal_strlit("5");
        reveal_strlit("6");
        reveal_strlit("7");
        reveal_strlit("8");
        reveal_strlit("9");
    }
    let s = if d == 0 {
        "0"
    } else if d == 1 {
        "1"
    } else if d == 2 {
        "2"
    } else if d == 3 {
        "3"
    } else if d == 4 {
        "4"
    } else if d == 5 {
        "5"
    } else if d == 6 {
        "6"
    } else if d == 7 {
        "7"
    } else if d == 8 {
        "8"
    } else {
        "9"
    };
    assert(s@ =~= seq![digit(d as int)]);
    s
}

fn append_decimal(text: &mut String, n: u32)
    ensures
        final(text)@ == old(text)@ + decimal(n as nat),
    decreases n,
{
    if n >= 10 {
        append_decimal(text, n / 10);
    }
    text.append(digit_text(n % 10));
    assert(text@ =~= old(text)@ + decimal(n as nat));
}

} // verus!
