use vstd::prelude::*;

verus! {

/// Side of one grid cell, in pixels.
pub const TILE_SIZE: i32 = 30;

/// Number of cells along each side of the square grid, border ring included.
pub const MAP_SIZE: i32 = 30;

/// Width of the window, in pixels.
pub const SCREEN_WIDTH: i32 = 900;

/// Height of the window, in pixels.
pub const SCREEN_HEIGHT: i32 = 900;

/// Height of the text, in pixels.
pub const FONT_SIZE: i32 = 21;

/// A heading on the grid.
#[derive(PartialEq, Eq, Structural, Clone, Copy, Debug)]
pub enum Direction {
    Up,
    Down,
    Right,
    Left,
}

/// Where a game session stands.
#[derive(PartialEq, Eq, Structural, Clone, Copy, Debug)]
pub enum GameStatus {
    Playing,
    Paused,
    GameOver,
}

/// The colours that the game paints with.
#[derive(PartialEq, Eq, Structural, Clone, Copy, Debug)]
pub enum Tint {
    Black,
    White,
    RayWhite,
    Green,
    YellowGreen,
    Magenta,
    Red,
}

/// A grid cell. Two positions are equal when both coordinates are.
#[derive(PartialEq, Eq, Structural, Clone, Copy, Debug)]
pub struct Position {
    pub x: i32,
    pub y: i32,
}

/// An axis-aligned rectangle on the screen, in pixels.
#[derive(PartialEq, Eq, Structural, Clone, Copy, Debug)]
pub struct Rect {
    pub x: i64,
    pub y: i64,
    pub width: i64,
    pub height: i64,
}

/// A filled rectangle to paint.
#[derive(PartialEq, Eq, Structural, Clone, Copy, Debug)]
pub struct Panel {
    pub rect: Rect,
    pub color: Tint,
}

impl Direction {
    /// The heading that points the other way.
    pub open spec fn spec_opposite(self) -> Direction {
        match self {
            Direction::Up => Direction::Down,
            Direction::Down => Direction::Up,
            Direction::Left => Direction::Right,
            Direction::Right => Direction::Left,
        }
    }

    /// The heading that points the other way.
    #[verifier::when_used_as_spec(spec_opposite)]
    pub fn opposite(self) -> (r: Direction)
        ensures
            r == self.spec_opposite(),
    {
        match self {
            Direction::Up => Direction::Down,
            Direction::Down => Direction::Up,
            Direction::Left => Direction::Right,
            Direction::Right => Direction::Left,
        }
    }
}

/// One step towards lower coordinates: a result at or below 0 re-enters at
/// `MAP_SIZE - 2`.
pub open spec fn step_back(c: int) -> int {
    if c - 1 <= 0 {
        MAP_SIZE - 2
    } else {
        c - 1
    }
}

/// One step towards higher coordinates: a result at or above `MAP_SIZE - 1`
/// re-enters at 1.
pub open spec fn step_forth(c: int) -> int {
    if c + 1 >= MAP_SIZE - 1 {
        1
    } else {
        c + 1
    }
}

impl Position {
    /// Whether the cell lies inside the border ring.
    pub open spec fn interior(self) -> bool {
        1 <= self.x <= MAP_SIZE - 2 && 1 <= self.y <= MAP_SIZE - 2
    }

    /// The neighbouring cell in heading `d`, wrapped at the border ring.
    pub open spec fn spec_shifted(self, d: Direction) -> Position {
        match d {
            Direction::Up => Position { x: self.x, y: step_back(self.y as int) as i32 },
            Direction::Down => Position { x: self.x, y: step_forth(self.y as int) as i32 },
            Direction::Left => Position { x: step_back(self.x as int) as i32, y: self.y },
            Direction::Right => Position { x: step_forth(self.x as int) as i32, y: self.y },
        }
    }

    /// The neighbouring cell in heading `d`, wrapped at the border ring.
    #[verifier::when_used_as_spec(spec_shifted)]
    pub fn shifted(self, d: Direction) -> (r: Position)
        ensures
            r == self.spec_shifted(d),
            self.interior() ==> r.interior(),
    {
        match d {
            Direction::Up => Position { x: self.x, y: back(self.y) },
            Direction::Down => Position { x: self.x, y: forth(self.y) },
            Direction::Left => Position { x: back(self.x), y: self.y },
            Direction::Right => Position { x: forth(self.x), y: self.y },
        }
    }

    /// The square that the cell covers on the screen.
    pub open spec fn spec_tile(self) -> Rect {
        Rect {
            x: (self.x * TILE_SIZE) as i64,
            y: (self.y * TILE_SIZE) as i64,
            width: TILE_SIZE as i64,
            height: TILE_SIZE as i64,
        }
    }

    /// The square that the cell covers on the screen.
    #[verifier::when_used_as_spec(spec_tile)]
    pub fn tile(self) -> (r: Rect)
        ensures
            r == self.spec_tile(),
            r.x == self.x * TILE_SIZE,
            r.y == self.y * TILE_SIZE,
    {
        let x: i64 = widen(self.x);
        let y: i64 = widen(self.y);
        let side: i64 = widen(TILE_SIZE);
        Rect { x: x * side, y: y * side, width: side, height: side }
    }
}

fn back(c: i32) -> (r: i32)
    ensures
        r == step_back(c as int),
{
    if c <= 1 {
        MAP_SIZE - 2
    } else {
        c - 1
    }
}

fn forth(c: i32) -> (r: i32)
    ensures
        r == step_forth(c as int),
{
    if c >= MAP_SIZE - 2 {
        1
    } else {
        c + 1
    }
}

/// The same number in 64 bits.
pub(crate) fn widen(v: i32) -> (r: i64)
    ensures
        r == v,
{
    v as i64
}

/// The four border strips, each one tile thick: top, left, right, bottom.
pub open spec fn border_panels(color: Tint) -> Seq<Panel> {
    seq![
        Panel {
            rect: Rect { x: 0, y: 0, width: SCREEN_WIDTH as i64, height: TILE_SIZE as i64 },
            color,
        },
        Panel {
            rect: Rect { x: 0, y: 0, width: TILE_SIZE as i64, height: SCREEN_HEIGHT as i64 },
            color,
        },
        Panel {
            rect: Rect {
                x: (SCREEN_WIDTH - TILE_SIZE) as i64,
                y: 0,
                width: TILE_SIZE as i64,
                height: SCREEN_HEIGHT as i64,
            },
            color,
        },
        Panel {
            rect: Rect {
                x: 0,
                y: (SCREEN_HEIGHT - TILE_SIZE) as i64,
                width: SCREEN_WIDTH as i64,
                height: TILE_SIZE as i64,
            },
            color,
        },
    ]
}

/// The border ring of the grid as four strips to paint in `color`, in the
/// order top, left, right, bottom.
pub fn draw_border(color: Tint) -> (panels: Vec<Panel>)
    ensures
        panels@ == border_panels(color),
{
    let width: i64 = widen(SCREEN_WIDTH);
    let height: i64 = widen(SCREEN_HEIGHT);
    let tile: i64 = widen(TILE_SIZE);
    let mut panels: Vec<Panel> = Vec::new();
    panels.push(Panel { rect: Rect { x: 0, y: 0, width, height: tile }, color });
    panels.push(Panel { rect: Rect { x: 0, y: 0, width: tile, height }, color });
    panels.push(Panel { rect: Rect { x: width - tile, y: 0, width: tile, height }, color });
    panels.push(Panel { rect: Rect { x: 0, y: height - tile, width, height: tile }, color });
    assert(panels@ =~= border_panels(color));
    panels
}

} // verus!
