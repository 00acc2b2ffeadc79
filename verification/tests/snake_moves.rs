use snake_game::snake::Snake;
use snake_game::utils::{
    draw_border, Direction, Panel, Position, Rect, Tint, FONT_SIZE, MAP_SIZE, SCREEN_HEIGHT,
    SCREEN_WIDTH, TILE_SIZE,
};
use std::collections::VecDeque;

fn cell(x: i32, y: i32) -> Position {
    Position { x, y }
}

fn snake_of(cells: &[(i32, i32)], direction: Direction, next_direction: Direction) -> Snake {
    let body: VecDeque<Position> = cells.iter().map(|&(x, y)| cell(x, y)).collect();
    Snake { body, direction, next_direction }
}

fn cells_of(snake: &Snake) -> Vec<(i32, i32)> {
    snake.body.iter().map(|p| (p.x, p.y)).collect()
}

#[test]
fn constants_describe_a_square_board() {
    assert_eq!(TILE_SIZE, 30);
    assert_eq!(MAP_SIZE, 30);
    assert_eq!(SCREEN_WIDTH, TILE_SIZE * MAP_SIZE);
    assert_eq!(SCREEN_HEIGHT, TILE_SIZE * MAP_SIZE);
    assert_eq!(FONT_SIZE, 21);
}

#[test]
fn new_snake_has_three_cells_in_the_middle_row() {
    let snake = Snake::new();
    assert_eq!(cells_of(&snake), vec![(4, 15), (3, 15), (2, 15)]);
    assert_eq!(snake.direction, Direction::Right);
    assert_eq!(snake.next_direction, Direction::Left);
}

#[test]
fn update_moves_one_cell_to_the_right() {
    let mut snake = snake_of(&[(4, 15), (3, 15), (2, 15)], Direction::Right, Direction::Right);
    snake.update();
    assert_eq!(cells_of(&snake), vec![(5, 15), (4, 15), (3, 15)]);
    assert_eq!(snake.direction, Direction::Right);
    assert_eq!(snake.next_direction, Direction::Right);
}

#[test]
fn update_of_a_new_snake_drops_the_pending_reversal() {
    let mut snake = Snake::new();
    snake.update();
    assert_eq!(cells_of(&snake), vec![(5, 15), (4, 15), (3, 15)]);
    assert_eq!(snake.direction, Direction::Right);
    assert_eq!(snake.next_direction, Direction::Right);
}

#[test]
fn reversal_from_right_to_left_is_ignored() {
    let mut snake = snake_of(&[(10, 10), (9, 10), (8, 10)], Direction::Right, Direction::Left);
    snake.update();
    assert_eq!(snake.direction, Direction::Right);
    assert_eq!(snake.next_direction, Direction::Right);
    assert_eq!(cells_of(&snake), vec![(11, 10), (10, 10), (9, 10)]);
}

#[test]
fn reversal_is_ignored_for_every_heading() {
    let all = [Direction::Up, Direction::Down, Direction::Left, Direction::Right];
    for heading in all {
        let mut snake = snake_of(&[(10, 10), (10, 11), (10, 12)], heading, heading.opposite());
        snake.update();
        assert_eq!(snake.direction, heading);
        assert_eq!(snake.next_direction, heading);
        assert_eq!(snake.body.len(), 3);
    }
}

#[test]
fn opposite_pairs_up_with_down_and_left_with_right() {
    assert_eq!(Direction::Up.opposite(), Direction::Down);
    assert_eq!(Direction::Down.opposite(), Direction::Up);
    assert_eq!(Direction::Left.opposite(), Direction::Right);
    assert_eq!(Direction::Right.opposite(), Direction::Left);
}

#[test]
fn a_side_turn_is_taken() {
    let mut snake = snake_of(&[(10, 10), (9, 10), (8, 10)], Direction::Right, Direction::Up);
    snake.update();
    assert_eq!(snake.direction, Direction::Up);
    assert_eq!(cells_of(&snake), vec![(10, 9), (10, 10), (9, 10)]);
    snake.next_direction = Direction::Left;
    snake.update();
    assert_eq!(snake.direction, Direction::Left);
    assert_eq!(cells_of(&snake), vec![(9, 9), (10, 9), (10, 10)]);
}

#[test]
fn head_wraps_from_the_right_edge_to_column_one() {
    let mut snake = snake_of(&[(28, 15), (27, 15), (26, 15)], Direction::Right, Direction::Right);
    snake.update();
    assert_eq!(cells_of(&snake), vec![(1, 15), (28, 15), (27, 15)]);
}

#[test]
fn head_wraps_at_each_of_the_four_edges() {
    assert_eq!(cell(28, 15).shifted(Direction::Right), cell(1, 15));
    assert_eq!(cell(1, 15).shifted(Direction::Left), cell(28, 15));
    assert_eq!(cell(7, 1).shifted(Direction::Up), cell(7, 28));
    assert_eq!(cell(7, 28).shifted(Direction::Down), cell(7, 1));
    assert_eq!(cell(27, 15).shifted(Direction::Right), cell(28, 15));
    assert_eq!(cell(2, 15).shifted(Direction::Left), cell(1, 15));
    assert_eq!(cell(7, 2).shifted(Direction::Up), cell(7, 1));
    assert_eq!(cell(7, 27).shifted(Direction::Down), cell(7, 28));
}

#[test]
fn cells_outside_the_board_come_back_inside() {
    assert_eq!(cell(0, 5).shifted(Direction::Left), cell(28, 5));
    assert_eq!(cell(29, 5).shifted(Direction::Right), cell(1, 5));
    assert_eq!(cell(5, i32::MIN).shifted(Direction::Up), cell(5, 28));
    assert_eq!(cell(5, i32::MAX).shifted(Direction::Down), cell(5, 1));
}

#[test]
fn a_run_of_turns_moves_the_head_one_cell_each() {
    let mut snake = Snake::new();
    let turns = [
        Direction::Right,
        Direction::Up,
        Direction::Up,
        Direction::Left,
        Direction::Down,
    ];
    let heads = [(5, 15), (5, 14), (5, 13), (4, 13), (4, 14)];
    for (turn, head) in turns.iter().zip(heads.iter()) {
        snake.next_direction = *turn;
        snake.update();
        assert_eq!(snake.direction, *turn);
        assert_eq!((snake.body[0].x, snake.body[0].y), *head);
        assert_eq!(snake.body.len(), 3);
    }
    assert_eq!(cells_of(&snake), vec![(4, 14), (4, 13), (5, 13)]);
}

#[test]
fn a_full_lap_to_the_right_returns_to_the_start() {
    let mut snake = Snake::new();
    for _ in 0..28 {
        snake.next_direction = Direction::Right;
        snake.update();
    }
    assert_eq!(cells_of(&snake), vec![(4, 15), (3, 15), (2, 15)]);
}

#[test]
fn update_keeps_the_length() {
    let mut snake = snake_of(
        &[(5, 5), (6, 5), (6, 4), (5, 4), (4, 4)],
        Direction::Left,
        Direction::Down,
    );
    snake.update();
    assert_eq!(snake.body.len(), 5);
    assert_eq!(cells_of(&snake), vec![(5, 6), (5, 5), (6, 5), (6, 4), (5, 4)]);
}

#[test]
fn update_works_on_a_snake_of_two_cells() {
    let mut snake = snake_of(&[(5, 5), (4, 5)], Direction::Right, Direction::Right);
    snake.update();
    assert_eq!(cells_of(&snake), vec![(6, 5), (5, 5)]);
}

#[test]
fn grow_doubles_the_tail() {
    let mut snake = snake_of(&[(5, 5), (4, 5), (3, 5)], Direction::Right, Direction::Right);
    snake.grow();
    assert_eq!(cells_of(&snake), vec![(5, 5), (4, 5), (3, 5), (3, 5)]);
    snake.update();
    assert_eq!(cells_of(&snake), vec![(6, 5), (5, 5), (4, 5), (3, 5)]);
}

#[test]
fn occupies_finds_each_cell_of_the_body_and_no_other() {
    let snake = Snake::new();
    assert!(snake.occupies(cell(4, 15)));
    assert!(snake.occupies(cell(3, 15)));
    assert!(snake.occupies(cell(2, 15)));
    assert!(!snake.occupies(cell(5, 15)));
    assert!(!snake.occupies(cell(15, 4)));
}

#[test]
fn bites_itself_looks_at_the_head_only() {
    let looped = snake_of(
        &[(5, 4), (5, 5), (6, 5), (6, 4), (5, 4)],
        Direction::Up,
        Direction::Up,
    );
    assert!(looped.bites_itself());
    let grown = snake_of(&[(5, 5), (4, 5), (3, 5), (3, 5)], Direction::Right, Direction::Right);
    assert!(!grown.bites_itself());
    assert!(!Snake::new().bites_itself());
}

#[test]
fn snake_is_drawn_with_a_green_head_and_white_cells() {
    let snake = Snake::new();
    let panels = snake.draw();
    let tile = |x: i64, y: i64| Rect { x, y, width: 30, height: 30 };
    assert_eq!(
        panels,
        vec![
            Panel { rect: tile(120, 450), color: Tint::Green },
            Panel { rect: tile(90, 450), color: Tint::RayWhite },
            Panel { rect: tile(60, 450), color: Tint::RayWhite },
        ]
    );
}

#[test]
fn a_tile_is_thirty_pixels_wide_at_thirty_times_its_cell() {
    assert_eq!(cell(28, 1).tile(), Rect { x: 840, y: 30, width: 30, height: 30 });
    assert_eq!(
        cell(i32::MAX, i32::MIN).tile(),
        Rect { x: 64424509410, y: -64424509440, width: 30, height: 30 }
    );
}

#[test]
fn border_is_four_strips_one_tile_thick() {
    let panels = draw_border(Tint::Red);
    assert_eq!(
        panels,
        vec![
            Panel { rect: Rect { x: 0, y: 0, width: 900, height: 30 }, color: Tint::Red },
            Panel { rect: Rect { x: 0, y: 0, width: 30, height: 900 }, color: Tint::Red },
            Panel { rect: Rect { x: 870, y: 0, width: 30, height: 900 }, color: Tint::Red },
            Panel { rect: Rect { x: 0, y: 870, width: 900, height: 30 }, color: Tint::Red },
        ]
    );
}
