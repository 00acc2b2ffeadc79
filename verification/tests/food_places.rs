use snake_game::food::Food;
use snake_game::snake::Snake;
use snake_game::utils::{Direction, Panel, Position, Rect, Tint};
use std::collections::VecDeque;

fn at(x: i32, y: i32) -> Position {
    Position { x, y }
}

fn full_board() -> Snake {
    let mut body: VecDeque<Position> = VecDeque::new();
    for x in 1..=28 {
        for y in 1..=28 {
            body.push_back(at(x, y));
        }
    }
    Snake { body, direction: Direction::Right, next_direction: Direction::Right }
}

#[test]
fn new_food_takes_the_chosen_free_cell() {
    let snake = Snake::new();
    assert_eq!(Food::new(0, &snake).position, at(1, 1));
    assert_eq!(Food::new(41, &snake).position, at(2, 14));
    assert_eq!(Food::new(42, &snake).position, at(2, 16));
    assert_eq!(Food::new(156, &snake).position, at(6, 20));
    assert_eq!(Food::new(780, &snake).position, at(28, 28));
}

#[test]
fn a_choice_beyond_the_free_cells_counts_round() {
    let snake = Snake::new();
    assert_eq!(Food::new(781, &snake).position, at(1, 1));
    assert_eq!(Food::new(781 + 42, &snake).position, at(2, 16));
    assert_eq!(Food::new(781 * 3 + 780, &snake).position, at(28, 28));
}

#[test]
fn new_food_never_lies_on_the_snake() {
    let snake = Snake::new();
    for pick in (0..2000usize).chain([usize::MAX, usize::MAX / 2]) {
        let food = Food::new(pick, &snake);
        assert!(!snake.occupies(food.position));
        assert!(food.position != at(4, 15));
        assert!(food.position != at(3, 15));
        assert!(food.position != at(2, 15));
        assert!(1 <= food.position.x && food.position.x <= 28);
        assert!(1 <= food.position.y && food.position.y <= 28);
    }
}

#[test]
fn the_last_choice_is_one_less_than_the_number_of_free_cells() {
    assert_eq!(Food::last_choice(&Snake::new()), Some(780));
    let body: VecDeque<Position> = vec![at(1, 1), at(0, 0)].into_iter().collect();
    let short = Snake { body, direction: Direction::Up, next_direction: Direction::Up };
    assert_eq!(Food::last_choice(&short), Some(782));
}

#[test]
fn a_full_board_has_no_choice() {
    assert_eq!(Food::last_choice(&full_board()), None);
}

#[test]
fn no_free_cell_is_listed_twice() {
    let cells = Food::free_cells(&Snake::new());
    for i in 0..cells.len() {
        for j in (i + 1)..cells.len() {
            assert_ne!(cells[i], cells[j]);
        }
    }
}

#[test]
fn food_is_painted_magenta_on_its_tile() {
    let food = Food { position: at(7, 22) };
    assert_eq!(
        food.draw(),
        Panel { rect: Rect { x: 210, y: 660, width: 30, height: 30 }, color: Tint::Magenta }
    );
}

#[test]
fn free_cells_are_the_interior_without_the_snake() {
    let snake = Snake::new();
    let cells = Food::free_cells(&snake);
    assert_eq!(cells.len(), 28 * 28 - 3);
    assert_eq!(cells[0], at(1, 1));
    assert_eq!(cells[27], at(1, 28));
    assert_eq!(cells[28], at(2, 1));
    assert_eq!(cells[41], at(2, 14));
    assert_eq!(cells[42], at(2, 16));
    assert_eq!(cells[780], at(28, 28));
    for c in cells.iter() {
        assert!(1 <= c.x && c.x <= 28 && 1 <= c.y && c.y <= 28);
        assert!(!snake.occupies(*c));
    }
    for x in 1..=28 {
        for y in 1..=28 {
            assert_eq!(cells.contains(&at(x, y)), !snake.occupies(at(x, y)));
        }
    }
}

#[test]
fn respawn_takes_the_chosen_free_cell() {
    let snake = Snake::new();
    let mut food = Food { position: at(4, 15) };
    food.respawn(0, &snake);
    assert_eq!(food.position, at(1, 1));
    food.respawn(42, &snake);
    assert_eq!(food.position, at(2, 16));
    food.respawn(780, &snake);
    assert_eq!(food.position, at(28, 28));
}

#[test]
fn respawn_never_lands_on_the_snake() {
    let snake = Snake::new();
    let mut food = Food { position: at(4, 15) };
    for pick in 0..781 {
        food.respawn(pick, &snake);
        assert!(!snake.occupies(food.position));
        assert!(1 <= food.position.x && food.position.x <= 28);
        assert!(1 <= food.position.y && food.position.y <= 28);
    }
}

#[test]
fn respawn_without_a_choice_leaves_the_food() {
    let snake = Snake::new();
    let mut food = Food { position: at(9, 9) };
    food.respawn(781, &snake);
    assert_eq!(food.position, at(9, 9));
    food.respawn(usize::MAX, &snake);
    assert_eq!(food.position, at(9, 9));
}

#[test]
fn respawn_on_a_full_board_leaves_the_food() {
    let snake = full_board();
    assert_eq!(Food::free_cells(&snake).len(), 0);
    let mut food = Food { position: at(3, 3) };
    food.respawn(0, &snake);
    assert_eq!(food.position, at(3, 3));
}

#[test]
fn cells_off_the_board_do_not_count_as_taken() {
    let body: VecDeque<Position> = vec![at(0, 0), at(29, 29), at(1, 1)].into_iter().collect();
    let snake = Snake { body, direction: Direction::Up, next_direction: Direction::Up };
    let cells = Food::free_cells(&snake);
    assert_eq!(cells.len(), 783);
    assert_eq!(cells[0], at(1, 2));
}
