use snake_game::game::{contains_pos, Direction, Game, Key, Pos};

fn pos(col: u16, row: u16) -> Pos {
    Pos { col, row }
}

#[test]
fn new_initial_state() {
    let g = Game::new();
    assert_eq!(g.size, 25);
    assert!(g.warping);
    assert_eq!(g.score, 0);
    assert_eq!(g.snake, vec![pos(0, 0)]);
    assert_eq!(g.food, pos(2, 2));
    assert_eq!(g.direction, Direction::Right);
}

#[test]
fn with_config_initial_state() {
    let g = Game::with_config(5, false);
    assert_eq!(g.size, 5);
    assert!(!g.warping);
    assert_eq!(g.score, 0);
    assert_eq!(g.snake, vec![pos(0, 0)]);
    assert_eq!(g.food, pos(2, 2));
    assert_eq!(g.direction, Direction::Right);
}

#[test]
fn reversal_is_rejected_others_accepted() {
    // moving Right: Left is dropped, Up and Down are taken
    let mut g = Game::new();
    g.set_direction(Direction::Left);
    assert_eq!(g.direction, Direction::Right);
    g.set_direction(Direction::Up);
    assert_eq!(g.direction, Direction::Up);
    g.set_direction(Direction::Down);
    assert_eq!(g.direction, Direction::Up);
    g.set_direction(Direction::Left);
    assert_eq!(g.direction, Direction::Left);
    g.set_direction(Direction::Right);
    assert_eq!(g.direction, Direction::Left);
    g.set_direction(Direction::Down);
    g.set_direction(Direction::Up);
    assert_eq!(g.direction, Direction::Down);
}

fn game_with_snake(size: u16, warping: bool, snake: Vec<Pos>, food: Pos, direction: Direction) -> Game {
    Game { size, warping, score: snake.len() - 1, snake, food, direction }
}

#[test]
fn wrap_right_from_last_column() {
    let mut g = game_with_snake(5, true, vec![pos(4, 1)], pos(0, 0), Direction::Right);
    g.move_snake();
    assert_eq!(g.snake[0], pos(0, 1));
    assert_eq!(g.score, 0);
}

#[test]
fn wrap_up_from_first_row() {
    let mut g = game_with_snake(5, true, vec![pos(2, 0)], pos(0, 1), Direction::Up);
    g.move_snake();
    assert_eq!(g.snake[0], pos(2, 4));
}

#[test]
fn wrap_left_from_first_column() {
    let mut g = game_with_snake(5, true, vec![pos(0, 3)], pos(1, 1), Direction::Left);
    g.move_snake();
    assert_eq!(g.snake[0], pos(4, 3));
}

#[test]
fn wrap_down_from_last_row() {
    let mut g = game_with_snake(5, true, vec![pos(2, 4)], pos(0, 0), Direction::Down);
    g.move_snake();
    assert_eq!(g.snake[0], pos(2, 0));
}

#[test]
fn edge_freezes_without_warping() {
    let mut g = game_with_snake(5, false, vec![pos(4, 1)], pos(0, 0), Direction::Right);
    g.move_snake();
    assert_eq!(g.snake[0], pos(4, 1));
    let mut g = game_with_snake(5, false, vec![pos(2, 0)], pos(0, 1), Direction::Up);
    g.move_snake();
    assert_eq!(g.snake[0], pos(2, 0));
}

#[test]
fn eating_food_raises_score_and_grows() {
    let mut g = game_with_snake(5, true, vec![pos(1, 2)], pos(2, 2), Direction::Right);
    g.move_snake();
    assert_eq!(g.score, 1);
    assert_eq!(g.snake, vec![pos(2, 2), pos(1, 2)]);
    assert!(g.food.col < 5 && g.food.row < 5);
    assert!(!contains_pos(&g.snake, g.food));
}

#[test]
fn missing_food_keeps_score_and_length() {
    let mut g = game_with_snake(5, true, vec![pos(1, 1)], pos(3, 3), Direction::Right);
    g.move_snake();
    assert_eq!(g.score, 0);
    assert_eq!(g.snake, vec![pos(2, 1)]);
    assert_eq!(g.food, pos(3, 3));
}

#[test]
fn length_tracks_score_over_many_ticks() {
    let mut g = Game::with_config(6, true);
    for i in 0..30 {
        let key = match i % 7 {
            0 => Some(Key::Arrow(Direction::Down)),
            3 => Some(Key::Arrow(Direction::Right)),
            5 => Some(Key::Other),
            _ => None,
        };
        let cont = g.run(key);
        assert!(cont);
        assert_eq!(g.snake.len(), g.score + 1);
        assert!(!contains_pos(&g.snake, g.food));
        assert!(g.food.col < 6 && g.food.row < 6);
    }
}

#[test]
fn score_never_decreases() {
    let mut g = Game::with_config(6, true);
    let mut last: usize = 0;
    for i in 0..30 {
        let key = if i % 5 == 2 { Some(Key::Arrow(Direction::Down)) } else if i % 5 == 4 { Some(Key::Arrow(Direction::Right)) } else { None };
        g.run(key);
        assert!(g.score >= last);
        last = g.score;
    }
}

#[test]
fn generate_food_lands_on_grid_off_snake() {
    // a crowded 3x3 grid: sampling must keep missing the snake's cells
    let snake = vec![
        pos(0, 0), pos(0, 1), pos(0, 2), pos(1, 0), pos(1, 1), pos(1, 2), pos(2, 0),
    ];
    for _ in 0..50 {
        let mut g = game_with_snake(3, true, snake.clone(), pos(2, 2), Direction::Right);
        g.generate_food();
        assert!(g.food.col < 3 && g.food.row < 3);
        assert!(!contains_pos(&g.snake, g.food));
    }
}

#[test]
fn check_collision_awards_point_and_moves_food() {
    let mut g = game_with_snake(5, true, vec![pos(2, 2), pos(1, 2)], pos(2, 2), Direction::Right);
    g.check_collision();
    assert_eq!(g.score, 2);
    assert_eq!(g.snake, vec![pos(2, 2), pos(1, 2)]);
    assert!(!contains_pos(&g.snake, g.food));
    assert!(g.food.col < 5 && g.food.row < 5);
}

#[test]
fn check_collision_without_overlap_changes_nothing() {
    let mut g = game_with_snake(5, true, vec![pos(2, 2), pos(1, 2)], pos(4, 4), Direction::Right);
    g.check_collision();
    assert_eq!(g.score, 1);
    assert_eq!(g.food, pos(4, 4));
    assert_eq!(g.snake, vec![pos(2, 2), pos(1, 2)]);
}

#[test]
fn five_by_five_scenario() {
    // N = 5, warping on: start at (0,0) facing Right, food at (2,2)
    let mut g = Game::with_config(5, true);
    assert!(g.run(None));
    assert!(g.run(None));
    assert_eq!(g.snake[0], pos(2, 0));
    assert_eq!(g.score, 0);
    // still facing Right: horizontal motion alone never reaches row 2
    assert!(g.run(None));
    assert_eq!(g.snake[0], pos(3, 0));
    assert_eq!(g.score, 0);
    // steer down, then left around to the food at (2,2)
    assert!(g.run(Some(Key::Arrow(Direction::Down))));
    assert_eq!(g.snake[0], pos(4, 0));
    assert!(g.run(None));
    assert_eq!(g.snake[0], pos(4, 1));
    assert!(g.run(Some(Key::Arrow(Direction::Left))));
    assert_eq!(g.snake[0], pos(4, 2));
    assert!(g.run(None));
    assert_eq!(g.snake[0], pos(3, 2));
    assert_eq!(g.score, 0);
    assert!(g.run(None));
    // the head reaches the food: one point, immediate growth, fresh food
    assert_eq!(g.snake[0], pos(2, 2));
    assert_eq!(g.score, 1);
    assert_eq!(g.snake.len(), 2);
    assert_eq!(g.snake, vec![pos(2, 2), pos(3, 2)]);
    assert!(!contains_pos(&g.snake, g.food));
    assert!(g.food.col < 5 && g.food.row < 5);
}

#[test]
fn quit_key_stops_the_game() {
    let mut g = Game::new();
    assert!(g.run(Some(Key::Other)));
    assert!(g.run(None));
    assert!(!g.run(Some(Key::Quit)));
}

#[test]
fn quit_key_stops_after_any_tick() {
    let mut g = Game::with_config(7, true);
    for _ in 0..5 {
        assert!(g.run(None));
    }
    assert!(!g.run(Some(Key::Quit)));
}

#[test]
fn as_real_coords_places_cells_inside_the_frame() {
    let g = Game::new();
    assert_eq!(g.as_real_coords(pos(0, 0), pos(10, 5)), pos(11, 6));
    assert_eq!(g.as_real_coords(pos(3, 2), pos(10, 5)), pos(17, 8));
}

#[test]
fn handle_key_reports_and_steers() {
    let mut g = Game::new();
    assert!(g.handle_key(Some(Key::Arrow(Direction::Down))));
    assert_eq!(g.direction, Direction::Down);
    assert!(g.handle_key(Some(Key::Arrow(Direction::Up))));
    assert_eq!(g.direction, Direction::Down);
    assert!(g.handle_key(Some(Key::Other)));
    assert_eq!(g.direction, Direction::Down);
    assert!(g.handle_key(None));
    assert!(!g.handle_key(Some(Key::Quit)));
    assert_eq!(g.direction, Direction::Down);
}

#[test]
fn contains_pos_reports_membership() {
    let v = vec![pos(1, 2), pos(3, 4)];
    assert!(contains_pos(&v, pos(1, 2)));
    assert!(contains_pos(&v, pos(3, 4)));
    assert!(!contains_pos(&v, pos(2, 1)));
    assert!(!contains_pos(&Vec::new(), pos(0, 0)));
}
