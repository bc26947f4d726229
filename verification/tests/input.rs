use snake_game::input::{tick_due, BOARD_HEIGHT, BOARD_WIDTH, POLL_MILLIS, TICK_MILLIS};
use snake_game::{Direction, Game, Key};

#[test]
fn session_constants() {
    assert_eq!(BOARD_WIDTH, 40);
    assert_eq!(BOARD_HEIGHT, 20);
    assert_eq!(TICK_MILLIS, 75);
    assert_eq!(POLL_MILLIS, 50);
}

#[test]
fn tick_is_due_from_the_interval_on() {
    assert!(!tick_due(0));
    assert!(!tick_due(74));
    assert!(tick_due(75));
    assert!(tick_due(76));
    assert!(tick_due(u64::MAX));
}

#[test]
fn arrow_keys_turn_the_snake() {
    let mut game = Game::new(40, 20);
    game.handle_key(Key::Up);
    assert_eq!(game.snake.direction, Direction::Up);
    game.handle_key(Key::Left);
    assert_eq!(game.snake.direction, Direction::Left);
    game.handle_key(Key::Down);
    assert_eq!(game.snake.direction, Direction::Down);
    game.handle_key(Key::Right);
    assert_eq!(game.snake.direction, Direction::Right);
    assert!(!game.game_over);
    assert_eq!(game.snake.body, vec![(20, 10), (19, 10), (18, 10)]);
}

#[test]
fn arrow_key_against_the_direction_is_ignored() {
    let mut game = Game::new(40, 20);
    game.handle_key(Key::Left);
    assert_eq!(game.snake.direction, Direction::Right);
    game.handle_key(Key::Down);
    game.handle_key(Key::Up);
    assert_eq!(game.snake.direction, Direction::Down);
}

#[test]
fn escape_and_q_end_the_game() {
    let mut game = Game::new(40, 20);
    game.handle_key(Key::Esc);
    assert!(game.game_over);
    let mut game = Game::new(40, 20);
    game.handle_key(Key::Char('q'));
    assert!(game.game_over);
    assert_eq!(game.snake.direction, Direction::Right);
    assert_eq!(game.score, 0);
}

#[test]
fn other_keys_change_nothing() {
    let mut game = Game::new(40, 20);
    game.food = (3, 3);
    for key in [Key::Other, Key::Char('Q'), Key::Char('x'), Key::Char(' ')] {
        game.handle_key(key);
        assert!(!game.game_over);
        assert_eq!(game.snake.direction, Direction::Right);
        assert_eq!(game.snake.body, vec![(20, 10), (19, 10), (18, 10)]);
        assert_eq!(game.food, (3, 3));
        assert_eq!(game.score, 0);
    }
}

#[test]
fn keys_after_the_end_do_not_revive_the_game() {
    let mut game = Game::new(40, 20);
    game.handle_key(Key::Esc);
    game.handle_key(Key::Up);
    game.handle_key(Key::Other);
    assert!(game.game_over);
    assert_eq!(game.snake.direction, Direction::Up);
}
