use snake_game::food::{count_free_cells, nth_free_cell, occupies};
use snake_game::{Direction, Game, Snake};

fn game_with(body: Vec<(u16, u16)>, width: u16, height: u16) -> Game {
    Game {
        snake: Snake { body, direction: Direction::Right },
        food: (0, 0),
        score: 0,
        game_over: false,
        width,
        height,
    }
}

#[test]
fn occupies_finds_every_segment() {
    let body = vec![(3, 3), (3, 2), (2, 2)];
    assert!(occupies(&body, (3, 3)));
    assert!(occupies(&body, (3, 2)));
    assert!(occupies(&body, (2, 2)));
    assert!(!occupies(&body, (2, 3)));
    assert!(!occupies(&body, (3, 1)));
    assert!(!occupies(&Vec::new(), (0, 0)));
}

#[test]
fn empty_board_has_every_playable_cell_free() {
    assert_eq!(count_free_cells(&Vec::new(), 40, 20), 39 * 19);
    assert_eq!(count_free_cells(&Vec::new(), 5, 5), 16);
    assert_eq!(count_free_cells(&Vec::new(), 2, 2), 1);
}

#[test]
fn boards_without_interior_have_no_free_cell() {
    assert_eq!(count_free_cells(&Vec::new(), 0, 0), 0);
    assert_eq!(count_free_cells(&Vec::new(), 1, 10), 0);
    assert_eq!(count_free_cells(&Vec::new(), 10, 1), 0);
    assert_eq!(count_free_cells(&Vec::new(), 0, 10), 0);
}

#[test]
fn segments_on_the_wall_cover_nothing() {
    let body = vec![(0, 0), (5, 5), (0, 3), (3, 0), (9, 9)];
    assert_eq!(count_free_cells(&body, 5, 5), 16);
}

#[test]
fn repeated_segments_cover_one_cell() {
    let body = vec![(1, 1), (1, 1), (2, 1), (2, 1)];
    assert_eq!(count_free_cells(&body, 5, 5), 14);
}

#[test]
fn free_cells_come_in_reading_order() {
    let body = vec![(1, 1), (2, 2)];
    assert_eq!(count_free_cells(&body, 4, 4), 7);
    let expected = [(2, 1), (3, 1), (1, 2), (3, 2), (1, 3), (2, 3), (3, 3)];
    for (k, cell) in expected.iter().enumerate() {
        assert_eq!(nth_free_cell(&body, 4, 4, k as u64), *cell);
    }
}

#[test]
fn nth_free_cell_on_an_empty_board() {
    let body = Vec::new();
    assert_eq!(nth_free_cell(&body, 40, 20, 0), (1, 1));
    assert_eq!(nth_free_cell(&body, 40, 20, 38), (39, 1));
    assert_eq!(nth_free_cell(&body, 40, 20, 39), (1, 2));
    assert_eq!(nth_free_cell(&body, 40, 20, 39 * 19 - 1), (39, 19));
}

#[test]
fn every_free_cell_is_listed_once() {
    let body = vec![(3, 3), (3, 2), (2, 2), (7, 1)];
    let n: u64 = count_free_cells(&body, 9, 6);
    assert_eq!(n, 8 * 5 - 4);
    let mut seen = Vec::new();
    for k in 0..n {
        let cell = nth_free_cell(&body, 9, 6, k);
        assert!(1 <= cell.0 && cell.0 < 9 && 1 <= cell.1 && cell.1 < 6);
        assert!(!body.contains(&cell));
        assert!(!seen.contains(&cell));
        seen.push(cell);
    }
    for x in 1..9u16 {
        for y in 1..6u16 {
            assert_eq!(seen.contains(&(x, y)), !body.contains(&(x, y)));
        }
    }
}

#[test]
fn place_food_picks_by_index() {
    let mut game = game_with(vec![(1, 1)], 3, 3);
    game.place_food(1);
    assert_eq!(game.food, (1, 2));
    game.place_food(0);
    assert_eq!(game.food, (2, 1));
    game.place_food(2);
    assert_eq!(game.food, (2, 2));
    assert_eq!(game.snake.body, vec![(1, 1)]);
    assert_eq!(game.score, 0);
    assert!(!game.game_over);
}

#[test]
fn spawn_food_lands_on_a_free_playable_cell() {
    let mut game = Game::new(40, 20);
    for _ in 0..500 {
        game.spawn_food();
        assert!(1 <= game.food.0 && game.food.0 < 40);
        assert!(1 <= game.food.1 && game.food.1 < 20);
        assert!(!game.snake.body.contains(&game.food));
    }
    assert_eq!(game.snake.body, vec![(20, 10), (19, 10), (18, 10)]);
    assert_eq!(game.score, 0);
    assert!(!game.game_over);
}

#[test]
fn spawn_food_takes_the_only_free_cell() {
    let mut game = game_with(vec![(1, 1), (2, 1), (1, 2)], 3, 3);
    for _ in 0..50 {
        game.food = (0, 0);
        game.spawn_food();
        assert_eq!(game.food, (2, 2));
    }
}

#[test]
fn spawn_food_on_a_one_cell_board() {
    let mut game = game_with(vec![(0, 1)], 2, 2);
    game.spawn_food();
    assert_eq!(game.food, (1, 1));
}

#[test]
fn spawn_food_reaches_every_free_cell() {
    let mut game = game_with(vec![(1, 1)], 3, 3);
    let mut hits = [0usize; 3];
    for _ in 0..600 {
        game.spawn_food();
        match game.food {
            (2, 1) => hits[0] += 1,
            (1, 2) => hits[1] += 1,
            (2, 2) => hits[2] += 1,
            other => panic!("food on {:?}", other),
        }
    }
    assert!(hits[0] > 0 && hits[1] > 0 && hits[2] > 0);
}

#[test]
fn spawn_food_avoids_a_crowded_snake() {
    let mut body = Vec::new();
    for y in 1..5u16 {
        for x in 1..5u16 {
            if (x, y) != (3, 2) && (x, y) != (4, 4) {
                body.push((x, y));
            }
        }
    }
    let mut game = game_with(body, 5, 5);
    for _ in 0..100 {
        game.spawn_food();
        assert!(game.food == (3, 2) || game.food == (4, 4));
    }
}

#[test]
fn free_cells_are_listed_in_reading_order() {
    let body = vec![(3, 3), (3, 2), (2, 2), (7, 1), (1, 5)];
    let n: u64 = count_free_cells(&body, 9, 6);
    for k in 1..n {
        let a = nth_free_cell(&body, 9, 6, k - 1);
        let b = nth_free_cell(&body, 9, 6, k);
        assert!(a.1 < b.1 || (a.1 == b.1 && a.0 < b.0));
    }
}

#[test]
fn each_segment_covers_at_most_one_cell() {
    let bodies: Vec<Vec<(u16, u16)>> = vec![
        vec![],
        vec![(1, 1)],
        vec![(1, 1), (1, 1), (1, 1)],
        vec![(0, 0), (6, 4), (3, 3)],
        vec![(1, 1), (2, 1), (3, 1), (4, 1), (5, 1), (5, 2), (5, 3)],
    ];
    for body in &bodies {
        let free: u64 = count_free_cells(body, 6, 4);
        assert!(free + body.len() as u64 >= 5 * 3);
        assert!(free <= 5 * 3);
    }
}

#[test]
fn a_short_snake_leaves_room_for_food() {
    let mut game = game_with(vec![(1, 1), (2, 1), (2, 2)], 3, 3);
    assert!(count_free_cells(&game.snake.body, 3, 3) > 0);
    game.spawn_food();
    assert_eq!(game.food, (1, 2));
}
