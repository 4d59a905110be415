use snake_core::game::{CellKind, Game, Key};
use snake_core::snake::{Block, Direction};

fn assert_initial(g: &Game, width: i32, height: i32) {
    assert_eq!(g.snake.head_position(), (2, 2));
    assert_eq!(g.snake.length(), 3);
    assert_eq!(g.snake.head_direction(), Direction::Right);
    assert!(g.food_exist);
    assert_eq!((g.food_x, g.food_y), (5, 3));
    assert_eq!((g.width, g.height), (width, height));
    assert!(!g.is_game_over);
    assert_eq!(g.waiting_time, 0);
    assert_eq!(g.obstacles.len(), 0);
    assert_eq!(g.attach_chance, 60);
}

#[test]
fn new_game_matches_the_documented_initial_state() {
    let g = Game::new(10, 10);
    assert_initial(&g, 10, 10);
}

#[test]
fn update_moves_the_snake_once_per_crossed_period() {
    let mut g = Game::new(10, 10);
    // Each 90 ms tick crosses the 80 ms moving period: one cell to the right,
    // and the timer restarts at zero.
    for step in 1..=6 {
        g.update(90);
        assert_eq!(g.snake.head_position(), (2 + step, 2));
        assert_eq!(g.waiting_time, 0);
        assert!(!g.is_game_over);
        assert_eq!(g.snake.length(), 3);
    }
    // A tick below the period accumulates time but does not move.
    g.update(40);
    assert_eq!(g.snake.head_position(), (8, 2));
    assert_eq!(g.waiting_time, 40);
}

#[test]
fn eating_grows_once_spawns_one_obstacle_and_bumps_the_chance() {
    let mut g = Game::new(10, 10);
    // Food directly in front of the head: the next tick eats it.
    g.food_x = 3;
    g.food_y = 2;
    g.update_snake(None);
    assert_eq!(g.snake.head_position(), (3, 2));
    assert!(!g.food_exist);
    assert_eq!(g.snake.length(), 4);
    assert_eq!(g.obstacles.len(), 1);
    assert_eq!(g.attach_chance, 62);
    assert!(!g.is_game_over);
    // The spawned obstacle avoids the snake and the (now absent) food.
    let ob = g.obstacles[0];
    for i in 0..g.snake.body.len() - 1 {
        assert_ne!((ob.x, ob.y), (g.snake.body[i].x, g.snake.body[i].y));
    }
}

#[test]
fn a_tick_without_food_under_it_changes_nothing_but_position() {
    let mut g = Game::new(10, 10);
    g.update_snake(None);
    assert!(g.food_exist);
    assert_eq!(g.snake.length(), 3);
    assert_eq!(g.obstacles.len(), 0);
    assert_eq!(g.attach_chance, 60);
}

#[test]
fn missing_food_is_replaced_on_an_interior_free_cell() {
    let mut g = Game::new(10, 10);
    g.food_x = 3;
    g.food_y = 2;
    g.update_snake(None);
    assert!(!g.food_exist);
    g.update(10);
    assert!(g.food_exist);
    assert!(g.food_x >= 1 && g.food_x <= 8);
    assert!(g.food_y >= 1 && g.food_y <= 8);
    assert!(!g.snake.is_overlap_except_tail(g.food_x, g.food_y));
    // 10 ms is under the moving period: the snake has not moved again.
    assert_eq!(g.snake.head_position(), (3, 2));
    assert_eq!(g.waiting_time, 10);
}

#[test]
fn driving_into_the_border_ends_the_game_and_leaves_the_body() {
    let mut g = Game::new(10, 10);
    g.key_pressed(Key::Up);
    assert_eq!(g.snake.head_position(), (2, 1));
    g.key_pressed(Key::Left);
    assert_eq!(g.snake.head_position(), (1, 1));
    let body_before: Vec<Block> = g.snake.body.iter().cloned().collect();
    // The next cell to the left is x == 0: the border.
    g.key_pressed(Key::Left);
    assert!(g.is_game_over);
    let body_after: Vec<Block> = g.snake.body.iter().cloned().collect();
    assert_eq!(body_before, body_after);
    assert_eq!(g.waiting_time, 0);
}

#[test]
fn reversal_and_foreign_keys_are_ignored() {
    let mut g = Game::new(10, 10);
    // Facing right: Left would be an instant reversal.
    g.key_pressed(Key::Left);
    assert_eq!(g.snake.head_position(), (2, 2));
    g.key_pressed(Key::Other);
    assert_eq!(g.snake.head_position(), (2, 2));
    // Any key is ignored once the game is over.
    g.key_pressed(Key::Up);
    g.key_pressed(Key::Up);
    assert!(g.is_game_over);
    let head = g.snake.head_position();
    g.key_pressed(Key::Down);
    assert_eq!(g.snake.head_position(), head);
    assert!(g.is_game_over);
}

#[test]
fn restart_after_the_delay_matches_a_fresh_game() {
    let mut g = Game::new(10, 10);
    // Eat once so that the state differs from the initial one.
    g.food_x = 3;
    g.food_y = 2;
    g.update_snake(None);
    assert_eq!(g.attach_chance, 62);
    assert_eq!(g.obstacles.len(), 1);
    // Die against the top border.
    g.key_pressed(Key::Up);
    g.key_pressed(Key::Up);
    assert!(g.is_game_over);
    // Below the restart delay nothing happens but waiting.
    g.update(1000);
    assert!(g.is_game_over);
    assert_eq!(g.waiting_time, 1000);
    // Crossing one second restarts the game.
    g.update(1);
    assert_initial(&g, 10, 10);
}

#[test]
fn attach_chance_never_decreases_and_never_passes_the_cap() {
    let mut g = Game::new(30, 30);
    let mut prev = g.attach_chance;
    let mut meals = 0;
    while !g.is_game_over && meals < 24 {
        let (hx, hy) = g.snake.head_position();
        if hx + 1 > 28 {
            break;
        }
        g.food_x = hx + 1;
        g.food_y = hy;
        g.food_exist = true;
        let len = g.snake.length();
        let obs = g.obstacles.len();
        g.update_snake(None);
        if g.is_game_over {
            break;
        }
        meals += 1;
        assert!(g.attach_chance >= prev);
        assert!(g.attach_chance <= 100);
        assert_eq!(g.snake.length(), len + 1);
        // One obstacle per meal, three once the chance passed 99 hundredths.
        let spawned = g.obstacles.len() - obs;
        if g.attach_chance > 99 {
            assert_eq!(spawned, 3);
        } else {
            assert_eq!(spawned, 1);
        }
        prev = g.attach_chance;
    }
    assert!(meals >= 1);
}

#[test]
fn draw_plan_lists_snake_then_food_then_obstacles() {
    let mut g = Game::new(10, 10);
    let cells = g.draw_cells();
    assert_eq!(
        cells,
        vec![
            (2, 2, CellKind::SnakeBody),
            (1, 2, CellKind::SnakeBody),
            (0, 2, CellKind::SnakeBody),
            (5, 3, CellKind::Food),
        ]
    );
    assert_eq!(
        g.border_rects(),
        vec![(0, 0, 10, 1), (0, 9, 10, 1), (0, 0, 1, 10), (9, 0, 1, 10)]
    );
    // After a meal the plan has no food entry but one obstacle entry.
    g.food_x = 3;
    g.food_y = 2;
    g.update_snake(None);
    let cells = g.draw_cells();
    assert_eq!(cells.len(), 5);
    assert_eq!(cells[0], (3, 2, CellKind::SnakeBody));
    assert_eq!(cells[4].2, CellKind::Obstacle);
}

#[test]
fn waiting_time_accumulates_saturating() {
    let mut g = Game::new(10, 10);
    g.update(30);
    assert_eq!(g.waiting_time, 30);
    g.update(30);
    assert_eq!(g.waiting_time, 60);
    assert_eq!(g.snake.head_position(), (2, 2));
    g.update(30);
    // 90 ms crossed the period: the snake moved and the timer restarted.
    assert_eq!(g.waiting_time, 0);
    assert_eq!(g.snake.head_position(), (3, 2));
    // Accumulation near the top of the type saturates instead of wrapping:
    // the tick still plays out normally.
    g.waiting_time = u64::MAX - 5;
    g.update(1000);
    assert_eq!(g.snake.head_position(), (4, 2));
    assert_eq!(g.waiting_time, 0);
}
