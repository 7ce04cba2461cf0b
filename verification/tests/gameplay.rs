//! Gameplay: direction buffering, growth, win and loss.

use snake_game::{Direction, GameStatus, Host, Lcg, Snake, World};

/// A host whose random draws follow a script (each draw is taken modulo the
/// requested bound) and which records every notification.
struct ScriptHost {
    draws: Vec<usize>,
    next: usize,
    messages: Vec<String>,
}

impl ScriptHost {
    fn new(draws: Vec<usize>) -> ScriptHost {
        ScriptHost { draws, next: 0, messages: Vec::new() }
    }
}

impl Host for ScriptHost {
    fn random_int(&mut self, max_exclusive: usize) -> usize {
        let raw = if self.next < self.draws.len() { self.draws[self.next] } else { 0 };
        self.next += 1;
        raw % max_exclusive
    }

    fn notify(&mut self, message: &str) {
        self.messages.push(message.to_string());
    }
}

#[test]
fn new_world_lays_out_snake_and_reward() {
    let mut host = ScriptHost::new(vec![9]);
    let world = World::new(&mut host, 4, 5, 3, Direction::Right);
    assert_eq!(world.width(), 4);
    assert_eq!(world.size(), 16);
    assert_eq!(world.snake_length(), 3);
    assert_eq!(world.snake_head_idx(), 5);
    assert_eq!(world.snake_cells(), vec![5, 4, 3]);
    assert_eq!(world.reward_cell(), 9);
    assert_eq!(world.status(), None);
}

#[test]
fn reward_rejection_sampling_skips_occupied_cells() {
    // the first three draws land on the body and must be rejected
    let mut host = ScriptHost::new(vec![5, 4, 3, 9]);
    let world = World::new(&mut host, 4, 5, 3, Direction::Right);
    assert_eq!(world.reward_cell(), 9);
}

#[test]
fn reward_placement_falls_back_to_lowest_free_cell() {
    // a 2x2 grid gives the sampler 4 attempts; all of them land on the
    // body, so placement falls back to the lowest free cell, which is 2
    let mut host = ScriptHost::new(vec![1, 0, 1, 0]);
    let world = World::new(&mut host, 2, 1, 2, Direction::Down);
    assert_eq!(world.reward_cell(), 2);
}

#[test]
fn new_world_reward_is_outside_snake_body() {
    for seed in 0..32 {
        let mut host = Lcg::new(seed);
        let world = World::new(&mut host, 4, 5, 3, Direction::Right);
        let reward = world.reward_cell();
        assert!(reward < world.size());
        assert!(!world.snake_cells().contains(&reward));
    }
}

#[test]
fn snake_new_is_callable_directly() {
    let _snake = Snake::new(10, 3, Direction::Up);
}

#[test]
fn tick_before_start_is_a_no_op() {
    let mut host = ScriptHost::new(vec![9]);
    let mut world = World::new(&mut host, 4, 5, 3, Direction::Right);
    world.update(&mut host);
    assert_eq!(world.snake_cells(), vec![5, 4, 3]);
    assert_eq!(world.status(), None);
    assert_eq!(world.reward_cell(), 9);
}

#[test]
fn tick_moves_head_and_shifts_body() {
    let mut host = ScriptHost::new(vec![9, 9]);
    let mut world = World::new(&mut host, 4, 5, 3, Direction::Right);
    world.start_game();
    assert_eq!(world.status(), Some(GameStatus::PLAYED));
    world.update(&mut host);
    assert_eq!(world.snake_cells(), vec![6, 5, 4]);
    assert_eq!(world.snake_length(), 3);
}

#[test]
fn scenario_width_eight_runs_right_and_wraps() {
    // grid width 8 (size 64), spawn at 35, length 3, heading Right
    let mut host = Lcg::new(1);
    let mut world = World::new(&mut host, 8, 35, 3, Direction::Right);
    world.start_game();
    world.update(&mut host);
    // 36 is no row-boundary crossing for row 4 (columns 3 -> 4)
    assert_eq!(world.snake_head_idx(), 36);
    world.update(&mut host);
    world.update(&mut host);
    world.update(&mut host);
    // the head has reached column 7 of row 4
    assert_eq!(world.snake_head_idx(), 39);
    world.update(&mut host);
    // ticking Right again wraps to column 0 of row 4
    assert_eq!(world.snake_head_idx(), 32);
}

#[test]
fn reversal_into_the_neck_is_silently_rejected() {
    let mut host = ScriptHost::new(vec![9]);
    let mut world = World::new(&mut host, 8, 35, 3, Direction::Right);
    world.start_game();
    // moving Right with body [35, 34, 33]: Left would step onto 34
    world.change_snake_direction(Direction::Left);
    world.update(&mut host);
    // the snake kept moving Right, so no pending cell was recorded either
    assert_eq!(world.snake_head_idx(), 36);
    world.update(&mut host);
    assert_eq!(world.snake_head_idx(), 37);
}

#[test]
fn accepted_direction_change_takes_effect_on_next_tick() {
    let mut host = ScriptHost::new(vec![9]);
    let mut world = World::new(&mut host, 8, 35, 3, Direction::Right);
    world.start_game();
    world.change_snake_direction(Direction::Up);
    world.update(&mut host);
    assert_eq!(world.snake_head_idx(), 27);
}

#[test]
fn only_the_last_accepted_direction_change_counts() {
    let mut host = ScriptHost::new(vec![9]);
    let mut world = World::new(&mut host, 8, 35, 3, Direction::Right);
    world.start_game();
    world.change_snake_direction(Direction::Up);
    world.change_snake_direction(Direction::Down);
    world.update(&mut host);
    assert_eq!(world.snake_head_idx(), 43);
}

#[test]
fn consuming_a_reward_grows_the_snake_by_one() {
    // reward at 6, directly in front of the head
    let mut host = ScriptHost::new(vec![6, 9]);
    let mut world = World::new(&mut host, 4, 5, 2, Direction::Right);
    assert_eq!(world.reward_cell(), 6);
    world.start_game();
    world.update(&mut host);
    // grown by one: the departing tail cell is re-added
    assert_eq!(world.snake_length(), 3);
    assert_eq!(world.snake_cells(), vec![6, 5, 4]);
    // a fresh reward was placed outside the body
    assert_eq!(world.reward_cell(), 9);
    assert_eq!(world.status(), Some(GameStatus::PLAYED));
    assert!(host.messages.is_empty());
}

#[test]
fn filling_the_board_wins_the_game() {
    // 2x2 grid, snake [1, 0] heading Down, reward at 3
    let mut host = ScriptHost::new(vec![3, 2]);
    let mut world = World::new(&mut host, 2, 1, 2, Direction::Down);
    assert_eq!(world.reward_cell(), 3);
    world.start_game();
    world.update(&mut host);
    // consumed the reward at 3; the only free cell left is 2
    assert_eq!(world.snake_cells(), vec![3, 1, 0]);
    assert_eq!(world.reward_cell(), 2);
    assert_eq!(world.status(), Some(GameStatus::PLAYED));
    world.change_snake_direction(Direction::Left);
    world.update(&mut host);
    // the body now covers the whole board
    assert_eq!(world.snake_cells(), vec![2, 3, 1, 0]);
    assert_eq!(world.snake_length(), 4);
    assert_eq!(world.status(), Some(GameStatus::WON));
    assert_eq!(host.messages, vec!["You Won!".to_string()]);
}

#[test]
fn moving_onto_the_body_loses_and_leaves_the_body_in_place() {
    // heading Left from [5, 4, 3] steps straight onto the neck at 4
    let mut host = ScriptHost::new(vec![9]);
    let mut world = World::new(&mut host, 4, 5, 3, Direction::Left);
    world.start_game();
    world.update(&mut host);
    assert_eq!(world.status(), Some(GameStatus::LOSS));
    assert_eq!(world.snake_cells(), vec![5, 4, 3]);
    assert_eq!(world.reward_cell(), 9);
    assert_eq!(host.messages, vec!["YOU LOSS!".to_string()]);
}

#[test]
fn terminal_states_absorb_further_ticks() {
    let mut host = ScriptHost::new(vec![9]);
    let mut world = World::new(&mut host, 4, 5, 3, Direction::Left);
    world.start_game();
    world.update(&mut host);
    assert_eq!(world.status(), Some(GameStatus::LOSS));
    world.update(&mut host);
    world.update(&mut host);
    assert_eq!(world.status(), Some(GameStatus::LOSS));
    assert_eq!(world.snake_cells(), vec![5, 4, 3]);
    assert_eq!(host.messages.len(), 1);
}
