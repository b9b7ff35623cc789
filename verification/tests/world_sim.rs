use snake_core::Direction;
use snake_core::GameStatus;
use snake_core::RandomSource;
use snake_core::World;

/// A deterministic random source for tests: hands out a scripted list of
/// draws, clamped into range, then zeroes.  The world draws the reward cell
/// by one draw per regeneration: an index into the free cells of the grid in
/// ascending order.
struct ScriptedRng {
    vals: Vec<usize>,
    at: usize,
}

impl ScriptedRng {
    fn with(vals: Vec<usize>) -> ScriptedRng {
        ScriptedRng { vals, at: 0 }
    }
}

impl RandomSource for ScriptedRng {
    fn random_index(&mut self, max: usize) -> usize {
        let v = if self.at < self.vals.len() { self.vals[self.at] } else { 0 };
        self.at += 1;
        if v < max { v } else { 0 }
    }
}

fn body_of(w: &World<ScriptedRng>) -> Vec<usize> {
    w.snake_cells().iter().map(|c| c.0).collect()
}

#[test]
fn new_world_spawns_snake_and_reward() {
    let w = World::new(4, 5, ScriptedRng::with(vec![0]));
    assert_eq!(w.get_w(), 4);
    assert_eq!(w.get_points(), 0);
    assert_eq!(w.snake_head(), 5);
    assert_eq!(w.snake_length(), 3);
    assert_eq!(body_of(&w), vec![5, 4, 3]);
    assert_eq!(w.get_status(), None);
    // the first free cell in ascending order is 0
    let reward = w.get_reward().unwrap();
    assert_eq!(reward, 0);
    assert!(!body_of(&w).contains(&reward));
}

#[test]
fn reversal_request_is_rejected() {
    // body [5,4,3], heading RIGHT: LEFT would put the head on 4 == body[1]
    let mut w = World::new(4, 5, ScriptedRng::with(vec![0]));
    w.change_direction(Direction::LEFT);
    w.start_game();
    w.step();
    // heading and pending cell were left unchanged, so the head moved RIGHT
    assert_eq!(w.snake_head(), 6);
    assert_eq!(body_of(&w), vec![6, 5, 4]);
    assert_eq!(w.snake_length(), 3);
}

#[test]
fn accepted_direction_change_turns_the_snake() {
    let mut w = World::new(4, 5, ScriptedRng::with(vec![0]));
    w.change_direction(Direction::DOWN);
    w.start_game();
    w.step();
    assert_eq!(w.snake_head(), 9);
    assert_eq!(body_of(&w), vec![9, 5, 4]);
}

#[test]
fn eating_the_reward_grows_and_scores() {
    // body [6,5,4]; free cells ascending are [0,1,2,3,7,8,...,15], so a
    // first draw of 4 puts the reward at 7, straight ahead of the snake
    let mut w = World::new(4, 6, ScriptedRng::with(vec![4, 0]));
    assert_eq!(w.get_reward(), Some(7));
    w.start_game();
    w.step();
    assert_eq!(w.snake_head(), 7);
    assert_eq!(body_of(&w), vec![7, 6, 5, 4]);
    assert_eq!(w.snake_length(), 4);
    assert_eq!(w.get_points(), 1);
    assert_eq!(w.get_status(), Some(GameStatus::PLAYED));
    // the new reward was drawn excluding all of [7,6,5,4]
    let reward = w.get_reward().unwrap();
    assert_eq!(reward, 0);
    assert!(!body_of(&w).contains(&reward));
}

#[test]
fn filling_the_grid_wins_and_clears_the_reward() {
    // 2x2 grid, body [2,1,0]: the only free cell is 3
    let mut w = World::new(2, 2, ScriptedRng::with(vec![0]));
    assert_eq!(w.get_reward(), Some(3));
    w.start_game();
    w.step();
    // head 2 moved RIGHT to 3, onto the reward; the grown body fills the grid
    assert_eq!(w.get_status(), Some(GameStatus::WON));
    assert_eq!(w.get_reward(), None);
    assert_eq!(w.get_points(), 1);
    assert_eq!(w.snake_length(), 4);
    assert_eq!(body_of(&w), vec![3, 2, 1, 0]);
}

#[test]
fn running_into_the_body_loses() {
    // grow twice, then turn the head back into the body's side
    let mut w = World::new(4, 6, ScriptedRng::with(vec![4, 7, 10]));
    w.start_game();
    w.step(); // eats 7: body [7,6,5,4], next reward 11
    assert_eq!(w.get_reward(), Some(11));
    w.change_direction(Direction::DOWN);
    w.step(); // eats 11: body [11,7,6,5,4], next reward 15
    assert_eq!(w.get_reward(), Some(15));
    w.change_direction(Direction::LEFT);
    w.step(); // body [10,11,7,6,5]
    assert_eq!(body_of(&w), vec![10, 11, 7, 6, 5]);
    w.change_direction(Direction::UP);
    w.step(); // head moves to 6, which the body still occupies
    assert_eq!(w.get_status(), Some(GameStatus::LOST));
    // the body is left in its shifted form, nothing else moved
    assert_eq!(body_of(&w), vec![6, 10, 11, 7, 6]);
    assert_eq!(w.get_points(), 2);
    assert_eq!(w.get_reward(), Some(15));
}

#[test]
fn terminal_states_absorb_further_steps() {
    // a lost game does not change under more ticks
    let mut w = World::new(4, 6, ScriptedRng::with(vec![4, 7, 10]));
    w.start_game();
    w.step();
    w.change_direction(Direction::DOWN);
    w.step();
    w.change_direction(Direction::LEFT);
    w.step();
    w.change_direction(Direction::UP);
    w.step();
    assert_eq!(w.get_status(), Some(GameStatus::LOST));
    let body = body_of(&w);
    let points = w.get_points();
    let reward = w.get_reward();
    w.step();
    w.step();
    assert_eq!(w.get_status(), Some(GameStatus::LOST));
    assert_eq!(body_of(&w), body);
    assert_eq!(w.get_points(), points);
    assert_eq!(w.get_reward(), reward);

    // a won game does not change under more ticks
    let mut v = World::new(2, 2, ScriptedRng::with(vec![0]));
    v.start_game();
    v.step();
    assert_eq!(v.get_status(), Some(GameStatus::WON));
    let won_body: Vec<usize> = v.snake_cells().iter().map(|c| c.0).collect();
    v.step();
    assert_eq!(v.get_status(), Some(GameStatus::WON));
    let still: Vec<usize> = v.snake_cells().iter().map(|c| c.0).collect();
    assert_eq!(still, won_body);
    assert_eq!(v.get_points(), 1);
    assert_eq!(v.get_reward(), None);
}

#[test]
fn end_game_stops_stepping_and_start_game_rearms() {
    let mut w = World::new(4, 5, ScriptedRng::with(vec![0]));
    w.start_game();
    w.step();
    assert_eq!(w.snake_head(), 6);
    w.end_game();
    assert_eq!(w.get_status(), None);
    w.step(); // no game in progress: a tick is a no-op
    assert_eq!(w.snake_head(), 6);
    assert_eq!(body_of(&w), vec![6, 5, 4]);
    assert_eq!(w.get_points(), 0);
    let reward = w.get_reward();
    w.start_game(); // re-arms without altering snake, score or reward
    assert_eq!(w.get_status(), Some(GameStatus::PLAYED));
    assert_eq!(body_of(&w), vec![6, 5, 4]);
    assert_eq!(w.get_points(), 0);
    assert_eq!(w.get_reward(), reward);
    w.step();
    assert_eq!(w.snake_head(), 7);
}

#[test]
fn status_text_matches_each_state() {
    let mut w = World::new(4, 5, ScriptedRng::with(vec![0]));
    assert_eq!(w.game_status_text(), "No Status");
    w.start_game();
    assert_eq!(w.game_status_text(), "Playing");

    let mut lost = World::new(4, 6, ScriptedRng::with(vec![4, 7, 10]));
    lost.start_game();
    lost.step();
    lost.change_direction(Direction::DOWN);
    lost.step();
    lost.change_direction(Direction::LEFT);
    lost.step();
    lost.change_direction(Direction::UP);
    lost.step();
    assert_eq!(lost.game_status_text(), "You have lost!");

    let mut won = World::new(2, 2, ScriptedRng::with(vec![0]));
    won.start_game();
    won.step();
    assert_eq!(won.game_status_text(), "You have won!");
}
