//! The game orchestrator: owns the snake, the food, the obstacle list and
//! the timing / game-over machinery, and advances them each tick.
//!
//! Time is measured in whole milliseconds, fed in by the host event loop.
//! The attach chance — the probability that a new obstacle is placed next to
//! the most recent one — is held in hundredths, so that its growth by two
//! hundredths per meal is exact.

use vstd::prelude::*;

use crate::snake::{Block, Direction, Snake};

verus! {

/// A snake move is due once this much time has accumulated.
pub const MOVING_PERIOD_MS: u64 = 80;

/// After death the game restarts once this much time has accumulated.
pub const RESTART_TIME_MS: u64 = 1000;

/// Attach chance at the start of a game, in hundredths.
pub const INITIAL_ATTACH_CHANCE: i32 = 60;

/// The attach chance grows by this much per meal, in hundredths.
pub const ATTACH_CHANCE_STEP: i32 = 2;

/// The attach chance never grows past this, in hundredths.
pub const ATTACH_CHANCE_MAX: i32 = 100;

/// Above this attach chance, in hundredths, a meal spawns two extra obstacles.
pub const BONUS_THRESHOLD: i32 = 99;

/// How many random draws a placement makes before falling back to a
/// deterministic scan for a free interior cell.
pub const PLACEMENT_TRIES: u32 = 64;

/// The attach chance after one meal: it grows by one step until it reaches
/// the cap, in hundredths.
pub open spec fn spec_next_attach(c: i32) -> int {
    if c < ATTACH_CHANCE_MAX {
        c + ATTACH_CHANCE_STEP
    } else {
        c as int
    }
}

/// How many obstacles one meal spawns: three once the grown attach chance
/// passes the bonus threshold, otherwise one.
pub open spec fn spec_obstacles_per_meal(c: i32) -> int {
    if spec_next_attach(c) > BONUS_THRESHOLD {
        3
    } else {
        1
    }
}

/// The two states are equal field for field.
pub open spec fn spec_same_state(pre: Game, post: Game) -> bool {
    &&& post.snake == pre.snake
    &&& post.food_exist == pre.food_exist
    &&& post.food_x == pre.food_x
    &&& post.food_y == pre.food_y
    &&& post.width == pre.width
    &&& post.height == pre.height
    &&& post.is_game_over == pre.is_game_over
    &&& post.waiting_time == pre.waiting_time
    &&& post.obstacles == pre.obstacles
    &&& post.attach_chance == pre.attach_chance
}

/// A key press as the game sees it: one of the four arrow keys, or anything
/// else, which the game ignores.
#[derive(Clone, Copy, PartialEq, Eq, Structural, Debug)]
pub enum Key {
    Up,
    Down,
    Left,
    Right,
    Other,
}

/// The direction an arrow key maps to; `None` for any other key.
pub open spec fn spec_key_direction(key: Key) -> Option<Direction> {
    match key {
        Key::Up => Some(Direction::Up),
        Key::Down => Some(Direction::Down),
        Key::Left => Some(Direction::Left),
        Key::Right => Some(Direction::Right),
        Key::Other => None,
    }
}

/// The two states are equal field for field, except that the waiting time of
/// the second is `wt`.
pub open spec fn spec_same_but_waiting(pre: Game, post: Game, wt: u64) -> bool {
    &&& post.snake == pre.snake
    &&& post.food_exist == pre.food_exist
    &&& post.food_x == pre.food_x
    &&& post.food_y == pre.food_y
    &&& post.width == pre.width
    &&& post.height == pre.height
    &&& post.is_game_over == pre.is_game_over
    &&& post.waiting_time == wt
    &&& post.obstacles == pre.obstacles
    &&& post.attach_chance == pre.attach_chance
}

/// Accumulated waiting time: the sum, saturating at the top of the type.
pub open spec fn spec_saturated_wait(wait: u64, delta: u64) -> u64 {
    if wait + delta > u64::MAX {
        u64::MAX
    } else {
        (wait + delta) as u64
    }
}

/// The state between the food check and the move of one `update` tick: the
/// waiting time has accumulated to `wt`, and absent food has been replaced by
/// food at a random free interior cell — or left absent when no interior
/// cell is free. Everything else is untouched.
pub open spec fn spec_food_stage(pre: Game, wt: u64, mid: Game) -> bool {
    &&& mid.snake == pre.snake
    &&& mid.obstacles == pre.obstacles
    &&& mid.width == pre.width
    &&& mid.height == pre.height
    &&& mid.is_game_over == pre.is_game_over
    &&& mid.attach_chance == pre.attach_chance
    &&& mid.waiting_time == wt
    &&& if !pre.food_exist && pre.spec_has_free_food_cell() {
        &&& mid.food_exist
        &&& pre.spec_interior(mid.food_x as int, mid.food_y as int)
        &&& pre.spec_placeable(mid.food_x as int, mid.food_y as int, false)
    } else {
        &&& mid.food_exist == pre.food_exist
        &&& mid.food_x == pre.food_x
        &&& mid.food_y == pre.food_y
    }
}

/// How one `update_snake` tick transforms the state.
///
/// A lethal move only raises the game-over flag; a survivable move shifts the
/// snake one cell; a move onto the food additionally grows the snake by one
/// segment, consumes the food, bumps the attach chance one step and spawns
/// one obstacle — or three once the grown chance passes the threshold. The
/// positions of spawned obstacles are random; what holds of every outcome is
/// that they avoid the snake (except its tail) and that earlier obstacles
/// stay untouched. Either way the waiting time restarts at zero.
pub open spec fn spec_update_snake_rel(pre: Game, post: Game, dir: Option<Direction>) -> bool {
    &&& post.width == pre.width
    &&& post.height == pre.height
    &&& post.waiting_time == 0
    &&& if !pre.spec_snake_alive(dir) {
        &&& post.snake == pre.snake
        &&& post.food_exist == pre.food_exist
        &&& post.food_x == pre.food_x
        &&& post.food_y == pre.food_y
        &&& post.obstacles == pre.obstacles
        &&& post.attach_chance == pre.attach_chance
        &&& post.is_game_over == true
    } else {
        &&& post.is_game_over == pre.is_game_over
        &&& post.snake.direction == pre.snake.spec_resolved(dir)
        &&& post.snake.tail == Some(pre.snake.body@.last())
        &&& post.food_x == pre.food_x
        &&& post.food_y == pre.food_y
        &&& if pre.spec_eats(dir) {
            &&& post.snake.body@ == seq![pre.snake.spec_next_block(dir)] + pre.snake.body@
            &&& post.food_exist == false
            &&& post.attach_chance == spec_next_attach(pre.attach_chance)
            &&& pre.obstacles@.len() <= post.obstacles@.len() <= pre.obstacles@.len()
                + spec_obstacles_per_meal(pre.attach_chance)
            &&& post.obstacles@.take(pre.obstacles@.len() as int) == pre.obstacles@
            &&& (forall|i: int|
                pre.obstacles@.len() <= i < post.obstacles@.len()
                    ==> !post.snake.spec_overlap_except_tail(
                    (#[trigger] post.obstacles@[i]).x as int,
                    post.obstacles@[i].y as int,
                ))
            &&& (post.spec_has_free_obstacle_cell() ==> post.obstacles@.len()
                == pre.obstacles@.len() + spec_obstacles_per_meal(pre.attach_chance))
        } else {
            &&& post.snake.body@ == seq![pre.snake.spec_next_block(dir)]
                + pre.snake.body@.drop_last()
            &&& post.food_exist == pre.food_exist
            &&& post.obstacles == pre.obstacles
            &&& post.attach_chance == pre.attach_chance
        }
    }
}

/// One placed obstacle cell.
#[derive(Clone, Copy, PartialEq, Eq, Structural, Debug)]
pub struct Obstacle {
    pub x: i32,
    pub y: i32,
}

pub struct Game {
    pub snake: Snake,
    pub food_exist: bool,
    pub food_x: i32,
    pub food_y: i32,
    pub width: i32,
    pub height: i32,
    pub is_game_over: bool,
    /// While playing: time since the last move. While game-over: time since
    /// the death. In milliseconds.
    pub waiting_time: u64,
    pub obstacles: Vec<Obstacle>,
    /// Probability, in hundredths, that a new obstacle attaches to the most
    /// recently placed one.
    pub attach_chance: i32,
}

impl Game {
    /// Well-formedness: sane grid bounds, a non-empty snake whose cells (and
    /// remembered tail cell) lie on the grid, and an attach chance that is an
    /// even count of hundredths between the initial value and the cap.
    pub open spec fn wf(self) -> bool {
        &&& 3 <= self.width <= 1000000
        &&& 3 <= self.height <= 1000000
        &&& self.snake.wf()
        &&& forall|i: int|
            0 <= i < self.snake.body@.len() ==> 0 <= (#[trigger] self.snake.body@[i]).x
                < self.width && 0 <= self.snake.body@[i].y < self.height
        &&& match self.snake.tail {
            Some(t) => 0 <= t.x < self.width && 0 <= t.y < self.height,
            None => true,
        }
        &&& INITIAL_ATTACH_CHANCE <= self.attach_chance <= ATTACH_CHANCE_MAX
        &&& self.attach_chance % 2 == 0
    }

    /// The freshly constructed state: a three-segment snake headed at (2, 2)
    /// facing right, food present at (5, 3), no obstacles, not game-over.
    pub open spec fn spec_is_initial(self, width: i32, height: i32) -> bool {
        &&& self.snake.body@ == seq![
            Block { x: 2, y: 2 },
            Block { x: 1, y: 2 },
            Block { x: 0, y: 2 },
        ]
        &&& self.snake.direction == Direction::Right
        &&& self.snake.tail is None
        &&& self.food_exist == true
        &&& self.food_x == 5
        &&& self.food_y == 3
        &&& self.width == width
        &&& self.height == height
        &&& self.is_game_over == false
        &&& self.waiting_time == 0
        &&& self.obstacles@ == Seq::<Obstacle>::empty()
        &&& self.attach_chance == INITIAL_ATTACH_CHANCE
    }

    /// Whether `(x, y)` lies strictly inside the one-cell border frame.
    pub open spec fn spec_interior(self, x: int, y: int) -> bool {
        0 < x < self.width - 1 && 0 < y < self.height - 1
    }

    /// Whether `(x, y)` coincides with some placed obstacle.
    pub open spec fn spec_hits_obstacle(self, x: int, y: int) -> bool {
        exists|i: int|
            0 <= i < self.obstacles@.len() && (#[trigger] self.obstacles@[i]).x == x
                && self.obstacles@[i].y == y
    }

    /// Whether a move in `dir` is survivable: the next head cell must avoid
    /// the body (except the vacating tail), every obstacle, and the border.
    pub open spec fn spec_snake_alive(self, dir: Option<Direction>) -> bool {
        let (nx, ny) = self.snake.spec_next_head(dir);
        &&& !self.snake.spec_overlap_except_tail(nx, ny)
        &&& !self.spec_hits_obstacle(nx, ny)
        &&& self.spec_interior(nx, ny)
    }

    /// Whether a move in `dir` would land the head on the present food.
    pub open spec fn spec_eats(self, dir: Option<Direction>) -> bool {
        &&& self.spec_snake_alive(dir)
        &&& self.food_exist
        &&& self.snake.spec_next_head(dir) == (self.food_x as int, self.food_y as int)
    }

    /// Whether a placement loop would accept `(x, y)`: off the snake (except
    /// the tail) and, when `avoid_food` is set, off the present food.
    pub open spec fn spec_placeable(self, x: int, y: int, avoid_food: bool) -> bool {
        &&& !self.snake.spec_overlap_except_tail(x, y)
        &&& avoid_food ==> !(self.food_exist && self.food_x == x && self.food_y == y)
    }

    /// Some interior cell can take an obstacle.
    pub open spec fn spec_has_free_obstacle_cell(self) -> bool {
        exists|x: int, y: int| self.spec_interior(x, y) && self.spec_placeable(x, y, true)
    }

    /// Some interior cell can take the food: it avoids the snake (except the
    /// tail); replacing the old food cell is allowed.
    pub open spec fn spec_has_free_food_cell(self) -> bool {
        exists|x: int, y: int| self.spec_interior(x, y) && self.spec_placeable(x, y, false)
    }

    pub fn check_if_the_snake_alive(&self, dir: Option<Direction>) -> (r: bool)
        requires
            self.wf(),
        ensures
            r == self.spec_snake_alive(dir),
    {
        let (next_x, next_y) = self.snake.next_head_position(dir);
        if self.snake.is_overlap_except_tail(next_x, next_y) {
            return false;
        }
        let mut i: usize = 0;
        while i < self.obstacles.len()
            invariant
                self.wf(),
                next_x == self.snake.spec_next_head(dir).0,
                next_y == self.snake.spec_next_head(dir).1,
                i <= self.obstacles@.len(),
                forall|j: int|
                    0 <= j < i ==> !((#[trigger] self.obstacles@[j]).x == next_x
                        && self.obstacles@[j].y == next_y),
            decreases self.obstacles@.len() - i,
        {
            let ob = self.obstacles[i];
            if next_x == ob.x && next_y == ob.y {
                return false;
            }
            i = i + 1;
        }
        next_x > 0 && next_y > 0 && next_x < self.width - 1 && next_y < self.height - 1
    }

    /// Deterministic fallback for the random placement loops: the first
    /// interior cell, scanning column by column, that avoids the snake
    /// (except the tail) and, when `avoid_food` is set, the present food.
    fn find_free_cell(&self, avoid_food: bool) -> (r: Option<(i32, i32)>)
        requires
            self.wf(),
        ensures
            match r {
                Some(p) => self.spec_interior(p.0 as int, p.1 as int) && self.spec_placeable(
                    p.0 as int,
                    p.1 as int,
                    avoid_food,
                ),
                None => forall|x: int, y: int|
                    self.spec_interior(x, y) ==> !(#[trigger] self.spec_placeable(
                        x,
                        y,
                        avoid_food,
                    )),
            },
    {
        let mut x: i32 = 1;
        while x < self.width - 1
            invariant
                self.wf(),
                1 <= x <= self.width - 1,
                forall|a: int, b: int|
                    1 <= a < x && 0 < b < self.height - 1 ==> !(#[trigger] self.spec_placeable(
                        a,
                        b,
                        avoid_food,
                    )),
            decreases self.width - x,
        {
            let mut y: i32 = 1;
            while y < self.height - 1
                invariant
                    self.wf(),
                    1 <= x < self.width - 1,
                    1 <= y <= self.height - 1,
                    forall|b: int|
                        1 <= b < y ==> !(#[trigger] self.spec_placeable(
                            x as int,
                            b,
                            avoid_food,
                        )),
                decreases self.height - y,
            {
                let snake_hit = self.snake.is_overlap_except_tail(x, y);
                let food_hit = avoid_food && self.food_exist && self.food_x == x && self.food_y
                    == y;
                if !snake_hit && !food_hit {
                    return Some((x, y));
                }
                proof {
                    assert(!self.spec_placeable(x as int, y as int, avoid_food));
                }
                y = y + 1;
            }
            proof {
                assert forall|a: int, b: int|
                    1 <= a < x + 1 && 0 < b < self.height - 1 implies !(
                #[trigger] self.spec_placeable(a, b, avoid_food)) by {
                    if a == x as int {
                        assert(!self.spec_placeable(x as int, b, avoid_food));
                    }
                }
            }
            x = x + 1;
        }
        None
    }

    /// Whether the head currently sits on the present food.
    pub open spec fn spec_ate(self) -> bool {
        &&& self.food_exist
        &&& self.snake.body@[0].x == self.food_x
        &&& self.snake.body@[0].y == self.food_y
    }

    fn obstacle_cell_ok(&self, x: i32, y: i32) -> (r: bool)
        requires
            self.wf(),
        ensures
            r == self.spec_placeable(x as int, y as int, true),
    {
        let snake_hit = self.snake.is_overlap_except_tail(x, y);
        let food_hit = self.food_exist && self.food_x == x && self.food_y == y;
        !snake_hit && !food_hit
    }

    /// Place new food at a random free interior cell: random draws first,
    /// re-rolled while the cell is on the snake, then a deterministic scan.
    /// When no interior cell is free the food is left as it was.
    fn add_food(&mut self)
        requires
            old(self).wf(),
        ensures
            final(self).wf(),
            final(self).snake == old(self).snake,
            final(self).obstacles == old(self).obstacles,
            final(self).width == old(self).width,
            final(self).height == old(self).height,
            final(self).is_game_over == old(self).is_game_over,
            final(self).waiting_time == old(self).waiting_time,
            final(self).attach_chance == old(self).attach_chance,
            old(self).spec_has_free_food_cell() ==> {
                &&& final(self).food_exist
                &&& old(self).spec_interior(final(self).food_x as int, final(self).food_y as int)
                &&& old(self).spec_placeable(
                    final(self).food_x as int,
                    final(self).food_y as int,
                    false,
                )
            },
            !old(self).spec_has_free_food_cell() ==> {
                &&& final(self).food_exist == old(self).food_exist
                &&& final(self).food_x == old(self).food_x
                &&& final(self).food_y == old(self).food_y
            },
    {
        let mut rng = crate::rng::fresh_rng();
        let mut new_x: i32 = crate::rng::rand_range(&mut rng, 1, self.width - 1);
        let mut new_y: i32 = crate::rng::rand_range(&mut rng, 1, self.height - 1);
        let mut ok: bool = !self.snake.is_overlap_except_tail(new_x, new_y);
        let mut tries: u32 = PLACEMENT_TRIES;
        while !ok && tries > 0
            invariant
                self.wf(),
                1 <= new_x < self.width - 1,
                1 <= new_y < self.height - 1,
                ok ==> self.spec_placeable(new_x as int, new_y as int, false),
            decreases tries,
        {
            new_x = crate::rng::rand_range(&mut rng, 1, self.width - 1);
            new_y = crate::rng::rand_range(&mut rng, 1, self.height - 1);
            ok = !self.snake.is_overlap_except_tail(new_x, new_y);
            tries = tries - 1;
        }
        if !ok {
            match self.find_free_cell(false) {
                Some(p) => {
                    new_x = p.0;
                    new_y = p.1;
                    ok = true;
                },
                None => {},
            }
        }
        if ok {
            proof {
                assert(self.spec_interior(new_x as int, new_y as int) && self.spec_placeable(
                    new_x as int,
                    new_y as int,
                    false,
                ));
                assert(self.spec_has_free_food_cell());
            }
            self.food_x = new_x;
            self.food_y = new_y;
            self.food_exist = true;
        }
    }

    /// Append one obstacle. With probability `attach_chance` (and given any
    /// obstacle already placed) the first candidate sits next to the most
    /// recently placed obstacle; otherwise it is a random interior cell.
    /// A candidate on the snake (except the tail) or on the food is re-rolled
    /// at random interior cells, finally by a deterministic scan; when no
    /// interior cell is free and the first candidate was also taken, nothing
    /// is appended.
    fn add_obstacle(&mut self)
        requires
            old(self).wf(),
        ensures
            final(self).wf(),
            final(self).snake == old(self).snake,
            final(self).food_exist == old(self).food_exist,
            final(self).food_x == old(self).food_x,
            final(self).food_y == old(self).food_y,
            final(self).width == old(self).width,
            final(self).height == old(self).height,
            final(self).is_game_over == old(self).is_game_over,
            final(self).waiting_time == old(self).waiting_time,
            final(self).attach_chance == old(self).attach_chance,
            old(self).obstacles@.len() <= final(self).obstacles@.len() <= old(
                self,
            ).obstacles@.len() + 1,
            final(self).obstacles@.take(old(self).obstacles@.len() as int) == old(self).obstacles@,
            final(self).obstacles@.len() == old(self).obstacles@.len() + 1 ==> old(
                self,
            ).spec_placeable(
                final(self).obstacles@.last().x as int,
                final(self).obstacles@.last().y as int,
                true,
            ),
            old(self).spec_has_free_obstacle_cell() ==> final(self).obstacles@.len() == old(
                self,
            ).obstacles@.len() + 1,
    {
        let mut rng = crate::rng::fresh_rng();
        let mut new_x: i32;
        let mut new_y: i32;
        let roll = crate::rng::rand_range(&mut rng, 0, 100);
        if roll < self.attach_chance && self.obstacles.len() > 0 {
            // Attach to the most recently placed obstacle: one of the four
            // neighbouring cells. At the extremes of the coordinate type the
            // step wraps, as release-mode integer arithmetic would.
            let last = self.obstacles[self.obstacles.len() - 1];
            let offset = crate::rng::rand_range(&mut rng, 0, 4);
            let dx: i32 = if offset == 0 {
                -1
            } else if offset == 1 {
                1
            } else {
                0
            };
            let dy: i32 = if offset == 2 {
                -1
            } else if offset == 3 {
                1
            } else {
                0
            };
            new_x = last.x.wrapping_add(dx);
            new_y = last.y.wrapping_add(dy);
        } else {
            new_x = crate::rng::rand_range(&mut rng, 1, self.width - 1);
            new_y = crate::rng::rand_range(&mut rng, 1, self.height - 1);
        }
        let mut ok: bool = self.obstacle_cell_ok(new_x, new_y);
        let mut tries: u32 = PLACEMENT_TRIES;
        while !ok && tries > 0
            invariant
                self.wf(),
                ok ==> self.spec_placeable(new_x as int, new_y as int, true),
            decreases tries,
        {
            new_x = crate::rng::rand_range(&mut rng, 1, self.width - 1);
            new_y = crate::rng::rand_range(&mut rng, 1, self.height - 1);
            ok = self.obstacle_cell_ok(new_x, new_y);
            tries = tries - 1;
        }
        if !ok {
            match self.find_free_cell(true) {
                Some(p) => {
                    new_x = p.0;
                    new_y = p.1;
                    ok = true;
                },
                None => {},
            }
        }
        if ok {
            self.obstacles.push(Obstacle { x: new_x, y: new_y });
            proof {
                assert(self.obstacles@.take(old(self).obstacles@.len() as int) =~= old(
                    self,
                ).obstacles@);
            }
        } else {
            proof {
                assert(self.obstacles@.take(old(self).obstacles@.len() as int) =~= old(
                    self,
                ).obstacles@);
            }
        }
    }

    /// When the head has landed on the food: consume it, grow the snake by
    /// re-attaching the just-removed tail cell, spawn one obstacle, bump the
    /// attach chance by one step (capped), and spawn two bonus obstacles once
    /// the grown chance passes the threshold.
    fn check_eating(&mut self)
        requires
            old(self).wf(),
            old(self).snake.tail is Some,
        ensures
            final(self).wf(),
            final(self).width == old(self).width,
            final(self).height == old(self).height,
            final(self).is_game_over == old(self).is_game_over,
            final(self).waiting_time == old(self).waiting_time,
            !old(self).spec_ate() ==> spec_same_state(*old(self), *final(self)),
            old(self).spec_ate() ==> {
                &&& final(self).food_exist == false
                &&& final(self).food_x == old(self).food_x
                &&& final(self).food_y == old(self).food_y
                &&& final(self).snake.body@ == old(self).snake.body@ + seq![
                    old(self).snake.tail.unwrap(),
                ]
                &&& final(self).snake.direction == old(self).snake.direction
                &&& final(self).snake.tail == old(self).snake.tail
                &&& final(self).attach_chance == spec_next_attach(old(self).attach_chance)
                &&& old(self).obstacles@.len() <= final(self).obstacles@.len() <= old(
                    self,
                ).obstacles@.len() + spec_obstacles_per_meal(old(self).attach_chance)
                &&& final(self).obstacles@.take(old(self).obstacles@.len() as int) == old(
                    self,
                ).obstacles@
                &&& (forall|i: int|
                    old(self).obstacles@.len() <= i < final(self).obstacles@.len()
                        ==> !final(self).snake.spec_overlap_except_tail(
                        (#[trigger] final(self).obstacles@[i]).x as int,
                        final(self).obstacles@[i].y as int,
                    ))
                &&& (final(self).spec_has_free_obstacle_cell() ==> final(self).obstacles@.len()
                    == old(self).obstacles@.len() + spec_obstacles_per_meal(
                    old(self).attach_chance,
                ))
            },
    {
        let (head_x, head_y) = self.snake.head_position();
        if self.food_exist && self.food_x == head_x && self.food_y == head_y {
            self.food_exist = false;
            self.snake.restore_last_removed();
            proof {
                assert forall|i: int| 0 <= i < self.snake.body@.len() implies 0 <= (
                #[trigger] self.snake.body@[i]).x < self.width && 0 <= self.snake.body@[i].y
                    < self.height by {
                    if i < old(self).snake.body@.len() {
                        assert(self.snake.body@[i] == old(self).snake.body@[i]);
                    } else {
                        assert(self.snake.body@[i] == old(self).snake.tail.unwrap());
                    }
                }
            }
            let ghost s0 = *self;
            self.add_obstacle();
            if self.attach_chance < ATTACH_CHANCE_MAX {
                self.attach_chance = self.attach_chance + ATTACH_CHANCE_STEP;
            }
            let ghost s1 = *self;
            proof {
                assert(s1.attach_chance == spec_next_attach(old(self).attach_chance));
                assert(s1.obstacles@.take(s0.obstacles@.len() as int) == s0.obstacles@);
            }
            if self.attach_chance > BONUS_THRESHOLD {
                self.add_obstacle();
                let ghost s2 = *self;
                self.add_obstacle();
                proof {
                    let n0 = s0.obstacles@.len() as int;
                    let n1 = s1.obstacles@.len() as int;
                    let n2 = s2.obstacles@.len() as int;
                    let n3 = self.obstacles@.len() as int;
                    assert forall|j: int| 0 <= j < n0 implies self.obstacles@[j]
                        == s0.obstacles@[j] by {
                        assert(self.obstacles@[j] == self.obstacles@.take(n2)[j]);
                        assert(s2.obstacles@[j] == s2.obstacles@.take(n1)[j]);
                        assert(s1.obstacles@[j] == s1.obstacles@.take(n0)[j]);
                    }
                    assert(self.obstacles@.take(n0) =~= s0.obstacles@);
                    assert forall|i: int| n0 <= i < n3 implies !self.snake.spec_overlap_except_tail(
                        (#[trigger] self.obstacles@[i]).x as int,
                        self.obstacles@[i].y as int,
                    ) by {
                        if i < n1 {
                            assert(self.obstacles@[i] == self.obstacles@.take(n2)[i]);
                            assert(s2.obstacles@[i] == s2.obstacles@.take(n1)[i]);
                            assert(n1 == n0 + 1 && i == n0);
                            assert(s1.obstacles@[i] == s1.obstacles@.last());
                            assert(s0.spec_placeable(
                                s1.obstacles@.last().x as int,
                                s1.obstacles@.last().y as int,
                                true,
                            ));
                        } else if i < n2 {
                            assert(self.obstacles@[i] == self.obstacles@.take(n2)[i]);
                            assert(n2 == n1 + 1 && i == n1);
                            assert(s2.obstacles@[i] == s2.obstacles@.last());
                            assert(s1.spec_placeable(
                                s2.obstacles@.last().x as int,
                                s2.obstacles@.last().y as int,
                                true,
                            ));
                        } else {
                            assert(n3 == n2 + 1 && i == n2);
                            assert(self.obstacles@[i] == self.obstacles@.last());
                            assert(s2.spec_placeable(
                                self.obstacles@.last().x as int,
                                self.obstacles@.last().y as int,
                                true,
                            ));
                        }
                    }
                    if self.spec_has_free_obstacle_cell() {
                        let (x, y) = choose|x: int, y: int|
                            self.spec_interior(x, y) && self.spec_placeable(x, y, true);
                        assert(s0.spec_interior(x, y) && s0.spec_placeable(x, y, true));
                        assert(s0.spec_has_free_obstacle_cell());
                        assert(s1.spec_interior(x, y) && s1.spec_placeable(x, y, true));
                        assert(s1.spec_has_free_obstacle_cell());
                        assert(s2.spec_interior(x, y) && s2.spec_placeable(x, y, true));
                        assert(s2.spec_has_free_obstacle_cell());
                        assert(n3 == n0 + 3);
                    }
                }
            } else {
                proof {
                    if self.spec_has_free_obstacle_cell() {
                        let (x, y) = choose|x: int, y: int|
                            self.spec_interior(x, y) && self.spec_placeable(x, y, true);
                        assert(s0.spec_interior(x, y) && s0.spec_placeable(x, y, true));
                        assert(s0.spec_has_free_obstacle_cell());
                    }
                }
            }
        }
    }

    /// One movement tick, player-triggered (`Some` direction) or
    /// timer-triggered (`None`): move if the move is survivable and resolve
    /// eating, otherwise end the game; either way restart the waiting time.
    pub fn update_snake(&mut self, dir: Option<Direction>)
        requires
            old(self).wf(),
        ensures
            final(self).wf(),
            spec_update_snake_rel(*old(self), *final(self), dir),
    {
        let ghost mut done = *old(self);
        if self.check_if_the_snake_alive(dir) {
            self.snake.move_forward(dir);
            let ghost mid = *self;
            proof {
                assert forall|i: int| 0 <= i < mid.snake.body@.len() implies 0 <= (
                #[trigger] mid.snake.body@[i]).x < mid.width && 0 <= mid.snake.body@[i].y
                    < mid.height by {
                    if i > 0 {
                        assert(mid.snake.body@[i] == old(self).snake.body@[i - 1]);
                    }
                }
                assert(mid.wf());
                assert(mid.spec_ate() == old(self).spec_eats(dir));
            }
            self.check_eating();
            proof {
                done = *self;
                if old(self).spec_eats(dir) {
                    assert(old(self).snake.body@.drop_last() + seq![old(self).snake.body@.last()]
                        =~= old(self).snake.body@);
                    assert((seq![old(self).snake.spec_next_block(dir)] + old(
                        self,
                    ).snake.body@.drop_last()) + seq![old(self).snake.body@.last()] =~= seq![
                        old(self).snake.spec_next_block(dir),
                    ] + old(self).snake.body@);
                }
            }
        } else {
            self.is_game_over = true;
        }
        self.waiting_time = 0;
        proof {
            if old(self).spec_snake_alive(dir) && old(self).spec_eats(dir)
                && self.spec_has_free_obstacle_cell() {
                let (x, y) = choose|x: int, y: int|
                    self.spec_interior(x, y) && self.spec_placeable(x, y, true);
                assert(done.spec_interior(x, y) && done.spec_placeable(x, y, true));
                assert(done.spec_has_free_obstacle_cell());
            }
        }
    }

    /// Handle a key press. Ignored while game-over, for a non-arrow key, and
    /// for the exact reversal of the current facing direction; any other
    /// arrow key triggers an immediate movement tick in that direction.
    pub fn key_pressed(&mut self, key: Key)
        requires
            old(self).wf(),
        ensures
            final(self).wf(),
            ({
                let kd = spec_key_direction(key);
                if old(self).is_game_over || kd is None || kd.unwrap()
                    == old(self).snake.direction.spec_opposite() {
                    spec_same_state(*old(self), *final(self))
                } else {
                    spec_update_snake_rel(*old(self), *final(self), kd)
                }
            }),
    {
        if self.is_game_over {
            return ;
        }
        let dir = match key {
            Key::Up => Direction::Up,
            Key::Down => Direction::Down,
            Key::Left => Direction::Left,
            Key::Right => Direction::Right,
            Key::Other => {
                return ;
            },
        };
        if dir == self.snake.head_direction().opposite() {
            return ;
        }
        self.update_snake(Some(dir));
    }

    /// Throw the state back to what `new` builds, on the same grid.
    fn restart(&mut self)
        requires
            3 <= old(self).width <= 1000000,
            3 <= old(self).height <= 1000000,
        ensures
            final(self).wf(),
            final(self).spec_is_initial(old(self).width, old(self).height),
    {
        self.snake = Snake::new(2, 2);
        self.waiting_time = 0;
        self.food_exist = true;
        self.food_x = 5;
        self.food_y = 3;
        self.is_game_over = false;
        self.obstacles.clear();
        self.attach_chance = INITIAL_ATTACH_CHANCE;
        proof {
            assert(self.snake.body@ =~= seq![
                Block { x: 2, y: 2 },
                Block { x: 1, y: 2 },
                Block { x: 0, y: 2 },
            ]);
            assert(self.obstacles@ =~= Seq::<Obstacle>::empty());
        }
    }

    /// One frame tick: accumulate `delta_time` milliseconds of waiting time;
    /// while game-over, restart once the restart delay has passed; otherwise
    /// replace missing food and move the snake once the moving period has
    /// passed.
    pub fn update(&mut self, delta_time: u64)
        requires
            old(self).wf(),
        ensures
            final(self).wf(),
            ({
                let wt = spec_saturated_wait(old(self).waiting_time, delta_time);
                if old(self).is_game_over {
                    if wt > RESTART_TIME_MS {
                        final(self).spec_is_initial(old(self).width, old(self).height)
                    } else {
                        spec_same_but_waiting(*old(self), *final(self), wt)
                    }
                } else {
                    exists|mid: Game|
                        #[trigger] spec_food_stage(*old(self), wt, mid) && if wt
                            > MOVING_PERIOD_MS {
                            spec_update_snake_rel(mid, *final(self), None)
                        } else {
                            spec_same_state(mid, *final(self))
                        }
                }
            }),
    {
        if delta_time > u64::MAX - self.waiting_time {
            self.waiting_time = u64::MAX;
        } else {
            self.waiting_time = self.waiting_time + delta_time;
        }
        let ghost wt = self.waiting_time;
        proof {
            assert(wt == spec_saturated_wait(old(self).waiting_time, delta_time));
        }
        if self.is_game_over {
            if self.waiting_time > RESTART_TIME_MS {
                self.restart();
            }
            return ;
        }
        if !self.food_exist {
            let ghost before = *self;
            self.add_food();
            proof {
                if old(self).spec_has_free_food_cell() {
                    let (x, y) = choose|x: int, y: int|
                        old(self).spec_interior(x, y) && old(self).spec_placeable(x, y, false);
                    assert(before.spec_interior(x, y) && before.spec_placeable(x, y, false));
                    assert(before.spec_has_free_food_cell());
                }
                if before.spec_has_free_food_cell() {
                    let (x, y) = choose|x: int, y: int|
                        before.spec_interior(x, y) && before.spec_placeable(x, y, false);
                    assert(old(self).spec_interior(x, y) && old(self).spec_placeable(x, y, false));
                    assert(old(self).spec_has_free_food_cell());
                }
            }
        }
        let ghost mid = *self;
        proof {
            assert(spec_food_stage(*old(self), wt, mid));
        }
        if self.waiting_time > MOVING_PERIOD_MS {
            self.update_snake(None);
        }
    }

    pub fn new(width: i32, height: i32) -> (g: Game)
        requires
            3 <= width <= 1000000,
            3 <= height <= 1000000,
        ensures
            g.wf(),
            g.spec_is_initial(width, height),
    {
        let g = Game {
            snake: Snake::new(2, 2),
            waiting_time: 0,
            food_exist: true,
            food_x: 5,
            food_y: 3,
            width,
            height,
            is_game_over: false,
            obstacles: Vec::new(),
            attach_chance: INITIAL_ATTACH_CHANCE,
        };
        proof {
            assert(g.snake.body@ =~= seq![
                Block { x: 2, y: 2 },
                Block { x: 1, y: 2 },
                Block { x: 0, y: 2 },
            ]);
            assert(g.obstacles@ =~= Seq::<Obstacle>::empty());
        }
        g
    }
}

/// What a painted grid cell stands for.
#[derive(Clone, Copy, PartialEq, Eq, Structural, Debug)]
pub enum CellKind {
    SnakeBody,
    Food,
    Obstacle,
}

impl Game {
    /// The cell-painting half of drawing one frame: every snake segment,
    /// then the food when present, then every obstacle, in paint order.
    /// The renderer assigns the colors and draws.
    pub fn draw_cells(&self) -> (r: Vec<(i32, i32, CellKind)>)
        requires
            self.wf(),
        ensures
            r@.len() == self.snake.body@.len() + (if self.food_exist {
                1int
            } else {
                0
            }) + self.obstacles@.len(),
            forall|i: int|
                0 <= i < self.snake.body@.len() ==> r@[i] == (
                    (#[trigger] self.snake.body@[i]).x,
                    self.snake.body@[i].y,
                    CellKind::SnakeBody,
                ),
            self.food_exist ==> r@[self.snake.body@.len() as int] == (
                self.food_x,
                self.food_y,
                CellKind::Food,
            ),
            forall|j: int|
                0 <= j < self.obstacles@.len() ==> r@[r@.len() - self.obstacles@.len() + j] == (
                    (#[trigger] self.obstacles@[j]).x,
                    self.obstacles@[j].y,
                    CellKind::Obstacle,
                ),
    {
        let mut r: Vec<(i32, i32, CellKind)> = Vec::new();
        let mut i: usize = 0;
        while i < self.snake.body.len()
            invariant
                i <= self.snake.body@.len(),
                r@.len() == i,
                forall|k: int|
                    0 <= k < i ==> r@[k] == (
                        (#[trigger] self.snake.body@[k]).x,
                        self.snake.body@[k].y,
                        CellKind::SnakeBody,
                    ),
            decreases self.snake.body@.len() - i,
        {
            let b = self.snake.body[i];
            r.push((b.x, b.y, CellKind::SnakeBody));
            i = i + 1;
        }
        if self.food_exist {
            r.push((self.food_x, self.food_y, CellKind::Food));
        }
        let ghost base = r@.len();
        let mut j: usize = 0;
        while j < self.obstacles.len()
            invariant
                j <= self.obstacles@.len(),
                r@.len() == base + j,
                base == self.snake.body@.len() + (if self.food_exist {
                    1int
                } else {
                    0
                }),
                forall|k: int|
                    0 <= k < self.snake.body@.len() ==> r@[k] == (
                        (#[trigger] self.snake.body@[k]).x,
                        self.snake.body@[k].y,
                        CellKind::SnakeBody,
                    ),
                self.food_exist ==> r@[self.snake.body@.len() as int] == (
                    self.food_x,
                    self.food_y,
                    CellKind::Food,
                ),
                forall|k: int|
                    0 <= k < j ==> r@[base + k] == (
                        (#[trigger] self.obstacles@[k]).x,
                        self.obstacles@[k].y,
                        CellKind::Obstacle,
                    ),
            decreases self.obstacles@.len() - j,
        {
            let ob = self.obstacles[j];
            r.push((ob.x, ob.y, CellKind::Obstacle));
            j = j + 1;
        }
        r
    }

    /// The four border rectangles the renderer frames the board with, each
    /// as (x, y, width, height) in grid units: top, bottom, left, right.
    pub fn border_rects(&self) -> (r: Vec<(i32, i32, i32, i32)>)
        requires
            self.wf(),
        ensures
            r@ == seq![
                (0i32, 0i32, self.width, 1i32),
                (0i32, (self.height - 1) as i32, self.width, 1i32),
                (0i32, 0i32, 1i32, self.height),
                ((self.width - 1) as i32, 0i32, 1i32, self.height),
            ],
    {
        let mut r: Vec<(i32, i32, i32, i32)> = Vec::new();
        r.push((0, 0, self.width, 1));
        r.push((0, self.height - 1, self.width, 1));
        r.push((0, 0, 1, self.height));
        r.push((self.width - 1, 0, 1, self.height));
        proof {
            assert(r@ =~= seq![
                (0i32, 0i32, self.width, 1i32),
                (0i32, (self.height - 1) as i32, self.width, 1i32),
                (0i32, 0i32, 1i32, self.height),
                ((self.width - 1) as i32, 0i32, 1i32, self.height),
            ]);
        }
        r
    }
}

/// Across any movement tick the attach chance never decreases, and it never
/// exceeds the cap.
pub proof fn lemma_attach_chance_monotone(pre: Game, post: Game, dir: Option<Direction>)
    requires
        pre.wf(),
        spec_update_snake_rel(pre, post, dir),
    ensures
        pre.attach_chance <= post.attach_chance <= ATTACH_CHANCE_MAX,
{
}

/// After any survivable move the head lies strictly inside the border frame;
/// a lethal move instead raises the game-over flag and leaves the snake
/// untouched.
pub proof fn lemma_border_invariant(pre: Game, post: Game, dir: Option<Direction>)
    requires
        pre.wf(),
        spec_update_snake_rel(pre, post, dir),
    ensures
        pre.spec_snake_alive(dir) ==> 0 < post.snake.body@[0].x < post.width - 1 && 0
            < post.snake.body@[0].y < post.height - 1,
        !pre.spec_snake_alive(dir) ==> post.is_game_over && post.snake == pre.snake,
{
    if pre.spec_snake_alive(dir) {
        assert(0 < pre.snake.spec_next_head(dir).0 < pre.width - 1);
        assert(0 < pre.snake.spec_next_head(dir).1 < pre.height - 1);
        assert(post.snake.body@[0] == pre.snake.spec_next_block(dir));
    }
}

/// One tick consumes the present food at most once: a tick that eats grows
/// the snake by exactly one segment, clears the food, and spawns one
/// obstacle — or three once the grown attach chance passes the threshold —
/// whenever any interior cell is free to take an obstacle.
pub proof fn lemma_meal_effects(pre: Game, post: Game, dir: Option<Direction>)
    requires
        pre.wf(),
        spec_update_snake_rel(pre, post, dir),
        pre.spec_eats(dir),
    ensures
        post.snake.body@.len() == pre.snake.body@.len() + 1,
        !post.food_exist,
        pre.obstacles@.len() <= post.obstacles@.len() <= pre.obstacles@.len()
            + spec_obstacles_per_meal(pre.attach_chance),
        post.spec_has_free_obstacle_cell() ==> post.obstacles@.len() == pre.obstacles@.len()
            + spec_obstacles_per_meal(pre.attach_chance),
        spec_obstacles_per_meal(pre.attach_chance) == if spec_next_attach(pre.attach_chance)
            > BONUS_THRESHOLD {
            3int
        } else {
            1int
        },
{
}

/// Any two states that both look freshly constructed over the same grid
/// agree in every observable field: a timed restart lands on exactly the
/// state that `new` builds.
pub proof fn lemma_restart_matches_new(a: Game, b: Game, width: i32, height: i32)
    requires
        a.spec_is_initial(width, height),
        b.spec_is_initial(width, height),
    ensures
        a.snake.body@ == b.snake.body@,
        a.snake.direction == b.snake.direction,
        a.food_exist == b.food_exist,
        a.food_x == b.food_x,
        a.food_y == b.food_y,
        a.obstacles@ == b.obstacles@,
        a.obstacles@.len() == 0,
        a.attach_chance == b.attach_chance,
        a.attach_chance == INITIAL_ATTACH_CHANCE,
        a.is_game_over == b.is_game_over,
        a.waiting_time == b.waiting_time,
{
}

} // verus!
