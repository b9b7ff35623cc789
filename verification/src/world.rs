//! The World aggregate: grid, snake, reward, score, and game status.

use vstd::prelude::*;

verus! {

use vstd::seq_lib::seq_to_set_is_finite;
use vstd::set_lib::lemma_int_range;
use vstd::set_lib::lemma_len_subset;
use vstd::set_lib::set_int_range;
use vstd::string::StringExecFns;
use crate::grid::Direction;
use crate::grid::next_index;
use crate::grid::spec_next_index;
use crate::snake::Snake;
use crate::snake::SnakeCell;
use crate::snake::cell_indices;

/// The status of a game in progress, reported to the presentation layer.
#[allow(non_camel_case_types)]
#[derive(Clone, Copy, PartialEq, Eq, Structural, Debug)]
pub enum GameStatus {
    WON,
    LOST,
    PLAYED,
}

/// The random-integer capability injected by the embedding environment.
/// The core owns no generator; whoever hosts it supplies one, and every
/// draw must land in `[0, max)`.
pub trait RandomSource {
    /// Draws an integer in `[0, max)`.
    fn random_index(&mut self, max: usize) -> (r: usize)
        requires
            1 <= max,
        ensures
            r < max,
    ;
}

/// The aggregate game state: grid side length, snake, pending head cell,
/// reward cell, score, and status.
pub struct World<R: RandomSource> {
    width: usize,
    points: usize,
    snake: Snake,
    size: usize,
    next_cell: Option<SnakeCell>,
    reward_cell: Option<usize>,
    status: Option<GameStatus>,
    rng: R,
}

impl<R: RandomSource> World<R> {
    /// Grid side length.
    pub closed spec fn grid_width(&self) -> usize {
        self.width
    }

    /// Total number of cells: the square of the side length.
    pub closed spec fn grid_size(&self) -> usize {
        self.size
    }

    /// Score: rewards consumed so far.
    pub closed spec fn score(&self) -> usize {
        self.points
    }

    /// The body as a sequence of cell indices, head first.
    pub closed spec fn body(&self) -> Seq<usize> {
        cell_indices(self.snake.body@)
    }

    /// The current heading.
    pub closed spec fn heading(&self) -> Direction {
        self.snake.direction
    }

    /// The pending head cell cached by a validated direction change.
    pub closed spec fn pending(&self) -> Option<usize> {
        match self.next_cell {
            Some(c) => Some(c.0),
            None => None,
        }
    }

    /// The reward cell, absent only once the game is won.
    pub closed spec fn reward(&self) -> Option<usize> {
        self.reward_cell
    }

    /// The game status; absent means no game is in progress.
    pub closed spec fn state(&self) -> Option<GameStatus> {
        self.status
    }

    /// Well-formedness: the grid is at least 2 x 2 and its size is the square
    /// of its width; the body has at least its spawn length of 3 and at most
    /// one cell per grid cell; every body index, the pending cell and the
    /// reward lie on the grid; the reward never sits on the body; and the
    /// score trails the body length by the spawn length.
    pub open spec fn wf(&self) -> bool {
        &&& 2 <= self.grid_width()
        &&& self.grid_size() == self.grid_width() * self.grid_width()
        &&& 3 <= self.body().len() <= self.grid_size()
        &&& (forall|i: int| 0 <= i < self.body().len() ==> self.body()[i] < self.grid_size())
        &&& (self.reward() matches Some(c) ==> c < self.grid_size() && !self.body().contains(c))
        &&& (self.pending() matches Some(c) ==> c < self.grid_size())
        &&& self.score() + 3 <= self.body().len()
    }
}

/// The cell the head moves to on the next tick: the pending cell cached by a
/// validated direction change if one is present, else one move from the
/// current head along the current heading.
pub open spec fn spec_next_head<R: RandomSource>(pre: World<R>) -> usize {
    match pre.pending() {
        Some(c) => c,
        None => spec_next_index(
            pre.body()[0] as int,
            pre.grid_width() as int,
            pre.heading(),
        ) as usize,
    }
}

/// Follow-the-leader shift: the new head in front, every other segment
/// taking its predecessor's old position, the old tail dropped.
pub open spec fn shifted(body: Seq<usize>, head: usize) -> Seq<usize> {
    seq![head] + body.drop_last()
}

/// The head sits on another body segment.
pub open spec fn self_hit(body: Seq<usize>) -> bool {
    exists|k: int| 1 <= k < body.len() && #[trigger] body[k] == body[0]
}

/// Every cell of the grid is occupied by some body segment.
pub open spec fn covers_grid(body: Seq<usize>, size: usize) -> bool {
    forall|x: usize| x < size ==> body.contains(x)
}

/// How one tick transforms the world.  Nothing happens unless the status is
/// PLAYED.  Otherwise the body shifts behind the next head cell; a head
/// landing on another segment loses the game with no further effects; a head
/// landing on the reward grows the body by the old tail, scores a point and
/// redraws the reward outside the new body — or, if no free cell is left or
/// the body was already at grid capacity, wins the game and clears the
/// reward.
pub open spec fn step_rel<R: RandomSource>(pre: World<R>, post: World<R>) -> bool {
    if pre.state() != Some(GameStatus::PLAYED) {
        post == pre
    } else {
        let head = spec_next_head(pre);
        let moved = shifted(pre.body(), head);
        &&& post.grid_width() == pre.grid_width()
        &&& post.grid_size() == pre.grid_size()
        &&& post.heading() == pre.heading()
        &&& post.pending() is None
        &&& if self_hit(moved) {
            &&& post.body() == moved
            &&& post.state() == Some(GameStatus::LOST)
            &&& post.reward() == pre.reward()
            &&& post.score() == pre.score()
        } else if pre.reward() == Some(head) {
            if pre.body().len() < pre.grid_size() {
                let grown = moved.push(pre.body().last());
                &&& post.body() == grown
                &&& post.score() == pre.score() + 1
                &&& if covers_grid(grown, pre.grid_size()) {
                    post.state() == Some(GameStatus::WON) && post.reward() is None
                } else {
                    &&& post.state() == Some(GameStatus::PLAYED)
                    &&& (post.reward() matches Some(r) && r < pre.grid_size()
                        && !grown.contains(r))
                }
            } else {
                &&& post.body() == moved
                &&& post.state() == Some(GameStatus::WON)
                &&& post.reward() is None
                &&& post.score() == pre.score()
            }
        } else {
            &&& post.body() == moved
            &&& post.state() == Some(GameStatus::PLAYED)
            &&& post.reward() == pre.reward()
            &&& post.score() == pre.score()
        }
    }
}

/// How a direction change transforms the world: the candidate next head is
/// one move from the head in the requested direction; if it is the second
/// body segment the request is rejected and nothing changes, else it is
/// cached as the pending head cell and the heading follows the request.
pub open spec fn change_rel<R: RandomSource>(
    pre: World<R>,
    post: World<R>,
    direction: Direction,
) -> bool {
    let cand = spec_next_index(
        pre.body()[0] as int,
        pre.grid_width() as int,
        direction,
    ) as usize;
    if cand == pre.body()[1] {
        post == pre
    } else {
        &&& post.pending() == Some(cand)
        &&& post.heading() == direction
        &&& post.grid_width() == pre.grid_width()
        &&& post.grid_size() == pre.grid_size()
        &&& post.body() == pre.body()
        &&& post.reward() == pre.reward()
        &&& post.score() == pre.score()
        &&& post.state() == pre.state()
    }
}

/// How `end_game` transforms the world: the status is cleared, the rest of
/// the state is untouched.
pub open spec fn end_rel<R: RandomSource>(pre: World<R>, post: World<R>) -> bool {
    &&& post.state() is None
    &&& post.grid_width() == pre.grid_width()
    &&& post.grid_size() == pre.grid_size()
    &&& post.body() == pre.body()
    &&& post.heading() == pre.heading()
    &&& post.pending() == pre.pending()
    &&& post.reward() == pre.reward()
    &&& post.score() == pre.score()
}

/// How `start_game` transforms the world: the status becomes PLAYED, the
/// rest of the state is untouched.
pub open spec fn start_rel<R: RandomSource>(pre: World<R>, post: World<R>) -> bool {
    &&& post.state() == Some(GameStatus::PLAYED)
    &&& post.grid_width() == pre.grid_width()
    &&& post.grid_size() == pre.grid_size()
    &&& post.body() == pre.body()
    &&& post.heading() == pre.heading()
    &&& post.pending() == pre.pending()
    &&& post.reward() == pre.reward()
    &&& post.score() == pre.score()
}

/// Reversal guard: a direction change whose candidate cell is the second
/// body segment — the head would step back onto its own neck — changes
/// nothing at all: neither the heading nor the pending head cell moves.
pub proof fn lemma_reversal_rejected<R: RandomSource>(
    pre: World<R>,
    post: World<R>,
    direction: Direction,
)
    requires
        change_rel(pre, post, direction),
        spec_next_index(pre.body()[0] as int, pre.grid_width() as int, direction) as usize
            == pre.body()[1],
    ensures
        post == pre,
{
}

/// Landing on the reward with the body already at grid capacity wins the
/// game: the status becomes WON and the reward becomes absent.
pub proof fn lemma_win_at_capacity<R: RandomSource>(pre: World<R>, post: World<R>)
    requires
        pre.wf(),
        pre.state() == Some(GameStatus::PLAYED),
        pre.body().len() == pre.grid_size(),
        pre.reward() == Some(spec_next_head(pre)),
        step_rel(pre, post),
    ensures
        post.state() == Some(GameStatus::WON),
        post.reward() is None,
{
    let head = spec_next_head(pre);
    let moved = shifted(pre.body(), head);
    assert(!self_hit(moved)) by {
        if self_hit(moved) {
            let k = choose|k: int| 1 <= k < moved.len() && #[trigger] moved[k] == moved[0];
            assert(moved[k] == pre.body()[k - 1]);
            assert(pre.body().contains(head));
        }
    }
}

/// A head landing on any other body segment loses the game: the status
/// becomes LOST and the body is left in its shifted form, with no further
/// effects on score or reward.
pub proof fn lemma_self_collision_loses<R: RandomSource>(pre: World<R>, post: World<R>)
    requires
        pre.state() == Some(GameStatus::PLAYED),
        self_hit(shifted(pre.body(), spec_next_head(pre))),
        step_rel(pre, post),
    ensures
        post.state() == Some(GameStatus::LOST),
        post.body() == shifted(pre.body(), spec_next_head(pre)),
        post.score() == pre.score(),
        post.reward() == pre.reward(),
{
}

/// Terminal states are absorbing: a tick taken in any state other than
/// PLAYED — after a loss, a win, or once the game was ended — changes
/// nothing.
pub proof fn lemma_terminal_step_is_no_op<R: RandomSource>(pre: World<R>, post: World<R>)
    requires
        pre.state() != Some(GameStatus::PLAYED),
        step_rel(pre, post),
    ensures
        post == pre,
{
}

/// `end_game` followed by `step` is a no-op: once the status is cleared, a
/// tick changes nothing.
pub proof fn lemma_end_game_then_step_is_no_op<R: RandomSource>(
    w0: World<R>,
    w1: World<R>,
    w2: World<R>,
)
    requires
        end_rel(w0, w1),
        step_rel(w1, w2),
    ensures
        w2 == w1,
{
}

/// `start_game` re-enables stepping without altering the snake, the score or
/// the reward.
pub proof fn lemma_start_game_preserves_progress<R: RandomSource>(w0: World<R>, w1: World<R>)
    requires
        start_rel(w0, w1),
    ensures
        w1.state() == Some(GameStatus::PLAYED),
        w1.body() == w0.body(),
        w1.heading() == w0.heading(),
        w1.score() == w0.score(),
        w1.reward() == w0.reward(),
{
}

/// A body with fewer segments than the grid has cells leaves some cell free.
pub proof fn lemma_short_body_leaves_free_cell(body: Seq<usize>, size: usize)
    requires
        body.len() < size,
    ensures
        !covers_grid(body, size),
{
    broadcast use seq_to_set_is_finite;

    if covers_grid(body, size) {
        let ints = body.map_values(|u: usize| u as int);
        assert forall|x: int| 0 <= x < size implies ints.to_set().contains(x) by {
            assert(body.contains(x as usize));
            let k = choose|k: int| 0 <= k < body.len() && body[k] == x as usize;
            assert(ints[k] == x);
            assert(ints.contains(x));
        }
        assert(set_int_range(0, size as int).subset_of(ints.to_set()));
        lemma_int_range(0, size as int);
        lemma_len_subset(set_int_range(0, size as int), ints.to_set());
        ints.lemma_cardinality_of_set();
        assert(false);
    }
}

/// Whether `cell` occurs in the body.
fn body_occupies(body: &Vec<SnakeCell>, cell: usize) -> (found: bool)
    ensures
        found == cell_indices(body@).contains(cell),
{
    let n: usize = body.len();
    let mut i: usize = 0;
    while i < n
        invariant
            i <= n,
            n == body@.len(),
            forall|j: int| 0 <= j < i ==> body@[j].0 != cell,
        decreases n - i,
    {
        if body[i].0 == cell {
            assert(cell_indices(body@)[i as int] == cell);
            return true;
        }
        i = i + 1;
    }
    assert(forall|j: int| 0 <= j < body@.len() ==> cell_indices(body@)[j] != cell);
    false
}

impl<R: RandomSource> World<R> {
    /// Draws a reward cell from the injected random source, uniformly among
    /// the cells the body leaves free; reports `None` when the body covers
    /// the whole grid and no reward cell exists.
    fn gen_reward_cell(rng: &mut R, size: usize, snake_body: &Vec<SnakeCell>) -> (r: Option<
        usize,
    >)
        requires
            1 <= size,
        ensures
            (r matches Some(c) ==> c < size && !cell_indices(snake_body@).contains(c)),
            (r is None ==> covers_grid(cell_indices(snake_body@), size)),
    {
        let mut free: Vec<usize> = Vec::new();
        let mut c: usize = 0;
        while c < size
            invariant
                c <= size,
                forall|j: int|
                    0 <= j < free@.len() ==> #[trigger] free@[j] < size && !cell_indices(
                        snake_body@,
                    ).contains(free@[j]),
                forall|x: usize|
                    x < c ==> cell_indices(snake_body@).contains(x) || free@.contains(x),
            decreases size - c,
        {
            let ghost prev = free@;
            let in_body = body_occupies(snake_body, c);
            if !in_body {
                free.push(c);
            }
            proof {
                assert forall|x: usize|
                    x < c + 1 implies cell_indices(snake_body@).contains(x) || free@.contains(
                    x,
                ) by {
                    if x < c {
                        if !cell_indices(snake_body@).contains(x) {
                            assert(prev.contains(x));
                            let k = choose|k: int| 0 <= k < prev.len() && prev[k] == x;
                            assert(free@[k] == x);
                            assert(free@.contains(x));
                        }
                    } else {
                        if !in_body {
                            assert(free@[prev.len() as int] == c);
                            assert(free@.contains(c));
                        }
                    }
                }
            }
            c = c + 1;
        }
        if free.len() == 0 {
            proof {
                assert forall|x: usize|
                    x < size implies cell_indices(snake_body@).contains(x) by {
                    assert(!free@.contains(x));
                }
            }
            None
        } else {
            let k = rng.random_index(free.len());
            Some(free[k])
        }
    }

    /// Builds a world with the given grid side length and a snake of length 3
    /// whose head spawns at `snake_idx`, heading RIGHT, with an initial
    /// reward already drawn outside the body and no game in progress.
    pub fn new(width: usize, snake_idx: usize, rng: R) -> (w: World<R>)
        requires
            2 <= width,
            width * width <= usize::MAX,
            2 <= snake_idx,
            snake_idx < width * width,
        ensures
            w.wf(),
            w.grid_width() == width,
            w.grid_size() == width * width,
            w.body().len() == 3,
            forall|i: int| 0 <= i < 3 ==> w.body()[i] == snake_idx - i,
            w.heading() == Direction::RIGHT,
            w.pending() is None,
            w.state() is None,
            w.score() == 0,
            w.reward() is Some,
    {
        let snake = Snake::new(snake_idx, 3);
        let size = width * width;
        let mut rng = rng;
        proof {
            assert(4 <= size) by (nonlinear_arith)
                requires
                    2 <= width,
                    size == width * width,
            {
            }
            assert(cell_indices(snake.body@).len() == 3);
            assert(forall|i: int|
                0 <= i < 3 ==> cell_indices(snake.body@)[i] == snake.body@[i].0);
            lemma_short_body_leaves_free_cell(cell_indices(snake.body@), size);
        }
        let reward_cell = Self::gen_reward_cell(&mut rng, size, &snake.body);
        World { width, points: 0, snake, size, next_cell: None, reward_cell, status: None, rng }
    }

    /// Grid side length.
    pub fn get_w(&self) -> (w: usize)
        ensures
            w == self.grid_width(),
    {
        self.width
    }

    /// Rewards consumed so far.
    pub fn get_points(&self) -> (p: usize)
        ensures
            p == self.score(),
    {
        self.points
    }

    /// The reward cell, absent only once the game is won.
    pub fn get_reward(&self) -> (r: Option<usize>)
        ensures
            r == self.reward(),
    {
        self.reward_cell
    }

    /// The head's cell index.
    pub fn snake_head(&self) -> (head: usize)
        requires
            self.wf(),
        ensures
            head == self.body()[0],
    {
        self.snake.body[0].0
    }

    /// Number of body segments.
    pub fn snake_length(&self) -> (n: usize)
        ensures
            n == self.body().len(),
    {
        self.snake.body.len()
    }

    /// A read-only view of the body cells in head-to-tail order, valid until
    /// the next mutating call.
    pub fn snake_cells(&self) -> (cells: &Vec<SnakeCell>)
        ensures
            cell_indices(cells@) == self.body(),
    {
        &self.snake.body
    }

    /// Arms the state machine: the status becomes PLAYED, nothing else moves.
    pub fn start_game(&mut self)
        ensures
            start_rel(*old(self), *final(self)),
            old(self).wf() ==> final(self).wf(),
    {
        self.status = Some(GameStatus::PLAYED);
    }

    /// Abandons the run: the status is cleared, nothing else moves.
    pub fn end_game(&mut self)
        ensures
            end_rel(*old(self), *final(self)),
            old(self).wf() ==> final(self).wf(),
    {
        self.status = None;
    }

    /// The game status; absent means no game is in progress.
    pub fn get_status(&self) -> (status: Option<GameStatus>)
        ensures
            status == self.state(),
    {
        self.status
    }

    /// A human-readable rendering of the status.
    pub fn game_status_text(&self) -> (text: String)
        ensures
            self.state() == Some(GameStatus::WON) ==> text@ == "You have won!"@,
            self.state() == Some(GameStatus::LOST) ==> text@ == "You have lost!"@,
            self.state() == Some(GameStatus::PLAYED) ==> text@ == "Playing"@,
            self.state() is None ==> text@ == "No Status"@,
    {
        match self.status {
            Some(GameStatus::WON) => String::from_str("You have won!"),
            Some(GameStatus::LOST) => String::from_str("You have lost!"),
            Some(GameStatus::PLAYED) => String::from_str("Playing"),
            None => String::from_str("No Status"),
        }
    }

    /// Validates and applies a direction change: the candidate next head is
    /// one move from the head in the requested direction; a request whose
    /// candidate is the second body segment (an immediate reversal into
    /// oneself) is rejected silently, any other request caches the candidate
    /// as the pending head cell and turns the heading.
    pub fn change_direction(&mut self, direction: Direction)
        requires
            old(self).wf(),
        ensures
            final(self).wf(),
            change_rel(*old(self), *final(self), direction),
    {
        proof {
            assert(self.body().len() == self.snake.body@.len());
            assert(self.body()[0] == self.snake.body@[0].0);
            assert(self.body()[1] == self.snake.body@[1].0);
        }
        let head = self.snake.body[0].0;
        let cand = next_index(head, self.width, direction);
        if self.snake.body[1].0 == cand {
            return ;
        }
        self.next_cell = Some(SnakeCell(cand));
        self.snake.direction = direction;
    }

    /// Advances the simulation one tick, as `step_rel` describes: a no-op
    /// unless the status is PLAYED; otherwise the body shifts behind the next
    /// head cell, a self-collision loses the game, and landing on the reward
    /// scores, grows the body and redraws the reward — or wins the game when
    /// the grid is full.
    pub fn step(&mut self)
        requires
            old(self).wf(),
        ensures
            final(self).wf(),
            step_rel(*old(self), *final(self)),
    {
        let is_played = match self.status {
            Some(GameStatus::PLAYED) => true,
            _ => false,
        };
        if !is_played {
            return ;
        }
        let ghost pre = *old(self);
        proof {
            assert(pre.body().len() == self.snake.body@.len());
            assert(forall|i: int|
                0 <= i < self.snake.body@.len() ==> pre.body()[i] == self.snake.body@[i].0);
            assert(pre.body()[0] < pre.grid_size());
            assert(self.snake.body@[0].0 < self.width * self.width);
        }
        let len = self.snake.body.len();
        let new_head: usize = match self.next_cell {
            Some(cell) => {
                self.next_cell = None;
                cell.0
            },
            None => next_index(self.snake.body[0].0, self.width, self.snake.direction),
        };
        assert(new_head == spec_next_head(pre));
        assert(new_head < self.size);
        let old_tail = self.snake.body[len - 1];
        let mut new_body: Vec<SnakeCell> = Vec::new();
        new_body.push(SnakeCell(new_head));
        let mut k: usize = 1;
        while k < len
            invariant
                1 <= k <= len,
                len == self.snake.body@.len(),
                new_body@.len() == k,
                new_body@[0].0 == new_head,
                forall|j: int| 1 <= j < k ==> new_body@[j] == self.snake.body@[j - 1],
            decreases len - k,
        {
            let seg = self.snake.body[k - 1];
            new_body.push(seg);
            k = k + 1;
        }
        let ghost moved = shifted(pre.body(), new_head);
        proof {
            assert(cell_indices(new_body@).len() == moved.len());
            assert forall|j: int|
                0 <= j < moved.len() implies cell_indices(new_body@)[j] == moved[j] by {
                assert(cell_indices(new_body@)[j] == new_body@[j].0);
                if j >= 1 {
                    assert(moved[j] == pre.body().drop_last()[j - 1]);
                }
            }
            assert(cell_indices(new_body@) =~= moved);
        }
        let mut hit = false;
        let mut j: usize = 1;
        while j < len
            invariant
                1 <= j <= len,
                new_body@.len() == len,
                hit == exists|m: int| 1 <= m < j && #[trigger] new_body@[m].0 == new_head,
            decreases len - j,
        {
            if new_body[j].0 == new_head {
                hit = true;
            }
            j = j + 1;
        }
        proof {
            if hit {
                let m = choose|m: int| 1 <= m < len && new_body@[m].0 == new_head;
                assert(moved[m] == moved[0]);
                assert(self_hit(moved));
                assert(pre.body()[m - 1] == new_head);
                assert(pre.body().contains(new_head));
            } else {
                if self_hit(moved) {
                    let m = choose|m: int| 1 <= m < moved.len() && #[trigger] moved[m] == moved[0];
                    assert(new_body@[m].0 == new_head);
                    assert(false);
                }
            }
        }
        let reward_hit = match self.reward_cell {
            Some(rc) => rc == new_head,
            None => false,
        };
        if hit {
            self.snake.body = new_body;
            self.status = Some(GameStatus::LOST);
            proof {
                match pre.reward() {
                    Some(rc) => {
                        assert(!cell_indices(new_body@).contains(rc)) by {
                            if cell_indices(new_body@).contains(rc) {
                                let w = choose|w: int|
                                    0 <= w < moved.len() && #[trigger] moved[w] == rc;
                                if w >= 1 {
                                    assert(pre.body()[w - 1] == rc);
                                    assert(pre.body().contains(rc));
                                }
                            }
                        }
                    },
                    None => {},
                }
            }
        } else if reward_hit {
            if len < self.size {
                self.points = self.points + 1;
                new_body.push(old_tail);
                self.snake.body = new_body;
                proof {
                    assert(old_tail.0 == pre.body().last());
                    assert(cell_indices(self.snake.body@) =~= moved.push(pre.body().last()));
                }
                let reward = Self::gen_reward_cell(&mut self.rng, self.size, &self.snake.body);
                match reward {
                    Some(fresh) => {
                        self.reward_cell = Some(fresh);
                    },
                    None => {
                        self.reward_cell = None;
                        self.status = Some(GameStatus::WON);
                    },
                }
            } else {
                self.snake.body = new_body;
                self.reward_cell = None;
                self.status = Some(GameStatus::WON);
            }
        } else {
            self.snake.body = new_body;
            proof {
                match pre.reward() {
                    Some(rc) => {
                        assert(!cell_indices(new_body@).contains(rc)) by {
                            if cell_indices(new_body@).contains(rc) {
                                let w = choose|w: int|
                                    0 <= w < moved.len() && #[trigger] moved[w] == rc;
                                if w >= 1 {
                                    assert(pre.body()[w - 1] == rc);
                                    assert(pre.body().contains(rc));
                                }
                            }
                        }
                    },
                    None => {},
                }
            }
        }
    }
}

} // verus!
