use std::collections::VecDeque;
use vstd::prelude::*;

use vstd::arithmetic::div_mod::{
    lemma_fundamental_div_mod_converse, lemma_mod_pos_bound, lemma_multiply_divide_lt, lemma_small_mod,
};

use crate::types::{
    area_of, in_grid, lemma_cover_len, lemma_next_cell_in_grid, next_cell, pos, spec_opposite,
    unit_step, valid_size, Coord, CoordType, MoveTo, Pos,
};

verus! {

/// Relies on rand::random: an arbitrary value of the requested type, drawn from
/// the thread-local generator. Nothing is promised of the value.
pub assume_specification<T>[ rand::random::<T> ]() -> (r: T)
    where
        rand::distributions::Standard: rand::distributions::Distribution<T>,
;

#[derive(Debug, Clone, Copy, PartialEq, Eq, Structural)]
pub enum GameStatus {
    Play,
    Fail,
    Win,
}

#[derive(Debug, Clone, Copy, PartialEq, Eq, Structural)]
pub enum GameEvent {
    GameStart,
    FoodEat,
    Fail,
    Win,
}

#[derive(Debug, Clone, Copy, PartialEq, Eq, Structural)]
pub struct Stats {
    /// Count of eaten food
    pub score: usize,
    pub status: GameStatus,
}

impl Stats {
    pub fn new() -> (r: Self)
        ensures
            r.score == 0,
            r.status == GameStatus::Play,
    {
        Self { score: 0, status: GameStatus::Play }
    }
}

/// The abstract state of a game.
pub struct GameView {
    /// Field's size
    pub size: Pos,
    /// The snake's cells, tail first and head last
    pub snake: Seq<Pos>,
    pub food: Pos,
    pub direction: MoveTo,
    pub stats: Stats,
    pub last_event: Option<GameEvent>,
}

impl GameView {
    pub open spec fn head(self) -> Pos {
        self.snake.last()
    }

    pub open spec fn area(self) -> nat {
        area_of(self.size)
    }

    pub open spec fn cells_in_grid(self) -> bool {
        forall|i: int| 0 <= i < self.snake.len() ==> in_grid(#[trigger] self.snake[i], self.size)
    }

    /// The snake is one cell longer than the score.
    pub open spec fn len_matches_score(self) -> bool {
        self.snake.len() == self.stats.score + 1
    }

    /// No two cells of the snake coincide.
    pub open spec fn cells_distinct(self) -> bool {
        self.snake.no_duplicates()
    }

    /// The food lies on the grid, off the snake, and the snake does not fill the grid.
    pub open spec fn food_clear(self) -> bool {
        &&& in_grid(self.food, self.size)
        &&& !self.snake.contains(self.food)
        &&& self.snake.len() < self.area()
    }

    /// What holds of every reachable state, whatever the status.
    pub open spec fn shape_ok(self) -> bool {
        &&& valid_size(self.size)
        &&& in_grid(self.food, self.size)
        &&& 1 <= self.snake.len() <= self.area()
        &&& self.cells_in_grid()
        &&& self.len_matches_score()
        &&& self.cells_distinct()
    }

    /// The game's invariant: the shape, and a clear food cell while playing.
    pub open spec fn inv(self) -> bool {
        &&& self.shape_ok()
        &&& self.stats.status == GameStatus::Play ==> self.food_clear()
    }

    /// A fresh game on a grid of `size`: a one-cell snake at the centre heading
    /// right, score zero; won at once when the grid has a single cell.
    pub open spec fn is_new_game(self, size: Pos) -> bool {
        &&& self.inv()
        &&& self.size == size
        &&& self.snake == seq![Pos { x: Coord(size.x.0 / 2), y: Coord(size.y.0 / 2) }]
        &&& self.direction == MoveTo::Right
        &&& self.stats.score == 0
        &&& self.stats.status == if area_of(size) == 1 {
            GameStatus::Win
        } else {
            GameStatus::Play
        }
        &&& self.last_event == if area_of(size) == 1 {
            Some(GameEvent::Win)
        } else {
            Some(GameEvent::GameStart)
        }
        &&& area_of(size) == 1 ==> self.food == pos(0, 0)
    }

    /// The state after asking to turn to `to`: a snake longer than one cell
    /// does not turn straight back.
    pub open spec fn rotated(self, to: MoveTo) -> GameView {
        GameView {
            direction: if self.direction == spec_opposite(to) && self.stats.score > 0 {
                self.direction
            } else {
                to
            },
            ..self
        }
    }

    /// Holds of the cells the snake does not cover.
    pub open spec fn is_free(self) -> spec_fn(Pos) -> bool {
        |p: Pos| !self.snake.contains(p)
    }

    /// The cells the snake does not cover, in row order.
    pub open spec fn free_cells(self) -> Seq<Pos> {
        row_order(self.size).filter(self.is_free())
    }

    /// The food cell a pair of random draws gives: `(rx mod width, ry mod
    /// height)`, unless the snake covers it.
    pub open spec fn draw_cell(self, rx: u32, ry: u32) -> Option<Pos> {
        let c = pos((rx % self.size.x.0) as int, (ry % self.size.y.0) as int);
        if self.snake.contains(c) {
            None
        } else {
            Some(c)
        }
    }

    /// The cell the head moves to on the next step.
    pub open spec fn next_head(self) -> Pos {
        next_cell(self.head(), self.direction, self.size)
    }

    /// `post` is a state that one step can lead to from `self`. The food placed
    /// after a growth is random: any clear cell may be chosen.
    pub open spec fn step_to(self, post: GameView) -> bool {
        let next = self.next_head();
        if self.stats.status != GameStatus::Play {
            post == self
        } else if self.snake.contains(next) {
            post == GameView {
                stats: Stats { status: GameStatus::Fail, ..self.stats },
                last_event: Some(GameEvent::Fail),
                ..self
            }
        } else if next == self.food {
            &&& post.size == self.size
            &&& post.direction == self.direction
            &&& post.snake == self.snake.push(next)
            &&& post.stats.score == self.stats.score + 1
            &&& post.last_event == Some(GameEvent::FoodEat)
            &&& if post.snake.len() == self.area() {
                post.stats.status == GameStatus::Win && post.food == self.food
            } else {
                post.stats.status == GameStatus::Play && post.food_clear()
            }
        } else {
            post == GameView { snake: self.snake.push(next).drop_first(), ..self }
        }
    }
}

/// The cell with index `i` when the cells of a grid of `size` are counted
/// row by row.
pub open spec fn cell_at(i: int, size: Pos) -> Pos {
    pos(i % (size.x.0 as int), i / (size.x.0 as int))
}

/// All cells of a grid of `size`, row by row.
pub open spec fn row_order(size: Pos) -> Seq<Pos> {
    Seq::new(area_of(size), |i: int| cell_at(i, size))
}

/// Game state
///
/// `(0, 0)` is at top left position
#[derive(Debug)]
pub struct Game {
    /// Field's size
    size: Pos,
    /// List of snake's blocks, head at the back
    snake: VecDeque<Pos>,
    food: Pos,
    /// Current snake's direction
    direction: MoveTo,
    stats: Stats,
    last_event: Option<GameEvent>,
}

impl View for Game {
    type V = GameView;

    closed spec fn view(&self) -> GameView {
        GameView {
            size: self.size,
            snake: self.snake@,
            food: self.food,
            direction: self.direction,
            stats: self.stats,
            last_event: self.last_event,
        }
    }
}

impl Game {
    /// Starts a game on a grid of `size`: a one-cell snake at the centre heading
    /// right, and food on a random free cell. A one-cell grid leaves no room for
    /// food, so such a game is won at once.
    pub fn new(size: Pos) -> (r: Self)
        requires
            valid_size(size),
        ensures
            r@.is_new_game(size),
    {
        let mut snake = VecDeque::new();
        snake.push_back(Pos::new(size.x.0 / 2, size.y.0 / 2));
        let mut s = Self {
            size,
            snake,
            food: Pos::new(0, 0),
            direction: MoveTo::Right,
            stats: Stats::new(),
            last_event: Some(GameEvent::GameStart),
        };
        proof {
            vstd::arithmetic::mul::lemma_mul_increases(size.x.0 as int, size.y.0 as int);
        }
        s.update_food();
        s
    }

    /// Moves the snake one step in its current direction.
    pub fn move_snake(&mut self)
        requires
            old(self)@.inv(),
        ensures
            final(self)@.inv(),
            old(self)@.step_to(final(self)@),
    {
        let to = self.direction;
        self.move_snake_to(to);
    }

    /// Rotates the snake to a new direction, unless that would turn a snake of
    /// more than one cell straight back onto itself.
    pub fn rotate_to(&mut self, to: MoveTo)
        requires
            old(self)@.inv(),
        ensures
            final(self)@.inv(),
            final(self)@ == old(self)@.rotated(to),
    {
        // do not move back if snake has > 1 cells
        if self.direction == to.opposite() && self.stats.score > 0 {
            return;
        }
        self.set_direction(to);
    }

    fn move_snake_to(&mut self, to: MoveTo)
        requires
            old(self)@.inv(),
            to == old(self)@.direction,
        ensures
            final(self)@.inv(),
            old(self)@.step_to(final(self)@),
    {
        if self.stats.status != GameStatus::Play {
            return;
        }
        let next = self.get_next_pos(to);
        if self.is_in_snake(next) {
            self.set_status(GameStatus::Fail);
            self.set_event(GameEvent::Fail);
            return;
        }
        if next == self.food {
            self.grow_to_pos(next);
            self.set_event(GameEvent::FoodEat);
        } else {
            proof {
                lemma_shift_keeps_distinct(self@.snake, next);
            }
            self.move_to_pos(next);
        }
    }

    /// The snake's cells, tail first and head last.
    pub fn snake(&self) -> (r: Vec<Pos>)
        ensures
            r@ == self@.snake,
    {
        let mut r: Vec<Pos> = Vec::new();
        let mut i: usize = 0;
        while i < self.snake.len()
            invariant
                i <= self.snake@.len(),
                r@ == self.snake@.subrange(0, i as int),
            decreases self.snake@.len() - i,
        {
            r.push(self.snake[i]);
            i += 1;
        }
        assert(r@ =~= self.snake@);
        r
    }

    pub fn size(&self) -> (r: Pos)
        ensures
            r == self@.size,
    {
        self.size
    }

    pub fn food(&self) -> (r: Pos)
        ensures
            r == self@.food,
    {
        self.food
    }

    pub fn stats(&self) -> (r: Stats)
        ensures
            r == self@.stats,
    {
        self.stats
    }

    pub fn direction(&self) -> (r: MoveTo)
        ensures
            r == self@.direction,
    {
        self.direction
    }

    /// The snake's head: its most recently added cell.
    pub fn head(&self) -> (r: Pos)
        requires
            self@.inv(),
        ensures
            r == self@.head(),
    {
        self.snake[self.snake.len() - 1]
    }

    /// Last occured event
    pub fn last_event(&self) -> (r: Option<GameEvent>)
        ensures
            r == self@.last_event,
    {
        self.last_event
    }

    /// Mark event processed: the last event is cleared only if it is still `event`.
    pub fn forgot_event(&mut self, event: GameEvent)
        requires
            old(self)@.inv(),
        ensures
            final(self)@.inv(),
            final(self)@ == (GameView {
                last_event: if old(self)@.last_event == Some(event) {
                    None
                } else {
                    old(self)@.last_event
                },
                ..old(self)@
            }),
    {
        if let Some(e) = self.last_event {
            if e == event {
                self.last_event = None;
            }
        }
    }

    /// Puts the food on `food` if the game is on and that cell is free; returns
    /// whether it did. Otherwise nothing changes.
    pub fn set_food(&mut self, food: Pos) -> (r: bool)
        requires
            old(self)@.inv(),
        ensures
            final(self)@.inv(),
            r == (old(self)@.stats.status == GameStatus::Play && in_grid(food, old(self)@.size)
                && !old(self)@.snake.contains(food)),
            final(self)@ == if r {
                GameView { food, ..old(self)@ }
            } else {
                old(self)@
            },
    {
        if self.stats.status != GameStatus::Play || food.x.0 >= self.size.x.0 || food.y.0
            >= self.size.y.0 || self.is_in_snake(food) {
            return false;
        }
        self.food = food;
        true
    }

    fn is_in_snake(&self, pos: Pos) -> (r: bool)
        ensures
            r == self@.snake.contains(pos),
    {
        let mut i: usize = 0;
        while i < self.snake.len()
            invariant
                i <= self.snake@.len(),
                forall|j: int| 0 <= j < i ==> self.snake@[j] != pos,
            decreases self.snake@.len() - i,
        {
            if self.snake[i] == pos {
                return true;
            }
            i += 1;
        }
        false
    }

    /// Move snake to position
    fn move_to_pos(&mut self, to: Pos)
        requires
            old(self)@.snake.len() >= 1,
        ensures
            final(self)@ == (GameView { snake: old(self)@.snake.push(to).drop_first(), ..old(self)@ }),
    {
        self.snake.push_back(to);
        self.snake.pop_front();
    }

    /// Move snake to position and increase snake length
    fn grow_to_pos(&mut self, to: Pos)
        requires
            old(self)@.inv(),
            old(self)@.stats.status == GameStatus::Play,
            in_grid(to, old(self)@.size),
            !old(self)@.snake.contains(to),
        ensures
            final(self)@.shape_ok(),
            final(self)@.size == old(self)@.size,
            final(self)@.direction == old(self)@.direction,
            final(self)@.snake == old(self)@.snake.push(to),
            final(self)@.stats.score == old(self)@.stats.score + 1,
            if final(self)@.snake.len() == old(self)@.area() {
                &&& final(self)@.stats.status == GameStatus::Win
                &&& final(self)@.food == old(self)@.food
            } else {
                &&& final(self)@.stats.status == GameStatus::Play
                &&& final(self)@.food_clear()
            },
    {
        let ghost before = self@.snake;
        self.snake.push_back(to);
        let _ = self.snake.len();
        proof {
            assert forall|i: int, j: int|
                0 <= i < j < self@.snake.len() implies self@.snake[i] != self@.snake[j] by {
                if j == before.len() {
                    assert(before.contains(before[i]));
                }
            }
            assert forall|i: int| 0 <= i < self@.snake.len() implies in_grid(
                #[trigger] self@.snake[i],
                self@.size,
            ) by {
                if i < before.len() {
                    assert(before[i] == self@.snake[i]);
                }
            }
        }
        self.add_score();
        self.update_food();
    }

    /// Calculate position for new food and place it, or win when the snake
    /// fills the whole field.
    fn update_food(&mut self)
        requires
            old(self)@.shape_ok(),
            old(self)@.stats.status == GameStatus::Play,
        ensures
            final(self)@.shape_ok(),
            final(self)@.size == old(self)@.size,
            final(self)@.snake == old(self)@.snake,
            final(self)@.direction == old(self)@.direction,
            final(self)@.stats.score == old(self)@.stats.score,
            if old(self)@.snake.len() == old(self)@.area() {
                &&& final(self)@.stats.status == GameStatus::Win
                &&& final(self)@.last_event == Some(GameEvent::Win)
                &&& final(self)@.food == old(self)@.food
            } else {
                &&& final(self)@.stats.status == GameStatus::Play
                &&& final(self)@.last_event == old(self)@.last_event
                &&& final(self)@.food_clear()
            },
    {
        if !self.can_place_new_food() {
            self.set_status(GameStatus::Win);
            self.set_event(GameEvent::Win);
            return;
        }
        let food = self.get_new_food();
        self.food = food;
    }

    fn set_status(&mut self, status: GameStatus)
        ensures
            final(self)@ == (GameView {
                stats: Stats { status, ..old(self)@.stats },
                ..old(self)@
            }),
    {
        self.stats.status = status;
    }

    fn add_score(&mut self)
        requires
            old(self)@.stats.score < usize::MAX,
        ensures
            final(self)@ == (GameView {
                stats: Stats { score: (old(self)@.stats.score + 1) as usize, ..old(self)@.stats },
                ..old(self)@
            }),
    {
        self.stats.score += 1;
    }

    fn set_direction(&mut self, to: MoveTo)
        ensures
            final(self)@ == (GameView { direction: to, ..old(self)@ }),
    {
        self.direction = to;
    }

    fn set_event(&mut self, event: GameEvent)
        ensures
            final(self)@ == (GameView { last_event: Some(event), ..old(self)@ }),
    {
        self.last_event = Some(event);
    }

    /// Calculate next position depending on field size and direction
    pub fn get_next_pos(&self, to: MoveTo) -> (r: Pos)
        requires
            self@.shape_ok(),
        ensures
            r == next_cell(self@.head(), to, self@.size),
            in_grid(r, self@.size),
    {
        let (x, y) = (self.size.x.0, self.size.y.0);
        let shift = match to {
            MoveTo::Left => Pos::new(x - 1, 0),
            MoveTo::Right => Pos::new(1, 0),
            MoveTo::Up => Pos::new(0, y - 1),
            MoveTo::Down => Pos::new(0, 1),
        };
        assert(shift == unit_step(to, self@.size));
        let head = self.snake[self.snake.len() - 1];
        head.wrapping_add(shift, self.size)
    }

    /// Generate a random position for food: cells are drawn uniformly at random
    /// until a free one comes up, as many times as the field has cells; should
    /// every draw hit the snake, one more draw picks among the free cells.
    fn get_new_food(&self) -> (r: Pos)
        requires
            self@.shape_ok(),
            self@.snake.len() < self@.area(),
        ensures
            in_grid(r, self@.size),
            !self@.snake.contains(r),
            exists|rx: u32, ry: u32| self@.draw_cell(rx, ry) == Some(r),
    {
        let area = self.size.area();
        let mut tries: u64 = 0;
        while tries < area
            invariant
                self@.shape_ok(),
            decreases area - tries,
        {
            let rx = rand::random::<CoordType>();
            let ry = rand::random::<CoordType>();
            if let Some(food) = self.food_from_draw(rx, ry) {
                proof {
                    lemma_small_mod(food.x.0 as nat, self.size.x.0 as nat);
                    lemma_small_mod(food.y.0 as nat, self.size.y.0 as nat);
                }
                return food;
            }
            tries += 1;
        }
        let food = self.nth_free_cell(rand::random::<u64>());
        proof {
            lemma_small_mod(food.x.0 as nat, self.size.x.0 as nat);
            lemma_small_mod(food.y.0 as nat, self.size.y.0 as nat);
            assert(self@.draw_cell(food.x.0, food.y.0) == Some(food));
        }
        food
    }

    /// The food cell that the draws `rx` and `ry` give: `(rx mod width, ry mod
    /// height)`, or `None` when the snake covers that cell.
    pub fn food_from_draw(&self, rx: u32, ry: u32) -> (r: Option<Pos>)
        requires
            self@.shape_ok(),
        ensures
            r == self@.draw_cell(rx, ry),
            r matches Some(c) ==> in_grid(c, self@.size),
    {
        let food = Pos::new(rx % self.size.x.0, ry % self.size.y.0);
        if self.is_in_snake(food) {
            None
        } else {
            Some(food)
        }
    }

    /// The cell with index `i` in row order.
    fn cell_of_index(&self, i: u64) -> (r: Pos)
        requires
            self@.shape_ok(),
            i < self@.area(),
        ensures
            r == row_order(self@.size)[i as int],
            in_grid(r, self@.size),
    {
        let w = self.size.x.0 as u64;
        proof {
            lemma_multiply_divide_lt(i as int, w as int, self.size.y.0 as int);
            lemma_mod_pos_bound(i as int, w as int);
        }
        Pos::new((i % w) as u32, (i / w) as u32)
    }

    /// How many cells the snake leaves free.
    pub fn free_count(&self) -> (r: u64)
        requires
            self@.shape_ok(),
        ensures
            r == self@.free_cells().len(),
    {
        let area = self.size.area();
        let ghost cells = row_order(self@.size);
        let mut i: u64 = 0;
        let mut count: u64 = 0;
        while i < area
            invariant
                self@.shape_ok(),
                area == self@.area(),
                cells == row_order(self@.size),
                i <= area,
                count <= i,
                count == cells.take(i as int).filter(self@.is_free()).len(),
            decreases area - i,
        {
            let c = self.cell_of_index(i);
            proof {
                assert(cells.take(i + 1) =~= cells.take(i as int).push(c));
                cells.take(i as int).lemma_filter_push(c, self@.is_free());
            }
            if !self.is_in_snake(c) {
                count += 1;
            }
            i += 1;
        }
        assert(cells.take(i as int) =~= cells);
        count
    }

    /// The free cell at index `n` modulo the number of free cells, counting the
    /// free cells row by row.
    pub fn nth_free_cell(&self, n: u64) -> (r: Pos)
        requires
            self@.shape_ok(),
            self@.snake.len() < self@.area(),
        ensures
            self@.free_cells().len() > 0,
            r == self@.free_cells()[(n % (self@.free_cells().len() as u64)) as int],
            in_grid(r, self@.size),
            !self@.snake.contains(r),
    {
        let count = self.free_count();
        proof {
            lemma_free_cells_nonempty(self@);
        }
        let k = n % count;
        let area = self.size.area();
        let ghost cells = row_order(self@.size);
        let ghost free = self@.is_free();
        let mut i: u64 = 0;
        let mut seen: u64 = 0;
        while i < area
            invariant
                self@.shape_ok(),
                area == self@.area(),
                cells == row_order(self@.size),
                free == self@.is_free(),
                count == self@.free_cells().len(),
                k == n % count,
                k < count,
                i <= area,
                seen <= k,
                seen == cells.take(i as int).filter(free).len(),
            decreases area - i,
        {
            let c = self.cell_of_index(i);
            proof {
                assert(cells.take(i + 1) =~= cells.take(i as int).push(c));
                cells.take(i as int).lemma_filter_push(c, free);
            }
            if !self.is_in_snake(c) {
                if seen == k {
                    proof {
                        let front = cells.take(i + 1);
                        let back = cells.skip(i + 1);
                        assert(cells =~= front + back);
                        Seq::filter_distributes_over_add(front, back, free);
                        assert(front.filter(free)[seen as int] == c);
                        assert((front.filter(free) + back.filter(free))[seen as int] == c);
                        assert(self@.free_cells() == cells.filter(free));
                        assert(self@.free_cells()[k as int] == c);
                        assert(k == n % (self@.free_cells().len() as u64));
                    }
                    return c;
                }
                seen += 1;
            }
            i += 1;
        }
        assert(cells.take(i as int) =~= cells);
        Pos::new(0, 0)
    }

    /// Check if field has empty cells for food
    fn can_place_new_food(&self) -> (r: bool)
        ensures
            r == (self@.snake.len() < self@.area()),
    {
        let area = self.size.area();
        let len = self.snake.len();
        if area > usize::MAX as u64 {
            return true;
        }
        len < area as usize
    }
}

/// One step keeps the game's invariant: the snake stays on the grid, one cell
/// longer than the score, with distinct cells, and while the game is on the
/// food lies on a free cell.
pub proof fn lemma_step_keeps_inv(pre: GameView, post: GameView)
    requires
        pre.inv(),
        pre.step_to(post),
    ensures
        post.inv(),
{
    let next = pre.next_head();
    lemma_next_cell_in_grid(pre.head(), pre.direction, pre.size);
    if pre.stats.status == GameStatus::Play && !pre.snake.contains(next) {
        if next == pre.food {
            assert forall|i: int, j: int|
                0 <= i < j < post.snake.len() implies post.snake[i] != post.snake[j] by {
                if j == pre.snake.len() {
                    assert(pre.snake.contains(pre.snake[i]));
                }
            }
            assert forall|i: int| 0 <= i < post.snake.len() implies in_grid(
                #[trigger] post.snake[i],
                post.size,
            ) by {
                if i < pre.snake.len() {
                    assert(pre.snake[i] == post.snake[i]);
                }
            }
        } else {
            lemma_shift_keeps_distinct(pre.snake, next);
            assert forall|i: int| 0 <= i < post.snake.len() implies in_grid(
                #[trigger] post.snake[i],
                post.size,
            ) by {
                if i < post.snake.len() - 1 {
                    assert(post.snake[i] == pre.snake[i + 1]);
                }
            }
        }
    }
}

/// `states` is a run: each state follows from the one before by one step.
pub open spec fn is_run(states: Seq<GameView>) -> bool {
    forall|i: int| 0 <= i < states.len() - 1 ==> #[trigger] states[i].step_to(states[i + 1])
}

/// Along any run of steps from a valid state, the snake is one cell longer than
/// the score; and in every state where the game is on, its cells are pairwise
/// distinct and the food is off the snake.
pub proof fn lemma_run_keeps_inv(states: Seq<GameView>)
    requires
        states.len() >= 1,
        states[0].inv(),
        is_run(states),
    ensures
        forall|i: int| 0 <= i < states.len() ==> #[trigger] states[i].inv(),
        forall|i: int|
            0 <= i < states.len() ==> #[trigger] states[i].snake.len() == states[i].stats.score
                + 1,
        forall|i: int|
            0 <= i < states.len() && #[trigger] states[i].stats.status == GameStatus::Play
                ==> states[i].snake.no_duplicates() && !states[i].snake.contains(states[i].food),
    decreases states.len(),
{
    if states.len() > 1 {
        let init = states.drop_last();
        assert forall|i: int| 0 <= i < init.len() - 1 implies #[trigger] init[i].step_to(
            init[i + 1],
        ) by {
            assert(states[i].step_to(states[i + 1]));
        }
        lemma_run_keeps_inv(init);
        let k = states.len() - 2;
        assert(init[k] == states[k]);
        assert(states[k].step_to(states[k + 1]));
        lemma_step_keeps_inv(states[k], states[k + 1]);
        assert forall|i: int| 0 <= i < states.len() implies #[trigger] states[i].inv() by {
            if i < init.len() {
                assert(init[i] == states[i]);
            }
        }
    }
    assert forall|i: int| 0 <= i < states.len() implies #[trigger] states[i].snake.len()
        == states[i].stats.score + 1 by {
        assert(states[i].inv());
    }
    assert forall|i: int|
        0 <= i < states.len() && #[trigger] states[i].stats.status == GameStatus::Play implies states[i].snake.no_duplicates()
            && !states[i].snake.contains(states[i].food) by {
        assert(states[i].inv());
    }
}

/// Once the game is lost or won, any number of further steps changes nothing:
/// snake, food and stats stay as they are.
pub proof fn lemma_terminal_run_unchanged(states: Seq<GameView>)
    requires
        states.len() >= 1,
        states[0].stats.status != GameStatus::Play,
        is_run(states),
    ensures
        forall|i: int| 0 <= i < states.len() ==> #[trigger] states[i] == states[0],
    decreases states.len(),
{
    if states.len() > 1 {
        let init = states.drop_last();
        assert forall|i: int| 0 <= i < init.len() - 1 implies #[trigger] init[i].step_to(
            init[i + 1],
        ) by {
            assert(states[i].step_to(states[i + 1]));
        }
        lemma_terminal_run_unchanged(init);
        let k = states.len() - 2;
        assert(init[k] == states[k]);
        assert(states[k].step_to(states[k + 1]));
        assert forall|i: int| 0 <= i < states.len() implies #[trigger] states[i] == states[0] by {
            if i < init.len() {
                assert(init[i] == states[i]);
            }
        }
    }
}

/// In row order, the cell `(x, y)` of a grid has index `y * width + x`.
pub proof fn lemma_row_order_index(p: Pos, size: Pos)
    requires
        valid_size(size),
        in_grid(p, size),
    ensures
        0 <= p.y.0 * size.x.0 + p.x.0 < area_of(size),
        row_order(size)[p.y.0 * size.x.0 + p.x.0] == p,
{
    let (w, h) = (size.x.0 as int, size.y.0 as int);
    let (x, y) = (p.x.0 as int, p.y.0 as int);
    let i = y * w + x;
    assert(0 <= y * w + x < w * h) by (nonlinear_arith)
        requires
            0 <= x < w,
            0 <= y < h,
    ;
    lemma_fundamental_div_mod_converse(i, w, y, x);
}

/// While the snake leaves part of the grid uncovered, some cell is free.
pub proof fn lemma_free_cells_nonempty(v: GameView)
    requires
        v.shape_ok(),
        v.snake.len() < v.area(),
    ensures
        v.free_cells().len() > 0,
{
    if v.free_cells().len() == 0 {
        assert forall|p: Pos| in_grid(p, v.size) implies v.snake.contains(p) by {
            if !v.snake.contains(p) {
                lemma_row_order_index(p, v.size);
                let i = p.y.0 * v.size.x.0 + p.x.0;
                row_order(v.size).lemma_filter_contains(v.is_free(), i);
            }
        }
        lemma_cover_len(v.snake, v.size);
    }
}

/// Shifting a snake of distinct cells forward onto a cell it does not cover
/// keeps its cells distinct.
proof fn lemma_shift_keeps_distinct(s: Seq<Pos>, next: Pos)
    requires
        s.len() >= 1,
        s.no_duplicates(),
        !s.contains(next),
    ensures
        s.push(next).drop_first().no_duplicates(),
{
    let t = s.push(next).drop_first();
    assert forall|i: int, j: int| 0 <= i < j < t.len() implies t[i] != t[j] by {
        if j == t.len() - 1 {
            assert(s.contains(s[i + 1]));
        } else {
            assert(t[i] == s[i + 1] && t[j] == s[j + 1]);
        }
    }
}

} // verus!
