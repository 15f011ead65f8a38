//! The game: a snake in a walled arena, one piece of food, and the rules.
//!
//! Time is counted in nanoseconds. Whoever drives the game feeds it key
//! presses and the time that has passed since the last frame, and asks it for
//! the shapes of the next frame.

use crate::random::random_index;
use crate::scene::{
    shapes, Rectangle, Shape, BORDER_COLOR, FOOD_COLOR, GAMEOVER_COLOR,
};
use crate::snake::{cell, cells, Direction, Snake, SnakeView};
use rand::thread_rng;
use vstd::prelude::*;

verus! {

/// The time between two forced moves, in nanoseconds: a tenth of a second.
pub const MOVING_PERIOD: u64 = 100_000_000;

/// The time a finished game rests before it starts anew, in nanoseconds: one
/// second.
pub const RESTART_TIME: u64 = 1_000_000_000;

/// The column in which the snake's head starts.
pub const START_X: i32 = 2;

/// The row in which the snake's head starts.
pub const START_Y: i32 = 2;

/// The column of the first food of every game.
pub const FIRST_FOOD_X: i32 = 6;

/// The row of the first food of every game.
pub const FIRST_FOOD_Y: i32 = 4;

/// A key press as the game sees it: one of the four arrows, or any other key.
#[derive(Clone, Copy, Debug, PartialEq, Eq, Structural)]
pub enum Key {
    Up,
    Down,
    Left,
    Right,
    Other,
}

impl Key {
    /// The heading that the key asks for, if it is an arrow.
    pub open spec fn heading(self) -> Option<Direction> {
        match self {
            Key::Up => Some(Direction::Up),
            Key::Down => Some(Direction::Down),
            Key::Left => Some(Direction::Left),
            Key::Right => Some(Direction::Right),
            Key::Other => None,
        }
    }
}

/// Whether `(x, y)` lies strictly inside the walls of an arena of `width` by
/// `height` cells. The walls are the outermost ring of cells.
pub open spec fn in_play_area(x: int, y: int, width: int, height: int) -> bool {
    1 <= x <= width - 2 && 1 <= y <= height - 2
}

/// Whether cell `a` comes before cell `b` when the grid is read row by row
/// from the top, and each row from the left.
pub open spec fn before(a: (int, int), b: (int, int)) -> bool {
    a.1 < b.1 || (a.1 == b.1 && a.0 < b.0)
}

/// Whether the cells of `list` stand in reading order, none twice.
pub open spec fn in_reading_order(list: Seq<(i32, i32)>) -> bool {
    forall|i: int, j: int| 0 <= i < j < list.len() ==> before(cell(list[i]), cell(list[j]))
}

/// The mathematical model of a [`Game`].
pub struct GameView {
    /// The snake.
    pub snake: SnakeView,
    /// The cell of the food, if there is any.
    pub food: Option<(int, int)>,
    /// The width of the arena in cells, walls included.
    pub width: int,
    /// The height of the arena in cells, walls included.
    pub height: int,
    /// Whether the snake has died and the game rests.
    pub game_over: bool,
    /// The nanoseconds that have passed since the last move or, once the
    /// game is over, since the snake died.
    pub waiting_time: int,
}

impl GameView {
    /// What holds of every game: the arena is at least five cells each way,
    /// the snake lies on no cell twice, its head lies strictly inside the
    /// walls, and the food, if there is any, lies on no segment of the snake.
    pub open spec fn wf(self) -> bool {
        &&& self.width >= 5
        &&& self.height >= 5
        &&& self.snake.wf()
        &&& self.snake.body.no_duplicates()
        &&& in_play_area(self.snake.head().0, self.snake.head().1, self.width, self.height)
        &&& self.food matches Some(c) ==> !self.snake.covers(c.0, c.1)
        &&& 0 <= self.waiting_time
    }

    /// The game as it starts: a fresh snake, the first food in its fixed
    /// cell, and the clock at zero.
    pub open spec fn initial(width: int, height: int) -> GameView {
        GameView {
            snake: SnakeView::spawn(START_X as int, START_Y as int),
            food: Some((FIRST_FOOD_X as int, FIRST_FOOD_Y as int)),
            width,
            height,
            game_over: false,
            waiting_time: 0,
        }
    }

    /// Whether the snake lives through a move along `dir`: the cell that the
    /// head would enter holds no segment and lies strictly inside the walls.
    pub open spec fn survives(self, dir: Option<Direction>) -> bool {
        let (x, y) = self.snake.next_head(dir);
        !self.snake.covers(x, y) && in_play_area(x, y, self.width, self.height)
    }

    /// The game after the snake has had the chance to eat: if the head lies
    /// on the food, the food is gone and growth is scheduled.
    pub open spec fn eat(self) -> GameView {
        if self.food == Some(self.snake.head()) {
            GameView { food: None, snake: self.snake.grow(), ..self }
        } else {
            self
        }
    }

    /// The game after an attempt to move along `dir`. If the snake survives
    /// the move, it advances and eats; otherwise it stays where it is and the
    /// game is over. The clock returns to zero either way.
    pub open spec fn step(self, dir: Option<Direction>) -> GameView {
        if self.survives(dir) {
            GameView { snake: self.snake.advance(dir), waiting_time: 0, ..self }.eat()
        } else {
            GameView { game_over: true, waiting_time: 0, ..self }
        }
    }

    /// The game after a key press. A finished game ignores it. An arrow asks
    /// for its heading, any other key for the current one; a heading opposite
    /// to the current one is turned down, and any other is tried at once.
    pub open spec fn press(self, key: Key) -> GameView {
        let dir = match key.heading() {
            Some(d) => d,
            None => self.snake.direction,
        };
        if self.game_over || dir == self.snake.direction.opposite() {
            self
        } else {
            self.step(Some(dir))
        }
    }

    /// Whether food may be put on `(x, y)`: the cell lies strictly inside
    /// the walls and holds no segment of the snake.
    pub open spec fn is_free(self, x: int, y: int) -> bool {
        in_play_area(x, y, self.width, self.height) && !self.snake.covers(x, y)
    }

    /// Whether some cell is free for food.
    pub open spec fn has_room(self) -> bool {
        exists|x: int, y: int| self.is_free(x, y)
    }

    /// The game with food on `(x, y)`.
    pub open spec fn with_food(self, x: int, y: int) -> GameView {
        GameView { food: Some((x, y)), ..self }
    }

    /// The game after `delta` more nanoseconds on the clock. The clock stops
    /// at the largest time it can hold.
    pub open spec fn later(self, delta: int) -> GameView {
        GameView {
            waiting_time: if self.waiting_time + delta > u64::MAX {
                u64::MAX as int
            } else {
                self.waiting_time + delta
            },
            ..self
        }
    }

    /// The game after the forced move, if one is due: the clock has gone
    /// past the moving period.
    pub open spec fn moved_if_due(self) -> GameView {
        if self.waiting_time > MOVING_PERIOD {
            self.step(None)
        } else {
            self
        }
    }

    /// Whether `after` may follow from this game when `delta` nanoseconds
    /// pass.
    ///
    /// A finished game starts anew once it has rested for more than the
    /// restart time, and only counts the time until then. A running game
    /// first gets new food on some free cell if it has none and there is
    /// room, and then makes the forced move if one is due. Which free cell
    /// gets the food is left open.
    pub open spec fn ticks_to(self, delta: int, after: GameView) -> bool {
        let now = self.later(delta);
        if self.game_over {
            after == if now.waiting_time > RESTART_TIME {
                GameView::initial(self.width, self.height)
            } else {
                now
            }
        } else if self.food is None && self.has_room() {
            exists|x: int, y: int| #[trigger]
                self.is_free(x, y) && after == now.with_food(x, y).moved_if_due()
        } else {
            after == now.moved_if_due()
        }
    }

    /// The four walls: top, bottom, left and right, each one cell thick.
    pub open spec fn walls(self) -> Seq<Shape> {
        seq![
            Shape { color: BORDER_COLOR, x: 0, y: 0, width: self.width, height: 1 },
            Shape { color: BORDER_COLOR, x: 0, y: self.height - 1, width: self.width, height: 1 },
            Shape { color: BORDER_COLOR, x: 0, y: 0, width: 1, height: self.height },
            Shape { color: BORDER_COLOR, x: self.width - 1, y: 0, width: 1, height: self.height },
        ]
    }

    /// The shapes of a frame, in the order in which they are painted: the
    /// snake, the food if there is any, the four walls, and a veil over the
    /// whole arena if the game is over.
    pub open spec fn scene(self) -> Seq<Shape> {
        let food = match self.food {
            Some(c) => seq![Shape::block(FOOD_COLOR, c.0, c.1)],
            None => Seq::empty(),
        };
        let veil = if self.game_over {
            seq![
                Shape { color: GAMEOVER_COLOR, x: 0, y: 0, width: self.width, height: self.height },
            ]
        } else {
            Seq::empty()
        };
        self.snake.blocks() + food + self.walls() + veil
    }

    /// A game starts well formed in every arena of at least five cells each
    /// way.
    pub proof fn lemma_initial_wf(width: int, height: int)
        requires
            width >= 5,
            height >= 5,
        ensures
            GameView::initial(width, height).wf(),
            !GameView::initial(width, height).game_over,
    {
    }

    /// Which cells are free for food does not depend on the clock.
    pub proof fn lemma_room_ignores_clock(self, delta: int)
        ensures
            forall|x: int, y: int| self.later(delta).is_free(x, y) == self.is_free(x, y),
            self.later(delta).has_room() == self.has_room(),
    {
        let now = self.later(delta);
        if self.has_room() {
            let (x, y) = choose|x: int, y: int| self.is_free(x, y);
            assert(now.is_free(x, y));
        }
        if now.has_room() {
            let (x, y) = choose|x: int, y: int| now.is_free(x, y);
            assert(self.is_free(x, y));
        }
    }

    /// Food on a free cell keeps the game well formed.
    pub proof fn lemma_with_food_wf(self, x: int, y: int)
        requires
            self.wf(),
            self.is_free(x, y),
        ensures
            self.with_food(x, y).wf(),
    {
    }

    /// An attempt to move keeps the game well formed: afterwards the snake
    /// still lies on no cell twice, its head still lies strictly inside the
    /// walls, and the food, if any is left, lies on no segment of the snake.
    pub proof fn lemma_step_wf(self, dir: Option<Direction>)
        requires
            self.wf(),
        ensures
            self.step(dir).wf(),
            self.step(dir).food matches Some(c) ==> !self.step(dir).snake.covers(c.0, c.1),
    {
        if self.survives(dir) {
            let moved = GameView { snake: self.snake.advance(dir), waiting_time: 0, ..self };
            self.snake.lemma_advance_keeps_apart(dir);
            if let Some(c) = moved.food {
                if moved.food != Some(moved.snake.head()) && moved.snake.covers(c.0, c.1) {
                    self.snake.lemma_advance_covers(dir, c.0, c.1);
                }
            }
        }
    }

    /// A move into a wall or into the snake's own body is fatal: the snake
    /// does not survive it, the attempt ends the game, and the snake stays
    /// exactly where it was.
    pub proof fn lemma_fatal_step(self, dir: Option<Direction>)
        requires
            self.wf(),
            ({
                let (x, y) = self.snake.next_head(dir);
                !in_play_area(x, y, self.width, self.height) || self.snake.covers(x, y)
            }),
        ensures
            !self.survives(dir),
            self.step(dir).game_over,
            self.step(dir).snake == self.snake,
            self.step(dir).food == self.food,
    {
    }

    /// A move that the snake survives leaves the game running and takes the
    /// head into the next cell, along the heading of the move. The body grows
    /// by one if growth was pending and keeps its length otherwise. If the
    /// food lies on the cell that the head enters, the food is gone and
    /// growth is pending for the move after; otherwise the food stays and no
    /// growth is pending.
    pub proof fn lemma_safe_step(self, dir: Option<Direction>)
        requires
            self.wf(),
            self.survives(dir),
        ensures
            self.step(dir).game_over == self.game_over,
            self.step(dir).waiting_time == 0,
            self.step(dir).snake.head() == self.snake.next_head(dir),
            self.step(dir).snake.direction == self.snake.heading_after(dir),
            self.step(dir).snake.body.len() == self.snake.body.len() + if self.snake.growing {
                1int
            } else {
                0int
            },
            self.food == Some(self.snake.next_head(dir)) ==> self.step(dir).food is None
                && self.step(dir).snake.growing,
            self.food != Some(self.snake.next_head(dir)) ==> self.step(dir).food == self.food
                && !self.step(dir).snake.growing,
    {
        self.snake.lemma_advance(dir);
    }

    /// A key press keeps the game well formed and never turns the snake
    /// around. A press of the arrow opposite to the snake's heading changes
    /// nothing at all, and neither does any press once the game is over.
    pub proof fn lemma_press_wf(self, key: Key)
        requires
            self.wf(),
        ensures
            self.press(key).wf(),
            self.press(key).snake.direction != self.snake.direction.opposite(),
            key.heading() == Some(self.snake.direction.opposite()) ==> self.press(key) == self,
            self.game_over ==> self.press(key) == self,
    {
        let dir = match key.heading() {
            Some(d) => d,
            None => self.snake.direction,
        };
        self.lemma_step_wf(Some(dir));
    }

    /// A forced move keeps the snake's heading.
    pub proof fn lemma_forced_move_keeps_heading(self)
        requires
            self.wf(),
        ensures
            self.step(None).snake.direction == self.snake.direction,
            self.moved_if_due().snake.direction == self.snake.direction,
    {
    }

    /// The passing of time keeps the game well formed, whichever free cell
    /// new food falls on.
    pub proof fn lemma_tick_wf(self, delta: int, after: GameView)
        requires
            self.wf(),
            0 <= delta,
            self.ticks_to(delta, after),
        ensures
            after.wf(),
    {
        let now = self.later(delta);
        if self.game_over {
            GameView::lemma_initial_wf(self.width, self.height);
        } else if self.food is None && self.has_room() {
            let (x, y) = choose|x: int, y: int| #[trigger]
                self.is_free(x, y) && after == now.with_food(x, y).moved_if_due();
            now.lemma_with_food_wf(x, y);
            now.with_food(x, y).lemma_step_wf(None);
        } else {
            now.lemma_step_wf(None);
        }
    }
}

/// The game: the arena, the snake in it, the food, and the clock.
pub struct Game {
    snake: Snake,
    food_exists: bool,
    food_x: i32,
    food_y: i32,
    width: i32,
    height: i32,
    game_over: bool,
    waiting_time: u64,
}

impl View for Game {
    type V = GameView;

    closed spec fn view(&self) -> GameView {
        GameView {
            snake: self.snake@,
            food: if self.food_exists {
                Some((self.food_x as int, self.food_y as int))
            } else {
                None
            },
            width: self.width as int,
            height: self.height as int,
            game_over: self.game_over,
            waiting_time: self.waiting_time as int,
        }
    }
}

impl Game {
    /// The game's invariant, which `new` establishes and every method keeps.
    pub open spec fn wf(&self) -> bool {
        self@.wf()
    }

    /// Starts a game in an arena of `width` by `height` cells, walls
    /// included. The arena must be at least five cells each way.
    ///
    /// The snake starts on `(START_X, START_Y)` and the first food lies on
    /// `(FIRST_FOOD_X, FIRST_FOOD_Y)` whatever the size of the arena: in an
    /// arena that does not reach that far, the first food is out of reach.
    pub fn new(width: i32, height: i32) -> (game: Game)
        requires
            width >= 5,
            height >= 5,
        ensures
            game.wf(),
            game@ == GameView::initial(width as int, height as int),
    {
        proof {
            GameView::lemma_initial_wf(width as int, height as int);
        }
        Game {
            snake: Snake::new(START_X, START_Y),
            waiting_time: 0,
            food_exists: true,
            food_x: FIRST_FOOD_X,
            food_y: FIRST_FOOD_Y,
            width,
            height,
            game_over: false,
        }
    }

    /// Restores the game to the state in which it started, in the same
    /// arena.
    pub fn restart(&mut self)
        requires
            old(self).wf(),
        ensures
            final(self).wf(),
            final(self)@ == GameView::initial(old(self)@.width, old(self)@.height),
    {
        proof {
            GameView::lemma_initial_wf(self.width as int, self.height as int);
        }
        self.snake = Snake::new(START_X, START_Y);
        self.waiting_time = 0;
        self.food_exists = true;
        self.food_x = FIRST_FOOD_X;
        self.food_y = FIRST_FOOD_Y;
        self.game_over = false;
    }

    /// Lets the snake eat: if there is food and the head lies on it, the
    /// food is gone and growth is scheduled for the next move.
    pub fn check_eating(&mut self)
        requires
            old(self)@.snake.wf(),
        ensures
            final(self)@ == old(self)@.eat(),
            old(self).wf() ==> final(self).wf(),
    {
        let (head_x, head_y): (i32, i32) = self.snake.head_position();
        if self.food_exists && self.food_x == head_x && self.food_y == head_y {
            self.food_exists = false;
            self.snake.add_tail();
        }
    }

    /// Tells whether the snake would live through a move along `dir`, or
    /// along its current heading if `dir` is `None`: whether the cell that
    /// the head would enter holds no segment and lies strictly inside the
    /// walls.
    pub fn check_if_snake_alive(&self, dir: Option<Direction>) -> (alive: bool)
        requires
            self.wf(),
        ensures
            alive == self@.survives(dir),
    {
        let (next_x, next_y) = self.snake.next_head(dir);
        if self.snake.overlap_tail(next_x, next_y) {
            return false;
        }
        next_x > 0 && next_y > 0 && next_x < self.width - 1 && next_y < self.height - 1
    }

    /// Tries to move the snake along `dir`, or along its current heading if
    /// `dir` is `None`. If the snake survives the move, it advances and eats;
    /// otherwise it stays where it is and the game is over. The clock returns
    /// to zero either way.
    pub fn update_snake(&mut self, dir: Option<Direction>)
        requires
            old(self).wf(),
        ensures
            final(self).wf(),
            final(self)@ == old(self)@.step(dir),
    {
        proof {
            self@.lemma_step_wf(dir);
        }
        if self.check_if_snake_alive(dir) {
            self.snake.move_forward(dir);
            self.check_eating();
        } else {
            self.game_over = true;
        }
        self.waiting_time = 0;
    }

    /// Handles a key press. A finished game ignores it. An arrow asks for
    /// its heading, any other key for the current one. A heading opposite to
    /// the current one is turned down; any other is tried at once, without
    /// waiting for the clock.
    pub fn key_pressed(&mut self, key: Key)
        requires
            old(self).wf(),
        ensures
            final(self).wf(),
            final(self)@ == old(self)@.press(key),
    {
        if self.game_over {
            return;
        }
        let dir = match key {
            Key::Up => Some(Direction::Up),
            Key::Down => Some(Direction::Down),
            Key::Left => Some(Direction::Left),
            Key::Right => Some(Direction::Right),
            Key::Other => Some(self.snake.head_direction()),
        };
        if let Some(d) = dir {
            if d == self.snake.head_direction().opposite() {
                return;
            }
        }
        self.update_snake(dir);
    }

    /// Tells whether `(x, y)` lies strictly inside the walls.
    pub fn inside_walls(&self, x: i32, y: i32) -> (inside: bool)
        requires
            self.wf(),
        ensures
            inside == in_play_area(x as int, y as int, self@.width, self@.height),
    {
        x > 0 && y > 0 && x < self.width - 1 && y < self.height - 1
    }

    /// Lists the cells that are free for food, row by row from the top and
    /// from left to right within a row. Every free cell is listed exactly
    /// once.
    pub fn free_cells(&self) -> (free: Vec<(i32, i32)>)
        requires
            self.wf(),
        ensures
            forall|x: int, y: int| cells(free@).contains((x, y)) <==> self@.is_free(x, y),
            in_reading_order(free@),
            cells(free@).no_duplicates(),
    {
        let mut free: Vec<(i32, i32)> = Vec::new();
        let mut y: i32 = 1;
        while y < self.height - 1
            invariant
                self.wf(),
                1 <= y <= self.height - 1,
                forall|i: int|
                    0 <= i < free@.len() ==> (#[trigger] free@[i]).1 < y && self@.is_free(
                        free@[i].0 as int,
                        free@[i].1 as int,
                    ),
                forall|a: int, b: int|
                    b < y && #[trigger] self@.is_free(a, b) ==> cells(free@).contains((a, b)),
                in_reading_order(free@),
            decreases self.height - y,
        {
            let mut x: i32 = 1;
            while x < self.width - 1
                invariant
                    self.wf(),
                    1 <= y < self.height - 1,
                    1 <= x <= self.width - 1,
                    forall|i: int|
                        0 <= i < free@.len() ==> before(
                            cell(#[trigger] free@[i]),
                            (x as int, y as int),
                        ) && self@.is_free(free@[i].0 as int, free@[i].1 as int),
                    forall|a: int, b: int|
                        before((a, b), (x as int, y as int)) && #[trigger] self@.is_free(a, b)
                            ==> cells(free@).contains((a, b)),
                    in_reading_order(free@),
                decreases self.width - x,
            {
                if !self.snake.overlap_tail(x, y) {
                    let ghost listed = free@;
                    free.push((x, y));
                    proof {
                        assert forall|a: int, b: int|
                            before((a, b), (x + 1, y as int)) && #[trigger] self@.is_free(
                                a,
                                b,
                            ) implies cells(free@).contains((a, b)) by {
                            let i = if (a, b) == (x as int, y as int) {
                                listed.len() as int
                            } else {
                                cells(listed).index_of((a, b))
                            };
                            assert(cells(free@)[i] == (a, b));
                        }
                    }
                }
                x += 1;
            }
            y += 1;
        }
        proof {
            let listed = cells(free@);
            assert forall|i: int, j: int|
                0 <= i < listed.len() && 0 <= j < listed.len() && i != j implies listed[i]
                != listed[j] by {
                if i < j {
                    assert(before(cell(free@[i]), cell(free@[j])));
                } else {
                    assert(before(cell(free@[j]), cell(free@[i])));
                }
            }
        }
        free
    }

    /// Puts the food on `(x, y)` if that cell is free, and tells whether it
    /// did. Food that lay elsewhere is replaced.
    pub fn place_food(&mut self, x: i32, y: i32) -> (placed: bool)
        requires
            old(self).wf(),
        ensures
            final(self).wf(),
            placed == old(self)@.is_free(x as int, y as int),
            placed ==> final(self)@ == old(self)@.with_food(x as int, y as int),
            !placed ==> final(self)@ == old(self)@,
    {
        if !self.inside_walls(x, y) || self.snake.overlap_tail(x, y) {
            return false;
        }
        self.food_x = x;
        self.food_y = y;
        self.food_exists = true;
        true
    }

    /// Puts new food on a free cell drawn at random; food that lay elsewhere
    /// is replaced. Where the snake has left no cell free, nothing changes.
    ///
    /// The cell is drawn from the list of all free cells, so the draw always
    /// ends, and it succeeds whenever a cell is free. Which of the free cells
    /// is drawn is up to the random number generator.
    pub fn add_food(&mut self)
        requires
            old(self).wf(),
        ensures
            final(self).wf(),
            old(self)@.has_room() ==> {
                &&& final(self)@.food matches Some(c)
                &&& old(self)@.is_free(c.0, c.1)
                &&& final(self)@ == old(self)@.with_food(c.0, c.1)
            },
            !old(self)@.has_room() ==> final(self)@ == old(self)@,
    {
        let free = self.free_cells();
        if free.len() == 0 {
            assert(!self@.has_room()) by {
                if self@.has_room() {
                    let (x, y) = choose|x: int, y: int| self@.is_free(x, y);
                    assert(cells(free@).contains((x, y)));
                }
            }
            return;
        }
        let mut rng = thread_rng();
        let index = random_index(&mut rng, free.len());
        let (x, y) = free[index];
        assert(cells(free@)[index as int] == (x as int, y as int));
        self.place_food(x, y);
    }

    /// Lets `delta_time` nanoseconds pass.
    ///
    /// A finished game starts anew once it has rested for more than
    /// [`RESTART_TIME`], and does nothing else until then. A running game
    /// gets new food if it has none, and makes a forced move along the
    /// snake's heading once more than [`MOVING_PERIOD`] has passed since the
    /// last move.
    pub fn update(&mut self, delta_time: u64)
        requires
            old(self).wf(),
        ensures
            final(self).wf(),
            old(self)@.ticks_to(delta_time as int, final(self)@),
    {
        let ghost now = self@.later(delta_time as int);
        proof {
            self@.lemma_room_ignores_clock(delta_time as int);
        }
        self.waiting_time = self.waiting_time.saturating_add(delta_time);
        if self.game_over {
            if self.waiting_time > RESTART_TIME {
                self.restart();
            }
            return;
        }
        if !self.food_exists {
            self.add_food();
            proof {
                if now.has_room() {
                    let c = self@.food->0;
                    assert(old(self)@.is_free(c.0, c.1));
                }
            }
        }
        if self.waiting_time > MOVING_PERIOD {
            self.update_snake(None);
        }
    }

    /// Returns the shapes of the current frame, in the order in which they
    /// are to be painted: the snake, the food if there is any, the four
    /// walls, and a veil over the whole arena if the game is over.
    pub fn draw(&self) -> (frame: Vec<Rectangle>)
        requires
            self.wf(),
        ensures
            shapes(frame@) == self@.scene(),
    {
        let mut frame = self.snake.draw();
        if self.food_exists {
            frame.push(Rectangle::block(FOOD_COLOR, self.food_x, self.food_y));
        }
        frame.push(Rectangle::new(BORDER_COLOR, 0, 0, self.width, 1));
        frame.push(Rectangle::new(BORDER_COLOR, 0, self.height - 1, self.width, 1));
        frame.push(Rectangle::new(BORDER_COLOR, 0, 0, 1, self.height));
        frame.push(Rectangle::new(BORDER_COLOR, self.width - 1, 0, 1, self.height));
        if self.game_over {
            frame.push(Rectangle::new(GAMEOVER_COLOR, 0, 0, self.width, self.height));
        }
        frame
    }

    /// Returns the snake.
    pub fn snake(&self) -> (snake: &Snake)
        ensures
            snake@ == self@.snake,
    {
        &self.snake
    }

    /// Returns the cell of the food, if there is any.
    pub fn food(&self) -> (food: Option<(i32, i32)>)
        ensures
            food is Some == self@.food is Some,
            food matches Some(c) ==> self@.food == Some(cell(c)),
    {
        if self.food_exists {
            Some((self.food_x, self.food_y))
        } else {
            None
        }
    }

    /// Returns the width of the arena in cells, walls included.
    pub fn width(&self) -> (width: i32)
        ensures
            width == self@.width,
    {
        self.width
    }

    /// Returns the height of the arena in cells, walls included.
    pub fn height(&self) -> (height: i32)
        ensures
            height == self@.height,
    {
        self.height
    }

    /// Tells whether the snake has died and the game rests.
    pub fn is_over(&self) -> (over: bool)
        ensures
            over == self@.game_over,
    {
        self.game_over
    }

    /// Returns the nanoseconds that have passed since the last move or, once
    /// the game is over, since the snake died.
    pub fn waiting_time(&self) -> (time: u64)
        ensures
            time == self@.waiting_time,
    {
        self.waiting_time
    }
}

} // verus!
