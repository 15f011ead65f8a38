//! Headings and the snake: an ordered body of grid cells, head first.

use crate::scene::{shapes, Rectangle, Shape, SNAKE_COLOR};
use std::collections::VecDeque;
use vstd::prelude::*;

verus! {

/// One of the four headings on the grid. The grid's `y` axis grows downward.
#[derive(Clone, Copy, Debug, PartialEq, Eq, Structural)]
pub enum Direction {
    Up,
    Down,
    Left,
    Right,
}

impl Direction {
    /// The heading that points the other way.
    pub open spec fn spec_opposite(&self) -> Direction {
        match *self {
            Direction::Up => Direction::Down,
            Direction::Down => Direction::Up,
            Direction::Left => Direction::Right,
            Direction::Right => Direction::Left,
        }
    }

    /// The change in `x` of one step along this heading.
    pub open spec fn dx(self) -> int {
        match self {
            Direction::Left => -1,
            Direction::Right => 1,
            _ => 0,
        }
    }

    /// The change in `y` of one step along this heading.
    pub open spec fn dy(self) -> int {
        match self {
            Direction::Up => -1,
            Direction::Down => 1,
            _ => 0,
        }
    }

    /// Returns the heading that points the other way.
    #[verifier::when_used_as_spec(spec_opposite)]
    pub fn opposite(&self) -> (r: Direction)
        ensures
            r == self.spec_opposite(),
    {
        match *self {
            Direction::Up => Direction::Down,
            Direction::Down => Direction::Up,
            Direction::Left => Direction::Right,
            Direction::Right => Direction::Left,
        }
    }

    /// Turning around twice restores the heading, and no heading is its own
    /// opposite.
    pub proof fn lemma_opposite_involution(d: Direction)
        ensures
            d.opposite().opposite() == d,
            d.opposite() != d,
    {
    }
}

/// The grid cell that a pair of machine integers stands for.
pub open spec fn cell(c: (i32, i32)) -> (int, int) {
    (c.0 as int, c.1 as int)
}

/// The grid cells that a sequence of pairs stands for, in order.
pub open spec fn cells(s: Seq<(i32, i32)>) -> Seq<(int, int)> {
    Seq::new(s.len(), |i: int| cell(s[i]))
}

/// The mathematical model of a [`Snake`].
pub struct SnakeView {
    /// The cells that the snake covers, head first.
    pub body: Seq<(int, int)>,
    /// The current heading.
    pub direction: Direction,
    /// Whether the next move lengthens the body instead of shifting it.
    pub growing: bool,
}

impl SnakeView {
    /// A snake always has a head.
    pub open spec fn wf(self) -> bool {
        self.body.len() > 0
    }

    /// The snake as it is born: three cells long, head at `(x, y)`, the rest
    /// of the body to its left, heading right, with no growth pending.
    pub open spec fn spawn(x: int, y: int) -> SnakeView {
        SnakeView {
            body: seq![(x, y), (x - 1, y), (x - 2, y)],
            direction: Direction::Right,
            growing: false,
        }
    }

    /// The cell of the head.
    pub open spec fn head(self) -> (int, int) {
        self.body[0]
    }

    /// The heading of a move: `dir` if one is given, else the current heading.
    pub open spec fn heading_after(self, dir: Option<Direction>) -> Direction {
        match dir {
            Some(d) => d,
            None => self.direction,
        }
    }

    /// The cell that the head would enter by one step along `dir`, or along
    /// the current heading if `dir` is `None`.
    pub open spec fn next_head(self, dir: Option<Direction>) -> (int, int) {
        let d = self.heading_after(dir);
        (self.head().0 + d.dx(), self.head().1 + d.dy())
    }

    /// Whether some segment, the head included, lies on `(x, y)`.
    pub open spec fn covers(self, x: int, y: int) -> bool {
        self.body.contains((x, y))
    }

    /// The snake after one move. The head enters the next cell along the
    /// heading of the move. The last segment is given up, unless growth is
    /// pending: then it stays, and the pending growth is used up.
    pub open spec fn advance(self, dir: Option<Direction>) -> SnakeView {
        let grown = seq![self.next_head(dir)] + self.body;
        SnakeView {
            body: if self.growing {
                grown
            } else {
                grown.drop_last()
            },
            direction: self.heading_after(dir),
            growing: false,
        }
    }

    /// The snake with growth scheduled for its next move.
    pub open spec fn grow(self) -> SnakeView {
        SnakeView { growing: true, ..self }
    }

    /// One block per segment, head first, in the snake's colour.
    pub open spec fn blocks(self) -> Seq<Shape> {
        Seq::new(
            self.body.len(),
            |i: int| Shape::block(SNAKE_COLOR, self.body[i].0, self.body[i].1),
        )
    }

    /// A move without pending growth keeps the length of the body; a move
    /// with pending growth lengthens it by exactly one and uses the growth
    /// up. Either way the head enters the next cell and the segments that
    /// stay keep their order.
    pub proof fn lemma_advance(self, dir: Option<Direction>)
        requires
            self.wf(),
        ensures
            self.advance(dir).wf(),
            self.advance(dir).head() == self.next_head(dir),
            !self.advance(dir).growing,
            !self.growing ==> self.advance(dir).body.len() == self.body.len(),
            self.growing ==> self.advance(dir).body.len() == self.body.len() + 1,
            forall|i: int|
                1 <= i < self.advance(dir).body.len() ==> self.advance(dir).body[i] == self.body[i
                    - 1],
    {
    }

    /// A snake that lies on no cell twice and moves into a cell off its body
    /// still lies on no cell twice.
    pub proof fn lemma_advance_keeps_apart(self, dir: Option<Direction>)
        requires
            self.wf(),
            self.body.no_duplicates(),
            !self.covers(self.next_head(dir).0, self.next_head(dir).1),
        ensures
            self.advance(dir).body.no_duplicates(),
    {
        let after = self.advance(dir).body;
        assert forall|i: int, j: int|
            0 <= i < after.len() && 0 <= j < after.len() && i != j implies after[i]
            != after[j] by {
            if i > 0 {
                assert(after[i] == self.body[i - 1]);
            }
            if j > 0 {
                assert(after[j] == self.body[j - 1]);
            }
        }
    }

    /// Every cell of the body after a move is the cell the head entered or a
    /// cell of the body before the move.
    pub proof fn lemma_advance_covers(self, dir: Option<Direction>, x: int, y: int)
        requires
            self.wf(),
            self.advance(dir).covers(x, y),
        ensures
            (x, y) == self.next_head(dir) || self.covers(x, y),
    {
        let after = self.advance(dir).body;
        let i = choose|i: int| 0 <= i < after.len() && after[i] == (x, y);
        if i > 0 {
            assert(self.body[i - 1] == (x, y));
        }
    }
}

/// The snake: an ordered body of grid cells, head first, a heading, and
/// whether growth is pending.
pub struct Snake {
    body: VecDeque<(i32, i32)>,
    direction: Direction,
    growing: bool,
}

impl View for Snake {
    type V = SnakeView;

    closed spec fn view(&self) -> SnakeView {
        SnakeView { body: cells(self.body@), direction: self.direction, growing: self.growing }
    }
}

impl Snake {
    /// A snake always has a head.
    pub open spec fn wf(&self) -> bool {
        self@.wf()
    }

    /// Whether the cell that a move along `dir` enters has machine
    /// coordinates.
    pub open spec fn step_fits(&self, dir: Option<Direction>) -> bool {
        let (x, y) = self@.next_head(dir);
        i32::MIN <= x <= i32::MAX && i32::MIN <= y <= i32::MAX
    }

    /// Creates a snake of three segments with its head at
    /// `(start_x, start_y)`, its body extending to the left, heading right.
    pub fn new(start_x: i32, start_y: i32) -> (snake: Snake)
        requires
            start_x - 2 >= i32::MIN,
        ensures
            snake.wf(),
            snake@ == SnakeView::spawn(start_x as int, start_y as int),
    {
        let mut body: VecDeque<(i32, i32)> = VecDeque::new();
        body.push_back((start_x, start_y));
        body.push_back((start_x - 1, start_y));
        body.push_back((start_x - 2, start_y));
        let snake = Snake { body, direction: Direction::Right, growing: false };
        assert(snake@.body =~= SnakeView::spawn(start_x as int, start_y as int).body);
        snake
    }

    /// Returns the cell of the head.
    pub fn head_position(&self) -> (p: (i32, i32))
        requires
            self.wf(),
        ensures
            cell(p) == self@.head(),
    {
        self.body[0]
    }

    /// Returns the current heading.
    pub fn head_direction(&self) -> (d: Direction)
        ensures
            d == self@.direction,
    {
        self.direction
    }

    /// Returns the cell that the head would enter by one step along `dir`,
    /// or along the current heading if `dir` is `None`. The snake stays as it
    /// is.
    pub fn next_head(&self, dir: Option<Direction>) -> (p: (i32, i32))
        requires
            self.wf(),
            self.step_fits(dir),
        ensures
            cell(p) == self@.next_head(dir),
    {
        let (head_x, head_y) = self.head_position();
        let moving = match dir {
            Some(d) => d,
            None => self.direction,
        };
        match moving {
            Direction::Up => (head_x, head_y - 1),
            Direction::Down => (head_x, head_y + 1),
            Direction::Left => (head_x - 1, head_y),
            Direction::Right => (head_x + 1, head_y),
        }
    }

    /// Moves the snake one step. A given `dir` becomes the heading, whatever
    /// it is. The head enters the next cell; the last segment is given up
    /// unless growth is pending, in which case the body grows by one and the
    /// pending growth is used up.
    pub fn move_forward(&mut self, dir: Option<Direction>)
        requires
            old(self).wf(),
            old(self).step_fits(dir),
        ensures
            final(self).wf(),
            final(self)@ == old(self)@.advance(dir),
            final(self)@.head() == old(self)@.next_head(dir),
            !final(self)@.growing,
            !old(self)@.growing ==> final(self)@.body.len() == old(self)@.body.len(),
            old(self)@.growing ==> final(self)@.body.len() == old(self)@.body.len() + 1,
    {
        let next = self.next_head(dir);
        if let Some(d) = dir {
            self.direction = d;
        }
        self.body.push_front(next);
        if self.growing {
            self.growing = false;
        } else {
            self.body.pop_back();
        }
        assert(self@.body =~= old(self)@.advance(dir).body);
    }

    /// Schedules growth: the next move will not shorten the body.
    pub fn add_tail(&mut self)
        ensures
            final(self)@ == old(self)@.grow(),
    {
        self.growing = true;
    }

    /// Tells whether some segment, the head included, lies on `(x, y)`.
    pub fn overlap_tail(&self, x: i32, y: i32) -> (hit: bool)
        ensures
            hit == self@.covers(x as int, y as int),
    {
        let n = self.body.len();
        let mut i: usize = 0;
        while i < n
            invariant
                n == self.body@.len(),
                i <= n,
                forall|j: int| 0 <= j < i ==> self.body@[j] != (x, y),
            decreases n - i,
        {
            let segment = self.body[i];
            if segment.0 == x && segment.1 == y {
                assert(self@.body[i as int] == (x as int, y as int));
                return true;
            }
            i += 1;
        }
        assert(!self@.body.contains((x as int, y as int))) by {
            if self@.body.contains((x as int, y as int)) {
                let j = choose|j: int|
                    0 <= j < self@.body.len() && self@.body[j] == (x as int, y as int);
                assert(self.body@[j] == (x, y));
            }
        }
        false
    }

    /// Returns one block per segment, head first, in the snake's colour.
    pub fn draw(&self) -> (blocks: Vec<Rectangle>)
        ensures
            shapes(blocks@) == self@.blocks(),
    {
        let n = self.body.len();
        let mut blocks: Vec<Rectangle> = Vec::new();
        let mut i: usize = 0;
        while i < n
            invariant
                n == self.body@.len(),
                i <= n,
                blocks@.len() == i,
                forall|j: int|
                    0 <= j < i ==> (#[trigger] blocks@[j])@ == Shape::block(
                        SNAKE_COLOR,
                        self.body@[j].0 as int,
                        self.body@[j].1 as int,
                    ),
            decreases n - i,
        {
            let segment = self.body[i];
            blocks.push(Rectangle::block(SNAKE_COLOR, segment.0, segment.1));
            i += 1;
        }
        blocks
    }

    /// Returns the cells of the body, head first.
    pub fn body(&self) -> (body: Vec<(i32, i32)>)
        ensures
            cells(body@) == self@.body,
    {
        let n = self.body.len();
        let mut body: Vec<(i32, i32)> = Vec::new();
        let mut i: usize = 0;
        while i < n
            invariant
                n == self.body@.len(),
                i <= n,
                body@ == self.body@.take(i as int),
            decreases n - i,
        {
            body.push(self.body[i]);
            i += 1;
        }
        body
    }

    /// Returns the number of segments.
    pub fn len(&self) -> (n: usize)
        ensures
            n == self@.body.len(),
    {
        self.body.len()
    }

    /// Tells whether growth is pending.
    pub fn is_growing(&self) -> (growing: bool)
        ensures
            growing == self@.growing,
    {
        self.growing
    }
}

} // verus!
