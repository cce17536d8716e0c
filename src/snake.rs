//! The snake: its heading, the chain of cells it occupies from head to tail,
//! and the tail cell it gave up on its latest move.
use std::collections::VecDeque;
use vstd::prelude::*;

use crate::direction::Direction;

verus! {

broadcast use vstd::std_specs::vecdeque::group_vec_dequeue_axioms;

/// One occupied grid cell.
#[derive(Copy, Clone, Debug)]
struct Block {
    x: i32,
    y: i32,
}

impl Block {
    closed spec fn cell(self) -> (int, int) {
        (self.x as int, self.y as int)
    }
}

/// The snake's state, seen as plain values.
pub struct SnakeView {
    pub direction: Direction,
    /// Occupied cells, head first.
    pub body: Seq<(int, int)>,
    /// The tail cell removed by the latest move, if a move has happened.
    pub last_evicted: Option<(int, int)>,
}

/// Whether a coordinate pair fits in `i32` on both axes.
pub open spec fn fits_i32(p: (int, int)) -> bool {
    i32::MIN <= p.0 <= i32::MAX && i32::MIN <= p.1 <= i32::MAX
}

/// The cell one step from `p` towards `d`; y grows downwards.
pub open spec fn step(p: (int, int), d: Direction) -> (int, int) {
    match d {
        Direction::Up => (p.0, p.1 - 1),
        Direction::Down => (p.0, p.1 + 1),
        Direction::Left => (p.0 - 1, p.1),
        Direction::Right => (p.0 + 1, p.1),
    }
}

/// The heading a move takes: the override if one is given, else the current one.
pub open spec fn heading(current: Direction, over: Option<Direction>) -> Direction {
    match over {
        Some(d) => d,
        None => current,
    }
}

/// Whether `p` is one of the cells of `body` other than its last one.
pub open spec fn hits_body_before_tail(body: Seq<(int, int)>, p: (int, int)) -> bool {
    exists|i: int| 0 <= i < body.len() - 1 && body[i] == p
}

/// The snake on the grid.
pub struct Snake {
    direction: Direction,
    body: VecDeque<Block>,
    tail: Option<Block>,
}

impl View for Snake {
    type V = SnakeView;

    closed spec fn view(&self) -> SnakeView {
        SnakeView {
            direction: self.direction,
            body: self.body@.map_values(|b: Block| b.cell()),
            last_evicted: match self.tail {
                Some(b) => Some(b.cell()),
                None => None,
            },
        }
    }
}

impl Snake {
    /// A snake always has a head.
    pub open spec fn wf(&self) -> bool {
        self@.body.len() >= 1
    }

    /// The cell the head would move to, heading `over` if given.
    pub open spec fn spec_next_head(&self, over: Option<Direction>) -> (int, int) {
        step(self@.body[0], heading(self@.direction, over))
    }

    /// Creates a snake of three cells lying along row `y`, head at `x + 2`,
    /// tail at `x`, heading right, with no move made yet.
    pub fn new(x: i32, y: i32) -> (r: Snake)
        requires
            x + 2 <= i32::MAX,
        ensures
            r.wf(),
            r@.direction == Direction::Right,
            r@.body == seq![(x + 2, y as int), (x + 1, y as int), (x as int, y as int)],
            r@.last_evicted is None,
    {
        let mut body: VecDeque<Block> = VecDeque::new();
        body.push_back(Block { x: x + 2, y });
        body.push_back(Block { x: x + 1, y });
        body.push_back(Block { x, y });
        let r = Snake { direction: Direction::Right, body, tail: None };
        assert(r@.body =~= seq![(x + 2, y as int), (x + 1, y as int), (x as int, y as int)]);
        r
    }
    /// Creates a snake on the given cells, head first, heading `direction`,
    /// with no move made yet.
    pub fn with_body(direction: Direction, cells: &Vec<(i32, i32)>) -> (r: Snake)
        requires
            cells@.len() >= 1,
        ensures
            r.wf(),
            r@.direction == direction,
            r@.body.len() == cells@.len(),
            forall|i: int|
                0 <= i < cells@.len() ==> r@.body[i] == (#[trigger] cells@[i].0 as int, cells@[i].1 as int),
            r@.last_evicted is None,
    {
        let mut body: VecDeque<Block> = VecDeque::new();
        let mut i: usize = 0;
        while i < cells.len()
            invariant
                i <= cells@.len(),
                body@.len() == i,
                forall|j: int|
                    0 <= j < i ==> (#[trigger] body@[j]).cell() == (cells@[j].0 as int, cells@[j].1 as int),
            decreases cells@.len() - i,
        {
            let (x, y) = cells[i];
            body.push_back(Block { x, y });
            i = i + 1;
        }
        Snake { direction, body, tail: None }
    }

    /// Where the head is.
    pub fn head_position(&self) -> (r: (i32, i32))
        requires
            self.wf(),
        ensures
            (r.0 as int, r.1 as int) == self@.body[0],
    {
        let head = self.body[0];
        (head.x, head.y)
    }

    /// The current heading.
    pub fn head_direction(&self) -> (r: Direction)
        ensures
            r == self@.direction,
    {
        self.direction
    }

    /// The cell the head would occupy after a move heading `dir` if given,
    /// else the current heading. Changes nothing.
    pub fn next_head(&self, dir: Option<Direction>) -> (r: (i32, i32))
        requires
            self.wf(),
            fits_i32(self.spec_next_head(dir)),
        ensures
            (r.0 as int, r.1 as int) == self.spec_next_head(dir),
    {
        let (head_x, head_y) = self.head_position();
        let moving = match dir {
            Some(d) => d,
            None => self.direction,
        };
        match moving {
            Direction::Up => (head_x, head_y - 1),
            Direction::Down => (head_x, head_y + 1),
            Direction::Left => (head_x - 1, head_y),
            Direction::Right => (head_x + 1, head_y),
        }
    }

    /// Moves one cell: takes `dir` as the heading if given, puts the next
    /// cell in front of the head, and removes the tail cell, which is kept
    /// as the last evicted cell. The length stays the same. Reversal is not
    /// checked here.
    pub fn move_forward(&mut self, dir: Option<Direction>)
        requires
            old(self).wf(),
            fits_i32(old(self).spec_next_head(dir)),
        ensures
            final(self).wf(),
            final(self)@.direction == heading(old(self)@.direction, dir),
            final(self)@.body == seq![old(self).spec_next_head(dir)] + old(self)@.body.drop_last(),
            final(self)@.last_evicted == Some(old(self)@.body.last()),
    {
        if let Some(d) = dir {
            self.direction = d;
        }
        let (x, y) = self.next_head(None);
        self.body.push_front(Block { x, y });
        let removed = self.body.pop_back();
        match removed {
            Some(b) => {
                self.tail = Some(b);
            },
            None => {},
        }
        proof {
            assert(self@.body =~= seq![old(self).spec_next_head(dir)] + old(self)@.body.drop_last());
        }
    }

    /// Puts the last evicted cell back at the end of the body, which grows
    /// by one. Meant to follow a move that brought the head onto food.
    pub fn restore_tail(&mut self)
        requires
            old(self).wf(),
            old(self)@.last_evicted is Some,
        ensures
            final(self).wf(),
            final(self)@.direction == old(self)@.direction,
            final(self)@.body == old(self)@.body.push(old(self)@.last_evicted->0),
            final(self)@.last_evicted == old(self)@.last_evicted,
    {
        let blk = self.tail.unwrap();
        self.body.push_back(blk);
        assert(self@.body =~= old(self)@.body.push(old(self)@.last_evicted->0));
    }

    /// Whether `(x, y)` is a cell of the body other than its tail. The tail
    /// is left out because the next move vacates it; a snake of one cell
    /// collides with nothing.
    pub fn overlap_tail(&self, x: i32, y: i32) -> (r: bool)
        requires
            self.wf(),
        ensures
            r == hits_body_before_tail(self@.body, (x as int, y as int)),
    {
        let n = self.body.len();
        let mut i: usize = 0;
        while i + 1 < n
            invariant
                n == self@.body.len(),
                n >= 1,
                i < n,
                forall|j: int| 0 <= j < i ==> self@.body[j] != (x as int, y as int),
            decreases n - i,
        {
            let b = self.body[i];
            if b.x == x && b.y == y {
                assert(self@.body[i as int] == (x as int, y as int));
                return true;
            }
            i = i + 1;
        }
        false
    }

    /// The occupied cells, head first: what a renderer draws, one unit cell
    /// each.
    pub fn cells(&self) -> (r: Vec<(i32, i32)>)
        ensures
            r@.len() == self@.body.len(),
            forall|i: int|
                0 <= i < r@.len() ==> (#[trigger] r@[i].0 as int, r@[i].1 as int) == self@.body[i],
    {
        let n = self.body.len();
        let mut out: Vec<(i32, i32)> = Vec::new();
        let mut i: usize = 0;
        while i < n
            invariant
                n == self@.body.len(),
                i <= n,
                out@.len() == i,
                forall|j: int|
                    0 <= j < i ==> (#[trigger] out@[j].0 as int, out@[j].1 as int) == self@.body[j],
            decreases n - i,
        {
            let b = self.body[i];
            out.push((b.x, b.y));
            i = i + 1;
        }
        out
    }

    /// The tail cell removed by the latest move, if any move has happened.
    pub fn last_evicted(&self) -> (r: Option<(i32, i32)>)
        ensures
            r matches Some(c) ==> self@.last_evicted == Some((c.0 as int, c.1 as int)),
            r is None <==> self@.last_evicted is None,
    {
        match self.tail {
            Some(b) => Some((b.x, b.y)),
            None => None,
        }
    }
}

/// A snake of a single cell collides with no cell, its own head included.
pub proof fn lemma_single_cell_never_collides(body: Seq<(int, int)>, p: (int, int))
    requires
        body.len() == 1,
    ensures
        !hits_body_before_tail(body, p),
{
}

/// A move followed by regrowing the evicted tail leaves the old body with
/// the new head in front of it: one cell longer, nothing lost.
pub proof fn lemma_move_then_grow(body: Seq<(int, int)>, head: (int, int))
    requires
        body.len() >= 1,
    ensures
        (seq![head] + body.drop_last()).push(body.last()) == seq![head] + body,
        (seq![head] + body.drop_last()).len() == body.len(),
{
    assert((seq![head] + body.drop_last()).push(body.last()) =~= seq![head] + body);
}

} // verus!
