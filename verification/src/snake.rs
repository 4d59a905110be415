//! The snake itself: an ordered body of grid cells with a facing direction.
//!
//! The body is a double-ended sequence of cells; the head is the front, the
//! tail the back. A move pushes a new head cell and removes the tail cell,
//! remembering it so that eating can re-attach it and grow the snake by one.

use std::collections::VecDeque;
use vstd::prelude::*;

verus! {

#[derive(Clone, Copy, PartialEq, Eq, Structural, Debug)]
pub enum Direction {
    Up,
    Down,
    Left,
    Right,
}

impl Direction {
    /// The direction pointing the opposite way.
    pub open spec fn spec_opposite(self) -> Direction {
        match self {
            Direction::Up => Direction::Down,
            Direction::Down => Direction::Up,
            Direction::Left => Direction::Right,
            Direction::Right => Direction::Left,
        }
    }

    pub fn opposite(&self) -> (r: Direction)
        ensures
            r == self.spec_opposite(),
    {
        match self {
            Direction::Up => Direction::Down,
            Direction::Down => Direction::Up,
            Direction::Left => Direction::Right,
            Direction::Right => Direction::Left,
        }
    }
}

/// Taking the opposite direction twice leads back to the starting direction.
pub proof fn lemma_opposite_involution(d: Direction)
    ensures
        d.spec_opposite().spec_opposite() == d,
{
}

/// One grid cell, addressed by column `x` and row `y`.
#[derive(Clone, Copy, PartialEq, Eq, Structural, Debug)]
pub struct Block {
    pub x: i32,
    pub y: i32,
}

pub struct Snake {
    pub direction: Direction,
    pub body: VecDeque<Block>,
    pub tail: Option<Block>,
}

impl Snake {
    /// A snake always has at least one body segment.
    pub open spec fn wf(self) -> bool {
        self.body@.len() >= 1
    }

    /// The direction a move would take: the requested one if any, otherwise
    /// the current facing direction.
    pub open spec fn spec_resolved(self, dir: Option<Direction>) -> Direction {
        match dir {
            Some(d) => d,
            None => self.direction,
        }
    }

    /// Where the head would be after one step in the resolved direction.
    pub open spec fn spec_next_head(self, dir: Option<Direction>) -> (int, int) {
        let h = self.body@[0];
        match self.spec_resolved(dir) {
            Direction::Up => (h.x as int, h.y - 1),
            Direction::Down => (h.x as int, h.y + 1),
            Direction::Left => (h.x - 1, h.y as int),
            Direction::Right => (h.x + 1, h.y as int),
        }
    }

    /// The head cell after one step in the resolved direction.
    pub open spec fn spec_next_block(self, dir: Option<Direction>) -> Block {
        Block {
            x: self.spec_next_head(dir).0 as i32,
            y: self.spec_next_head(dir).1 as i32,
        }
    }

    /// Whether `(x, y)` coincides with a body segment other than the tail.
    pub open spec fn spec_overlap_except_tail(self, x: int, y: int) -> bool {
        exists|i: int|
            0 <= i < self.body@.len() - 1 && (#[trigger] self.body@[i]).x == x && self.body@[i].y
                == y
    }

    /// Create a three-segment snake whose head sits at `(x, y)`, the rest of
    /// the body extending to the left, facing right.
    pub fn new(x: i32, y: i32) -> (s: Snake)
        requires
            x >= i32::MIN + 2,
        ensures
            s.wf(),
            s.body@.len() == 3,
            s.body@[0] == (Block { x, y }),
            s.body@[1] == (Block { x: (x - 1) as i32, y }),
            s.body@[2] == (Block { x: (x - 2) as i32, y }),
            s.direction == Direction::Right,
            s.tail is None,
    {
        let mut body: VecDeque<Block> = VecDeque::new();
        body.push_back(Block { x, y });
        body.push_back(Block { x: x - 1, y });
        body.push_back(Block { x: x - 2, y });
        Snake { direction: Direction::Right, body, tail: None }
    }

    pub fn head_position(&self) -> (p: (i32, i32))
        requires
            self.wf(),
        ensures
            p.0 == self.body@[0].x,
            p.1 == self.body@[0].y,
    {
        let h = self.body[0];
        (h.x, h.y)
    }

    pub fn head_direction(&self) -> (d: Direction)
        ensures
            d == self.direction,
    {
        self.direction
    }

    /// Number of body segments.
    pub fn length(&self) -> (n: usize)
        ensures
            n == self.body@.len(),
    {
        self.body.len()
    }

    pub fn next_head_position(&self, dir: Option<Direction>) -> (p: (i32, i32))
        requires
            self.wf(),
            i32::MIN < self.body@[0].x < i32::MAX,
            i32::MIN < self.body@[0].y < i32::MAX,
        ensures
            p.0 == self.spec_next_head(dir).0,
            p.1 == self.spec_next_head(dir).1,
    {
        let h = self.body[0];
        let moving_dir = match dir {
            Some(d) => d,
            None => self.direction,
        };
        match moving_dir {
            Direction::Up => (h.x, h.y - 1),
            Direction::Down => (h.x, h.y + 1),
            Direction::Left => (h.x - 1, h.y),
            Direction::Right => (h.x + 1, h.y),
        }
    }
}

/// How one move transforms the snake: the resolved direction is adopted, a
/// new head cell is pushed in front, the tail cell is removed and remembered.
pub open spec fn spec_moved(pre: Snake, post: Snake, dir: Option<Direction>) -> bool {
    &&& post.direction == pre.spec_resolved(dir)
    &&& post.body@ == seq![pre.spec_next_block(dir)] + pre.body@.drop_last()
    &&& post.tail == Some(pre.body@.last())
}

impl Snake {
    pub fn move_forward(&mut self, dir: Option<Direction>)
        requires
            old(self).wf(),
            i32::MIN < old(self).body@[0].x < i32::MAX,
            i32::MIN < old(self).body@[0].y < i32::MAX,
        ensures
            final(self).wf(),
            final(self).body@.len() == old(self).body@.len(),
            spec_moved(*old(self), *final(self), dir),
    {
        let (nx, ny) = self.next_head_position(dir);
        match dir {
            Some(d) => self.direction = d,
            None => (),
        }
        self.body.push_front(Block { x: nx, y: ny });
        let removed = self.body.pop_back();
        match removed {
            Some(b) => self.tail = Some(b),
            None => (),
        }
        proof {
            assert((seq![Block { x: nx, y: ny }] + old(self).body@).drop_last() =~= seq![
                Block { x: nx, y: ny },
            ] + old(self).body@.drop_last());
        }
    }

    /// Re-attach the most recently removed tail cell to the back of the body,
    /// growing the snake by one segment. Only meaningful immediately after a
    /// move, which is what fills the `tail` slot.
    pub fn restore_last_removed(&mut self)
        requires
            old(self).wf(),
            old(self).tail is Some,
        ensures
            final(self).wf(),
            final(self).body@ == old(self).body@ + seq![old(self).tail.unwrap()],
            final(self).direction == old(self).direction,
            final(self).tail == old(self).tail,
    {
        let t = self.tail;
        match t {
            Some(b) => self.body.push_back(b),
            None => (),
        }
    }

    pub fn is_overlap_except_tail(&self, x: i32, y: i32) -> (r: bool)
        requires
            self.wf(),
        ensures
            r == self.spec_overlap_except_tail(x as int, y as int),
    {
        let n = self.body.len();
        let mut i: usize = 0;
        while i < n - 1
            invariant
                self.wf(),
                n == self.body@.len(),
                0 <= i <= n - 1,
                forall|j: int|
                    0 <= j < i ==> !((#[trigger] self.body@[j]).x == x && self.body@[j].y == y),
            decreases n - 1 - i,
        {
            let b = self.body[i];
            if b.x == x && b.y == y {
                return true;
            }
            i = i + 1;
        }
        false
    }
}

/// A move never changes the body length, and restoring the removed tail right
/// after a move grows the body by exactly one segment.
pub proof fn lemma_move_then_restore(pre: Snake, moved: Snake, grown: Snake, dir: Option<
    Direction,
>)
    requires
        pre.wf(),
        spec_moved(pre, moved, dir),
        grown.body@ == moved.body@ + seq![moved.tail.unwrap()],
    ensures
        moved.body@.len() == pre.body@.len(),
        grown.body@.len() == pre.body@.len() + 1,
{
}

/// For a body of at least two segments whose tail cell appears nowhere else
/// in the body, the overlap query never reports the tail cell itself.
pub proof fn lemma_tail_never_overlaps(s: Snake)
    requires
        s.wf(),
        s.body@.len() >= 2,
        forall|i: int| 0 <= i < s.body@.len() - 1 ==> #[trigger] s.body@[i] != s.body@.last(),
    ensures
        !s.spec_overlap_except_tail(s.body@.last().x as int, s.body@.last().y as int),
{
    assert forall|i: int| 0 <= i < s.body@.len() - 1 implies !((#[trigger] s.body@[i]).x
        == s.body@.last().x && s.body@[i].y == s.body@.last().y) by {
        assert(s.body@[i] != s.body@.last());
    }
}

} // verus!
