use std::collections::VecDeque;
use vstd::prelude::*;

use crate::geometry::{
    adjacent, can_step, lemma_step_adjacent, shape, shape_fits, shape_of, side_of, step_pos, Dir,
    Pos, Var,
};
use crate::map::GameMap;

verus! {

/// Segment `i` of `s` shares a side with segment `i + 1`.
pub open spec fn linked(s: Seq<Pos>, i: int) -> bool {
    adjacent(s[i], s[i + 1])
}

/// Each segment shares a side with the next one.
pub open spec fn connected(s: Seq<Pos>) -> bool {
    forall|i: int| 0 <= i < s.len() - 1 ==> #[trigger] linked(s, i)
}

/// The body after one move in direction `d`: the tail cell is left and a new
/// head is added next to the old head.
pub open spec fn moved(s: Seq<Pos>, d: Dir) -> Seq<Pos> {
    s.drop_first().push(step_pos(s.last(), d))
}

/// The cell `p` lies on the field of `width` by `height` cells, counted from 1.
pub open spec fn on_field(p: Pos, width: u16, height: u16) -> bool {
    1 <= p.x <= width && 1 <= p.y <= height
}

/// The field's cells are counted from 1: a cell is on the field exactly when
/// its column is between 1 and the width and its row between 1 and the
/// height; column 0, row 0 and everything past the width or height are off it.
pub proof fn lemma_on_field_cells(p: Pos, width: u16, height: u16)
    ensures
        on_field(p, width, height) <==> (p.x != 0 && p.x <= width && p.y != 0 && p.y <= height),
        1 <= p.y <= height && 1 <= width ==> on_field(Pos { x: 1, y: p.y }, width, height),
        on_field(Pos { x: width, y: height }, width, height) <==> (width != 0 && height != 0),
{
}

/// A move keeps the body connected and keeps its length.
pub proof fn lemma_moved_connected(s: Seq<Pos>, d: Dir)
    requires
        s.len() >= 1,
        connected(s),
        can_step(s.last(), d),
    ensures
        moved(s, d).len() == s.len(),
        moved(s, d).last() == step_pos(s.last(), d),
        connected(moved(s, d)),
        forall|i: int| 0 <= i < s.len() - 1 ==> #[trigger] moved(s, d)[i] == s[i + 1],
        adjacent(s.last(), moved(s, d).last()),
        side_of(s.last(), moved(s, d).last()) == d,
{
    lemma_step_adjacent(s.last(), d);
    let m = moved(s, d);
    assert forall|i: int| 0 <= i < m.len() - 1 implies #[trigger] linked(m, i) by {
        if i < m.len() - 2 {
            assert(linked(s, i + 1));
        } else {
            assert(m[i] == s.last());
        }
    }
}

/// The snake: its body cells from tail (index 0) to head (last index), and
/// the direction in which the head moves next.
pub struct Snake {
    body: VecDeque<Pos>,
    dir: Dir,
}

impl Snake {
    /// The body cells, from tail to head.
    pub closed spec fn segs(&self) -> Seq<Pos> {
        self.body@
    }

    /// The direction of the next move.
    pub closed spec fn heading(&self) -> Dir {
        self.dir
    }

    /// The snake has at least three segments, each sharing a side with the next.
    pub open spec fn wf(&self) -> bool {
        &&& self.segs().len() >= 3
        &&& connected(self.segs())
    }

    /// A snake of three cells on row `y`, its head at column `x` and its tail
    /// two cells to the left, moving right.
    pub fn new(x: u16, y: u16) -> (s: Snake)
        requires
            x >= 2,
        ensures
            s.wf(),
            s.segs() == seq![Pos { x: (x - 2) as u16, y }, Pos { x: (x - 1) as u16, y }, Pos { x, y }],
            s.heading() == Dir::Right,
    {
        let mut snake = Snake { body: VecDeque::new(), dir: Dir::Right };
        snake.body.push_back(Pos::new(x - 2, y));
        snake.body.push_back(Pos::new(x - 1, y));
        snake.body.push_back(Pos::new(x, y));
        assert(linked(snake.segs(), 0));
        assert(linked(snake.segs(), 1));
        snake
    }

    /// The number of segments.
    pub fn len(&self) -> (n: usize)
        ensures
            n == self.segs().len(),
    {
        self.body.len()
    }

    fn head_x(&self) -> (x: u16)
        requires
            self.wf(),
        ensures
            x == self.segs().last().x,
    {
        self.body[self.body.len() - 1].x
    }

    fn head_y(&self) -> (y: u16)
        requires
            self.wf(),
        ensures
            y == self.segs().last().y,
    {
        self.body[self.body.len() - 1].y
    }

    pub fn get_dir(&self) -> (d: Dir)
        ensures
            d == self.heading(),
    {
        self.dir
    }

    /// Sets the direction of the next move.
    pub fn set_dir(&mut self, d: Dir)
        ensures
            final(self).segs() == old(self).segs(),
            final(self).heading() == d,
    {
        self.dir = d;
    }

    /// The segment at index `i`, counted from the tail.
    pub fn sget(&self, i: usize) -> (p: Pos)
        requires
            i < self.segs().len(),
        ensures
            p == self.segs()[i as int],
    {
        self.body[i]
    }

    /// The shape of the body segment `i`, from its neighbours `i - 1` and `i + 1`.
    pub fn get_var(&self, i: usize) -> (v: Var)
        requires
            1 <= i,
            i + 1 < self.segs().len(),
            shape_fits(self.segs()[i - 1], self.segs()[i as int], self.segs()[i + 1]),
        ensures
            v == shape(self.segs()[i - 1], self.segs()[i as int], self.segs()[i + 1]),
    {
        let _len = self.body.len();
        shape_of(self.sget(i - 1), self.sget(i), self.sget(i + 1))
    }

    /// The head has left the field: it is on column or row 0, or beyond the
    /// field's width or height.
    pub fn is_dead(&self, map: &GameMap) -> (dead: bool)
        requires
            self.wf(),
        ensures
            dead == !on_field(self.segs().last(), map.width, map.height),
            dead == (self.segs().last().x == 0 || self.segs().last().x > map.width
                || self.segs().last().y == 0 || self.segs().last().y > map.height),
    {
        if self.head_x() <= 0 || self.head_x() > map.width || self.head_y() <= 0 || self.head_y()
            > map.height {
            return true;
        }
        return false
    }

    /// The head can move one cell in its direction without leaving the `u16` range.
    pub fn can_move(&self) -> (b: bool)
        requires
            self.wf(),
        ensures
            b == can_step(self.segs().last(), self.heading()),
    {
        let head = self.body[self.body.len() - 1];
        match self.dir {
            Dir::Up => head.y > 0,
            Dir::Left => head.x > 0,
            Dir::Down => head.y < u16::MAX,
            Dir::Right => head.x < u16::MAX,
        }
    }

    /// Moves the snake one cell in its direction: a new head is added next to
    /// the old one and the tail cell is removed and returned.
    pub fn move_full(&mut self) -> (tail: Pos)
        requires
            old(self).wf(),
            can_step(old(self).segs().last(), old(self).heading()),
        ensures
            final(self).wf(),
            final(self).segs() == moved(old(self).segs(), old(self).heading()),
            final(self).segs().len() == old(self).segs().len(),
            final(self).heading() == old(self).heading(),
            tail == old(self).segs()[0],
    {
        proof {
            lemma_moved_connected(self.segs(), self.heading());
        }
        let mut p = self.body[self.body.len() - 1];
        match self.dir {
            Dir::Up => { p.y = p.y - 1 },
            Dir::Left => { p.x = p.x - 1 },
            Dir::Down => { p.y = p.y + 1 },
            Dir::Right => { p.x = p.x + 1 },
        }
        self.body.push_back(p);
        let tail = self.body.pop_front().unwrap();
        assert(self.segs() =~= moved(old(self).segs(), old(self).heading()));
        tail
    }

    /// One move of the snake on `map`: returns the cell the tail left and
    /// whether the head is now off the field.
    pub fn step(&mut self, map: &GameMap) -> (res: (Pos, bool))
        requires
            old(self).wf(),
            can_step(old(self).segs().last(), old(self).heading()),
        ensures
            final(self).wf(),
            final(self).segs() == moved(old(self).segs(), old(self).heading()),
            final(self).heading() == old(self).heading(),
            res.0 == old(self).segs()[0],
            res.1 == !on_field(final(self).segs().last(), map.width, map.height),
    {
        let last_pix = self.move_full();
        let is_dead = self.is_dead(map);
        (last_pix, is_dead)
    }
}

} // verus!
