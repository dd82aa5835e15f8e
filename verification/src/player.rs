//! The player: an ordered body of coordinates, head first, that moves one
//! cell at a time and enforces the boundary rule on its own, using the
//! bounds it was given at creation.

use vstd::prelude::*;
use crate::grid::{Coordinates, Dimensions};
use crate::rng::randint;

verus! {

/// The segmented body and its current head position. `max_x` and `max_y`
/// are the grid's largest valid indices; the body must stay strictly
/// inside them, so it never touches the border ring.
pub struct Player {
    pub max_x: usize,
    pub max_y: usize,
    pub pos_x: usize,
    pub pos_y: usize,
    pub body: Vec<Coordinates>,
}

impl Player {
    /// Is `(x, y)` strictly inside the bounds, off the border ring?
    pub open spec fn in_play(self, x: int, y: int) -> bool {
        1 <= x < self.max_x && 1 <= y < self.max_y
    }

    /// Non-empty body, every segment and the position strictly inside,
    /// and the body a simple path: no two segments share a cell.
    pub open spec fn wf(self) -> bool {
        &&& 2 <= self.max_x
        &&& 2 <= self.max_y
        &&& self.in_play(self.pos_x as int, self.pos_y as int)
        &&& self.body@.len() >= 1
        &&& forall|i: int| 0 <= i < self.body@.len()
                ==> self.in_play((#[trigger] self.body@[i]).0 as int, self.body@[i].1 as int)
        &&& forall|i: int, j: int| 0 <= i < j < self.body@.len()
                ==> #[trigger] self.body@[i] != #[trigger] self.body@[j]
    }

    /// The head segment records the current position. This holds between
    /// ticks; a directional step breaks it until `update` restores it.
    pub open spec fn synced(self) -> bool {
        self.body@.len() >= 1 && self.body@[0] == (self.pos_x, self.pos_y)
    }

    /// The current head coordinate.
    pub fn head(&self) -> (r: Coordinates)
        ensures
            r == (self.pos_x, self.pos_y),
    {
        (self.pos_x, self.pos_y)
    }

    /// The current tail coordinate: the last body segment.
    pub fn tail(&self) -> (r: Coordinates)
        requires
            self.body@.len() >= 1,
        ensures
            r == self.body@.last(),
    {
        self.body[self.body.len() - 1]
    }

    /// May the head step up onto row `new_y`? Only if that keeps it
    /// strictly inside the bounds.
    pub fn can_up(&self, new_y: usize) -> (r: bool)
        ensures
            r == (1 <= new_y < self.max_y),
    {
        1 <= new_y && new_y < self.max_y
    }

    /// May the head step down onto row `new_y`?
    pub fn can_down(&self, new_y: usize) -> (r: bool)
        ensures
            r == (1 <= new_y < self.max_y),
    {
        1 <= new_y && new_y < self.max_y
    }

    /// May the head step left onto column `new_x`?
    pub fn can_left(&self, new_x: usize) -> (r: bool)
        ensures
            r == (1 <= new_x < self.max_x),
    {
        1 <= new_x && new_x < self.max_x
    }

    /// May the head step right onto column `new_x`?
    pub fn can_right(&self, new_x: usize) -> (r: bool)
        ensures
            r == (1 <= new_x < self.max_x),
    {
        1 <= new_x && new_x < self.max_x
    }

    /// Step the head one row up.
    pub fn up(&mut self)
        requires
            old(self).pos_y >= 1,
        ensures
            final(self).pos_x == old(self).pos_x,
            final(self).pos_y == old(self).pos_y - 1,
            final(self).max_x == old(self).max_x,
            final(self).max_y == old(self).max_y,
            final(self).body == old(self).body,
    {
        self.pos_y = self.pos_y - 1;
    }

    /// Step the head one row down.
    pub fn down(&mut self)
        requires
            old(self).pos_y + 1 <= usize::MAX,
        ensures
            final(self).pos_x == old(self).pos_x,
            final(self).pos_y == old(self).pos_y + 1,
            final(self).max_x == old(self).max_x,
            final(self).max_y == old(self).max_y,
            final(self).body == old(self).body,
    {
        self.pos_y = self.pos_y + 1;
    }

    /// Step the head one column left.
    pub fn left(&mut self)
        requires
            old(self).pos_x >= 1,
        ensures
            final(self).pos_x == old(self).pos_x - 1,
            final(self).pos_y == old(self).pos_y,
            final(self).max_x == old(self).max_x,
            final(self).max_y == old(self).max_y,
            final(self).body == old(self).body,
    {
        self.pos_x = self.pos_x - 1;
    }

    /// Step the head one column right.
    pub fn right(&mut self)
        requires
            old(self).pos_x + 1 <= usize::MAX,
        ensures
            final(self).pos_x == old(self).pos_x + 1,
            final(self).pos_y == old(self).pos_y,
            final(self).max_x == old(self).max_x,
            final(self).max_y == old(self).max_y,
            final(self).body == old(self).body,
    {
        self.pos_x = self.pos_x + 1;
    }

    /// Commit a step: push the current position as the new head segment
    /// and drop the old tail segment.
    pub fn update(&mut self)
        requires
            old(self).body@.len() >= 1,
        ensures
            final(self).pos_x == old(self).pos_x,
            final(self).pos_y == old(self).pos_y,
            final(self).max_x == old(self).max_x,
            final(self).max_y == old(self).max_y,
            final(self).body@ == seq![(old(self).pos_x, old(self).pos_y)] + old(self).body@.drop_last(),
    {
        self.body.insert(0, (self.pos_x, self.pos_y));
        self.body.pop();
        proof {
            assert(self.body@ =~= seq![(old(self).pos_x, old(self).pos_y)] + old(self).body@.drop_last());
        }
    }

    /// Re-append the most recently vacated tail segment, growing the body
    /// by one.
    pub fn grow(&mut self, prev: Coordinates)
        ensures
            final(self).pos_x == old(self).pos_x,
            final(self).pos_y == old(self).pos_y,
            final(self).max_x == old(self).max_x,
            final(self).max_y == old(self).max_y,
            final(self).body@ == old(self).body@.push(prev),
    {
        self.body.push(prev);
    }
}

/// Spawn a player at a uniformly chosen coordinate strictly inside the
/// given bounds, with a single-segment body on that coordinate.
pub fn new_player(dims: Dimensions) -> (p: Player)
    requires
        2 <= dims.0,
        2 <= dims.1,
    ensures
        p.wf(),
        p.synced(),
        p.max_x == dims.0,
        p.max_y == dims.1,
        p.body@.len() == 1,
        1 <= p.pos_x < dims.0,
        1 <= p.pos_y < dims.1,
{
    let (max_x, max_y) = dims;
    let pos_x = randint(1..max_x);
    let pos_y = randint(1..max_y);

    Player { max_x, max_y, pos_x, pos_y, body: vec![(pos_x, pos_y)] }
}

} // verus!
