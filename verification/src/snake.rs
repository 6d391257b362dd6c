//! The moving entity: head, trailing body, pending direction, growth and
//! self-collision.

use vstd::prelude::*;
use vstd::math::min;
use crate::cell::Cell;
use crate::cell::Direction;
use crate::cell::contains_cell;
use crate::cell::wrap_coord;

verus! {

/// Target length a snake starts with and returns to on restart.
pub const INITIAL_LEN: usize = 3;

/// What one attempted move did.
#[derive(Clone, Copy, PartialEq, Eq, Structural, Debug)]
pub enum MoveOutcome {
    /// The head was committed to the wrapped next cell.
    Continued,
    /// The next cell was already part of the trailing sequence; nothing moved.
    SelfCollision,
}

/// The trailing sequence after a committed move: the old head becomes the
/// most recent trailing cell and the result is truncated to at most `cap`
/// cells, dropping the oldest ones.
pub open spec fn trailing_after(trail: Seq<Cell>, head: Cell, cap: int) -> Seq<Cell>
    recommends
        0 <= cap,
{
    let grown = trail.insert(0, head);
    if grown.len() <= cap {
        grown
    } else {
        grown.take(cap)
    }
}

/// Which direction a fixed-priority scan of the held inputs commits to:
/// the first held input, in the order up, down, left, right, that is not
/// the exact opposite of the last accepted direction.
pub open spec fn chosen_direction(
    last: Direction,
    up: bool,
    down: bool,
    left: bool,
    right: bool,
) -> Option<Direction> {
    if up && last != Direction::Down {
        Some(Direction::Up)
    } else if down && last != Direction::Up {
        Some(Direction::Down)
    } else if left && last != Direction::Right {
        Some(Direction::Left)
    } else if right && last != Direction::Left {
        Some(Direction::Right)
    } else {
        None
    }
}

/// The player-controlled segmented entity.
pub struct Snake {
    /// Head position, in grid cells.
    pub pos: Cell,
    /// Trailing body cells, most recent first; the head is not among them.
    pub last_pos: Vec<Cell>,
    /// Target length: the trailing sequence is truncated to this bound.
    pub len: usize,
    /// Pending direction, applied on the next advance.
    pub next: Direction,
    /// Most recently accepted direction; its exact opposite is refused.
    pub last_dir: Direction,
    /// Halves the move interval while held; sampled fresh every frame.
    pub super_speed: bool,
}

impl Snake {
    /// The trailing sequence never outgrows the target length.
    pub open spec fn wf(self) -> bool {
        self.last_pos@.len() <= self.len
    }

    /// The head lies on a `w` by `h` grid.
    pub open spec fn in_grid(self, w: int, h: int) -> bool {
        &&& 0 <= self.pos.x < w
        &&& 0 <= self.pos.y < h
    }

    /// Horizontal coordinate of the next head cell, before wrapping.
    pub open spec fn raw_next_x(self) -> int {
        self.pos.x + self.next.dx()
    }

    /// Vertical coordinate of the next head cell, before wrapping.
    pub open spec fn raw_next_y(self) -> int {
        self.pos.y + self.next.dy()
    }

    /// The unwrapped next head cell is already in the trailing sequence.
    pub open spec fn next_hits_trailing(self) -> bool {
        exists|i: int|
            0 <= i < self.last_pos@.len()
                && self.last_pos@[i].x as int == self.raw_next_x()
                && self.last_pos@[i].y as int == self.raw_next_y()
    }

    /// A fresh snake: given head, empty trail, target length 3, heading right.
    pub fn new(pos: Cell) -> (s: Snake)
        ensures
            s.pos == pos,
            s.last_pos@ =~= Seq::<Cell>::empty(),
            s.len == INITIAL_LEN,
            s.next == Direction::Right,
            s.last_dir == Direction::Right,
            !s.super_speed,
            s.wf(),
    {
        Snake {
            pos,
            last_pos: Vec::new(),
            len: INITIAL_LEN,
            next: Direction::Right,
            last_dir: Direction::Right,
            super_speed: false,
        }
    }

    /// Overwrites the pending direction, unless the request is the exact
    /// opposite of the last accepted direction, which is ignored: an instant
    /// reversal would always collide with the cell directly behind the head.
    pub fn set_direction(&mut self, requested: Direction)
        ensures
            requested == old(self).last_dir.opposite() ==> *final(self) == *old(self),
            requested != old(self).last_dir.opposite() ==> *final(self) == (Snake {
                next: requested,
                last_dir: requested,
                ..*old(self)
            }),
    {
        let blocked = match self.last_dir {
            Direction::Up => requested == Direction::Down,
            Direction::Down => requested == Direction::Up,
            Direction::Left => requested == Direction::Right,
            Direction::Right => requested == Direction::Left,
        };
        if !blocked {
            self.next = requested;
            self.last_dir = requested;
        }
    }

    /// Applies one frame of held directional inputs: the inputs are scanned
    /// in the fixed order up, down, left, right, and the first held one that
    /// is not a reversal wins; the rest are ignored.
    pub fn steer(&mut self, up: bool, down: bool, left: bool, right: bool)
        ensures
            match chosen_direction(old(self).last_dir, up, down, left, right) {
                Some(d) => *final(self) == (Snake { next: d, last_dir: d, ..*old(self) }),
                None => *final(self) == *old(self),
            },
    {
        if up && !matches!(self.last_dir, Direction::Down) {
            self.next = Direction::Up;
            self.last_dir = Direction::Up;
        } else if down && !matches!(self.last_dir, Direction::Up) {
            self.next = Direction::Down;
            self.last_dir = Direction::Down;
        } else if left && !matches!(self.last_dir, Direction::Right) {
            self.next = Direction::Left;
            self.last_dir = Direction::Left;
        } else if right && !matches!(self.last_dir, Direction::Left) {
            self.next = Direction::Right;
            self.last_dir = Direction::Right;
        }
    }

    /// Raises the target length by one. The visible trailing sequence does
    /// not change here: the new slot is only filled in by later advances.
    pub fn grow(&mut self)
        requires
            old(self).len < usize::MAX,
        ensures
            *final(self) == (Snake { len: (old(self).len + 1) as usize, ..*old(self) }),
    {
        self.len = self.len + 1;
    }

    /// One attempted move on a `w` by `h` toroidal grid.
    ///
    /// The next head cell is the head plus the pending direction. If that
    /// cell, before wrapping, is already in the trailing sequence, the move
    /// is a self-collision and the state is left exactly as it was.
    /// Otherwise both coordinates wrap into range, the head commits there,
    /// the old head becomes the newest trailing cell, and the trailing
    /// sequence is truncated to the target length.
    pub fn advance(&mut self, w: i16, h: i16) -> (outcome: MoveOutcome)
        requires
            old(self).wf(),
            old(self).in_grid(w as int, h as int),
            1 <= w,
            1 <= h,
        ensures
            final(self).wf(),
            old(self).next_hits_trailing() ==> {
                &&& outcome == MoveOutcome::SelfCollision
                &&& *final(self) == *old(self)
            },
            !old(self).next_hits_trailing() ==> {
                &&& outcome == MoveOutcome::Continued
                &&& final(self).pos.x as int == old(self).raw_next_x() % (w as int)
                &&& final(self).pos.y as int == old(self).raw_next_y() % (h as int)
                &&& final(self).in_grid(w as int, h as int)
                &&& final(self).last_pos@ == trailing_after(
                    old(self).last_pos@,
                    old(self).pos,
                    old(self).len as int,
                )
                &&& final(self).last_pos@.len() == min(
                    old(self).last_pos@.len() as int + 1,
                    old(self).len as int,
                )
                &&& final(self).len == old(self).len
                &&& final(self).next == old(self).next
                &&& final(self).last_dir == old(self).last_dir
                &&& final(self).super_speed == old(self).super_speed
            },
    {
        let (dx, dy): (i16, i16) = match self.next {
            Direction::Up => (0, -1),
            Direction::Down => (0, 1),
            Direction::Left => (-1, 0),
            Direction::Right => (1, 0),
        };
        let nx = self.pos.x + dx;
        let ny = self.pos.y + dy;
        let target = Cell { x: nx, y: ny };

        let hit = contains_cell(&self.last_pos, target);
        proof {
            assert(hit == old(self).next_hits_trailing()) by {
                if hit {
                    let j = choose|j: int|
                        0 <= j < self.last_pos@.len() && self.last_pos@[j] == target;
                    assert(self.last_pos@[j].x as int == old(self).raw_next_x());
                } else if old(self).next_hits_trailing() {
                    let j = choose|j: int|
                        0 <= j < self.last_pos@.len()
                            && self.last_pos@[j].x as int == old(self).raw_next_x()
                            && self.last_pos@[j].y as int == old(self).raw_next_y();
                    assert(self.last_pos@[j] == target);
                }
            }
        }
        if hit {
            return MoveOutcome::SelfCollision;
        }

        let old_head = self.pos;
        self.pos = Cell { x: wrap_coord(nx, w), y: wrap_coord(ny, h) };
        self.last_pos.insert(0, old_head);
        self.last_pos.truncate(self.len);
        proof {
            assert(self.last_pos@ =~= trailing_after(
                old(self).last_pos@,
                old(self).pos,
                old(self).len as int,
            ));
        }
        MoveOutcome::Continued
    }
}

/// The trailing sequence is always capped by the target length: a committed
/// move keeps a well-formed snake well-formed, and once the trailing
/// sequence has reached the target length it stays exactly there.
pub proof fn lemma_trailing_bounded(trail: Seq<Cell>, head: Cell, cap: int)
    requires
        0 <= cap,
        trail.len() <= cap,
    ensures
        trailing_after(trail, head, cap).len() <= cap,
        trail.len() == cap ==> trailing_after(trail, head, cap).len() == cap,
{
}

/// Growth is deferred: with the trailing sequence at its cap, raising the
/// target length by one before a move yields exactly one more visible
/// trailing cell than the same move alone would have.
pub proof fn lemma_growth_deferred(trail: Seq<Cell>, head: Cell, cap: int)
    requires
        0 <= cap,
        trail.len() == cap,
    ensures
        trailing_after(trail, head, cap + 1).len() == trailing_after(trail, head, cap).len() + 1,
{
}

} // verus!
