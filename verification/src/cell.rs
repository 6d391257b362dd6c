//! Grid cells, the four movement directions, and toroidal coordinate wrapping.

use vstd::prelude::*;
use vstd::arithmetic::div_mod::lemma_mod_add_multiples_vanish;
use vstd::arithmetic::div_mod::lemma_mod_sub_multiples_vanish;
use vstd::arithmetic::div_mod::lemma_small_mod;

verus! {

/// One grid position, in cell coordinates (not pixels).
/// Equality is exact integer equality of both components.
#[derive(Clone, Copy, PartialEq, Eq, Structural, Debug)]
pub struct Cell {
    pub x: i16,
    pub y: i16,
}

/// The four unit movement offsets.
#[derive(Clone, Copy, PartialEq, Eq, Structural, Debug)]
pub enum Direction {
    Up,
    Down,
    Left,
    Right,
}

impl Direction {
    /// The direction pointing the opposite way; a snake may never turn into it.
    pub open spec fn opposite(self) -> Direction {
        match self {
            Direction::Up => Direction::Down,
            Direction::Down => Direction::Up,
            Direction::Left => Direction::Right,
            Direction::Right => Direction::Left,
        }
    }

    /// Horizontal component of the unit offset.
    pub open spec fn dx(self) -> int {
        match self {
            Direction::Up => 0,
            Direction::Down => 0,
            Direction::Left => -1,
            Direction::Right => 1,
        }
    }

    /// Vertical component of the unit offset (y grows downward).
    pub open spec fn dy(self) -> int {
        match self {
            Direction::Up => -1,
            Direction::Down => 1,
            Direction::Left => 0,
            Direction::Right => 0,
        }
    }
}

/// Linear membership scan: whether `target` occurs among `cells`.
pub fn contains_cell(cells: &Vec<Cell>, target: Cell) -> (r: bool)
    ensures
        r == cells@.contains(target),
{
    let mut i: usize = 0;
    let mut found: bool = false;
    while i < cells.len()
        invariant
            i <= cells@.len(),
            found == exists|j: int| 0 <= j < i && cells@[j] == target,
        decreases cells@.len() - i,
    {
        if cells[i] == target {
            found = true;
        }
        i = i + 1;
    }
    found
}

/// Wraps a coordinate into `[0, m)`, implementing the toroidal topology.
/// The result is the true (always non-negative) remainder of `x` modulo `m`.
/// Movement only ever steps one cell at a time, so a coordinate to wrap is
/// never further than one full period out of range.
pub fn wrap_coord(x: i16, m: i16) -> (r: i16)
    requires
        1 <= m,
        -(m as int) <= x as int,
        x as int <= m as int,
    ensures
        0 <= r < m,
        r as int == (x as int) % (m as int),
{
    if x < 0 {
        proof {
            lemma_mod_add_multiples_vanish(x as int, m as int);
            lemma_small_mod((x + m) as nat, m as nat);
        }
        x + m
    } else if x >= m {
        proof {
            lemma_mod_sub_multiples_vanish(x as int, m as int);
            lemma_small_mod((x - m) as nat, m as nat);
        }
        x - m
    } else {
        proof {
            lemma_small_mod(x as nat, m as nat);
        }
        x
    }
}

} // verus!
