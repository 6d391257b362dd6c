//! Board state: apple placement, phase lifecycle and the per-frame update.

use vstd::prelude::*;
use crate::cell::Cell;
use crate::cell::Direction;
use crate::cell::contains_cell;
use crate::rng::rand_below;
use crate::snake::INITIAL_LEN;
use crate::snake::MoveOutcome;
use crate::snake::Snake;
use crate::snake::chosen_direction;
use crate::snake::trailing_after;

verus! {

/// How long, in milliseconds, the Lose and Win screens hold before the game
/// restarts or asks to quit.
pub const PHASE_DELAY_MS: u64 = 1000;

/// Safety cap on the random draws of one apple spawn. On a near-full board
/// rejection sampling could spin arbitrarily long; after this many clashes
/// the spawner falls back to a deterministic scan for a free cell.
pub const SPAWN_ATTEMPTS: usize = 100;

/// The game lifecycle phase.
#[derive(Clone, Copy, PartialEq, Eq, Structural, Debug)]
pub enum State {
    Menu,
    Playing,
    Lose,
    Win,
}

impl State {
    /// The user-facing message shown while this phase holds, if any.
    pub fn message(self) -> (r: Option<&'static str>)
        ensures
            self == State::Menu ==> (r matches Some(m) && m@ == "Press Space To Begin..."@),
            self == State::Playing ==> r is None,
            self == State::Lose ==> (r matches Some(m) && m@ == "Sorry, you failed. RESETTING."@),
            self == State::Win ==> (r matches Some(m) && m@ == "YOU DID IT? WHY? GET HELP"@),
    {
        match self {
            State::Menu => Some("Press Space To Begin..."),
            State::Playing => None,
            State::Lose => Some("Sorry, you failed. RESETTING."),
            State::Win => Some("YOU DID IT? WHY? GET HELP"),
        }
    }
}

/// One frame's worth of player intent, polled by the driving loop.
#[derive(Clone, Copy, PartialEq, Eq, Structural, Debug)]
pub struct Input {
    pub up: bool,
    pub down: bool,
    pub left: bool,
    pub right: bool,
    /// Begins the game from the menu and restarts it after a loss.
    pub confirm: bool,
    /// Halves the move interval while held.
    pub boost: bool,
}

impl Input {
    /// A frame with nothing held.
    pub fn idle() -> (r: Input)
        ensures
            r == (Input { up: false, down: false, left: false, right: false, confirm: false, boost: false }),
    {
        Input { up: false, down: false, left: false, right: false, confirm: false, boost: false }
    }
}

/// What the driving loop must do after one frame of the core.
#[derive(Clone, Copy, PartialEq, Eq, Structural, Debug)]
pub enum TickAction {
    /// Nothing to do.
    Idle,
    /// A move was committed: reset the move timer to now.
    Moved,
    /// The win screen has run its course: terminate the process.
    Quit,
}

/// A cell the apple spawner may use: on the board, not the snake's head,
/// not a trailing cell, and not an already-placed apple.
pub open spec fn free_cell(
    c: Cell,
    head: Cell,
    trail: Seq<Cell>,
    apples: Seq<Cell>,
    w: int,
    h: int,
) -> bool {
    &&& 0 <= c.x < w
    &&& 0 <= c.y < h
    &&& c != head
    &&& !apples.contains(c)
    &&& !trail.contains(c)
}

/// Some cell is still available to the apple spawner.
pub open spec fn spawn_possible(
    head: Cell,
    trail: Seq<Cell>,
    apples: Seq<Cell>,
    w: int,
    h: int,
) -> bool {
    exists|c: Cell| free_cell(c, head, trail, apples, w, h)
}

/// The apples left after the head lands on `head`: every matching cell is
/// removed, the rest keep their order.
pub open spec fn apples_without(apples: Seq<Cell>, head: Cell) -> Seq<Cell>
    decreases apples.len(),
{
    if apples.len() <= 0 {
        Seq::empty()
    } else {
        let rest = apples_without(apples.drop_first(), head);
        if apples[0] == head {
            rest
        } else {
            seq![apples[0]] + rest
        }
    }
}

/// How many apples the head lands on (normally at most one, since apples
/// never overlap).
pub open spec fn apples_eaten(apples: Seq<Cell>, head: Cell) -> int
    decreases apples.len(),
{
    if apples.len() <= 0 {
        0
    } else {
        (if apples[0] == head {
            1int
        } else {
            0int
        }) + apples_eaten(apples.drop_first(), head)
    }
}

/// The board, the apples on it, the move interval and the lifecycle phase.
pub struct Game {
    /// Canvas dimensions in pixels.
    pub canvas: Cell,
    /// Canvas dimensions in cells, derived once from pixels and tile size.
    pub canvas_size: Cell,
    /// Side of one square tile, in pixels.
    pub tile_size: i16,
    /// Apple cells; a newly spawned apple goes in front.
    pub apples: Vec<Cell>,
    /// Milliseconds between forced moves; halved while boosting.
    pub speed_ms: u64,
    /// Current lifecycle phase.
    pub state: State,
}

impl Game {
    /// The board has at least one cell in each dimension.
    pub open spec fn wf(self) -> bool {
        &&& 1 <= self.canvas_size.x
        &&& 1 <= self.canvas_size.y
    }

    /// Number of cells on the board.
    pub open spec fn area(self) -> int {
        self.canvas_size.x * self.canvas_size.y
    }

    /// The board geometry and timing that never change after construction.
    pub open spec fn same_board(self, other: Game) -> bool {
        &&& self.canvas == other.canvas
        &&& self.canvas_size == other.canvas_size
        &&& self.tile_size == other.tile_size
        &&& self.speed_ms == other.speed_ms
    }

    /// Whether the timer obliges a move this frame: the full interval has
    /// passed, or the boost flag is held and half of it has.
    pub open spec fn move_due(self, boosted: bool, elapsed_ms: u64) -> bool {
        elapsed_ms >= self.speed_ms || (boosted && elapsed_ms >= self.speed_ms / 2)
    }

    /// A fresh board in the menu phase, with no apples yet. The grid is the
    /// pixel canvas divided by the tile size, truncating.
    pub fn new(canvas: Cell, tile_size: i16, speed_ms: u64) -> (g: Game)
        requires
            1 <= tile_size,
            tile_size <= canvas.x,
            tile_size <= canvas.y,
        ensures
            g.canvas == canvas,
            g.canvas_size.x as int == canvas.x as int / tile_size as int,
            g.canvas_size.y as int == canvas.y as int / tile_size as int,
            g.tile_size == tile_size,
            g.apples@ =~= Seq::<Cell>::empty(),
            g.speed_ms == speed_ms,
            g.state == State::Menu,
            g.wf(),
    {
        proof {
            vstd::arithmetic::div_mod::lemma_div_by_self(tile_size as int);
            vstd::arithmetic::div_mod::lemma_div_is_ordered(
                tile_size as int,
                canvas.x as int,
                tile_size as int,
            );
            vstd::arithmetic::div_mod::lemma_div_is_ordered(
                tile_size as int,
                canvas.y as int,
                tile_size as int,
            );
        }
        let canvas_size = Cell { x: canvas.x / tile_size, y: canvas.y / tile_size };
        Game {
            canvas,
            canvas_size,
            tile_size,
            apples: Vec::new(),
            speed_ms,
            state: State::Menu,
        }
    }

    /// Scans the board row by row for a cell the apple spawner may use, and
    /// says definitively whether one exists.
    fn find_free_cell(&self, snake: &Snake) -> (r: Option<Cell>)
        requires
            self.wf(),
        ensures
            match r {
                Some(c) => free_cell(
                    c,
                    snake.pos,
                    snake.last_pos@,
                    self.apples@,
                    self.canvas_size.x as int,
                    self.canvas_size.y as int,
                ),
                None => forall|c: Cell|
                    !free_cell(
                        c,
                        snake.pos,
                        snake.last_pos@,
                        self.apples@,
                        self.canvas_size.x as int,
                        self.canvas_size.y as int,
                    ),
            },
    {
        let w = self.canvas_size.x;
        let h = self.canvas_size.y;
        let ghost wi = w as int;
        let ghost hi = h as int;
        let mut y: i16 = 0;
        while y < h
            invariant
                0 <= y <= h,
                1 <= w == self.canvas_size.x,
                1 <= h == self.canvas_size.y,
                wi == w as int,
                hi == h as int,
                forall|c: Cell|
                    c.y < y ==> !free_cell(c, snake.pos, snake.last_pos@, self.apples@, wi, hi),
            decreases h - y,
        {
            let mut x: i16 = 0;
            while x < w
                invariant
                    0 <= x <= w,
                    0 <= y < h,
                    1 <= w == self.canvas_size.x,
                    1 <= h == self.canvas_size.y,
                    wi == w as int,
                    hi == h as int,
                    forall|c: Cell|
                        c.y < y ==> !free_cell(c, snake.pos, snake.last_pos@, self.apples@, wi, hi),
                    forall|c: Cell|
                        c.y == y && c.x < x ==> !free_cell(
                            c,
                            snake.pos,
                            snake.last_pos@,
                            self.apples@,
                            wi,
                            hi,
                        ),
                decreases w - x,
            {
                let cand = Cell { x, y };
                if cand != snake.pos && !contains_cell(&self.apples, cand)
                    && !contains_cell(&snake.last_pos, cand) {
                    return Some(cand);
                }
                x = x + 1;
            }
            proof {
                assert(forall|c: Cell|
                    c.y == y ==> !free_cell(c, snake.pos, snake.last_pos@, self.apples@, wi, hi));
            }
            y = y + 1;
        }
        None
    }

    /// Places one apple on a uniformly drawn free cell, redrawing on every
    /// clash — unless the trailing sequence already covers more than
    /// `area - 1` cells, in which case no free cell can be owed and the
    /// phase flips to Win without sampling. After `SPAWN_ATTEMPTS` clashes
    /// the draw falls back to a deterministic scan, so an apple is placed
    /// exactly when some free cell exists.
    pub fn spawn_apple(&mut self, snake: &Snake)
        requires
            old(self).wf(),
        ensures
            final(self).wf(),
            final(self).same_board(*old(self)),
            snake.last_pos@.len() > old(self).area() - 1 ==> {
                &&& final(self).state == State::Win
                &&& final(self).apples@ == old(self).apples@
            },
            snake.last_pos@.len() <= old(self).area() - 1 ==> {
                &&& final(self).state == old(self).state
                &&& if spawn_possible(
                    snake.pos,
                    snake.last_pos@,
                    old(self).apples@,
                    old(self).canvas_size.x as int,
                    old(self).canvas_size.y as int,
                ) {
                    &&& final(self).apples@.len() == old(self).apples@.len() + 1
                    &&& final(self).apples@.subrange(1, final(self).apples@.len() as int)
                        == old(self).apples@
                    &&& free_cell(
                        final(self).apples@[0],
                        snake.pos,
                        snake.last_pos@,
                        old(self).apples@,
                        old(self).canvas_size.x as int,
                        old(self).canvas_size.y as int,
                    )
                } else {
                    final(self).apples@ == old(self).apples@
                }
            },
    {
        proof {
            assert(1 <= self.canvas_size.x as int * self.canvas_size.y as int <= 32767 * 32767)
                by (nonlinear_arith)
                requires
                    1 <= self.canvas_size.x <= 32767,
                    1 <= self.canvas_size.y <= 32767,
            ;
        }
        let area: i32 = (self.canvas_size.x as i32) * (self.canvas_size.y as i32);

        if snake.last_pos.len() > (area - 1) as usize {
            self.state = State::Win;
            return;
        }

        let mut attempts: usize = 0;
        while attempts < SPAWN_ATTEMPTS
            invariant
                *self == *old(self),
                self.wf(),
                snake.last_pos@.len() <= old(self).area() - 1,
            decreases SPAWN_ATTEMPTS - attempts,
        {
            let pos = Cell {
                x: rand_below(self.canvas_size.x),
                y: rand_below(self.canvas_size.y),
            };
            if pos != snake.pos && !contains_cell(&self.apples, pos)
                && !contains_cell(&snake.last_pos, pos) {
                proof {
                    assert(free_cell(
                        pos,
                        snake.pos,
                        snake.last_pos@,
                        old(self).apples@,
                        old(self).canvas_size.x as int,
                        old(self).canvas_size.y as int,
                    ));
                }
                self.apples.insert(0, pos);
                proof {
                    assert(self.apples@.subrange(1, self.apples@.len() as int)
                        =~= old(self).apples@);
                }
                return;
            }
            attempts = attempts + 1;
        }

        match self.find_free_cell(snake) {
            Some(c) => {
                proof {
                    assert(free_cell(
                        c,
                        snake.pos,
                        snake.last_pos@,
                        old(self).apples@,
                        old(self).canvas_size.x as int,
                        old(self).canvas_size.y as int,
                    ));
                }
                self.apples.insert(0, c);
                proof {
                    assert(self.apples@.subrange(1, self.apples@.len() as int)
                        =~= old(self).apples@);
                }
            },
            None => {},
        }
    }

    /// Removes every apple the head now sits on and grows the snake once per
    /// apple removed; everything else is untouched.
    pub fn eat_apples(&mut self, snake: &mut Snake)
        requires
            old(snake).len + old(self).apples@.len() <= usize::MAX,
        ensures
            final(self).apples@ == apples_without(old(self).apples@, old(snake).pos),
            final(self).same_board(*old(self)),
            final(self).state == old(self).state,
            final(snake).len == old(snake).len + apples_eaten(old(self).apples@, old(snake).pos),
            final(snake).len >= old(snake).len,
            *final(snake) == (Snake { len: final(snake).len, ..*old(snake) }),
    {
        let ghost all = old(self).apples@;
        let ghost head = old(snake).pos;
        let mut kept: Vec<Cell> = Vec::new();
        let mut eaten: usize = 0;
        let mut i: usize = 0;
        proof {
            assert(all.skip(0) =~= all);
            assert(Seq::<Cell>::empty() + apples_without(all, head) =~= apples_without(all, head));
        }
        while i < self.apples.len()
            invariant
                i <= self.apples@.len(),
                all == old(self).apples@,
                head == old(snake).pos,
                self.apples@ == all,
                *snake == *old(snake),
                kept@ + apples_without(all.skip(i as int), head) == apples_without(all, head),
                eaten + apples_eaten(all.skip(i as int), head) == apples_eaten(all, head),
                eaten <= i,
            decreases self.apples@.len() - i,
        {
            let a = self.apples[i];
            proof {
                let tail = all.skip(i as int);
                assert(tail.len() > 0 && tail[0] == a);
                assert(tail.drop_first() =~= all.skip(i as int + 1));
                if a == head {
                    assert(apples_without(tail, head) == apples_without(tail.drop_first(), head));
                    assert(apples_eaten(tail, head) == 1 + apples_eaten(tail.drop_first(), head));
                } else {
                    assert(apples_without(tail, head) == seq![a] + apples_without(
                        tail.drop_first(),
                        head,
                    ));
                    assert(apples_eaten(tail, head) == apples_eaten(tail.drop_first(), head));
                    assert(kept@.push(a) + apples_without(all.skip(i as int + 1), head)
                        =~= kept@ + apples_without(tail, head));
                }
            }
            if a == snake.pos {
                eaten = eaten + 1;
            } else {
                kept.push(a);
            }
            i = i + 1;
        }
        proof {
            assert(all.skip(all.len() as int) =~= Seq::<Cell>::empty());
            assert(apples_without(Seq::<Cell>::empty(), head) =~= Seq::<Cell>::empty());
            assert(apples_eaten(Seq::<Cell>::empty(), head) == 0);
            assert(kept@ + Seq::<Cell>::empty() =~= kept@);
        }
        self.apples = kept;
        snake.len = snake.len + eaten;
    }

    /// Resets the run after a loss: target length back to 3, the apples
    /// replaced by one fresh spawn (drawn before the snake is moved, so it
    /// avoids the snake as it was), the snake back at the origin heading
    /// right with an empty trail, and the phase back in Playing.
    pub fn restart(&mut self, snake: &mut Snake)
        requires
            old(self).wf(),
        ensures
            restarted(*old(self), *old(snake), *final(self), *final(snake)),
    {
        snake.len = INITIAL_LEN;
        self.apples.clear();
        proof {
            assert(self.apples@ =~= Seq::<Cell>::empty());
        }
        self.spawn_apple(snake);
        snake.pos = Cell { x: 0, y: 0 };
        snake.last_pos.clear();
        snake.next = Direction::Right;
        snake.last_dir = Direction::Right;
        self.state = State::Playing;
    }

    /// One frame of the core, covering every phase.
    ///
    /// In the menu, a confirm begins the game. While playing, a move is
    /// forced once the interval (halved under boost) has elapsed: a
    /// self-collision flips the phase to Lose and freezes the snake for one
    /// frame; otherwise the head commits, apples under it are eaten, and an
    /// empty apple set triggers a respawn; afterwards the held directional
    /// inputs steer the snake and the boost flag is sampled. After a loss,
    /// the delay or a confirm restarts the run; after a win, the delay asks
    /// the driving loop to quit.
    pub fn tick(&mut self, snake: &mut Snake, elapsed_ms: u64, input: Input) -> (action:
        TickAction)
        requires
            old(self).wf(),
            old(snake).wf(),
            old(snake).in_grid(old(self).canvas_size.x as int, old(self).canvas_size.y as int),
            old(snake).len + old(self).apples@.len() <= usize::MAX,
        ensures
            final(self).wf(),
            final(self).same_board(*old(self)),
            final(snake).wf(),
            final(snake).in_grid(old(self).canvas_size.x as int, old(self).canvas_size.y as int),
            old(self).state == State::Menu ==> {
                &&& *final(snake) == *old(snake)
                &&& final(self).apples@ == old(self).apples@
                &&& final(self).state == (if input.confirm {
                    State::Playing
                } else {
                    State::Menu
                })
                &&& action == TickAction::Idle
            },
            old(self).state == State::Lose ==> {
                &&& action == TickAction::Idle
                &&& if elapsed_ms >= PHASE_DELAY_MS || input.confirm {
                    restarted(*old(self), *old(snake), *final(self), *final(snake))
                } else {
                    *final(snake) == *old(snake) && *final(self) == *old(self)
                }
            },
            old(self).state == State::Win ==> {
                &&& *final(snake) == *old(snake)
                &&& *final(self) == *old(self)
                &&& action == (if elapsed_ms >= PHASE_DELAY_MS {
                    TickAction::Quit
                } else {
                    TickAction::Idle
                })
            },
            old(self).state == State::Playing && !old(self).move_due(
                old(snake).super_speed,
                elapsed_ms,
            ) ==> {
                &&& *final(self) == *old(self)
                &&& *final(snake) == after_input(*old(snake), input)
                &&& action == TickAction::Idle
            },
            old(self).state == State::Playing && old(self).move_due(
                old(snake).super_speed,
                elapsed_ms,
            ) && old(snake).next_hits_trailing() ==> {
                &&& *final(snake) == *old(snake)
                &&& final(self).apples@ == old(self).apples@
                &&& final(self).state == State::Lose
                &&& action == TickAction::Idle
            },
            old(self).state == State::Playing && old(self).move_due(
                old(snake).super_speed,
                elapsed_ms,
            ) && !old(snake).next_hits_trailing() ==> {
                &&& action == TickAction::Moved
                &&& final(snake).pos.x as int == old(snake).raw_next_x() % (
                old(self).canvas_size.x as int)
                &&& final(snake).pos.y as int == old(snake).raw_next_y() % (
                old(self).canvas_size.y as int)
                &&& final(snake).last_pos@ == trailing_after(
                    old(snake).last_pos@,
                    old(snake).pos,
                    old(snake).len as int,
                )
                &&& final(snake).len == old(snake).len + apples_eaten(
                    old(self).apples@,
                    final(snake).pos,
                )
                &&& final(snake).super_speed == input.boost
                &&& (match chosen_direction(
                    old(snake).last_dir,
                    input.up,
                    input.down,
                    input.left,
                    input.right,
                ) {
                    Some(d) => final(snake).next == d && final(snake).last_dir == d,
                    None => final(snake).next == old(snake).next && final(snake).last_dir == old(
                        snake,
                    ).last_dir,
                })
                &&& {
                    let kept = apples_without(old(self).apples@, final(snake).pos);
                    if kept.len() > 0 {
                        final(self).apples@ == kept && final(self).state == State::Playing
                    } else if final(snake).last_pos@.len() > old(self).area() - 1 {
                        final(self).state == State::Win && final(self).apples@.len() == 0
                    } else {
                        &&& final(self).state == State::Playing
                        &&& if spawn_possible(
                            final(snake).pos,
                            final(snake).last_pos@,
                            Seq::<Cell>::empty(),
                            old(self).canvas_size.x as int,
                            old(self).canvas_size.y as int,
                        ) {
                            final(self).apples@.len() == 1 && free_cell(
                                final(self).apples@[0],
                                final(snake).pos,
                                final(snake).last_pos@,
                                Seq::<Cell>::empty(),
                                old(self).canvas_size.x as int,
                                old(self).canvas_size.y as int,
                            )
                        } else {
                            final(self).apples@.len() == 0
                        }
                    }
                }
            },
    {
        match self.state {
            State::Menu => {
                if input.confirm {
                    self.state = State::Playing;
                }
                TickAction::Idle
            },
            State::Playing => {
                let mut committed = false;
                if elapsed_ms >= self.speed_ms || (snake.super_speed && elapsed_ms
                    >= self.speed_ms / 2) {
                    let outcome = snake.advance(self.canvas_size.x, self.canvas_size.y);
                    if outcome == MoveOutcome::SelfCollision {
                        self.state = State::Lose;
                        return TickAction::Idle;
                    }
                    self.eat_apples(snake);
                    if self.apples.len() == 0 {
                        proof {
                            assert(self.apples@ =~= Seq::<Cell>::empty());
                        }
                        self.spawn_apple(snake);
                    }
                    committed = true;
                }
                snake.steer(input.up, input.down, input.left, input.right);
                snake.super_speed = input.boost;
                if committed {
                    TickAction::Moved
                } else {
                    TickAction::Idle
                }
            },
            State::Lose => {
                if elapsed_ms >= PHASE_DELAY_MS || input.confirm {
                    self.restart(snake);
                }
                TickAction::Idle
            },
            State::Win => {
                if elapsed_ms >= PHASE_DELAY_MS {
                    TickAction::Quit
                } else {
                    TickAction::Idle
                }
            },
        }
    }
}

/// The snake after one frame of held inputs is applied: the winning held
/// direction (if any) overwrites both the pending and the last accepted
/// direction, and the boost flag is sampled fresh from the input.
pub open spec fn after_input(s: Snake, input: Input) -> Snake {
    let steered = match chosen_direction(s.last_dir, input.up, input.down, input.left, input.right) {
        Some(d) => Snake { next: d, last_dir: d, ..s },
        None => s,
    };
    Snake { super_speed: input.boost, ..steered }
}

/// Everything `restart` promises: a fresh length-3 snake at the origin
/// heading right with an empty trail (only the boost flag carries over), the
/// apples replaced by exactly one cell drawn clear of the old snake — none
/// at all if the old trail already covered more than `area - 1` cells — and
/// the phase back in Playing on an unchanged board.
pub open spec fn restarted(g0: Game, s0: Snake, g1: Game, s1: Snake) -> bool {
    &&& s1.pos == (Cell { x: 0, y: 0 })
    &&& s1.last_pos@.len() == 0
    &&& s1.len == INITIAL_LEN
    &&& s1.next == Direction::Right
    &&& s1.last_dir == Direction::Right
    &&& s1.super_speed == s0.super_speed
    &&& s1.wf()
    &&& g1.state == State::Playing
    &&& g1.same_board(g0)
    &&& g1.wf()
    &&& if s0.last_pos@.len() > g0.area() - 1 {
        g1.apples@.len() == 0
    } else if spawn_possible(
        s0.pos,
        s0.last_pos@,
        Seq::<Cell>::empty(),
        g0.canvas_size.x as int,
        g0.canvas_size.y as int,
    ) {
        &&& g1.apples@.len() == 1
        &&& free_cell(
            g1.apples@[0],
            s0.pos,
            s0.last_pos@,
            Seq::<Cell>::empty(),
            g0.canvas_size.x as int,
            g0.canvas_size.y as int,
        )
    } else {
        g1.apples@.len() == 0
    }
}

} // verus!
