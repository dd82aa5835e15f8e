//! The game-loop state machine. One `tick` consumes the list of currently
//! held keys and performs the whole per-tick protocol: debounce against
//! the previously observed keys, decode the command, check legality,
//! commit the step, handle food and growth, sync grid occupancy, and
//! decide whether the run is over.

use vstd::prelude::*;
use crate::grid::{covered, new_game, Cell, Game};
use crate::player::{new_player, Player};

verus! {

/// A movement command.
#[derive(Clone, Copy, Debug, PartialEq, Eq, Structural)]
pub enum Direction {
    Up,
    Left,
    Down,
    Right,
}

/// The terminal result of a run.
#[derive(Clone, Copy, Debug, PartialEq, Eq, Structural)]
pub enum End {
    Win,
    Lose,
}

/// What one tick decided: keep polling, or stop with a result.
#[derive(Clone, Copy, Debug, PartialEq, Eq, Structural)]
pub enum Tick {
    Running,
    Over(End),
}

/// The movement command a key identifier stands for, if any.
pub open spec fn spec_key_direction(key: u8) -> Option<Direction> {
    if key == 119 {
        Some(Direction::Up)
    } else if key == 97 {
        Some(Direction::Left)
    } else if key == 115 {
        Some(Direction::Down)
    } else if key == 100 {
        Some(Direction::Right)
    } else {
        None
    }
}

/// Decode a key identifier (`w`, `a`, `s` or `d`) into a movement command.
pub fn key_direction(key: u8) -> (r: Option<Direction>)
    ensures
        r == spec_key_direction(key),
{
    match key {
        119 => Some(Direction::Up),
        97 => Some(Direction::Left),
        115 => Some(Direction::Down),
        100 => Some(Direction::Right),
        _ => None,
    }
}

/// Does `held` carry a new command relative to the previously observed
/// keys? An empty list, or the same list as last tick, does not.
pub open spec fn new_command(prev: Seq<u8>, held: Seq<u8>) -> bool {
    held.len() > 0 && held != prev
}

/// The column one step from `x` along `d`.
pub open spec fn step_x(x: int, d: Direction) -> int {
    match d {
        Direction::Left => x - 1,
        Direction::Right => x + 1,
        _ => x,
    }
}

/// The row one step from `y` along `d`.
pub open spec fn step_y(y: int, d: Direction) -> int {
    match d {
        Direction::Up => y - 1,
        Direction::Down => y + 1,
        _ => y,
    }
}

/// Are two boards the same size with the same cell values?
pub open spec fn same_board(a: Game, b: Game) -> bool {
    &&& a.max_x == b.max_x
    &&& a.max_y == b.max_y
    &&& forall|x: int, y: int| a.in_bounds(x, y) ==> #[trigger] b.cell(x, y) == a.cell(x, y)
}

/// Do two players agree on bounds, position and body?
pub open spec fn same_player(a: Player, b: Player) -> bool {
    &&& a.max_x == b.max_x
    &&& a.max_y == b.max_y
    &&& a.pos_x == b.pos_x
    &&& a.pos_y == b.pos_y
    &&& a.body@ == b.body@
}

/// Exactly the body's cells show `Occupied` on the board.
pub open spec fn body_shown(g: Game, body: Seq<(usize, usize)>) -> bool {
    forall|x: int, y: int| g.in_bounds(x, y)
        ==> (#[trigger] g.cell(x, y) == Cell::Occupied <==> covered(body, body.len() as int, x, y))
}

/// At most one cell of the board shows `Food`.
pub open spec fn food_unique(g: Game) -> bool {
    forall|x1: int, y1: int, x2: int, y2: int|
        #![trigger g.cell(x1, y1), g.cell(x2, y2)]
        g.in_bounds(x1, y1) && g.in_bounds(x2, y2)
            && g.cell(x1, y1) == Cell::Food && g.cell(x2, y2) == Cell::Food
        ==> x1 == x2 && y1 == y2
}

/// One full run's state: the board, the player, and the key list observed
/// on the previous tick, kept for the debounce comparison.
pub struct GameState {
    pub game: Game,
    pub player: Player,
    pub prev_key: Vec<u8>,
}

impl GameState {
    /// Everything that holds between ticks: both components well formed
    /// and agreeing on the bounds, the head segment in sync, the board
    /// showing `Occupied` exactly under the body, and at most one food
    /// cell. A tick that ends the run may leave the final, colliding
    /// state on display; these invariants are promised while the run
    /// keeps going.
    pub open spec fn wf(self) -> bool {
        &&& self.game.wf()
        &&& self.player.wf()
        &&& self.player.synced()
        &&& self.player.max_x == self.game.max_x
        &&& self.player.max_y == self.game.max_y
        &&& body_shown(self.game, self.player.body@)
        &&& food_unique(self.game)
    }

    /// Does `held` command a legal step out of state `self`?
    pub open spec fn commands_move(self, held: Seq<u8>) -> bool {
        &&& new_command(self.prev_key@, held)
        &&& spec_key_direction(held[0]) is Some
        &&& {
            let d = spec_key_direction(held[0]).unwrap();
            let nx = step_x(self.pos_x_spec(), d);
            let ny = step_y(self.pos_y_spec(), d);
            1 <= nx < self.game.max_x && 1 <= ny < self.game.max_y
        }
    }

    /// The head column as a mathematical integer.
    pub open spec fn pos_x_spec(self) -> int {
        self.player.pos_x as int
    }

    /// The head row as a mathematical integer.
    pub open spec fn pos_y_spec(self) -> int {
        self.player.pos_y as int
    }

    /// The column the held command steps onto.
    pub open spec fn target_x(self, held: Seq<u8>) -> int {
        step_x(self.pos_x_spec(), spec_key_direction(held[0]).unwrap())
    }

    /// The row the held command steps onto.
    pub open spec fn target_y(self, held: Seq<u8>) -> int {
        step_y(self.pos_y_spec(), spec_key_direction(held[0]).unwrap())
    }

    /// Did the eaten-food path of a committed step relate `pre` to `post`?
    /// One new food cell is placed, and every body segment is marked
    /// `Occupied` on top of that, so the new food shows only where the
    /// body does not cover it.
    pub open spec fn ate_rel(pre: GameState, post: GameState, newbody: Seq<(usize, usize)>) -> bool {
        exists|px: int, py: int| {
            &&& #[trigger] pre.game.interior(px, py)
            &&& forall|x: int, y: int| pre.game.in_bounds(x, y)
                    ==> #[trigger] post.game.cell(x, y) == (
                        if covered(newbody, newbody.len() as int, x, y) { Cell::Occupied }
                        else if x == px && y == py { Cell::Food }
                        else { pre.game.cell(x, y) })
        }
    }

    /// Did the ordinary path of a committed step relate `pre` to `post`?
    /// The vacated tail cell becomes `Empty`, and every body segment is
    /// marked `Occupied` on top of that.
    pub open spec fn crawled_rel(
        pre: GameState,
        post: GameState,
        newbody: Seq<(usize, usize)>,
        prev: (usize, usize),
    ) -> bool {
        forall|x: int, y: int| pre.game.in_bounds(x, y)
            ==> #[trigger] post.game.cell(x, y) == (
                if covered(newbody, newbody.len() as int, x, y) { Cell::Occupied }
                else if x == prev.0 as int && y == prev.1 as int { Cell::Empty }
                else { pre.game.cell(x, y) })
    }

    /// The cell the committed head lands on, read after the tail has
    /// vacated but before the new occupancy is drawn: what the terminal
    /// check judges the move by.
    pub open spec fn landing_cell(pre: GameState, nx: int, ny: int) -> Cell {
        let ate = pre.game.cell(nx, ny) == Cell::Food;
        let prev = pre.player.body@.last();
        if !ate && nx == prev.0 as int && ny == prev.1 as int {
            Cell::Empty
        } else {
            pre.game.cell(nx, ny)
        }
    }

    /// The full relation a committed step establishes between the state
    /// before the tick and the state after it, where `(nx, ny)` is the
    /// new head coordinate. The run ends when the head landed on an
    /// occupied (or border) cell, or when the move filled the grid; a
    /// full grid wins, anything else loses.
    pub open spec fn moved_rel(
        pre: GameState,
        post: GameState,
        held: Seq<u8>,
        nx: int,
        ny: int,
        r: Tick,
    ) -> bool {
        let h = (nx as usize, ny as usize);
        let ate = pre.game.cell(nx, ny) == Cell::Food;
        let prev = pre.player.body@.last();
        let newbody = if ate {
            seq![h] + pre.player.body@
        } else {
            seq![h] + pre.player.body@.drop_last()
        };
        let blocked = Self::landing_cell(pre, nx, ny) == Cell::Border
            || Self::landing_cell(pre, nx, ny) == Cell::Occupied;
        &&& post.player.pos_x == nx
        &&& post.player.pos_y == ny
        &&& post.player.body@ == newbody
        &&& post.prev_key@ == held
        &&& (if ate {
                Self::ate_rel(pre, post, newbody)
            } else {
                Self::crawled_rel(pre, post, newbody, prev)
            })
        &&& r == (if blocked || post.game.full() {
                Tick::Over(if post.game.full() { End::Win } else { End::Lose })
            } else {
                Tick::Running
            })
    }

    /// Set up a fresh run: bordered grid, spawned player, the first food
    /// placed, occupancy synced, no keys observed. The food may have been
    /// placed under the spawn cell, in which case the sync covers it and
    /// no food shows.
    pub fn new(columns: usize, rows: usize) -> (s: GameState)
        requires
            1 <= columns,
            1 <= rows,
            columns + 2 <= usize::MAX,
            rows + 2 <= usize::MAX,
        ensures
            s.wf(),
            s.game.max_x == columns + 1,
            s.game.max_y == rows + 1,
            s.player.body@.len() == 1,
            s.prev_key@ == Seq::<u8>::empty(),
            // the board holds exactly the spawn mark and at most one food
            // cell, which may have been covered by the spawn itself
            exists|px: int, py: int| {
                &&& #[trigger] s.game.interior(px, py)
                &&& forall|x: int, y: int| s.game.interior(x, y)
                        ==> #[trigger] s.game.cell(x, y) == (
                            if x == s.player.pos_x as int && y == s.player.pos_y as int {
                                Cell::Occupied
                            } else if x == px && y == py {
                                Cell::Food
                            } else {
                                Cell::Empty
                            })
            },
    {
        let mut game = new_game(columns, rows);
        let (max_x, max_y) = game.size();
        let player = new_player((max_x, max_y));

        game.to_player(player.head());
        let ghost marked = game;
        game.new_food();
        let ghost fed = game;
        game.update(&player.body);

        proof {
            let (px, py): (int, int) = choose|px: int, py: int| {
                &&& #[trigger] marked.interior(px, py)
                &&& fed.cell(px, py) == Cell::Food
                &&& forall|x: int, y: int|
                        marked.in_bounds(x, y) && !(x == px && y == py)
                        ==> #[trigger] fed.cell(x, y) == marked.cell(x, y)
            };
            let spawn = (player.pos_x, player.pos_y);
            assert(player.body@ =~= seq![spawn]);
            assert(game.interior(px, py));
            assert forall|x: int, y: int| game.interior(x, y)
                implies #[trigger] game.cell(x, y) == (
                    if x == spawn.0 as int && y == spawn.1 as int { Cell::Occupied }
                    else if x == px && y == py { Cell::Food }
                    else { Cell::Empty }) by {
                assert(fed.in_bounds(x, y));
                if x == spawn.0 as int && y == spawn.1 as int {
                    assert(covered(player.body@, 1, x, y)) by {
                        assert(player.body@[0] == spawn);
                    }
                } else {
                    assert(!covered(player.body@, 1, x, y));
                }
            }
            assert forall|x: int, y: int| game.in_bounds(x, y)
                implies (#[trigger] game.cell(x, y) == Cell::Occupied
                    <==> covered(player.body@, 1, x, y)) by {
                if !game.interior(x, y) {
                    assert(!covered(player.body@, 1, x, y));
                    assert(game.cell(x, y) == Cell::Border);
                }
            }
        }
        GameState { game, player, prev_key: Vec::new() }
    }

    /// One tick of the protocol. The observed key list always becomes the
    /// new debounce memory; an empty, repeated, non-directional or
    /// out-of-bounds command changes nothing else. A legal command
    /// commits the step, and the run ends when the head landed on an
    /// occupied cell — a loss — or when the move filled the grid — a win.
    ///
    /// The clauses spell out the engine's guarantees: moving onto food
    /// grows the body by exactly one segment and places exactly one new
    /// food cell; an ordinary step keeps the length and empties the
    /// vacated tail cell; landing on a remaining body segment loses;
    /// eating the only interior cell the body did not occupy wins.
    #[verifier::rlimit(60)]
    pub fn tick(&mut self, held: &Vec<u8>) -> (r: Tick)
        requires
            old(self).wf(),
        ensures
            final(self).game.wf(),
            final(self).game.max_x == old(self).game.max_x,
            final(self).game.max_y == old(self).game.max_y,
            // the observed list always becomes the debounce memory
            final(self).prev_key@ == held@,
            // at most one food cell shows, on the final frame included
            food_unique(final(self).game),
            // the invariants hold whenever the run continues
            r == Tick::Running ==> final(self).wf(),
            // an empty or unchanged key list commands nothing
            !new_command(old(self).prev_key@, held@) ==> {
                &&& r == Tick::Running
                &&& same_board(old(self).game, final(self).game)
                &&& same_player(old(self).player, final(self).player)
            },
            // a new key that is no direction, or a step that would leave
            // the playable area, changes nothing but the memory
            new_command(old(self).prev_key@, held@) && !old(self).commands_move(held@) ==> {
                &&& r == Tick::Running
                &&& same_board(old(self).game, final(self).game)
                &&& same_player(old(self).player, final(self).player)
            },
            // a legal command commits the step
            old(self).commands_move(held@) ==> Self::moved_rel(
                *old(self),
                *final(self),
                held@,
                old(self).target_x(held@),
                old(self).target_y(held@),
                r,
            ),
            // eating grows the body by exactly one segment
            old(self).commands_move(held@)
                && old(self).game.cell(old(self).target_x(held@), old(self).target_y(held@)) == Cell::Food
                ==> final(self).player.body@.len() == old(self).player.body@.len() + 1,
            // an ordinary step keeps the length and empties the vacated
            // tail cell, unless the head re-entered that very cell
            old(self).commands_move(held@)
                && old(self).game.cell(old(self).target_x(held@), old(self).target_y(held@)) != Cell::Food
                ==> {
                    let prev = old(self).player.body@.last();
                    &&& final(self).player.body@.len() == old(self).player.body@.len()
                    &&& (!covered(final(self).player.body@, final(self).player.body@.len() as int,
                            prev.0 as int, prev.1 as int)
                        ==> final(self).game.cell(prev.0 as int, prev.1 as int) == Cell::Empty)
                },
            // a committed head on a body segment other than the vacated
            // tail loses the run
            old(self).commands_move(held@)
                && covered(old(self).player.body@, old(self).player.body@.len() - 1,
                    old(self).target_x(held@), old(self).target_y(held@))
                ==> r == Tick::Over(End::Lose),
            // eating the only interior cell the body did not occupy wins
            old(self).commands_move(held@)
                && old(self).game.cell(old(self).target_x(held@), old(self).target_y(held@)) == Cell::Food
                && (forall|x: int, y: int|
                        old(self).game.interior(x, y)
                            && !(x == old(self).target_x(held@) && y == old(self).target_y(held@))
                        ==> #[trigger] old(self).game.cell(x, y) == Cell::Occupied)
                ==> r == Tick::Over(End::Win),
    {
        let ghost pre = *self;

        let fresh = held.len() > 0 && !keys_equal(held, &self.prev_key);
        self.prev_key = copy_keys(held);
        if !fresh {
            return Tick::Running;
        }

        let key = held[0];
        let dir = match key_direction(key) {
            Some(d) => d,
            None => {
                return Tick::Running;
            },
        };

        let prev = self.player.tail();

        match dir {
            Direction::Up => {
                if self.player.can_up(self.player.pos_y - 1) {
                    self.player.up()
                } else {
                    return Tick::Running;
                }
            },
            Direction::Left => {
                if self.player.can_left(self.player.pos_x - 1) {
                    self.player.left()
                } else {
                    return Tick::Running;
                }
            },
            Direction::Down => {
                if self.player.can_down(self.player.pos_y + 1) {
                    self.player.down()
                } else {
                    return Tick::Running;
                }
            },
            Direction::Right => {
                if self.player.can_right(self.player.pos_x + 1) {
                    self.player.right()
                } else {
                    return Tick::Running;
                }
            },
        }
        self.player.update();

        let head = self.player.head();
        proof {
            assert(self.player.body@ =~= seq![head] + pre.player.body@.drop_last());
        }

        let ate = self.game.at(head) == Cell::Food;
        if ate {
            self.player.grow(prev);
            proof {
                assert(self.player.body@ =~= seq![head] + pre.player.body@);
            }
        } else {
            self.game.to_empty(prev);
        }

        // the terminal check reads the landed-on cell before the new
        // occupancy is drawn over it
        let blocked = !self.game.can_move(&head);

        if ate {
            self.game.new_food();
        }
        let ghost gmid = self.game;
        let ghost newbody = self.player.body@;
        self.game.update(&self.player.body);
        let full = self.game.is_over();

        let r = if blocked || full {
            Tick::Over(if full { End::Win } else { End::Lose })
        } else {
            Tick::Running
        };

        proof {
            let nx = pre.target_x(held@);
            let ny = pre.target_y(held@);
            let n = pre.player.body@.len() as int;
            assert(head == ((nx as usize, ny as usize)));
            assert(blocked == (Self::landing_cell(pre, nx, ny) == Cell::Border
                || Self::landing_cell(pre, nx, ny) == Cell::Occupied));

            let ghost fx: int;
            let ghost fy: int;
            if ate {
                let (px, py): (int, int) = choose|px: int, py: int| {
                    &&& #[trigger] pre.game.interior(px, py)
                    &&& gmid.cell(px, py) == Cell::Food
                    &&& forall|x: int, y: int|
                            pre.game.in_bounds(x, y) && !(x == px && y == py)
                            ==> #[trigger] gmid.cell(x, y) == pre.game.cell(x, y)
                };
                fx = px;
                fy = py;
                assert forall|x: int, y: int| pre.game.in_bounds(x, y)
                    implies #[trigger] self.game.cell(x, y) == (
                        if covered(newbody, newbody.len() as int, x, y) { Cell::Occupied }
                        else if x == px && y == py { Cell::Food }
                        else { pre.game.cell(x, y) }) by {
                    assert(gmid.in_bounds(x, y));
                }
                assert(Self::ate_rel(pre, *self, newbody));
            } else {
                fx = 0;
                fy = 0;
                assert forall|x: int, y: int| pre.game.in_bounds(x, y)
                    implies #[trigger] self.game.cell(x, y) == (
                        if covered(newbody, newbody.len() as int, x, y) { Cell::Occupied }
                        else if x == prev.0 as int && y == prev.1 as int { Cell::Empty }
                        else { pre.game.cell(x, y) }) by {
                    assert(gmid.in_bounds(x, y));
                }
                assert(Self::crawled_rel(pre, *self, newbody, prev));
            }

            // the head is newbody's first segment
            assert(newbody[0] == head);
            // pre-state cells under old body segments show Occupied
            assert forall|k: int| 0 <= k < n implies
                pre.game.cell((#[trigger] pre.player.body@[k]).0 as int,
                    pre.player.body@[k].1 as int) == Cell::Occupied by {
                let seg = pre.player.body@[k];
                assert(covered(pre.player.body@, n, seg.0 as int, seg.1 as int));
                assert(pre.game.in_bounds(seg.0 as int, seg.1 as int));
            }

            // a head on a remaining segment is blocked and loses
            if covered(pre.player.body@, n - 1, nx, ny) {
                let k = choose|k: int| 0 <= k < n - 1 && k < n
                    && (#[trigger] pre.player.body@[k]).0 == nx && pre.player.body@[k].1 == ny;
                assert(pre.game.cell(nx, ny) == Cell::Occupied);
                assert(!ate);
                assert(pre.player.body@[k] != pre.player.body@[n - 1]);
                assert(head != prev);
                assert(blocked);
                assert(!covered(newbody, newbody.len() as int, prev.0 as int, prev.1 as int)) by {
                    if covered(newbody, newbody.len() as int, prev.0 as int, prev.1 as int) {
                        let j = choose|j: int| 0 <= j < newbody.len()
                            && (#[trigger] newbody[j]).0 == prev.0 && newbody[j].1 == prev.1;
                        if j == 0 {
                            assert(newbody[0] == head);
                        } else {
                            assert(newbody[j] == pre.player.body@[j - 1]);
                            assert(pre.player.body@[j - 1] != pre.player.body@[n - 1]);
                        }
                    }
                }
                assert(self.game.cell(prev.0 as int, prev.1 as int) == Cell::Empty);
                assert(pre.game.interior(prev.0 as int, prev.1 as int));
                assert(!self.game.full());
                assert(r == Tick::Over(End::Lose));
            }

            // eating the only non-occupied interior cell fills the grid
            if ate && (forall|x: int, y: int|
                    pre.game.interior(x, y) && !(x == nx && y == ny)
                    ==> #[trigger] pre.game.cell(x, y) == Cell::Occupied) {
                assert forall|x: int, y: int| self.game.interior(x, y)
                    implies #[trigger] self.game.cell(x, y) == Cell::Occupied by {
                    assert(pre.game.in_bounds(x, y));
                    if x == nx && y == ny {
                        assert(covered(newbody, newbody.len() as int, x, y)) by {
                            assert(newbody[0] == head);
                        }
                    } else {
                        assert(pre.game.cell(x, y) == Cell::Occupied);
                        assert(covered(pre.player.body@, n, x, y));
                        let k = choose|k: int| 0 <= k < n
                            && (#[trigger] pre.player.body@[k]).0 == x && pre.player.body@[k].1 == y;
                        assert(covered(newbody, newbody.len() as int, x, y)) by {
                            assert(newbody[k + 1] == pre.player.body@[k]);
                        }
                    }
                }
                assert(self.game.full());
                assert(!blocked);
                assert(r == Tick::Over(End::Win));
            }

            // at most one food cell remains, however the tick ended
            assert forall|x1: int, y1: int, x2: int, y2: int|
                #![trigger self.game.cell(x1, y1), self.game.cell(x2, y2)]
                self.game.in_bounds(x1, y1) && self.game.in_bounds(x2, y2)
                    && self.game.cell(x1, y1) == Cell::Food
                    && self.game.cell(x2, y2) == Cell::Food
                implies x1 == x2 && y1 == y2 by {
                if ate {
                    assert(pre.game.cell(nx, ny) == Cell::Food);
                    assert(covered(newbody, newbody.len() as int, nx, ny)) by {
                        assert(newbody[0] == head);
                    }
                    assert forall|x: int, y: int|
                        self.game.in_bounds(x, y) && #[trigger] self.game.cell(x, y) == Cell::Food
                        implies x == fx && y == fy by {
                        if !(x == fx && y == fy) {
                            assert(pre.game.cell(x, y) == Cell::Food);
                            assert(x == nx && y == ny);
                        }
                    }
                } else {
                    assert(pre.game.cell(x1, y1) == Cell::Food);
                    assert(pre.game.cell(x2, y2) == Cell::Food);
                }
            }

            // while the run continues, the invariants are re-established
            if r == Tick::Running {
                // the head landed on no remaining segment
                assert(!covered(pre.player.body@, if ate { n } else { n - 1 }, nx, ny)) by {
                    if covered(pre.player.body@, if ate { n } else { n - 1 }, nx, ny) {
                        assert(pre.game.cell(nx, ny) == Cell::Occupied);
                        if ate {
                        } else {
                            let k = choose|k: int| 0 <= k < n - 1 && k < n
                                && (#[trigger] pre.player.body@[k]).0 == nx
                                && pre.player.body@[k].1 == ny;
                            assert(pre.player.body@[k] != pre.player.body@[n - 1]);
                            assert(head != prev);
                            assert(blocked);
                        }
                    }
                }
                // the new body is a simple path again
                assert forall|i: int, j: int| 0 <= i < j < newbody.len()
                    implies #[trigger] newbody[i] != #[trigger] newbody[j] by {
                    if i == 0 {
                        assert(newbody[j] == pre.player.body@[j - 1]);
                        assert(j - 1 < (if ate { n } else { n - 1 }));
                        assert(!((pre.player.body@[j - 1]).0 == nx
                            && (pre.player.body@[j - 1]).1 == ny));
                        assert(newbody[0] == head);
                    } else {
                        assert(newbody[i] == pre.player.body@[i - 1]);
                        assert(newbody[j] == pre.player.body@[j - 1]);
                    }
                }
                // the board shows Occupied exactly under the new body
                assert forall|x: int, y: int| self.game.in_bounds(x, y)
                    implies (#[trigger] self.game.cell(x, y) == Cell::Occupied
                        <==> covered(newbody, newbody.len() as int, x, y)) by {
                    if !covered(newbody, newbody.len() as int, x, y)
                        && self.game.cell(x, y) == Cell::Occupied {
                        if ate {
                            assert(self.game.cell(x, y) == (
                                if x == fx && y == fy { Cell::Food } else { pre.game.cell(x, y) }));
                            assert(pre.game.cell(x, y) == Cell::Occupied);
                        } else {
                            assert(!(x == prev.0 as int && y == prev.1 as int)
                                ==> pre.game.cell(x, y) == Cell::Occupied);
                        }
                        assert(covered(pre.player.body@, n, x, y));
                        let k = choose|k: int| 0 <= k < n
                            && (#[trigger] pre.player.body@[k]).0 == x && pre.player.body@[k].1 == y;
                        if ate {
                            assert(newbody[k + 1] == pre.player.body@[k]);
                            assert(covered(newbody, newbody.len() as int, x, y));
                        } else {
                            if k < n - 1 {
                                assert(newbody[k + 1] == pre.player.body@[k]);
                                assert(covered(newbody, newbody.len() as int, x, y));
                            } else {
                                assert(pre.player.body@[k] == prev);
                            }
                        }
                    }
                }
            }
        }
        r
    }
}

/// Are two key lists equal element for element?
fn keys_equal(a: &Vec<u8>, b: &Vec<u8>) -> (r: bool)
    ensures
        r == (a@ == b@),
{
    if a.len() != b.len() {
        return false;
    }
    let mut i: usize = 0;
    while i < a.len()
        invariant
            a@.len() == b@.len(),
            i <= a@.len(),
            forall|j: int| 0 <= j < i ==> a@[j] == b@[j],
        decreases a@.len() - i,
    {
        if a[i] != b[i] {
            return false;
        }
        i += 1;
    }
    proof {
        assert(a@ =~= b@);
    }
    true
}

/// Copy a key list, so the tick can keep it for the next debounce.
fn copy_keys(src: &Vec<u8>) -> (r: Vec<u8>)
    ensures
        r@ == src@,
{
    let mut out: Vec<u8> = Vec::new();
    let mut i: usize = 0;
    while i < src.len()
        invariant
            i <= src@.len(),
            out@ == src@.subrange(0, i as int),
        decreases src@.len() - i,
    {
        out.push(src[i]);
        proof {
            assert(out@ =~= src@.subrange(0, i + 1));
        }
        i += 1;
    }
    proof {
        assert(src@.subrange(0, src@.len() as int) =~= src@);
    }
    out
}

} // verus!
