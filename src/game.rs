use vstd::prelude::*;

use rand::Rng;
use std::collections::VecDeque;

use crate::board::{is_segment, paint_at, shape_of, Board, BoardItem, Paint};
use crate::config::{Config, ConfigError};
use crate::direction::{key_direction, opposite_of, Direction};
use crate::input::{InputFault, Key};

verus! {

/// How much pending growth one piece of food adds.
pub const FOOD_GROWTH: u64 = 2;

/// Relies on rand's `thread_rng().gen_range(0..n)`: a value drawn from
/// `0..n`, a range that must not be empty.
#[verifier::external_body]
fn random_below(n: usize) -> (r: usize)
    requires
        n > 0,
    ensures
        r < n,
{
    rand::thread_rng().gen_range(0..n)
}

/// The key that adds one cell of pending growth.
pub const GROW_KEY: char = '+';

/// The key that stops the game with an error.
pub const FAULT_KEY: char = 'p';

/// The direction asked for after reading `input` while `d` was asked for:
/// an arrow key asks for its own direction, and anything else asks for no
/// change.
pub open spec fn direction_after_key(d: Direction, input: Option<Result<Key, InputFault>>) -> Direction {
    match input {
        Some(Ok(k)) => match key_direction(k) {
            Some(n) => n,
            None => d,
        },
        _ => d,
    }
}

/// The pending growth after reading `input` with `n` pending.
pub open spec fn pending_after_key(n: u64, input: Option<Result<Key, InputFault>>) -> u64 {
    if input == Some(Ok::<Key, InputFault>(Key::Char(GROW_KEY))) {
        sat_add(n, 1)
    } else {
        n
    }
}

/// What a frame returns for `input`, unless the snake has just been lost.
pub open spec fn key_outcome(input: Option<Result<Key, InputFault>>) -> Result<Option<GameResult>, Fault> {
    match input {
        Some(Err(_)) => Err(Fault::Input),
        Some(Ok(Key::Esc)) => Ok(Some(GameResult::Quit)),
        Some(Ok(Key::Char(c))) => if c == FAULT_KEY {
            Err(Fault::Requested)
        } else {
            Ok(None)
        },
        _ => Ok(None),
    }
}

/// How a game ended.
#[derive(Clone, Copy, PartialEq, Eq, Structural, Debug)]
pub enum GameResult {
    Quit,
    Lost,
}

/// A failure that ends a game abnormally.
#[derive(Clone, Copy, PartialEq, Eq, Structural, Debug)]
pub enum Fault {
    /// The input source failed.
    Input,
    /// The player pressed the key that stops the game with an error.
    Requested,
}

/// `a + b`, held at `u64::MAX`.
pub open spec fn sat_add(a: u64, b: u64) -> u64 {
    if a + b > u64::MAX {
        u64::MAX
    } else {
        (a + b) as u64
    }
}

/// The direction actually taken when `requested` is asked for while moving
/// `prev`: a reversal is refused.
pub open spec fn committed_direction(prev: Direction, requested: Direction) -> Direction {
    if requested == opposite_of(prev) {
        prev
    } else {
        requested
    }
}

/// The cell one step from `pos` in direction `d`, on a `w` by `h` field
/// whose edges wrap around.
pub open spec fn moved(pos: (u16, u16), d: Direction, w: u16, h: u16) -> (u16, u16) {
    match d {
        Direction::Up => (pos.0, ((pos.1 + h - 1) % (h as int)) as u16),
        Direction::Down => (pos.0, ((pos.1 + 1) % (h as int)) as u16),
        Direction::Left => (((pos.0 + w - 1) % (w as int)) as u16, pos.1),
        Direction::Right => (((pos.0 + 1) % (w as int)) as u16, pos.1),
    }
}

/// Body length and pending growth after one move that adds `gain` to the
/// pending growth: while growth is pending the tail stays, and the body
/// gets one cell longer.
pub open spec fn growth_tick(len: nat, pending: u64, gain: u64) -> (nat, u64) {
    let total = sat_add(pending, gain);
    if total == 0 {
        (len, 0)
    } else {
        (len + 1, (total - 1) as u64)
    }
}

/// One game: the snake, the food and the board they are drawn on.
pub struct Game {
    pub width: u16,
    pub height: u16,
    /// The last key read, for the status line.
    pub last_key: Option<Key>,
    /// The head of the snake.
    pub pos: (u16, u16),
    /// The cells of the body, from the tail to the head.
    pub tail_coords: VecDeque<(u16, u16)>,
    /// The direction of the last move.
    pub prev_direction: Direction,
    /// The direction asked for the next move.
    pub direction: Direction,
    /// The food, once it has been placed.
    pub apple_pos: Option<(u16, u16)>,
    /// Moves left that lengthen the body instead of moving the tail.
    pub lengthenings: u64,
    /// The last tail cell given up, for the status line.
    pub last_popped: (u16, u16),
    pub board: Board,
}

impl Game {
    pub open spec fn body(&self) -> Seq<(u16, u16)> {
        self.tail_coords@
    }

    pub open spec fn in_field(&self, p: (u16, u16)) -> bool {
        p.0 < self.width && p.1 < self.height
    }

    pub open spec fn tile(&self, p: (u16, u16)) -> BoardItem {
        self.board.tile(p)
    }

    /// The board shows the body and the food and nothing else; the body is
    /// a sequence of distinct cells that ends at the head.
    pub open spec fn wf(&self) -> bool {
        &&& self.width > 0
        &&& self.height > 0
        &&& self.board.wf()
        &&& self.board.width() == self.width
        &&& self.board.height() == self.height
        &&& self.body().len() > 0
        &&& self.body().last() == self.pos
        &&& self.body().no_duplicates()
        &&& forall|i: int|
            0 <= i < self.body().len() ==> self.in_field(#[trigger] self.body()[i]) && is_segment(
                self.tile(self.body()[i]),
            )
        &&& forall|p: (u16, u16)|
            self.in_field(p) && is_segment(#[trigger] self.tile(p)) ==> self.body().contains(p)
        &&& forall|p: (u16, u16)|
            self.in_field(p) && #[trigger] self.tile(p) == BoardItem::Apple ==> self.apple_pos
                == Some(p)
        &&& match self.apple_pos {
            Some(a) => self.in_field(a) && self.tile(a) == BoardItem::Apple,
            None => true,
        }
    }

    /// Everything but the board and the food is as in `other`.
    pub open spec fn same_snake(&self, other: &Game) -> bool {
        &&& self.width == other.width
        &&& self.height == other.height
        &&& self.last_key == other.last_key
        &&& self.pos == other.pos
        &&& self.tail_coords == other.tail_coords
        &&& self.prev_direction == other.prev_direction
        &&& self.direction == other.direction
        &&& self.lengthenings == other.lengthenings
        &&& self.last_popped == other.last_popped
    }

    /// A game on a field of the configured size. The snake is one cell in the
    /// middle of the field, heading right, and grows to the configured
    /// length over its first moves. No food is placed yet.
    pub fn new(config: &Config) -> (r: Result<Game, ConfigError>)
        ensures
            config.field_width == 0 ==> r == Err::<Game, ConfigError>(ConfigError::ZeroWidth),
            config.field_width > 0 && config.field_height == 0 ==> r == Err::<Game, ConfigError>(
                ConfigError::ZeroHeight,
            ),
            config.field_width > 0 && config.field_height > 0 ==> r is Ok,
            r matches Ok(g) ==> {
                &&& g.wf()
                &&& g.width == config.field_width
                &&& g.height == config.field_height
                &&& g.pos == (config.field_width / 2, config.field_height / 2)
                &&& g.body() == seq![g.pos]
                &&& g.tile(g.pos) == BoardItem::Horizontal
                &&& g.direction == Direction::Right
                &&& g.prev_direction == Direction::Right
                &&& g.apple_pos is None
                &&& g.lengthenings == if config.initial_snake_len > 0 {
                    config.initial_snake_len - 1
                } else {
                    0
                }
                &&& g.last_key is None
                &&& g.last_popped == (0u16, 0u16)
            },
    {
        if config.field_width == 0 {
            return Err(ConfigError::ZeroWidth);
        }
        if config.field_height == 0 {
            return Err(ConfigError::ZeroHeight);
        }
        let pos = (config.field_width / 2, config.field_height / 2);
        let mut board = Board::new((config.field_width, config.field_height));
        board.set_tile(pos, BoardItem::Horizontal);
        let mut tail_coords: VecDeque<(u16, u16)> = VecDeque::new();
        tail_coords.push_back(pos);
        let lengthenings: u64 = if config.initial_snake_len > 0 {
            config.initial_snake_len as u64 - 1
        } else {
            0
        };
        let g = Game {
            width: config.field_width,
            height: config.field_height,
            last_key: None,
            pos,
            tail_coords,
            prev_direction: Direction::Right,
            direction: Direction::Right,
            apple_pos: None,
            lengthenings,
            last_popped: (0, 0),
            board,
        };
        assert(g.body() =~= seq![pos]);
        assert forall|p: (u16, u16)| g.in_field(p) && is_segment(#[trigger] g.tile(p)) implies g.body().contains(
            p,
        ) by {
            assert(g.body()[0] == pos);
        }
        Ok(g)
    }

    /// The cell one step from the head in `d`.
    fn next_head(&self, d: Direction) -> (r: (u16, u16))
        requires
            self.width > 0,
            self.height > 0,
            self.in_field(self.pos),
        ensures
            r == moved(self.pos, d, self.width, self.height),
            self.in_field(r),
    {
        let (x, y) = self.pos;
        let w = self.width as u32;
        let h = self.height as u32;
        match d {
            Direction::Up => (x, ((y as u32 + h - 1) % h) as u16),
            Direction::Down => (x, ((y as u32 + 1) % h) as u16),
            Direction::Left => (((x as u32 + w - 1) % w) as u16, y),
            Direction::Right => (((x as u32 + 1) % w) as u16, y),
        }
    }

    /// The cells that hold nothing, each once.
    pub fn empty_cells(&self) -> (r: Vec<(u16, u16)>)
        requires
            self.wf(),
        ensures
            r@.no_duplicates(),
            forall|p: (u16, u16)|
                #[trigger] r@.contains(p) <==> self.in_field(p) && self.tile(p) == BoardItem::Empty,
    {
        let mut r: Vec<(u16, u16)> = Vec::new();
        let mut x: u16 = 0;
        while x < self.width
            invariant
                self.wf(),
                x <= self.width,
                r@.no_duplicates(),
                forall|k: int|
                    0 <= k < r@.len() ==> self.in_field(#[trigger] r@[k]) && self.tile(r@[k])
                        == BoardItem::Empty && r@[k].0 < x,
                forall|p: (u16, u16)|
                    self.in_field(p) && self.tile(p) == BoardItem::Empty && p.0 < x
                        ==> #[trigger] r@.contains(p),
            decreases self.width - x,
        {
            let mut y: u16 = 0;
            while y < self.height
                invariant
                    self.wf(),
                    x < self.width,
                    y <= self.height,
                    r@.no_duplicates(),
                    forall|k: int|
                        0 <= k < r@.len() ==> self.in_field(#[trigger] r@[k]) && self.tile(r@[k])
                            == BoardItem::Empty && (r@[k].0 < x || (r@[k].0 == x && r@[k].1 < y)),
                    forall|p: (u16, u16)|
                        self.in_field(p) && self.tile(p) == BoardItem::Empty && (p.0 < x || (p.0
                            == x && p.1 < y)) ==> #[trigger] r@.contains(p),
                decreases self.height - y,
            {
                if self.board.get_tile((x, y)) == BoardItem::Empty {
                    let ghost before = r@;
                    r.push((x, y));
                    assert forall|p: (u16, u16)|
                        self.in_field(p) && self.tile(p) == BoardItem::Empty && (p.0 < x || (p.0
                            == x && p.1 < y + 1)) implies #[trigger] r@.contains(p) by {
                        if p == (x, y) {
                            assert(r@[r@.len() - 1] == p);
                        } else {
                            assert(before.contains(p));
                            let k = choose|k: int| 0 <= k < before.len() && before[k] == p;
                            assert(r@[k] == p);
                        }
                    }
                } else {
                    assert forall|p: (u16, u16)|
                        self.in_field(p) && self.tile(p) == BoardItem::Empty && (p.0 < x || (p.0
                            == x && p.1 < y + 1)) implies #[trigger] r@.contains(p) by {
                        if p == (x, y) {
                        } else {
                        }
                    }
                }
                y = y + 1;
            }
            x = x + 1;
        }
        r
    }

    /// Puts the food on `pos`, an empty cell, and clears the cell where it
    /// was before.
    pub fn place_apple(&mut self, pos: (u16, u16))
        requires
            old(self).wf(),
            old(self).in_field(pos),
            old(self).tile(pos) == BoardItem::Empty,
        ensures
            final(self).wf(),
            final(self).same_snake(old(self)),
            final(self).apple_pos == Some(pos),
            forall|p: (u16, u16)|
                old(self).in_field(p) ==> #[trigger] final(self).tile(p) == if p == pos {
                    BoardItem::Apple
                } else if old(self).apple_pos == Some(p) {
                    BoardItem::Empty
                } else {
                    old(self).tile(p)
                },
    {
        if let Some(a) = self.apple_pos {
            self.board.set_tile(a, BoardItem::Empty);
        }
        self.apple_pos = Some(pos);
        self.board.set_tile(pos, BoardItem::Apple);
        proof {
            assert forall|i: int| 0 <= i < self.body().len() implies self.in_field(
                #[trigger] self.body()[i],
            ) && is_segment(self.tile(self.body()[i])) by {
                assert(is_segment(old(self).tile(old(self).body()[i])));
            }
            assert forall|p: (u16, u16)| self.in_field(p) && is_segment(
                #[trigger] self.tile(p),
            ) implies self.body().contains(p) by {
                assert(is_segment(old(self).tile(p)));
            }
            assert forall|p: (u16, u16)| self.in_field(p) && #[trigger] self.tile(p)
                == BoardItem::Apple implies self.apple_pos == Some(p) by {
                if p != pos {
                    assert(old(self).tile(p) == BoardItem::Apple);
                }
            }
        }
    }

    /// Moves the food to a cell drawn at random, uniformly, from the empty
    /// ones. Where no cell is empty, the food is taken off the board.
    pub fn move_apple(&mut self)
        requires
            old(self).wf(),
        ensures
            final(self).wf(),
            final(self).same_snake(old(self)),
            match final(self).apple_pos {
                Some(f) => old(self).in_field(f) && old(self).tile(f) == BoardItem::Empty,
                None => forall|p: (u16, u16)|
                    old(self).in_field(p) ==> #[trigger] old(self).tile(p) != BoardItem::Empty,
            },
            forall|p: (u16, u16)|
                old(self).in_field(p) ==> #[trigger] final(self).tile(p) == if final(self).apple_pos
                    == Some(p) {
                    BoardItem::Apple
                } else if old(self).apple_pos == Some(p) {
                    BoardItem::Empty
                } else {
                    old(self).tile(p)
                },
    {
        let cells = self.empty_cells();
        if cells.len() == 0 {
            if let Some(a) = self.apple_pos {
                self.board.set_tile(a, BoardItem::Empty);
            }
            self.apple_pos = None;
            proof {
                assert forall|p: (u16, u16)| old(self).in_field(p) implies #[trigger] old(self).tile(p)
                    != BoardItem::Empty by {
                    if old(self).tile(p) == BoardItem::Empty {
                        assert(cells@.contains(p));
                    }
                }
                assert forall|i: int| 0 <= i < self.body().len() implies self.in_field(
                    #[trigger] self.body()[i],
                ) && is_segment(self.tile(self.body()[i])) by {
                    assert(is_segment(old(self).tile(old(self).body()[i])));
                }
                assert forall|p: (u16, u16)| self.in_field(p) && is_segment(
                    #[trigger] self.tile(p),
                ) implies self.body().contains(p) by {
                    assert(is_segment(old(self).tile(p)));
                }
                assert forall|p: (u16, u16)| self.in_field(p) && #[trigger] self.tile(p)
                    == BoardItem::Apple implies self.apple_pos == Some(p) by {
                    assert(old(self).tile(p) == BoardItem::Apple);
                }
            }
        } else {
            let i = random_below(cells.len());
            let f = cells[i];
            assert(cells@.contains(f));
            self.place_apple(f);
        }
    }

    /// The direction of the next move.
    pub open spec fn step_direction(&self) -> Direction {
        committed_direction(self.prev_direction, self.direction)
    }

    /// The cell the head moves to next.
    pub open spec fn step_head(&self) -> (u16, u16) {
        moved(self.pos, self.step_direction(), self.width, self.height)
    }

    /// Whether the next move runs into the body.
    pub open spec fn step_collides(&self) -> bool {
        is_segment(self.tile(self.step_head()))
    }

    /// Whether the next move reaches the food.
    pub open spec fn step_eats(&self) -> bool {
        self.tile(self.step_head()) == BoardItem::Apple
    }

    /// The growth the next move adds.
    pub open spec fn step_gain(&self) -> u64 {
        if self.step_eats() {
            FOOD_GROWTH
        } else {
            0
        }
    }

    /// Whether the next move keeps the tail where it is.
    pub open spec fn step_grows(&self) -> bool {
        sat_add(self.lengthenings, self.step_gain()) > 0
    }

    /// The pending growth after the next move.
    pub open spec fn step_pending(&self) -> u64 {
        if self.step_collides() {
            self.lengthenings
        } else {
            growth_tick(self.body().len(), self.lengthenings, self.step_gain()).1
        }
    }

    /// The food of `b` lies on a cell that was empty in this game, or, where
    /// no cell was, there is no food.
    pub open spec fn food_moved(&self, b: &Game) -> bool {
        match b.apple_pos {
            Some(f) => self.in_field(f) && self.tile(f) == BoardItem::Empty,
            None => forall|p: (u16, u16)|
                self.in_field(p) ==> #[trigger] self.tile(p) != BoardItem::Empty,
        }
    }

    /// `b` is this game after one move of the snake. A move into the body
    /// only finishes the shape of the head's cell; any other move puts the
    /// head on the next cell, lets the tail follow unless growth is pending,
    /// and moves the food if the head reached it.
    pub open spec fn stepped(&self, b: &Game) -> bool {
        let c = self.step_direction();
        let head = self.step_head();
        &&& b.width == self.width
        &&& b.height == self.height
        &&& b.last_key == self.last_key
        &&& b.direction == c
        &&& b.prev_direction == c
        &&& if self.step_collides() {
            &&& b.pos == self.pos
            &&& b.body() == self.body()
            &&& b.apple_pos == self.apple_pos
            &&& b.lengthenings == self.lengthenings
            &&& b.last_popped == self.last_popped
            &&& b.board.cells() == paint_at(
                self.board.cells(),
                Paint { pos: self.pos, item: shape_of(self.prev_direction, c) },
            )
        } else {
            let grows = self.step_grows();
            &&& b.pos == head
            &&& (b.body().len(), b.lengthenings) == growth_tick(
                self.body().len(),
                self.lengthenings,
                self.step_gain(),
            )
            &&& b.body() == if grows {
                self.body().push(head)
            } else {
                self.body().push(head).drop_first()
            }
            &&& b.last_popped == if grows {
                self.last_popped
            } else {
                self.body()[0]
            }
            &&& b.tile(head) == shape_of(c, c)
            &&& b.body().contains(self.pos) ==> b.tile(self.pos) == shape_of(self.prev_direction, c)
            &&& forall|p: (u16, u16)|
                b.body().contains(p) && p != self.pos && p != head ==> #[trigger] b.tile(p)
                    == self.tile(p)
            &&& if self.step_eats() {
                self.food_moved(b)
            } else {
                b.apple_pos == self.apple_pos
            }
        }
    }

    /// One move of the snake. Returns whether it ran into its own body,
    /// which loses the game.
    pub fn motion(&mut self) -> (lost: bool)
        requires
            old(self).wf(),
        ensures
            final(self).wf(),
            old(self).stepped(final(self)),
            lost == old(self).step_collides(),
    {
        let c = if self.direction == self.prev_direction.opposite() {
            self.prev_direction
        } else {
            self.direction
        };
        let shape = BoardItem::from_pair(self.prev_direction, c);
        let ghost cur = self.pos;
        self.board.set_tile(self.pos, shape);
        self.direction = c;
        self.prev_direction = c;
        proof {
            assert(self.body()[self.body().len() - 1] == cur);
            assert forall|i: int| 0 <= i < self.body().len() implies self.in_field(
                #[trigger] self.body()[i],
            ) && is_segment(self.tile(self.body()[i])) by {
                assert(is_segment(old(self).tile(old(self).body()[i])));
            }
            assert forall|p: (u16, u16)| self.in_field(p) && is_segment(
                #[trigger] self.tile(p),
            ) implies self.body().contains(p) by {
                if p != cur {
                    assert(is_segment(old(self).tile(p)));
                } else {
                    assert(self.body()[self.body().len() - 1] == p);
                }
            }
            assert forall|p: (u16, u16)| self.in_field(p) && #[trigger] self.tile(p)
                == BoardItem::Apple implies self.apple_pos == Some(p) by {
                assert(old(self).tile(p) == BoardItem::Apple);
            }
        }
        let ghost painted = *self;
        let head = self.next_head(c);
        let t = self.board.get_tile(head);
        if t != BoardItem::Empty && t != BoardItem::Apple {
            return true;
        }
        proof {
            assert(head != cur);
            assert(!painted.body().contains(head)) by {
                if painted.body().contains(head) {
                    let i = choose|i: int|
                        0 <= i < painted.body().len() && painted.body()[i] == head;
                    assert(is_segment(painted.tile(painted.body()[i])));
                }
            }
        }
        if t == BoardItem::Apple {
            self.lengthenings = self.lengthenings.saturating_add(FOOD_GROWTH);
            let ghost before_food = *self;
            assert(before_food.board == painted.board);
            proof {
                lemma_wf_same_layout(painted, before_food);
            }
            self.move_apple();
            proof {
                assert(before_food.apple_pos == Some(head));
                match self.apple_pos {
                    Some(f) => {
                        assert(before_food.tile(f) == BoardItem::Empty);
                    },
                    None => {},
                }
                assert(self.tile(head) == BoardItem::Empty);
                assert(before_food.food_moved(self));
                assert(painted.food_moved(self)) by {
                    match self.apple_pos {
                        Some(f) => {
                            assert(before_food.tile(f) == painted.tile(f));
                        },
                        None => {
                            assert forall|p: (u16, u16)| painted.in_field(p) implies #[trigger] painted.tile(p)
                                != BoardItem::Empty by {
                                assert(before_food.tile(p) != BoardItem::Empty);
                            }
                        },
                    }
                }
            }
        }
        let ghost fed = *self;
        proof {
            assert(fed.wf());
            assert(fed.tile(head) == BoardItem::Empty);
            assert(fed.apple_pos != Some(head));
            // Cells of the body keep their tiles through the move of the food.
            assert forall|p: (u16, u16)| painted.body().contains(p) implies #[trigger] fed.tile(p)
                == painted.tile(p) by {
                let i = choose|i: int| 0 <= i < painted.body().len() && painted.body()[i] == p;
                assert(is_segment(painted.tile(painted.body()[i])));
            }
        }
        self.pos = head;
        self.tail_coords.push_back(head);
        self.board.set_tile(head, BoardItem::from_pair(c, c));
        let ghost pushed = *self;
        proof {
            assert(pushed.body() == fed.body().push(head));
            assert(pushed.body().no_duplicates()) by {
                assert forall|i: int, j: int|
                    0 <= i < pushed.body().len() && 0 <= j < pushed.body().len() && i != j
                    implies pushed.body()[i] != pushed.body()[j] by {
                    if i < fed.body().len() && j < fed.body().len() {
                    } else if i < fed.body().len() {
                        assert(fed.body().contains(fed.body()[i]));
                    } else if j < fed.body().len() {
                        assert(fed.body().contains(fed.body()[j]));
                    }
                }
            }
        }
        if self.lengthenings == 0 {
            if let Some(tail) = self.tail_coords.pop_front() {
                self.board.set_tile(tail, BoardItem::Empty);
                self.last_popped = tail;
            }
        } else {
            self.lengthenings = self.lengthenings - 1;
        }
        proof {
            let grows = pushed.lengthenings > 0;
            let tail = pushed.body()[0];
            assert(self.body() == if grows {
                pushed.body()
            } else {
                pushed.body().drop_first()
            });
            assert(grows ==> self.board == pushed.board);
            assert(tail != head) by {
                assert(pushed.body()[pushed.body().len() - 1] == head);
            }
            // Where the cells of the new body sit in the old one.
            assert forall|k: int| 0 <= k < self.body().len() implies #[trigger] self.body()[k]
                == pushed.body()[if grows {
                k
            } else {
                k + 1
            }] by {}
            assert forall|p: (u16, u16)| #[trigger]
                self.body().contains(p) && p != head implies fed.body().contains(p) && (!grows
                ==> p != tail) && self.tile(p) == fed.tile(p) by {
                let k = choose|k: int| 0 <= k < self.body().len() && self.body()[k] == p;
                let j = if grows {
                    k
                } else {
                    k + 1
                };
                assert(pushed.body()[j] == p);
                assert(j < fed.body().len());
                assert(fed.body()[j] == p);
            }
            assert(self.body().no_duplicates());
            if !grows {
                assert(self.tile(tail) == BoardItem::Empty);
            }
            // Tiles other than the head's and the tail's are as after the food moved.
            assert forall|p: (u16, u16)| self.in_field(p) && p != head && (!grows ==> p != tail)
                implies #[trigger] self.tile(p) == fed.tile(p) by {
                assert(pushed.tile(p) == fed.tile(p));
                assert(self.tile(p) == pushed.tile(p));
            }
            assert forall|i: int| 0 <= i < self.body().len() implies self.in_field(
                #[trigger] self.body()[i],
            ) && is_segment(self.tile(self.body()[i])) by {
                let p = self.body()[i];
                assert(self.body().contains(p));
                if p != head {
                    let j = choose|j: int| 0 <= j < fed.body().len() && fed.body()[j] == p;
                    assert(is_segment(fed.tile(fed.body()[j])));
                }
            }
            assert forall|p: (u16, u16)| self.in_field(p) && is_segment(
                #[trigger] self.tile(p),
            ) implies self.body().contains(p) by {
                if p == head {
                    assert(self.body()[self.body().len() - 1] == head);
                } else {
                    assert(!grows ==> p != tail);
                    assert(self.tile(p) == fed.tile(p));
                    assert(is_segment(fed.tile(p)));
                    assert(fed.body().contains(p));
                    let j = choose|j: int| 0 <= j < fed.body().len() && fed.body()[j] == p;
                    let k = if grows {
                        j
                    } else {
                        j - 1
                    };
                    assert(self.body()[k] == p);
                }
            }
            assert forall|p: (u16, u16)| self.in_field(p) && #[trigger] self.tile(p)
                == BoardItem::Apple implies self.apple_pos == Some(p) by {
                assert(p != head);
                assert(!grows ==> p != tail);
                assert(self.tile(p) == fed.tile(p));
                assert(fed.tile(p) == BoardItem::Apple);
            }
            if let Some(a) = self.apple_pos {
                assert(fed.tile(a) == BoardItem::Apple);
                assert(a != tail) by {
                    assert(pushed.body()[0] == fed.body()[0]);
                    assert(is_segment(fed.tile(fed.body()[0])));
                }
            }
            assert(self.wf());
            assert forall|p: (u16, u16)|
                self.body().contains(p) && p != cur && p != head implies #[trigger] self.tile(p)
                == old(self).tile(p) by {
                assert(painted.body().contains(p));
            }
            if self.body().contains(cur) {
                assert(painted.body().contains(cur));
            }
            if t == BoardItem::Apple {
                assert(painted.food_moved(self));
                assert(old(self).food_moved(self)) by {
                    assert forall|p: (u16, u16)| painted.in_field(p) implies (#[trigger] painted.tile(p)
                        == BoardItem::Empty) == (old(self).tile(p) == BoardItem::Empty) by {
                        if p == cur {
                            assert(old(self).body()[old(self).body().len() - 1] == cur);
                            assert(is_segment(old(self).tile(old(self).body()[old(self).body().len() - 1])));
                        }
                    }
                    match self.apple_pos {
                        Some(f) => {
                            assert(painted.tile(f) == BoardItem::Empty);
                        },
                        None => {
                            assert forall|p: (u16, u16)| old(self).in_field(p) implies #[trigger] old(self).tile(p)
                                != BoardItem::Empty by {
                                assert(painted.tile(p) != BoardItem::Empty);
                            }
                        },
                    }
                }
            }
        }
        false
    }

    /// One turn of the game loop, given the input coalesced since the last
    /// turn and whether the snake is due to move. A fault of the input ends
    /// the turn at once. Otherwise the snake moves if due, and then the key
    /// takes effect: the quit key ends the game, an arrow key asks for a
    /// direction, and the grow key adds pending growth.
    pub fn frame(&mut self, input: Option<Result<Key, InputFault>>, motion_due: bool) -> (r: Result<
        Option<GameResult>,
        Fault,
    >)
        requires
            old(self).wf(),
        ensures
            final(self).wf(),
            input matches Some(Err(_)) ==> r == Err::<Option<GameResult>, Fault>(Fault::Input)
                && *final(self) == *old(self),
            !(input matches Some(Err(_))) ==> {
                let lost = motion_due && old(self).step_collides();
                let mid = Game {
                    last_key: old(self).last_key,
                    direction: if motion_due {
                        old(self).step_direction()
                    } else {
                        old(self).direction
                    },
                    lengthenings: if motion_due {
                        old(self).step_pending()
                    } else {
                        old(self).lengthenings
                    },
                    ..*final(self)
                };
                &&& final(self).last_key == match input {
                    Some(Ok(k)) => Some(k),
                    _ => old(self).last_key,
                }
                &&& if motion_due {
                    old(self).stepped(&mid)
                } else {
                    mid == *old(self)
                }
                &&& lost ==> r == Ok::<Option<GameResult>, Fault>(Some(GameResult::Lost))
                    && final(self).direction == mid.direction && final(self).lengthenings
                    == mid.lengthenings
                &&& !lost ==> r == key_outcome(input) && final(self).direction
                    == direction_after_key(mid.direction, input) && final(self).lengthenings
                    == pending_after_key(mid.lengthenings, input)
            },
    {
        let key = match input {
            None => None,
            Some(Err(_)) => {
                return Err(Fault::Input);
            },
            Some(Ok(k)) => Some(k),
        };
        let mut lost = false;
        if motion_due {
            lost = self.motion();
        }
        let ghost after = *self;
        if let Some(k) = key {
            self.last_key = Some(k);
        }
        let r = if lost {
            Ok(Some(GameResult::Lost))
        } else {
            match key {
                None => Ok(None),
                Some(Key::Esc) => Ok(Some(GameResult::Quit)),
                Some(Key::Char(c)) => {
                    if c == FAULT_KEY {
                        Err(Fault::Requested)
                    } else {
                        if c == GROW_KEY {
                            self.lengthenings = self.lengthenings.saturating_add(1);
                        }
                        Ok(None)
                    }
                },
                Some(k) => {
                    if let Some(d) = Direction::from_key(k) {
                        self.direction = d;
                    }
                    Ok(None)
                },
            }
        };
        proof {
            lemma_wf_same_layout(after, *self);
        }
        r
    }
}

/// Moving never leaves the field: the coordinates wrap around its edges.
pub proof fn lemma_moved_in_field(pos: (u16, u16), d: Direction, w: u16, h: u16)
    requires
        pos.0 < w,
        pos.1 < h,
    ensures
        moved(pos, d, w, h).0 < w,
        moved(pos, d, w, h).1 < h,
{
}

/// A request to reverse is refused: the snake keeps going the way it went.
pub proof fn lemma_reversal_rejected(a: Game, b: Game)
    requires
        a.wf(),
        a.direction == opposite_of(a.prev_direction),
        a.stepped(&b),
    ensures
        b.direction == a.prev_direction,
        b.prev_direction == a.prev_direction,
{
}

/// Body length and pending growth after `k` moves that reach no food.
pub open spec fn ticks_without_food(len: nat, pending: u64, k: nat) -> (nat, u64)
    decreases k,
{
    if k == 0 {
        (len, pending)
    } else {
        let next = growth_tick(len, pending, 0);
        ticks_without_food(next.0, next.1, (k - 1) as nat)
    }
}

/// With `pending` growth left and no food reached, the body grows by one
/// cell a move until nothing is pending, and then keeps its length.
pub proof fn lemma_pending_growth_runs_out(len: nat, pending: u64, k: nat)
    requires
        k >= pending,
    ensures
        ticks_without_food(len, pending, k) == ((len + pending) as nat, 0u64),
    decreases k,
{
    if k > 0 {
        if pending > 0 {
            lemma_pending_growth_runs_out(len + 1, (pending - 1) as u64, (k - 1) as nat);
        } else {
            lemma_pending_growth_runs_out(len, 0, (k - 1) as nat);
        }
    }
}

/// Eating with nothing pending lengthens the body by one and leaves `g - 1`
/// pending, for a growth of `g`; after `g - 1` more moves without food the
/// body is `g` cells longer than before, and from then on keeps that length.
pub proof fn lemma_growth_accounting(len: nat, g: u64, k: nat)
    requires
        g >= 1,
        k >= g - 1,
    ensures
        growth_tick(len, 0, g) == ((len + 1) as nat, (g - 1) as u64),
        ticks_without_food(len + 1, (g - 1) as u64, k) == ((len + g) as nat, 0u64),
{
    lemma_pending_growth_runs_out(len + 1, (g - 1) as u64, k);
}

/// Food is only ever placed on a cell that was empty, never on the body,
/// and the board then shows it there.
pub proof fn lemma_food_off_body(a: Game, b: Game)
    requires
        a.wf(),
        b.wf(),
        a.food_moved(&b),
    ensures
        b.apple_pos matches Some(f) ==> !a.body().contains(f) && a.tile(f) == BoardItem::Empty
            && b.tile(f) == BoardItem::Apple,
{
    if let Some(f) = b.apple_pos {
        if a.body().contains(f) {
            let i = choose|i: int| 0 <= i < a.body().len() && a.body()[i] == f;
            assert(is_segment(a.tile(a.body()[i])));
        }
    }
}

/// Well-formedness does not depend on the direction, the pending growth or
/// the fields kept for the status line.
proof fn lemma_wf_same_layout(a: Game, b: Game)
    requires
        a.wf(),
        b.width == a.width,
        b.height == a.height,
        b.pos == a.pos,
        b.tail_coords == a.tail_coords,
        b.apple_pos == a.apple_pos,
        b.board == a.board,
    ensures
        b.wf(),
{
    assert forall|i: int| 0 <= i < b.body().len() implies b.in_field(#[trigger] b.body()[i])
        && is_segment(b.tile(b.body()[i])) by {
        assert(is_segment(a.tile(a.body()[i])));
    }
    assert forall|p: (u16, u16)| b.in_field(p) && is_segment(#[trigger] b.tile(p)) implies b.body().contains(
        p,
    ) by {
        assert(is_segment(a.tile(p)));
    }
    assert forall|p: (u16, u16)| b.in_field(p) && #[trigger] b.tile(p) == BoardItem::Apple implies b.apple_pos
        == Some(p) by {
        assert(a.tile(p) == BoardItem::Apple);
    }
}

} // verus!
