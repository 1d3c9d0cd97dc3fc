use vstd::prelude::*;

use crate::direction::{opposite_of, Direction};

verus! {

/// What a cell of the field holds. A body segment's variant is its shape,
/// named after the corner of the cell that the bend points to.
#[derive(Clone, Copy, PartialEq, Eq, Structural, Debug)]
pub enum BoardItem {
    Empty,
    Horizontal,
    Vertical,
    TopRight,
    TopLeft,
    BottomLeft,
    BottomRight,
    Apple,
}

/// Whether the tile is part of the snake's body.
pub open spec fn is_segment(t: BoardItem) -> bool {
    t != BoardItem::Empty && t != BoardItem::Apple
}

/// The shape of a body cell that the snake entered going `prev` and left
/// going `current`. A reversal, which the motion rules never commit, is drawn
/// as the straight piece of its axis.
pub open spec fn shape_of(prev: Direction, current: Direction) -> BoardItem {
    match (prev, current) {
        (Direction::Right, Direction::Right) | (Direction::Left, Direction::Left)
        | (Direction::Right, Direction::Left) | (Direction::Left, Direction::Right) => {
            BoardItem::Horizontal
        },
        (Direction::Up, Direction::Up) | (Direction::Down, Direction::Down)
        | (Direction::Up, Direction::Down) | (Direction::Down, Direction::Up) => {
            BoardItem::Vertical
        },
        (Direction::Right, Direction::Down) | (Direction::Up, Direction::Left) => {
            BoardItem::TopRight
        },
        (Direction::Up, Direction::Right) | (Direction::Left, Direction::Down) => {
            BoardItem::TopLeft
        },
        (Direction::Down, Direction::Right) | (Direction::Left, Direction::Up) => {
            BoardItem::BottomLeft
        },
        (Direction::Right, Direction::Up) | (Direction::Down, Direction::Left) => {
            BoardItem::BottomRight
        },
    }
}

/// The character a tile is drawn with: box-drawing pieces for the body.
pub open spec fn glyph_of(t: BoardItem) -> char {
    match t {
        BoardItem::Empty => ' ',
        BoardItem::Horizontal => '\u{2500}',
        BoardItem::Vertical => '\u{2502}',
        BoardItem::TopRight => '\u{2510}',
        BoardItem::TopLeft => '\u{250C}',
        BoardItem::BottomLeft => '\u{2514}',
        BoardItem::BottomRight => '\u{2518}',
        BoardItem::Apple => 'o',
    }
}

impl BoardItem {
    pub fn from_pair(prev: Direction, current: Direction) -> (r: Self)
        ensures
            r == shape_of(prev, current),
    {
        match (prev, current) {
            (Direction::Right, Direction::Right) | (Direction::Left, Direction::Left) => {
                BoardItem::Horizontal
            },
            (Direction::Up, Direction::Up) | (Direction::Down, Direction::Down) => {
                BoardItem::Vertical
            },
            (Direction::Right, Direction::Down) | (Direction::Up, Direction::Left) => {
                BoardItem::TopRight
            },
            (Direction::Up, Direction::Right) | (Direction::Left, Direction::Down) => {
                BoardItem::TopLeft
            },
            (Direction::Down, Direction::Right) | (Direction::Left, Direction::Up) => {
                BoardItem::BottomLeft
            },
            (Direction::Right, Direction::Up) | (Direction::Down, Direction::Left) => {
                BoardItem::BottomRight
            },
            (Direction::Up, Direction::Down) | (Direction::Down, Direction::Up) => {
                BoardItem::Vertical
            },
            (Direction::Right, Direction::Left) | (Direction::Left, Direction::Right) => {
                BoardItem::Horizontal
            },
        }
    }

    pub fn glyph(self) -> (r: char)
        ensures
            r == glyph_of(self),
    {
        match self {
            BoardItem::Empty => ' ',
            BoardItem::Horizontal => '\u{2500}',
            BoardItem::Vertical => '\u{2502}',
            BoardItem::TopRight => '\u{2510}',
            BoardItem::TopLeft => '\u{250C}',
            BoardItem::BottomLeft => '\u{2514}',
            BoardItem::BottomRight => '\u{2518}',
            BoardItem::Apple => 'o',
        }
    }
}

/// Every pair of directions has a shape, and it is a body segment; the cell
/// looks the same whichever way the path through it is walked; and a
/// reversal is drawn as the straight piece of its axis.
pub proof fn lemma_shape_total_and_symmetric(a: Direction, b: Direction)
    ensures
        is_segment(shape_of(a, b)),
        shape_of(a, b) == shape_of(opposite_of(b), opposite_of(a)),
        b == opposite_of(a) ==> shape_of(a, b) == shape_of(a, a),
{
}

/// A render instruction: draw `item` at cell `pos`.
#[derive(Clone, Copy, PartialEq, Eq, Debug)]
pub struct Paint {
    pub pos: (u16, u16),
    pub item: BoardItem,
}

/// The grid `s` after drawing `p` on it.
pub open spec fn paint_at(s: Seq<Seq<BoardItem>>, p: Paint) -> Seq<Seq<BoardItem>> {
    s.update(p.pos.0 as int, s[p.pos.0 as int].update(p.pos.1 as int, p.item))
}

/// The grid `s` after drawing each of `ps` on it, in order.
pub open spec fn replay(s: Seq<Seq<BoardItem>>, ps: Seq<Paint>) -> Seq<Seq<BoardItem>>
    decreases ps.len(),
{
    if ps.len() == 0 {
        s
    } else {
        paint_at(replay(s, ps.drop_last()), ps.last())
    }
}

/// The field of tiles, indexed by column then row. Every change of a tile
/// queues one paint instruction, so that the drawn surface, updated with
/// the queued paints, always equals the tiles.
pub struct Board {
    pub grid: Vec<Vec<BoardItem>>,
    /// Paints not yet handed to the renderer.
    pub pending: Vec<Paint>,
    /// The surface as the renderer last saw it.
    pub shown: Ghost<Seq<Seq<BoardItem>>>,
}

impl Board {
    pub open spec fn cells(&self) -> Seq<Seq<BoardItem>> {
        self.grid@.map_values(|c: Vec<BoardItem>| c@)
    }

    pub open spec fn width(&self) -> int {
        self.grid@.len() as int
    }

    pub open spec fn height(&self) -> int {
        if self.grid@.len() > 0 {
            self.grid@[0]@.len() as int
        } else {
            0
        }
    }

    pub open spec fn in_bounds(&self, pos: (u16, u16)) -> bool {
        (pos.0 as int) < self.width() && (pos.1 as int) < self.height()
    }

    pub open spec fn tile(&self, pos: (u16, u16)) -> BoardItem {
        self.cells()[pos.0 as int][pos.1 as int]
    }

    pub open spec fn wf(&self) -> bool {
        &&& forall|i: int| 0 <= i < self.width() ==> #[trigger] self.grid@[i]@.len() == self.height()
        &&& replay(self.shown@, self.pending@) == self.cells()
    }

    /// An empty field of `dims.0` columns and `dims.1` rows, with nothing
    /// drawn yet.
    pub fn new(dims: (u16, u16)) -> (r: Self)
        ensures
            r.wf(),
            r.width() == dims.0,
            dims.0 > 0 ==> r.height() == dims.1,
            r.pending@.len() == 0,
            forall|p: (u16, u16)| r.in_bounds(p) ==> r.tile(p) == BoardItem::Empty,
    {
        let (w, h) = dims;
        let mut grid: Vec<Vec<BoardItem>> = Vec::new();
        let mut i: u16 = 0;
        while i < w
            invariant
                i <= w,
                grid@.len() == i,
                forall|k: int| 0 <= k < i ==> #[trigger] grid@[k]@.len() == h,
                forall|k: int, j: int|
                    0 <= k < i && 0 <= j < h ==> #[trigger] grid@[k]@[j] == BoardItem::Empty,
            decreases w - i,
        {
            let mut col: Vec<BoardItem> = Vec::new();
            let mut j: u16 = 0;
            while j < h
                invariant
                    j <= h,
                    col@.len() == j,
                    forall|k: int| 0 <= k < j ==> #[trigger] col@[k] == BoardItem::Empty,
                decreases h - j,
            {
                col.push(BoardItem::Empty);
                j = j + 1;
            }
            grid.push(col);
            i = i + 1;
        }
        let r = Board { grid, pending: Vec::new(), shown: Ghost(grid@.map_values(|c: Vec<BoardItem>| c@)) };
        assert(w > 0 ==> r.height() == h);
        r
    }

    pub fn get_tile(&self, pos: (u16, u16)) -> (r: BoardItem)
        requires
            self.wf(),
            self.in_bounds(pos),
        ensures
            r == self.tile(pos),
    {
        self.grid[pos.0 as usize][pos.1 as usize]
    }

    /// Overwrites one tile and queues the paint that shows it.
    pub fn set_tile(&mut self, pos: (u16, u16), item: BoardItem)
        requires
            old(self).wf(),
            old(self).in_bounds(pos),
        ensures
            final(self).wf(),
            final(self).cells() == paint_at(old(self).cells(), Paint { pos, item }),
            forall|q: (u16, u16)|
                old(self).in_bounds(q) ==> #[trigger] final(self).tile(q) == if q == pos {
                    item
                } else {
                    old(self).tile(q)
                },
            final(self).pending@ == old(self).pending@.push(Paint { pos, item }),
            final(self).shown == old(self).shown,
            final(self).width() == old(self).width(),
            final(self).height() == old(self).height(),
    {
        let ghost old_cells = self.cells();
        self.grid[pos.0 as usize][pos.1 as usize] = item;
        self.pending.push(Paint { pos, item });
        assert(self.cells() =~= paint_at(old_cells, Paint { pos, item }));
        assert(self.pending@.drop_last() == old(self).pending@);
        assert(self.grid@[0]@.len() == old(self).grid@[0]@.len());
    }

    /// Hands over the queued paints. Drawing them on the surface the
    /// renderer last saw yields the current tiles.
    pub fn take_paints(&mut self) -> (r: Vec<Paint>)
        requires
            old(self).wf(),
        ensures
            final(self).wf(),
            r@ == old(self).pending@,
            replay(old(self).shown@, r@) == final(self).cells(),
            final(self).pending@.len() == 0,
            final(self).shown@ == final(self).cells(),
            final(self).grid == old(self).grid,
    {
        let mut r: Vec<Paint> = Vec::new();
        std::mem::swap(&mut r, &mut self.pending);
        self.shown = Ghost(self.cells());
        r
    }
}

} // verus!
