//! Tile maps: a grid of columns by rows where each cell may hold a tile,
//! and a cursor that walks the occupied cells of a rectangle row by row.
use vstd::prelude::*;

verus! {

/// A cell of a tile map.
#[derive(Clone, Copy, PartialEq, Eq, Debug)]
pub struct Position {
    pub x: i32,
    pub y: i32,
}

/// A grid of optional tiles, `columns` wide and `rows` high, indexed
/// column first.
pub struct TileMap<Tile> {
    grid: Vec<Vec<Option<Tile>>>,
    columns: usize,
    rows: usize,
}

/// The abstract state of a map.
pub ghost struct MapView<Tile> {
    pub columns: nat,
    pub rows: nat,
    /// `cells[x][y]` is the cell at column `x`, row `y`.
    pub cells: Seq<Seq<Option<Tile>>>,
}

impl<Tile> MapView<Tile> {
    /// Whether `(x, y)` lies on the map.
    pub open spec fn in_bounds(self, x: int, y: int) -> bool {
        0 <= x < self.columns && 0 <= y < self.rows
    }

    /// The cell at `(x, y)`; off the map there is nothing.
    pub open spec fn cell(self, x: int, y: int) -> Option<Tile> {
        if self.in_bounds(x, y) {
            self.cells[x][y]
        } else {
            None
        }
    }
}

/// The occupied cells of the rectangle `min_x..=max_x` by `..=max_y`,
/// starting at `(x, y)` and going along each row and then up to the next,
/// as (column, row, tile).
pub open spec fn occupied_from<Tile>(
    m: MapView<Tile>,
    min_x: int,
    max_x: int,
    max_y: int,
    x: int,
    y: int,
) -> Seq<(int, int, Tile)>
    decreases max_y + 1 - y, max_x + 1 - x,
{
    if y > max_y || x > max_x || x < min_x {
        Seq::empty()
    } else {
        let rest = if x < max_x {
            occupied_from(m, min_x, max_x, max_y, x + 1, y)
        } else {
            occupied_from(m, min_x, max_x, max_y, min_x, y + 1)
        };
        match m.cell(x, y) {
            Some(t) => seq![(x, y, t)] + rest,
            None => rest,
        }
    }
}

impl<Tile> View for TileMap<Tile> {
    type V = MapView<Tile>;

    closed spec fn view(&self) -> MapView<Tile> {
        MapView {
            columns: self.columns as nat,
            rows: self.rows as nat,
            cells: self.grid@.map_values(|c: Vec<Option<Tile>>| c@),
        }
    }
}

/// Sets the cell `(x, y)` of a grid.
fn set_cell<Tile>(grid: &mut Vec<Vec<Option<Tile>>>, x: usize, y: usize, value: Option<Tile>)
    requires
        x < old(grid)@.len(),
        y < old(grid)@[x as int]@.len(),
    ensures
        final(grid)@.len() == old(grid)@.len(),
        final(grid)@[x as int]@ == old(grid)@[x as int]@.update(y as int, value),
        forall|i: int| 0 <= i < old(grid)@.len() && i != x ==> final(grid)@[i] == old(grid)@[i],
{
    let column = &mut grid[x];
    column.set(y, value);
}

impl<Tile> TileMap<Tile> {
    /// The grid has `columns` columns of `rows` cells each, and both counts
    /// fit in an `i32`.
    pub closed spec fn wf(&self) -> bool {
        &&& self.grid@.len() == self.columns
        &&& self.columns <= i32::MAX
        &&& self.rows <= i32::MAX
        &&& forall|i: int| 0 <= i < self.columns ==> (#[trigger] self.grid@[i])@.len() == self.rows
    }

    /// An empty map of `columns` by `rows` cells.
    pub fn new(columns: usize, rows: usize) -> (m: Self)
        requires
            columns <= i32::MAX,
            rows <= i32::MAX,
        ensures
            m.wf(),
            m@.columns == columns,
            m@.rows == rows,
            forall|x: int, y: int| #[trigger] m@.cell(x, y) is None,
    {
        let mut grid: Vec<Vec<Option<Tile>>> = Vec::new();
        let mut i: usize = 0;
        while i < columns
            invariant
                i <= columns,
                grid@.len() == i,
                forall|a: int| 0 <= a < i ==> (#[trigger] grid@[a])@.len() == rows,
                forall|a: int, b: int| 0 <= a < i && 0 <= b < rows ==> #[trigger] grid@[a]@[b] is None,
            decreases columns - i,
        {
            let mut column: Vec<Option<Tile>> = Vec::new();
            let mut j: usize = 0;
            while j < rows
                invariant
                    j <= rows,
                    column@.len() == j,
                    forall|b: int| 0 <= b < j ==> (#[trigger] column@[b]) is None,
                decreases rows - j,
            {
                column.push(None);
                j = j + 1;
            }
            grid.push(column);
            i = i + 1;
        }
        TileMap { grid, columns, rows }
    }

    /// The number of columns.
    pub fn columns(&self) -> (n: usize)
        ensures
            n == self@.columns,
    {
        self.columns
    }

    /// The number of rows.
    pub fn rows(&self) -> (n: usize)
        ensures
            n == self@.rows,
    {
        self.rows
    }

    /// The cell at `(x, y)`; `None` off the map.
    pub fn get(&self, x: i32, y: i32) -> (r: &Option<Tile>)
        requires
            self.wf(),
        ensures
            *r == self@.cell(x as int, y as int),
    {
        if x < 0 || x >= self.columns as i32 || y < 0 || y >= self.rows as i32 {
            &None
        } else {
            &self.grid[x as usize][y as usize]
        }
    }

    /// Places a tile at `(x, y)`, which must lie on the map.
    pub fn put(&mut self, x: i32, y: i32, tile: Tile) -> (r: &mut Self)
        requires
            old(self).wf(),
            old(self)@.in_bounds(x as int, y as int),
        ensures
            r.wf(),
            r@.columns == old(self)@.columns,
            r@.rows == old(self)@.rows,
            forall|a: int, b: int| #[trigger] r@.cell(a, b)
                == if a == x && b == y { Some(tile) } else { old(self)@.cell(a, b) },
            *final(self) == *final(r),
    {
        self.set(x as usize, y as usize, Some(tile));
        self
    }

    /// Sets one cell, which must lie on the map.
    fn set(&mut self, x: usize, y: usize, value: Option<Tile>)
        requires
            old(self).wf(),
            old(self)@.in_bounds(x as int, y as int),
        ensures
            final(self).wf(),
            final(self)@.columns == old(self)@.columns,
            final(self)@.rows == old(self)@.rows,
            forall|a: int, b: int| #[trigger] final(self)@.cell(a, b)
                == if a == x && b == y { value } else { old(self)@.cell(a, b) },
    {
        proof {
            assert(self.grid@[x as int]@.len() == self.rows);
        }
        set_cell(&mut self.grid, x, y, value);
        proof {
            assert forall|i: int| 0 <= i < self.columns implies (#[trigger] self.grid@[i])@.len() == self.rows by {
                if i != x {
                    assert(self.grid@[i] == old(self).grid@[i]);
                }
            }
        }
        proof {
            assert forall|a: int, b: int| #[trigger] self@.cell(a, b)
                == if a == x && b == y { value } else { old(self)@.cell(a, b) } by {
                if self@.in_bounds(a, b) && a != x {
                    assert(self.grid@[a] == old(self).grid@[a]);
                }
            }
        }
    }

    /// Places copies of a tile along a row: from `(x, y)` rightwards, `len` cells.
    pub fn row(&mut self, x: usize, y: usize, len: usize, tile: Tile) -> (r: &mut Self)
        where
            Tile: Clone,
        requires
            old(self).wf(),
            len > 0 ==> x + len <= old(self)@.columns && y < old(self)@.rows,
        ensures
            r.wf(),
            r@.columns == old(self)@.columns,
            r@.rows == old(self)@.rows,
            forall|a: int, b: int|
                #![trigger r@.cell(a, b)]
                if b == y && x <= a < x + len {
                    r@.cell(a, b) matches Some(t) && cloned(tile, t)
                } else {
                    r@.cell(a, b) == old(self)@.cell(a, b)
                },
            *final(self) == *final(r),
    {
        let mut i: usize = 0;
        while i < len
            invariant
                i <= len,
                self.wf(),
                len > 0 ==> x + len <= self@.columns && y < self@.rows,
                self@.columns == old(self)@.columns,
                self@.rows == old(self)@.rows,
                forall|a: int, b: int|
                    #![trigger self@.cell(a, b)]
                    if b == y && x <= a < x + i {
                        self@.cell(a, b) matches Some(t) && cloned(tile, t)
                    } else {
                        self@.cell(a, b) == old(self)@.cell(a, b)
                    },
            decreases len - i,
        {
            let t = tile.clone();
            self.set(x + i, y, Some(t));
            i = i + 1;
        }
        self
    }

    /// Places copies of a tile along a column: from `(x, y)` upwards, `len` cells.
    pub fn column(&mut self, x: usize, y: usize, len: usize, tile: Tile) -> (r: &mut Self)
        where
            Tile: Clone,
        requires
            old(self).wf(),
            len > 0 ==> x < old(self)@.columns && y + len <= old(self)@.rows,
        ensures
            r.wf(),
            r@.columns == old(self)@.columns,
            r@.rows == old(self)@.rows,
            forall|a: int, b: int|
                #![trigger r@.cell(a, b)]
                if a == x && y <= b < y + len {
                    r@.cell(a, b) matches Some(t) && cloned(tile, t)
                } else {
                    r@.cell(a, b) == old(self)@.cell(a, b)
                },
            *final(self) == *final(r),
    {
        let mut i: usize = 0;
        while i < len
            invariant
                i <= len,
                self.wf(),
                len > 0 ==> x < self@.columns && y + len <= self@.rows,
                self@.columns == old(self)@.columns,
                self@.rows == old(self)@.rows,
                forall|a: int, b: int|
                    #![trigger self@.cell(a, b)]
                    if a == x && y <= b < y + i {
                        self@.cell(a, b) matches Some(t) && cloned(tile, t)
                    } else {
                        self@.cell(a, b) == old(self)@.cell(a, b)
                    },
            decreases len - i,
        {
            let t = tile.clone();
            self.set(x, y + i, Some(t));
            i = i + 1;
        }
        self
    }

    /// The cells of column `idx`, bottom row first.
    pub fn index(&self, idx: usize) -> (r: &Vec<Option<Tile>>)
        requires
            self.wf(),
            idx < self@.columns,
        ensures
            r@ == self@.cells[idx as int],
    {
        &self.grid[idx]
    }
}

/// A cursor over the occupied cells of a rectangle of a map, going along
/// each row from `min_x` to `max_x` and then up to the next row, until
/// row `max_y` is done.
pub struct MapIter<'a, Tile> {
    map: &'a TileMap<Tile>,
    x: usize,
    y: usize,
    min_x: usize,
    max_x: usize,
    max_y: usize,
}

impl<'a, Tile> MapIter<'a, Tile> {
    /// The cursor lies in its rectangle, which lies on the map.
    pub closed spec fn wf(&self) -> bool {
        &&& self.map.wf()
        &&& self.min_x <= self.x <= self.max_x
        &&& self.max_x < self.map@.columns
        &&& self.max_y < self.map@.rows
        &&& self.y <= self.max_y + 1
    }

    /// The occupied cells the cursor has yet to reach, in order.
    pub closed spec fn remaining(&self) -> Seq<(int, int, Tile)> {
        occupied_from(self.map@, self.min_x as int, self.max_x as int, self.max_y as int, self.x as int, self.y as int)
    }

    /// Moves to the next occupied cell and returns it with a copy of its tile;
    /// `None` once the rectangle is done.
    pub fn next(&mut self) -> (r: Option<(Position, Tile)>)
        where
            Tile: Clone,
        requires
            old(self).wf(),
        ensures
            final(self).wf(),
            old(self).remaining().len() == 0 ==> r is None && final(self).remaining().len() == 0,
            old(self).remaining().len() > 0 ==> (r matches Some((p, t)) && p.x == old(self).remaining()[0].0
                && p.y == old(self).remaining()[0].1 && cloned(old(self).remaining()[0].2, t)
                && final(self).remaining() == old(self).remaining().drop_first()),
    {
        let ghost start = self.remaining();
        loop
            invariant
                self.wf(),
                self.remaining() == start,
                start == old(self).remaining(),
            decreases self.max_y + 1 - self.y, self.max_x + 1 - self.x,
        {
            if self.y > self.max_y {
                return None;
            }
            let x = self.x;
            let y = self.y;
            let ghost here = self.remaining();
            let tile = &self.map.grid[x][y];
            proof {
                assert(self.map.grid@[x as int]@.len() == self.map@.rows);
                assert(self.map@.cell(x as int, y as int) == *tile);
            }
            if self.x < self.max_x {
                self.x = self.x + 1;
            } else {
                self.x = self.min_x;
                self.y = self.y + 1;
            }
            match tile {
                Some(present) => {
                    let position = Position { x: x as i32, y: y as i32 };
                    return Some((position, present.clone()));
                },
                None => {},
            }
        }
    }
}

impl<Tile> TileMap<Tile> {
    /// A cursor over every occupied cell, bottom row first; the map must
    /// have at least one column and one row.
    pub fn iter(&self) -> (it: MapIter<'_, Tile>)
        requires
            self.wf(),
            self@.columns > 0,
            self@.rows > 0,
        ensures
            it.wf(),
            it.remaining() == occupied_from(self@, 0, self@.columns - 1, self@.rows - 1, 0, 0),
    {
        MapIter { map: self, x: 0, y: 0, min_x: 0, max_x: self.columns - 1, max_y: self.rows - 1 }
    }

    /// A cursor over the occupied cells of columns `min_x..=max_x` and rows
    /// `min_y..=max_y`, bottom row first.
    pub fn region(&self, min_x: usize, max_x: usize, min_y: usize, max_y: usize) -> (it: MapIter<'_, Tile>)
        requires
            self.wf(),
            min_x <= max_x < self@.columns,
            min_y <= max_y < self@.rows,
        ensures
            it.wf(),
            it.remaining() == occupied_from(self@, min_x as int, max_x as int, max_y as int, min_x as int, min_y as int),
    {
        MapIter { map: self, x: min_x, y: min_y, min_x, max_x, max_y }
    }

    /// Every occupied cell with a copy of its tile, bottom row first and
    /// left to right along each row.
    pub fn tiles(&self) -> (r: Vec<(Position, Tile)>)
        where
            Tile: Clone,
        requires
            self.wf(),
        ensures
            ({
                let all = if self@.columns == 0 || self@.rows == 0 {
                    Seq::empty()
                } else {
                    occupied_from(self@, 0, self@.columns - 1, self@.rows - 1, 0, 0)
                };
                &&& r@.len() == all.len()
                &&& forall|i: int| 0 <= i < all.len() ==> (#[trigger] r@[i]).0.x == all[i].0 && r@[i].0.y == all[i].1
                    && cloned(all[i].2, r@[i].1)
            }),
    {
        let mut r: Vec<(Position, Tile)> = Vec::new();
        if self.columns == 0 || self.rows == 0 {
            return r;
        }
        let mut it = self.iter();
        let ghost all = it.remaining();
        loop
            invariant
                it.wf(),
                all == occupied_from(self@, 0, self@.columns - 1, self@.rows - 1, 0, 0),
                r@.len() + it.remaining().len() == all.len(),
                it.remaining() == all.skip(r@.len() as int),
                forall|i: int| 0 <= i < r@.len() ==> (#[trigger] r@[i]).0.x == all[i].0 && r@[i].0.y == all[i].1
                    && cloned(all[i].2, r@[i].1),
            decreases it.remaining().len(),
        {
            let ghost before = it.remaining();
            match it.next() {
                Some(cell) => {
                    proof {
                        assert(before[0] == all[r@.len() as int]);
                        assert(all.skip(r@.len() as int + 1) =~= before.drop_first());
                    }
                    r.push(cell);
                },
                None => {
                    return r;
                },
            }
        }
    }
}

/// Whether cell `(cx, cy)` comes at or after `(x, y)` going along rows
/// and then up.
pub open spec fn at_or_after(cx: int, cy: int, x: int, y: int) -> bool {
    cy > y || (cy == y && cx >= x)
}

/// Whether cell `(ax, ay)` comes strictly before `(bx, by)` going along
/// rows and then up.
pub open spec fn comes_before(ax: int, ay: int, bx: int, by: int) -> bool {
    ay < by || (ay == by && ax < bx)
}

/// Law: a cursor over a rectangle visits exactly its occupied cells from
/// the cursor on, each once, in order along the rows and then up, and
/// hands out each cell's tile.
pub proof fn law_cursor_visits_each_occupied_cell_once<Tile>(
    m: MapView<Tile>,
    min_x: int,
    max_x: int,
    max_y: int,
    x: int,
    y: int,
)
    requires
        min_x <= x <= max_x,
    ensures
        ({
            let s = occupied_from(m, min_x, max_x, max_y, x, y);
            &&& forall|i: int| 0 <= i < s.len() ==> min_x <= (#[trigger] s[i]).0 <= max_x && s[i].1 <= max_y
                && at_or_after(s[i].0, s[i].1, x, y) && m.cell(s[i].0, s[i].1) == Some(s[i].2)
            &&& forall|i: int, j: int| 0 <= i < j < s.len() ==> comes_before((#[trigger] s[i]).0, s[i].1, (#[trigger] s[j]).0, s[j].1)
            &&& forall|cx: int, cy: int| min_x <= cx <= max_x && cy <= max_y && at_or_after(cx, cy, x, y)
                && (#[trigger] m.cell(cx, cy)) is Some ==> exists|i: int| 0 <= i < s.len() && (#[trigger] s[i]).0 == cx && s[i].1 == cy
        }),
    decreases max_y + 1 - y, max_x + 1 - x,
{
    let s = occupied_from(m, min_x, max_x, max_y, x, y);
    if y > max_y {
        assert(s.len() == 0);
    } else {
        let (nx, ny) = if x < max_x { (x + 1, y) } else { (min_x, y + 1) };
        law_cursor_visits_each_occupied_cell_once(m, min_x, max_x, max_y, nx, ny);
        let rest = occupied_from(m, min_x, max_x, max_y, nx, ny);
        assert(rest == (if x < max_x {
            occupied_from(m, min_x, max_x, max_y, x + 1, y)
        } else {
            occupied_from(m, min_x, max_x, max_y, min_x, y + 1)
        }));
        match m.cell(x, y) {
            Some(t) => {
                assert(s == seq![(x, y, t)] + rest);
                assert forall|i: int| 0 <= i < s.len() implies min_x <= (#[trigger] s[i]).0 <= max_x && s[i].1 <= max_y
                    && at_or_after(s[i].0, s[i].1, x, y) && m.cell(s[i].0, s[i].1) == Some(s[i].2) by {
                    if i > 0 {
                        assert(s[i] == rest[i - 1]);
                    }
                }
                assert forall|i: int, j: int| 0 <= i < j < s.len() implies comes_before((#[trigger] s[i]).0, s[i].1, (#[trigger] s[j]).0, s[j].1) by {
                    assert(s[j] == rest[j - 1]);
                    if i > 0 {
                        assert(s[i] == rest[i - 1]);
                    }
                }
                assert forall|cx: int, cy: int| min_x <= cx <= max_x && cy <= max_y && at_or_after(cx, cy, x, y)
                    && (#[trigger] m.cell(cx, cy)) is Some implies exists|i: int| 0 <= i < s.len() && (#[trigger] s[i]).0 == cx && s[i].1 == cy by {
                    if cx == x && cy == y {
                        assert(s[0].0 == cx && s[0].1 == cy);
                    } else {
                        assert(at_or_after(cx, cy, nx, ny));
                        let k = choose|k: int| 0 <= k < rest.len() && (#[trigger] rest[k]).0 == cx && rest[k].1 == cy;
                        assert(s[k + 1] == rest[k]);
                    }
                }
            },
            None => {
                assert(s == rest);
                assert forall|cx: int, cy: int| min_x <= cx <= max_x && cy <= max_y && at_or_after(cx, cy, x, y)
                    && (#[trigger] m.cell(cx, cy)) is Some implies exists|i: int| 0 <= i < s.len() && (#[trigger] s[i]).0 == cx && s[i].1 == cy by {
                    assert(!(cx == x && cy == y));
                    assert(at_or_after(cx, cy, nx, ny));
                }
            },
        }
    }
}

/// Law: a tile reads back where it was put, and putting it changes no other
/// cell.
pub proof fn law_get_after_put<Tile>(before: MapView<Tile>, after: MapView<Tile>, x: int, y: int, tile: Tile, ox: int, oy: int)
    requires
        forall|a: int, b: int| #[trigger] after.cell(a, b) == if a == x && b == y { Some(tile) } else { before.cell(a, b) },
        ox != x || oy != y,
    ensures
        after.cell(x, y) == Some(tile),
        after.cell(ox, oy) == before.cell(ox, oy),
{
    assert(after.cell(x, y) == Some(tile));
    assert(after.cell(ox, oy) == before.cell(ox, oy));
}

} // verus!
