//! Building a level: what each tile of a level map places, the ring of
//! flash lamps around the playfield, and the cells of a picture that have
//! a given colour.
use crate::strings::str_eq;
use vstd::prelude::*;

verus! {

/// The sort of a tile placed on the map.
#[derive(Clone, Copy, Debug, PartialEq, Eq, Structural)]
pub enum TileType {
    /// Solid from every side.
    STONE,
    /// Solid only from above.
    LEDGE,
    /// Not solid.
    DECORATION,
}

/// A tile of a tile set: where it sits on its sheet and its user type.
#[derive(Clone, Debug, PartialEq, Eq)]
pub struct TileDef {
    pub x: u32,
    pub y: u32,
    pub user_type: Option<String>,
}

/// What a tile of a level map puts into the level.
#[derive(Clone, Copy, Debug, PartialEq, Eq, Structural)]
pub enum Placement {
    /// A tile of the map.
    Tile(TileType),
    /// The hero's starting point.
    Hero,
    Coin,
    Lockbox,
    Bell,
    Chest,
    Key,
    Spring,
    Flag,
    Ruby,
    /// Nothing at all.
    Nothing,
}

/// What a tile with the given user type places: a stone or ledge tile for
/// "Wall" and "Ledge", an entity for the names of entities, a decoration
/// for a tile without a user type, and nothing for other user types.
pub open spec fn placement_of(user_type: Option<Seq<char>>) -> Placement {
    match user_type {
        None => Placement::Tile(TileType::DECORATION),
        Some(t) => if t == "Wall"@ {
            Placement::Tile(TileType::STONE)
        } else if t == "Ledge"@ {
            Placement::Tile(TileType::LEDGE)
        } else if t == "Hero"@ {
            Placement::Hero
        } else if t == "Coin"@ {
            Placement::Coin
        } else if t == "Lockbox"@ {
            Placement::Lockbox
        } else if t == "Bell"@ {
            Placement::Bell
        } else if t == "Chest"@ {
            Placement::Chest
        } else if t == "Key"@ {
            Placement::Key
        } else if t == "Spring"@ {
            Placement::Spring
        } else if t == "Flag"@ {
            Placement::Flag
        } else if t == "Ruby"@ {
            Placement::Ruby
        } else {
            Placement::Nothing
        },
    }
}

impl TileDef {
    /// The tile with the given id on a sheet `columns` tiles wide: ids run
    /// along each row of the sheet.
    pub fn from_tile_id(tile_id: u32, columns: u32, user_type: Option<String>) -> (d: TileDef)
        requires
            columns > 0,
        ensures
            d.x == tile_id % columns,
            d.y == tile_id / columns,
            d.user_type == user_type,
    {
        TileDef { x: tile_id % columns, y: tile_id / columns, user_type }
    }

    /// The user type as characters.
    pub open spec fn user_type_view(&self) -> Option<Seq<char>> {
        match self.user_type {
            Some(s) => Some(s@),
            None => None,
        }
    }

    /// What this tile places in a level.
    pub fn placement(&self) -> (p: Placement)
        ensures
            p == placement_of(self.user_type_view()),
    {
        match &self.user_type {
            None => Placement::Tile(TileType::DECORATION),
            Some(t) => {
                let t = t.as_str();
                if str_eq(t, "Wall") {
                    Placement::Tile(TileType::STONE)
                } else if str_eq(t, "Ledge") {
                    Placement::Tile(TileType::LEDGE)
                } else if str_eq(t, "Hero") {
                    Placement::Hero
                } else if str_eq(t, "Coin") {
                    Placement::Coin
                } else if str_eq(t, "Lockbox") {
                    Placement::Lockbox
                } else if str_eq(t, "Bell") {
                    Placement::Bell
                } else if str_eq(t, "Chest") {
                    Placement::Chest
                } else if str_eq(t, "Key") {
                    Placement::Key
                } else if str_eq(t, "Spring") {
                    Placement::Spring
                } else if str_eq(t, "Flag") {
                    Placement::Flag
                } else if str_eq(t, "Ruby") {
                    Placement::Ruby
                } else {
                    Placement::Nothing
                }
            },
        }
    }
}

/// How many flash lamps ring the playfield.
pub const LAMP_COUNT: usize = 92;

/// The cell of the `i`-th flash lamp: from the top edge right of the
/// score, clockwise round the playfield, back along the top edge to the
/// left of the score.
pub open spec fn lamp(i: int) -> (int, int) {
    if i < 13 {
        (17 + i, 19)
    } else if i < 31 {
        (29, 19 - (i - 12))
    } else if i < 61 {
        (29 - (i - 31), 0)
    } else if i < 79 {
        (0, i - 60)
    } else {
        (i - 79, 19)
    }
}

/// The cells of the flash lamps, in the order they light up.
pub fn flashlamp_positions() -> (r: Vec<(i32, i32)>)
    ensures
        r@.len() == LAMP_COUNT,
        forall|i: int| 0 <= i < LAMP_COUNT ==> ((#[trigger] r@[i]).0 as int, r@[i].1 as int) == lamp(i),
{
    let mut r: Vec<(i32, i32)> = Vec::new();
    let mut x: i32 = 17;
    while x < 30
        invariant
            17 <= x <= 30,
            r@.len() == x - 17,
            forall|i: int| 0 <= i < r@.len() ==> ((#[trigger] r@[i]).0 as int, r@[i].1 as int) == lamp(i),
        decreases 30 - x,
    {
        r.push((x, 19));
        x = x + 1;
    }
    let mut y: i32 = 1;
    while y < 19
        invariant
            1 <= y <= 19,
            r@.len() == 12 + y,
            forall|i: int| 0 <= i < r@.len() ==> ((#[trigger] r@[i]).0 as int, r@[i].1 as int) == lamp(i),
        decreases 19 - y,
    {
        r.push((29, 19 - y));
        y = y + 1;
    }
    let mut x: i32 = 0;
    while x < 30
        invariant
            0 <= x <= 30,
            r@.len() == 31 + x,
            forall|i: int| 0 <= i < r@.len() ==> ((#[trigger] r@[i]).0 as int, r@[i].1 as int) == lamp(i),
        decreases 30 - x,
    {
        r.push((29 - x, 0));
        x = x + 1;
    }
    let mut y: i32 = 1;
    while y < 19
        invariant
            1 <= y <= 19,
            r@.len() == 60 + y,
            forall|i: int| 0 <= i < r@.len() ==> ((#[trigger] r@[i]).0 as int, r@[i].1 as int) == lamp(i),
        decreases 19 - y,
    {
        r.push((0, y));
        y = y + 1;
    }
    let mut x: i32 = 0;
    while x < 13
        invariant
            0 <= x <= 13,
            r@.len() == 79 + x,
            forall|i: int| 0 <= i < r@.len() ==> ((#[trigger] r@[i]).0 as int, r@[i].1 as int) == lamp(i),
        decreases 13 - x,
    {
        r.push((x, 19));
        x = x + 1;
    }
    r
}

/// A picture: `width` by `height` colours, stored row by row from the top.
pub struct PixelImage {
    width: u32,
    height: u32,
    pixels: Vec<(u8, u8, u8)>,
}

/// The colour at column `x`, row `y` (counted from the top) of a picture
/// stored row by row.
pub open spec fn colour_at(pixels: Seq<(u8, u8, u8)>, width: int, x: int, y: int) -> (u8, u8, u8) {
    pixels[y * width + x]
}

/// Within a `width` by `height` grid, cell `(x, y)` is stored before the end.
proof fn lemma_index_in_bounds(x: int, y: int, width: int, height: int)
    requires
        0 <= x < width,
        0 <= y < height,
    ensures
        0 <= y * width + x < width * height,
{
    assert(0 <= y * width) by (nonlinear_arith)
        requires
            0 <= y,
            0 <= width,
    ;
    assert(y * width + x < width * height) by (nonlinear_arith)
        requires
            0 <= x < width,
            0 <= y < height,
    ;
}

impl PixelImage {
    /// A picture of the given size from its colours, row by row from the
    /// top; `None` unless there is one colour per cell.
    pub fn new(width: u32, height: u32, pixels: Vec<(u8, u8, u8)>) -> (r: Option<Self>)
        requires
            width <= i32::MAX,
            height <= i32::MAX,
        ensures
            (pixels@.len() == width as int * height as int) == (r is Some),
            r matches Some(img) ==> img.wf() && img.width() == width && img.height() == height && img.colours() == pixels@,
    {
        assert(width as int * height as int <= u64::MAX) by (nonlinear_arith)
            requires
                width <= i32::MAX,
                height <= i32::MAX,
        ;
        let cells = width as u64 * height as u64;
        if pixels.len() as u64 == cells {
            Some(PixelImage { width, height, pixels })
        } else {
            None
        }
    }

    /// The number of columns.
    pub closed spec fn width(&self) -> u32 {
        self.width
    }

    /// The number of rows.
    pub closed spec fn height(&self) -> u32 {
        self.height
    }

    /// The colours, row by row from the top.
    pub closed spec fn colours(&self) -> Seq<(u8, u8, u8)> {
        self.pixels@
    }

    /// One colour per cell, and the sides fit in an `i32`.
    pub closed spec fn wf(&self) -> bool {
        &&& self.pixels@.len() == self.width as int * self.height as int
        &&& self.width <= i32::MAX
        &&& self.height <= i32::MAX
    }

}

/// Whether `(px, py)` is the cell, counted from the bottom row, of a pixel
/// of the picture that has the given colour.
pub open spec fn shows_colour(img: PixelImage, colour: (u8, u8, u8), px: int, py: int) -> bool {
    exists|x: int, y: int|
        0 <= x < img.width() && 0 <= y < img.height() && #[trigger] colour_at(img.colours(), img.width() as int, x, y)
            == colour && px == x && py == img.height() - 1 - y
}

/// The cells, counted from the bottom row, of the pixels that have the
/// given colour, each once.
pub fn pixels(image: &PixelImage, colour: (u8, u8, u8)) -> (r: Vec<(i32, i32)>)
    requires
        image.wf(),
    ensures
        r@.no_duplicates(),
        forall|p: (i32, i32)| #[trigger] r@.contains(p) <==> shows_colour(*image, colour, p.0 as int, p.1 as int),
{
    let ghost img = *image;
    let width = image.width;
    let height = image.height;
    let total = image.pixels.len();
    let mut r: Vec<(i32, i32)> = Vec::new();
    let mut x: u32 = 0;
    while x < width
        invariant
            img == *image,
            image.wf(),
            total == image.pixels@.len(),
            width == image.width,
            height == image.height,
            x <= width,
            r@.no_duplicates(),
            forall|p: (i32, i32)| #[trigger] r@.contains(p) <==> exists|cx: int, cy: int|
                0 <= cx < x && 0 <= cy < height && #[trigger] colour_at(img.colours(), width as int, cx, cy) == colour
                    && p.0 == cx && p.1 == height - 1 - cy,
        decreases width - x,
    {
        let mut y: u32 = 0;
        while y < height
            invariant
                img == *image,
                image.wf(),
                total == image.pixels@.len(),
                width == image.width,
                height == image.height,
                x < width,
                y <= height,
                r@.no_duplicates(),
                forall|p: (i32, i32)| #[trigger] r@.contains(p) <==> exists|cx: int, cy: int|
                    ((0 <= cx < x && 0 <= cy < height) || (cx == x && 0 <= cy < y))
                        && #[trigger] colour_at(img.colours(), width as int, cx, cy) == colour && p.0 == cx && p.1 == height - 1 - cy,
            decreases height - y,
        {
            proof {
                lemma_index_in_bounds(x as int, y as int, width as int, height as int);
                assert(0 <= y as int * width as int <= y as int * width as int + x as int);
            }
            let index = (y as usize) * (width as usize) + (x as usize);
            let (red, green, blue) = image.pixels[index];
            let ghost before = r@;
            if red == colour.0 && green == colour.1 && blue == colour.2 {
                let p = (x as i32, (height - 1 - y) as i32);
                proof {
                    if before.contains(p) {
                        let (cx, cy) = choose|cx: int, cy: int|
                            ((0 <= cx < x && 0 <= cy < height) || (cx == x && 0 <= cy < y))
                                && #[trigger] colour_at(img.colours(), width as int, cx, cy) == colour && p.0 == cx && p.1 == height - 1 - cy;
                        assert(false);
                    }
                    assert(colour_at(img.colours(), width as int, x as int, y as int) == colour);
                }
                r.push(p);
                proof {
                    assert forall|q: (i32, i32)| #[trigger] r@.contains(q) <==> exists|cx: int, cy: int|
                        ((0 <= cx < x && 0 <= cy < height) || (cx == x && 0 <= cy < y + 1))
                            && #[trigger] colour_at(img.colours(), width as int, cx, cy) == colour && q.0 == cx && q.1 == height - 1 - cy by {
                        if r@.contains(q) {
                            if q == p {
                                assert(colour_at(img.colours(), width as int, x as int, y as int) == colour);
                            } else {
                                assert(before.contains(q));
                            }
                        }
                        if exists|cx: int, cy: int|
                            ((0 <= cx < x && 0 <= cy < height) || (cx == x && 0 <= cy < y + 1))
                                && #[trigger] colour_at(img.colours(), width as int, cx, cy) == colour && q.0 == cx && q.1 == height - 1 - cy {
                            let (cx, cy) = choose|cx: int, cy: int|
                                ((0 <= cx < x && 0 <= cy < height) || (cx == x && 0 <= cy < y + 1))
                                    && #[trigger] colour_at(img.colours(), width as int, cx, cy) == colour && q.0 == cx && q.1 == height - 1 - cy;
                            if cx == x && cy == y {
                                assert(q == p);
                                assert(r@[r@.len() - 1] == p);
                            } else {
                                assert(before.contains(q));
                                let k = choose|k: int| 0 <= k < before.len() && before[k] == q;
                                assert(r@[k] == q);
                            }
                        }
                    }
                }
            } else {
                proof {
                    assert forall|q: (i32, i32)| #[trigger] r@.contains(q) <==> exists|cx: int, cy: int|
                        ((0 <= cx < x && 0 <= cy < height) || (cx == x && 0 <= cy < y + 1))
                            && #[trigger] colour_at(img.colours(), width as int, cx, cy) == colour && q.0 == cx && q.1 == height - 1 - cy by {
                        if exists|cx: int, cy: int|
                            ((0 <= cx < x && 0 <= cy < height) || (cx == x && 0 <= cy < y + 1))
                                && #[trigger] colour_at(img.colours(), width as int, cx, cy) == colour && q.0 == cx && q.1 == height - 1 - cy {
                            let (cx, cy) = choose|cx: int, cy: int|
                                ((0 <= cx < x && 0 <= cy < height) || (cx == x && 0 <= cy < y + 1))
                                    && #[trigger] colour_at(img.colours(), width as int, cx, cy) == colour && q.0 == cx && q.1 == height - 1 - cy;
                            if cx == x && cy == y {
                                assert(colour_at(img.colours(), width as int, x as int, y as int) != colour);
                            }
                        }
                    }
                }
            }
            y = y + 1;
        }
        x = x + 1;
    }
    proof {
        assert forall|p: (i32, i32)| #[trigger] r@.contains(p) <==> shows_colour(*image, colour, p.0 as int, p.1 as int) by {
            if shows_colour(*image, colour, p.0 as int, p.1 as int) {
                let (cx, cy) = choose|cx: int, cy: int|
                    0 <= cx < img.width() && 0 <= cy < img.height() && #[trigger] colour_at(img.colours(), img.width() as int, cx, cy)
                        == colour && p.0 as int == cx && p.1 as int == img.height() - 1 - cy;
                assert(colour_at(img.colours(), width as int, cx, cy) == colour);
            }
        }
    }
    r
}

/// Law: the flash lamps stand on distinct cells of the edge of the 30 by
/// 20 playfield, and each lamp after the first stands next to the one
/// before, so they light up as one walk round the edge.
pub proof fn law_lamps_walk_round_the_edge()
    ensures
        forall|i: int| 0 <= i < LAMP_COUNT ==> ({
            let (x, y) = #[trigger] lamp(i);
            0 <= x < 30 && 0 <= y < 20 && (x == 0 || x == 29 || y == 0 || y == 19)
        }),
        forall|i: int| 0 < i < LAMP_COUNT ==> {
            let (x0, y0) = lamp(i - 1);
            let (x1, y1) = #[trigger] lamp(i);
            (x1 - x0 == 1 || x1 - x0 == -1) && y1 == y0 || (y1 - y0 == 1 || y1 - y0 == -1) && x1 == x0
        },
        forall|i: int, j: int| 0 <= i < j < LAMP_COUNT ==> #[trigger] lamp(i) != #[trigger] lamp(j),
{
    assert forall|i: int, j: int| 0 <= i < j < LAMP_COUNT implies #[trigger] lamp(i) != #[trigger] lamp(j) by {
        if lamp(i) == lamp(j) {
            if i < 13 {
                assert(false);
            } else if i < 31 {
                assert(false);
            } else if i < 61 {
                assert(false);
            } else if i < 79 {
                assert(false);
            } else {
                assert(false);
            }
        }
    }
}


/// A timer that building a level sets, with what happens when it fires.
#[derive(Clone, Copy, Debug, PartialEq, Eq, Structural)]
pub enum LevelTimer {
    /// The hero appears at a cell of the map.
    SpawnHero(u32, u32),
    /// A bulb of the countdown lights at a cell.
    SpawnBulb(i32, i32),
    /// A bulb of the "go" sign flashes at a cell.
    SpawnFlashBulb(i32, i32),
    /// The flash lamps turn yellow: time is running short.
    TurnFlashbulbsYellow,
    /// The flash lamps turn red: time is nearly up.
    TurnFlashbulbsRed,
    /// The level's time is up.
    TimeLimitExpired,
}

/// Milliseconds after the start of a level at which the hero appears and
/// the "go" sign flashes.
pub const GO_MILLIS: u64 = 2400;

/// Milliseconds after the start at which the red, yellow and green bulbs
/// of the countdown light.
pub const RED_MILLIS: u64 = 600;
pub const YELLOW_MILLIS: u64 = 1200;
pub const GREEN_MILLIS: u64 = 1800;

/// Milliseconds after the start at which the lamps turn yellow, turn red,
/// and the time runs out.
pub const HURRY_MILLIS: u64 = 7400;
pub const LAST_CALL_MILLIS: u64 = 10400;
pub const TIME_UP_MILLIS: u64 = 12400;

/// The timers that start the hero: one at `GO_MILLIS` for each hero
/// placement, in the order of the placements.
pub open spec fn hero_starts(placements: Seq<((u32, u32), Placement)>) -> Seq<(u64, LevelTimer)>
    decreases placements.len(),
{
    if placements.len() == 0 {
        Seq::empty()
    } else {
        let rest = hero_starts(placements.drop_last());
        let ((x, y), placement) = placements.last();
        if placement == Placement::Hero {
            rest.push((GO_MILLIS, LevelTimer::SpawnHero(x, y)))
        } else {
            rest
        }
    }
}

/// The timers that start the hero, for the placements of a level's layers.
pub fn hero_timers(placements: &Vec<((u32, u32), Placement)>) -> (r: Vec<(u64, LevelTimer)>)
    ensures
        r@ == hero_starts(placements@),
{
    let mut r: Vec<(u64, LevelTimer)> = Vec::new();
    let mut i: usize = 0;
    while i < placements.len()
        invariant
            i <= placements@.len(),
            r@ == hero_starts(placements@.take(i as int)),
        decreases placements@.len() - i,
    {
        assert(placements@.take(i as int + 1).drop_last() == placements@.take(i as int));
        let ((x, y), placement) = placements[i];
        if placement == Placement::Hero {
            r.push((GO_MILLIS, LevelTimer::SpawnHero(x, y)));
        }
        i = i + 1;
    }
    assert(placements@.take(placements@.len() as int) == placements@);
    r
}

/// Whether `t` is one of the countdown's timers: a bulb at each red,
/// yellow and green pixel of the countdown picture at `RED_MILLIS`,
/// `YELLOW_MILLIS` and `GREEN_MILLIS`, and a flashing bulb at each white
/// pixel of the "go" picture at `GO_MILLIS`.
pub open spec fn countdown_timer(countdown: PixelImage, go: PixelImage, t: (u64, LevelTimer)) -> bool {
    match t.1 {
        LevelTimer::SpawnBulb(x, y) => {
            ||| t.0 == RED_MILLIS && shows_colour(countdown, (255u8, 0u8, 0u8), x as int, y as int)
            ||| t.0 == YELLOW_MILLIS && shows_colour(countdown, (255u8, 255u8, 0u8), x as int, y as int)
            ||| t.0 == GREEN_MILLIS && shows_colour(countdown, (0u8, 255u8, 0u8), x as int, y as int)
        },
        LevelTimer::SpawnFlashBulb(x, y) => t.0 == GO_MILLIS && shows_colour(
            go,
            (255u8, 255u8, 255u8),
            x as int,
            y as int,
        ),
        _ => false,
    }
}

/// The timer for a bulb at `cell`, firing at `delay`.
pub open spec fn bulb_timer(delay: u64, flash: bool, cell: (i32, i32)) -> (u64, LevelTimer) {
    if flash {
        (delay, LevelTimer::SpawnFlashBulb(cell.0, cell.1))
    } else {
        (delay, LevelTimer::SpawnBulb(cell.0, cell.1))
    }
}

/// The timers for bulbs at each of the cells in turn, firing at `delay`.
pub open spec fn bulbs_at(cells: Seq<(i32, i32)>, delay: u64, flash: bool) -> Seq<(u64, LevelTimer)> {
    cells.map_values(|c: (i32, i32)| bulb_timer(delay, flash, c))
}

/// Appends a timer at `delay` for each of the cells, in order.
fn push_bulbs(r: &mut Vec<(u64, LevelTimer)>, cells: &Vec<(i32, i32)>, delay: u64, flash: bool)
    ensures
        final(r)@ == old(r)@ + bulbs_at(cells@, delay, flash),
{
    let ghost start = r@;
    let mut i: usize = 0;
    while i < cells.len()
        invariant
            i <= cells@.len(),
            r@ == start + bulbs_at(cells@.take(i as int), delay, flash),
        decreases cells@.len() - i,
    {
        let (x, y) = cells[i];
        if flash {
            r.push((delay, LevelTimer::SpawnFlashBulb(x, y)));
        } else {
            r.push((delay, LevelTimer::SpawnBulb(x, y)));
        }
        assert(bulbs_at(cells@.take(i as int + 1), delay, flash)
            == bulbs_at(cells@.take(i as int), delay, flash).push(
            bulb_timer(delay, flash, cells@[i as int]),
        ));
        i = i + 1;
    }
    assert(cells@.take(cells@.len() as int) == cells@);
}

/// The bulbs of one colour: no duplicates, and exactly the cells of
/// `cells` at `delay`.
proof fn lemma_bulbs(cells: Seq<(i32, i32)>, delay: u64, flash: bool)
    requires
        cells.no_duplicates(),
    ensures
        bulbs_at(cells, delay, flash).no_duplicates(),
        forall|t: (u64, LevelTimer)| #[trigger] bulbs_at(cells, delay, flash).contains(t)
            <==> exists|c: (i32, i32)| cells.contains(c) && t == bulb_timer(delay, flash, c),
{
    let f = |c: (i32, i32)| bulb_timer(delay, flash, c);
    assert(vstd::relations::injective(f));
    cells.lemma_no_duplicates_injective(f);
    let m = cells.map_values(f);
    assert(m == bulbs_at(cells, delay, flash));
    assert forall|t: (u64, LevelTimer)| #[trigger] m.contains(t)
        implies exists|c: (i32, i32)| cells.contains(c) && t == bulb_timer(delay, flash, c) by {
        let k = choose|k: int| 0 <= k < m.len() && m[k] == t;
        assert(cells.contains(cells[k]));
    }
    assert forall|t: (u64, LevelTimer)| exists|c: (i32, i32)| cells.contains(c) && t == bulb_timer(delay, flash, c)
        implies #[trigger] m.contains(t) by {
        let c = choose|c: (i32, i32)| cells.contains(c) && t == bulb_timer(delay, flash, c);
        let k = choose|k: int| 0 <= k < cells.len() && cells[k] == c;
        assert(m[k] == t);
    }
}

/// The countdown's timers, then the turn to yellow, the turn to red and
/// the end of the level's time.
pub fn countdown_timers(countdown: &PixelImage, go: &PixelImage) -> (r: Vec<(u64, LevelTimer)>)
    requires
        countdown.wf(),
        go.wf(),
    ensures
        r@.len() >= 3,
        r@[r@.len() - 3] == (HURRY_MILLIS, LevelTimer::TurnFlashbulbsYellow),
        r@[r@.len() - 2] == (LAST_CALL_MILLIS, LevelTimer::TurnFlashbulbsRed),
        r@[r@.len() - 1] == (TIME_UP_MILLIS, LevelTimer::TimeLimitExpired),
        r@.take(r@.len() - 3).no_duplicates(),
        forall|t: (u64, LevelTimer)| #[trigger] r@.take(r@.len() - 3).contains(t) <==> countdown_timer(*countdown, *go, t),
        forall|i: int, j: int| 0 <= i <= j < r@.len() ==> (#[trigger] r@[i]).0 <= (#[trigger] r@[j]).0,
{
    let red = pixels(countdown, (255, 0, 0));
    let yellow = pixels(countdown, (255, 255, 0));
    let green = pixels(countdown, (0, 255, 0));
    let white = pixels(go, (255, 255, 255));
    let mut r: Vec<(u64, LevelTimer)> = Vec::new();
    push_bulbs(&mut r, &red, RED_MILLIS, false);
    push_bulbs(&mut r, &yellow, YELLOW_MILLIS, false);
    push_bulbs(&mut r, &green, GREEN_MILLIS, false);
    push_bulbs(&mut r, &white, GO_MILLIS, true);
    let ghost bulbs = r@;
    proof {
        let a = bulbs_at(red@, RED_MILLIS, false);
        let b = bulbs_at(yellow@, YELLOW_MILLIS, false);
        let c = bulbs_at(green@, GREEN_MILLIS, false);
        let d = bulbs_at(white@, GO_MILLIS, true);
        assert(bulbs == ((a + b) + c) + d);
        lemma_bulbs(red@, RED_MILLIS, false);
        lemma_bulbs(yellow@, YELLOW_MILLIS, false);
        lemma_bulbs(green@, GREEN_MILLIS, false);
        lemma_bulbs(white@, GO_MILLIS, true);
        vstd::seq_lib::lemma_no_dup_in_concat(a, b);
        vstd::seq_lib::lemma_no_dup_in_concat(a + b, c);
        vstd::seq_lib::lemma_no_dup_in_concat((a + b) + c, d);
        assert forall|t: (u64, LevelTimer)| #[trigger] bulbs.contains(t) <==> countdown_timer(*countdown, *go, t) by {
            vstd::seq_lib::lemma_seq_concat_contains_all_elements(a, b, t);
            vstd::seq_lib::lemma_seq_concat_contains_all_elements(a + b, c, t);
            vstd::seq_lib::lemma_seq_concat_contains_all_elements((a + b) + c, d, t);
            match t.1 {
                LevelTimer::SpawnBulb(x, y) => {
                    assert(red@.contains((x, y)) ==> a.contains(t) || t.0 != RED_MILLIS);
                    assert(yellow@.contains((x, y)) ==> b.contains(t) || t.0 != YELLOW_MILLIS);
                    assert(green@.contains((x, y)) ==> c.contains(t) || t.0 != GREEN_MILLIS);
                },
                LevelTimer::SpawnFlashBulb(x, y) => {
                    assert(white@.contains((x, y)) ==> d.contains(t) || t.0 != GO_MILLIS);
                },
                _ => {},
            }
        }
    }
    r.push((HURRY_MILLIS, LevelTimer::TurnFlashbulbsYellow));
    r.push((LAST_CALL_MILLIS, LevelTimer::TurnFlashbulbsRed));
    r.push((TIME_UP_MILLIS, LevelTimer::TimeLimitExpired));
    assert(r@.take(r@.len() - 3) == bulbs);
    r
}

} // verus!
