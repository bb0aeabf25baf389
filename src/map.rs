use vstd::prelude::*;
use vstd::arithmetic::div_mod::lemma_fundamental_div_mod_converse;
use crate::rect::Rect;
use crate::rng::{new_rng, range, roll_dice};

verus! {

/// Width of the generated map, in tiles.
pub const MAP_WIDTH: i32 = 80;

/// Height of the generated map, in tiles.
pub const MAP_HEIGHT: i32 = 50;

/// How many wall placements the generator attempts.
pub const MAX_WALLS: i32 = 15;

/// Shortest wall the generator draws.
pub const MIN_SIZE: i32 = 6;

/// Longest wall the generator draws.
pub const MAX_SIZE: i32 = 12;

/// Side of a square section of the map used for spawn placement.
pub const SECTION_SIZE: i32 = 10;

/// How many random draws the empty-tile search makes before it scans.
pub const MAX_RANDOM_TRIES: i32 = 100;

#[derive(Clone, Copy, Debug, PartialEq, Eq, Structural)]
pub enum TileType {
    Wall,
    Floor,
}

/// Row-major index of the tile `(x, y)` on a grid `width` tiles wide.
pub open spec fn index_of(width: int, x: int, y: int) -> int {
    y * width + x
}

/// Coordinates of the tile at row-major index `idx` on a grid `width` tiles wide.
pub open spec fn coord_of(width: int, idx: int) -> (int, int) {
    (idx % width, idx / width)
}

/// `index_of` and `coord_of` undo each other on the valid range, and every
/// valid coordinate has an index inside the grid.
pub proof fn lemma_coordinate_inverse(width: int, height: int, x: int, y: int)
    requires
        0 <= x < width,
        0 <= y < height,
    ensures
        coord_of(width, index_of(width, x, y)) == (x, y),
        0 <= index_of(width, x, y) < width * height,
{
    lemma_fundamental_div_mod_converse(y * width + x, width, y, x);
    assert(0 <= y * width + x < width * height) by (nonlinear_arith)
        requires
            0 <= x < width,
            0 <= y < height,
    ;
}

/// Two valid coordinates with the same index are the same coordinate.
proof fn lemma_index_injective(width: int, height: int, x1: int, y1: int, x2: int, y2: int)
    requires
        0 <= x1 < width,
        0 <= y1 < height,
        0 <= x2 < width,
        0 <= y2 < height,
        index_of(width, x1, y1) == index_of(width, x2, y2),
    ensures
        x1 == x2,
        y1 == y2,
{
    lemma_coordinate_inverse(width, height, x1, y1);
    lemma_coordinate_inverse(width, height, x2, y2);
}

/// Section `(section_x, section_y)` holds the tile `(x, y)`.
pub open spec fn in_section(section_x: int, section_y: int, x: int, y: int) -> bool {
    &&& SECTION_SIZE * section_x <= x <= SECTION_SIZE * section_x + SECTION_SIZE - 1
    &&& SECTION_SIZE * section_y <= y <= SECTION_SIZE * section_y + SECTION_SIZE - 1
}

pub struct GameMap {
    pub tiles: Vec<TileType>,
    pub width: i32,
    pub height: i32,
    pub walls: Vec<Rect>,
}

impl GameMap {
    /// A positive grid whose tile count fits in an `i32` and matches its size.
    pub open spec fn wf(self) -> bool {
        &&& 0 < self.width
        &&& 0 < self.height
        &&& self.width * self.height <= i32::MAX
        &&& self.tiles@.len() == self.width * self.height
    }

    pub open spec fn in_bounds(self, x: int, y: int) -> bool {
        0 <= x < self.width && 0 <= y < self.height
    }

    /// The tile at `(x, y)`.
    pub open spec fn tile_at(self, x: int, y: int) -> TileType {
        self.tiles@[index_of(self.width as int, x, y)]
    }

    /// Some recorded wall covers `(x, y)`.
    pub open spec fn covered(self, x: int, y: int) -> bool {
        exists|i: int| 0 <= i < self.walls@.len() && (#[trigger] self.walls@[i]).contains(x, y)
    }

    /// Every recorded wall is a well-formed rectangle inside the grid.
    pub open spec fn walls_in_bounds(self) -> bool {
        forall|i: int|
            0 <= i < self.walls@.len() ==> {
                let w = #[trigger] self.walls@[i];
                w.wf() && self.in_bounds(w.x1 as int, w.y1 as int) && self.in_bounds(
                    w.x2 as int,
                    w.y2 as int,
                )
            }
    }

    /// No two recorded walls overlap.
    pub open spec fn walls_disjoint(self) -> bool {
        forall|i: int, j: int|
            0 <= i < self.walls@.len() && 0 <= j < self.walls@.len() && i != j ==> !(
            #[trigger] self.walls@[i]).overlaps(#[trigger] self.walls@[j])
    }

    /// The tiles are walls exactly where a recorded wall lies.
    pub open spec fn tiles_match_walls(self) -> bool {
        forall|x: int, y: int|
            self.in_bounds(x, y) ==> (#[trigger] self.tile_at(x, y) == TileType::Wall
                <==> self.covered(x, y))
    }

    /// The recorded walls lie inside the grid, do not overlap, and are exactly
    /// what the tiles show as walls.
    pub open spec fn walls_consistent(self) -> bool {
        &&& self.walls_in_bounds()
        &&& self.walls_disjoint()
        &&& self.tiles_match_walls()
    }

    /// A map of `width` by `height` floor tiles with no walls.
    pub fn new(width: i32, height: i32) -> (r: GameMap)
        requires
            0 < width,
            0 < height,
            width * height <= i32::MAX,
        ensures
            r.wf(),
            r.walls_consistent(),
            r.width == width,
            r.height == height,
            r.walls@.len() == 0,
            forall|x: int, y: int| r.in_bounds(x, y) ==> #[trigger] r.tile_at(x, y) == TileType::Floor,
    {
        let n: usize = (width * height) as usize;
        let tiles = vec![TileType::Floor; n];
        let r = GameMap { tiles, width, height, walls: Vec::new() };
        assert forall|x: int, y: int| r.in_bounds(x, y) implies #[trigger] r.tile_at(x, y) == TileType::Floor by {
            lemma_coordinate_inverse(width as int, height as int, x, y);
        }
        r
    }

    /// Row-major index of the tile `(x, y)`.
    pub fn xy_idx(&self, x: i32, y: i32) -> (r: usize)
        requires
            self.wf(),
            self.in_bounds(x as int, y as int),
        ensures
            r == index_of(self.width as int, x as int, y as int),
            r < self.tiles@.len(),
    {
        proof {
            lemma_coordinate_inverse(self.width as int, self.height as int, x as int, y as int);
        }
        (y as usize) * (self.width as usize) + (x as usize)
    }

    /// Coordinates of the tile at index `idx`.
    pub fn idx_xy(&self, idx: i32) -> (r: (i32, i32))
        requires
            self.wf(),
            0 <= idx < self.width * self.height,
        ensures
            (r.0 as int, r.1 as int) == coord_of(self.width as int, idx as int),
    {
        (idx % self.width, idx / self.width)
    }

    /// Turns every tile inside `wall` into a wall tile.
    fn apply_wall_to_map(&mut self, wall: &Rect)
        requires
            old(self).wf(),
            wall.wf(),
            old(self).in_bounds(wall.x1 as int, wall.y1 as int),
            old(self).in_bounds(wall.x2 as int, wall.y2 as int),
        ensures
            final(self).wf(),
            final(self).width == old(self).width,
            final(self).height == old(self).height,
            final(self).walls@ == old(self).walls@,
            forall|x: int, y: int|
                final(self).in_bounds(x, y) ==> #[trigger] final(self).tile_at(x, y) == (if wall.contains(
                    x,
                    y,
                ) {
                    TileType::Wall
                } else {
                    old(self).tile_at(x, y)
                }),
    {
        let mut y: i32 = wall.y1;
        while y <= wall.y2
            invariant
                wall.y1 <= y <= wall.y2 + 1,
                wall.wf(),
                old(self).in_bounds(wall.x1 as int, wall.y1 as int),
                old(self).in_bounds(wall.x2 as int, wall.y2 as int),
                self.wf(),
                self.width == old(self).width,
                self.height == old(self).height,
                self.walls@ == old(self).walls@,
                forall|a: int, b: int|
                    self.in_bounds(a, b) ==> #[trigger] self.tile_at(a, b) == (if wall.contains(a, b)
                        && b < y {
                        TileType::Wall
                    } else {
                        old(self).tile_at(a, b)
                    }),
            decreases wall.y2 + 1 - y,
        {
            let mut x: i32 = wall.x1;
            while x <= wall.x2
                invariant
                    wall.x1 <= x <= wall.x2 + 1,
                    wall.y1 <= y <= wall.y2,
                    wall.wf(),
                    old(self).in_bounds(wall.x1 as int, wall.y1 as int),
                    old(self).in_bounds(wall.x2 as int, wall.y2 as int),
                    self.wf(),
                    self.width == old(self).width,
                    self.height == old(self).height,
                    self.walls@ == old(self).walls@,
                    forall|a: int, b: int|
                        self.in_bounds(a, b) ==> #[trigger] self.tile_at(a, b) == (if wall.contains(
                            a,
                            b,
                        ) && (b < y || (b == y && a < x)) {
                            TileType::Wall
                        } else {
                            old(self).tile_at(a, b)
                        }),
                decreases wall.x2 + 1 - x,
            {
                let idx = self.xy_idx(x, y);
                let ghost before = *self;
                self.tiles[idx] = TileType::Wall;
                proof {
                    let w = self.width as int;
                    let h = self.height as int;
                    assert forall|a: int, b: int| self.in_bounds(a, b) implies #[trigger] self.tile_at(
                        a,
                        b,
                    ) == (if wall.contains(a, b) && (b < y || (b == y && a < x + 1)) {
                        TileType::Wall
                    } else {
                        old(self).tile_at(a, b)
                    }) by {
                        lemma_coordinate_inverse(w, h, a, b);
                        if index_of(w, a, b) == idx as int {
                            lemma_index_injective(w, h, a, b, x as int, y as int);
                        } else {
                            assert(self.tile_at(a, b) == before.tile_at(a, b));
                        }
                    }
                }
                x = x + 1;
            }
            y = y + 1;
        }
    }

    /// Records `wall` and stamps its tiles as walls, provided it is a
    /// well-formed rectangle inside the grid that overlaps no recorded wall;
    /// otherwise leaves the map as it is. Returns whether the wall was placed.
    pub fn place_wall(&mut self, wall: Rect) -> (r: bool)
        requires
            old(self).wf(),
            old(self).walls_consistent(),
        ensures
            final(self).wf(),
            final(self).walls_consistent(),
            final(self).width == old(self).width,
            final(self).height == old(self).height,
            r == (wall.wf() && old(self).in_bounds(wall.x1 as int, wall.y1 as int)
                && old(self).in_bounds(wall.x2 as int, wall.y2 as int) && forall|i: int|
                0 <= i < old(self).walls@.len() ==> !wall.overlaps(#[trigger] old(self).walls@[i])),
            r ==> final(self).walls@ == old(self).walls@.push(wall),
            r ==> forall|x: int, y: int|
                final(self).in_bounds(x, y) ==> #[trigger] final(self).tile_at(x, y) == (if wall.contains(
                    x,
                    y,
                ) {
                    TileType::Wall
                } else {
                    old(self).tile_at(x, y)
                }),
            !r ==> final(self).tiles@ == old(self).tiles@ && final(self).walls@ == old(self).walls@,
    {
        let mut position_ok = wall.x1 <= wall.x2 && wall.y1 <= wall.y2 && 0 <= wall.x1 && wall.x2
            < self.width && 0 <= wall.y1 && wall.y2 < self.height;
        let mut i: usize = 0;
        while i < self.walls.len()
            invariant
                i <= self.walls@.len(),
                position_ok == (wall.wf() && self.in_bounds(wall.x1 as int, wall.y1 as int)
                    && self.in_bounds(wall.x2 as int, wall.y2 as int) && forall|k: int|
                    0 <= k < i ==> !wall.overlaps(#[trigger] self.walls@[k])),
            decreases self.walls@.len() - i,
        {
            if wall.intersect(&self.walls[i]) {
                position_ok = false;
            }
            i = i + 1;
        }
        if position_ok {
            self.apply_wall_to_map(&wall);
            let ghost stamped = *self;
            self.walls.push(wall);
            proof {
                let old_map = *old(self);
                assert forall|x: int, y: int| self.in_bounds(x, y) implies #[trigger] self.tile_at(x, y)
                    == (if wall.contains(x, y) {
                    TileType::Wall
                } else {
                    old_map.tile_at(x, y)
                }) by {
                    assert(self.tile_at(x, y) == stamped.tile_at(x, y));
                }
                let n = old_map.walls@.len();
                assert(self.walls@[n as int] == wall);
                assert forall|a: int, b: int|
                    0 <= a < self.walls@.len() && 0 <= b < self.walls@.len() && a != b implies !(
                    #[trigger] self.walls@[a]).overlaps(#[trigger] self.walls@[b]) by {
                    if a < n && b < n {
                        assert(self.walls@[a] == old_map.walls@[a]);
                        assert(self.walls@[b] == old_map.walls@[b]);
                    } else if a == n {
                        assert(!wall.overlaps(old_map.walls@[b]));
                    } else {
                        assert(!wall.overlaps(old_map.walls@[a]));
                    }
                }
                assert forall|x: int, y: int| self.in_bounds(x, y) implies (#[trigger] self.tile_at(x, y)
                    == TileType::Wall <==> self.covered(x, y)) by {
                    assert(old_map.tile_at(x, y) == TileType::Wall <==> old_map.covered(x, y));
                    if old_map.covered(x, y) {
                        let k = choose|k: int|
                            0 <= k < old_map.walls@.len() && (#[trigger] old_map.walls@[k]).contains(x, y);
                        assert(self.walls@[k] == old_map.walls@[k]);
                    }
                    if wall.contains(x, y) {
                        assert(self.walls@[n as int].contains(x, y));
                    }
                    if self.covered(x, y) {
                        let k = choose|k: int|
                            0 <= k < self.walls@.len() && (#[trigger] self.walls@[k]).contains(x, y);
                        if k < n {
                            assert(old_map.walls@[k] == self.walls@[k]);
                        }
                    }
                }
            }
        }
        position_ok
    }

    /// A fresh `MAP_WIDTH` by `MAP_HEIGHT` map: all floor, then up to
    /// `MAX_WALLS` randomly drawn horizontal or vertical walls of
    /// `MIN_SIZE` to `MAX_SIZE` tiles, each dropped if it would overlap a wall
    /// already placed.
    pub fn new_map_walls() -> (r: GameMap)
        ensures
            r.wf(),
            r.walls_consistent(),
            r.width == MAP_WIDTH,
            r.height == MAP_HEIGHT,
            r.tiles@.len() == MAP_WIDTH * MAP_HEIGHT,
            1 <= r.walls@.len() <= MAX_WALLS,
            forall|i: int|
                0 <= i < r.walls@.len() ==> {
                    let w = #[trigger] r.walls@[i];
                    (w.y1 == w.y2 && MIN_SIZE <= w.x2 - w.x1 + 1 <= MAX_SIZE) || (w.x1 == w.x2
                        && MIN_SIZE <= w.y2 - w.y1 + 1 <= MAX_SIZE)
                },
    {
        let mut map = GameMap::new(MAP_WIDTH, MAP_HEIGHT);
        let mut rng = new_rng();
        let mut attempt: i32 = 0;
        while attempt < MAX_WALLS
            invariant
                0 <= attempt <= MAX_WALLS,
                map.wf(),
                map.walls_consistent(),
                map.width == MAP_WIDTH,
                map.height == MAP_HEIGHT,
                map.walls@.len() <= attempt,
                attempt > 0 ==> map.walls@.len() >= 1,
                forall|i: int|
                    0 <= i < map.walls@.len() ==> {
                        let w = #[trigger] map.walls@[i];
                        (w.y1 == w.y2 && MIN_SIZE <= w.x2 - w.x1 + 1 <= MAX_SIZE) || (w.x1 == w.x2
                            && MIN_SIZE <= w.y2 - w.y1 + 1 <= MAX_SIZE)
                    },
            decreases MAX_WALLS - attempt,
        {
            let x: i32;
            let y: i32;
            let mut width: i32 = 1;
            let mut height: i32 = 1;
            let roll = roll_dice(&mut rng, 1, 2);
            if roll == 1 {
                // horizontal wall
                width = range(&mut rng, MIN_SIZE, MAX_SIZE + 1);
                x = roll_dice(&mut rng, 1, map.width - width - 1) - 1;
                y = roll_dice(&mut rng, 1, map.height - 1) - 1;
            } else {
                // vertical wall
                height = range(&mut rng, MIN_SIZE, MAX_SIZE + 1);
                x = roll_dice(&mut rng, 1, map.width - 1) - 1;
                y = roll_dice(&mut rng, 1, map.height - height - 1) - 1;
            }
            let new_wall = Rect::new(x, y, width, height);
            let ghost before = map;
            assert(new_wall.wf() && map.in_bounds(new_wall.x1 as int, new_wall.y1 as int)
                && map.in_bounds(new_wall.x2 as int, new_wall.y2 as int));
            let placed = map.place_wall(new_wall);
            proof {
                if before.walls@.len() == 0 {
                    assert(placed);
                }
                if map.walls@.len() > before.walls@.len() {
                    assert forall|i: int| 0 <= i < map.walls@.len() implies {
                        let w = #[trigger] map.walls@[i];
                        (w.y1 == w.y2 && MIN_SIZE <= w.x2 - w.x1 + 1 <= MAX_SIZE) || (w.x1 == w.x2
                            && MIN_SIZE <= w.y2 - w.y1 + 1 <= MAX_SIZE)
                    } by {
                        if i < before.walls@.len() {
                            assert(map.walls@[i] == before.walls@[i]);
                        }
                    }
                }
            }
            attempt = attempt + 1;
        }
        map
    }

    /// The section `(section_x, section_y)` lies wholly inside the grid.
    pub open spec fn section_in_bounds(self, section_x: int, section_y: int) -> bool {
        &&& 0 <= section_x
        &&& 0 <= section_y
        &&& SECTION_SIZE * section_x + SECTION_SIZE - 1 < self.width
        &&& SECTION_SIZE * section_y + SECTION_SIZE - 1 < self.height
    }

    /// Some tile of the section is floor.
    pub open spec fn section_has_floor(self, section_x: int, section_y: int) -> bool {
        exists|x: int, y: int|
            in_section(section_x, section_y, x, y) && #[trigger] self.tile_at(x, y) == TileType::Floor
    }

    /// A floor tile of section `(section_x, section_y)`, found by up to
    /// `MAX_RANDOM_TRIES` uniform random draws and then, if none hit floor, by a
    /// scan of the whole section. `None` when the section holds no floor.
    pub fn get_empty_tile_in_section(&self, section_x: i32, section_y: i32) -> (r: Option<
        (i32, i32),
    >)
        requires
            self.wf(),
            self.section_in_bounds(section_x as int, section_y as int),
        ensures
            r.is_some() <==> self.section_has_floor(section_x as int, section_y as int),
            r matches Some((x, y)) ==> in_section(section_x as int, section_y as int, x as int, y as int)
                && self.tile_at(x as int, y as int) == TileType::Floor,
    {
        let mut rng = new_rng();
        let mut tries: i32 = 0;
        while tries < MAX_RANDOM_TRIES
            invariant
                0 <= tries <= MAX_RANDOM_TRIES,
                self.wf(),
                self.section_in_bounds(section_x as int, section_y as int),
            decreases MAX_RANDOM_TRIES - tries,
        {
            let roll = range(&mut rng, 0, SECTION_SIZE * SECTION_SIZE);
            let x = section_x * SECTION_SIZE + roll / SECTION_SIZE;
            let y = section_y * SECTION_SIZE + roll % SECTION_SIZE;
            let idx = self.xy_idx(x, y);
            if self.tiles[idx] == TileType::Floor {
                assert(in_section(section_x as int, section_y as int, x as int, y as int)
                    && self.tile_at(x as int, y as int) == TileType::Floor);
                return Some((x, y));
            }
            tries = tries + 1;
        }
        self.scan_section(section_x, section_y)
    }

    /// The first floor tile of the section, scanning columns left to right and
    /// each column top to bottom.
    fn scan_section(&self, section_x: i32, section_y: i32) -> (r: Option<(i32, i32)>)
        requires
            self.wf(),
            self.section_in_bounds(section_x as int, section_y as int),
        ensures
            r.is_some() <==> self.section_has_floor(section_x as int, section_y as int),
            r matches Some((x, y)) ==> in_section(section_x as int, section_y as int, x as int, y as int)
                && self.tile_at(x as int, y as int) == TileType::Floor,
    {
        let x0 = section_x * SECTION_SIZE;
        let y0 = section_y * SECTION_SIZE;
        let mut x_offset: i32 = 0;
        while x_offset < SECTION_SIZE
            invariant
                0 <= x_offset <= SECTION_SIZE,
                self.wf(),
                self.section_in_bounds(section_x as int, section_y as int),
                x0 == section_x * SECTION_SIZE,
                y0 == section_y * SECTION_SIZE,
                forall|x: int, y: int|
                    x0 <= x < x0 + x_offset && y0 <= y < y0 + SECTION_SIZE ==> #[trigger] self.tile_at(x, y)
                        != TileType::Floor,
            decreases SECTION_SIZE - x_offset,
        {
            let mut y_offset: i32 = 0;
            while y_offset < SECTION_SIZE
                invariant
                    0 <= x_offset < SECTION_SIZE,
                    0 <= y_offset <= SECTION_SIZE,
                    self.wf(),
                    self.section_in_bounds(section_x as int, section_y as int),
                    x0 == section_x * SECTION_SIZE,
                    y0 == section_y * SECTION_SIZE,
                    forall|x: int, y: int|
                        (x0 <= x < x0 + x_offset && y0 <= y < y0 + SECTION_SIZE) || (x == x0 + x_offset
                            && y0 <= y < y0 + y_offset) ==> #[trigger] self.tile_at(x, y)
                            != TileType::Floor,
                decreases SECTION_SIZE - y_offset,
            {
                let x = x0 + x_offset;
                let y = y0 + y_offset;
                let idx = self.xy_idx(x, y);
                if self.tiles[idx] == TileType::Floor {
                    assert(in_section(section_x as int, section_y as int, x as int, y as int)
                        && self.tile_at(x as int, y as int) == TileType::Floor);
                    return Some((x, y));
                }
                y_offset = y_offset + 1;
            }
            x_offset = x_offset + 1;
        }
        None
    }

    /// Whether the tile at index `idx` blocks sight, that is, is a wall.
    pub fn is_opaque(&self, idx: usize) -> (r: bool)
        requires
            idx < self.tiles@.len(),
        ensures
            r == (self.tiles@[idx as int] == TileType::Wall),
    {
        self.tiles[idx] == TileType::Wall
    }
}

/// Coordinate inverse law: on a well-formed map, converting a valid coordinate
/// to its index and back gives the coordinate again.
pub proof fn lemma_xy_idx_round_trip(map: GameMap, x: int, y: int)
    requires
        map.wf(),
        map.in_bounds(x, y),
    ensures
        coord_of(map.width as int, index_of(map.width as int, x, y)) == (x, y),
{
    lemma_coordinate_inverse(map.width as int, map.height as int, x, y);
}

} // verus!
