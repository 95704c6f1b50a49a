//! Tile index arithmetic of a tile grid.
//!
//! A grid cuts its extent into tiles, level by level. What a level needs from
//! projected coordinates is computed elsewhere and enters this module as
//! integers: the number of tile columns and rows of each level, and the
//! rounded tile coordinates of a query's corners. Everything that is decided
//! on those integers is decided here.

use vstd::prelude::*;

verus! {

/// Min and max grid cell numbers of one zoom level.
///
/// `minx` and `miny` are inclusive, `maxx` and `maxy` exclusive.
#[derive(PartialEq, Eq, Structural, Clone, Copy, Debug)]
pub struct ExtentInt {
    pub minx: u32,
    pub miny: u32,
    pub maxx: u32,
    pub maxy: u32,
}

/// Max grid cell numbers `(maxx, maxy)` of one zoom level.
pub type CellIndex = (u32, u32);

/// Grid origin.
#[derive(PartialEq, Eq, Structural, Clone, Copy, Debug)]
pub enum Origin {
    TopLeft,
    BottomLeft,
}

/// Grid units.
#[derive(PartialEq, Eq, Structural, Clone, Copy, Debug)]
pub enum Unit {
    Meters,
    Degrees,
    Feet,
}

/// Rounded tile coordinates of a query's corners at one zoom level, before
/// any tolerance is applied and before they are cut to the level.
///
/// `minx` and `miny` are the floors of the lower corner's tile coordinates,
/// `maxx` and `maxy` the ceilings of the upper corner's.
#[derive(PartialEq, Eq, Structural, Clone, Copy, Debug)]
pub struct RawLimits {
    pub minx: i32,
    pub miny: i32,
    pub maxx: i32,
    pub maxy: i32,
}

impl ExtentInt {
    /// Number of columns in the range, zero where the bounds are crossed.
    pub open spec fn columns(self) -> nat {
        if self.minx < self.maxx {
            (self.maxx - self.minx) as nat
        } else {
            0
        }
    }

    /// Number of rows in the range, zero where the bounds are crossed.
    pub open spec fn rows(self) -> nat {
        if self.miny < self.maxy {
            (self.maxy - self.miny) as nat
        } else {
            0
        }
    }

    /// Number of cells in the range.
    pub open spec fn cells(self) -> nat {
        self.columns() * self.rows()
    }

    /// True if the range holds no cell.
    pub fn is_empty(&self) -> (r: bool)
        ensures
            r == (self.cells() == 0),
    {
        proof {
            lemma_cells_zero(*self);
        }
        self.minx >= self.maxx || self.miny >= self.maxy
    }
}

/// A range holds no cell exactly if it has no column or no row.
pub proof fn lemma_cells_zero(e: ExtentInt)
    ensures
        (e.cells() == 0) == (e.minx >= e.maxx || e.miny >= e.maxy),
        e.cells() <= 0xffff_ffff * 0xffff_ffff,
{
    let c = e.columns();
    let r = e.rows();
    if c > 0 && r > 0 {
        assert(c * r > 0) by (nonlinear_arith)
            requires
                c > 0,
                r > 0,
        ;
    } else {
        assert(c * r == 0) by (nonlinear_arith)
            requires
                c == 0 || r == 0,
        ;
    }
    assert(c * r <= 0xffff_ffff * 0xffff_ffff) by (nonlinear_arith)
        requires
            c <= 0xffff_ffff,
            r <= 0xffff_ffff,
    ;
}

/// The lower bound of a tile range: the rounded coordinate widened by the
/// tolerance, and not below zero.
pub open spec fn lower_limit(raw: int, tolerance: int) -> int {
    if raw - tolerance < 0 {
        0
    } else {
        raw - tolerance
    }
}

/// The upper bound of a tile range: the rounded coordinate widened by the
/// tolerance, not above the level's tile count and not below zero.
pub open spec fn upper_limit(raw: int, tolerance: int, level_max: int) -> int {
    if raw + tolerance > level_max {
        level_max
    } else if raw + tolerance < 0 {
        0
    } else {
        raw + tolerance
    }
}

/// The tile range of a query at one level: each rounded corner coordinate
/// widened by `tolerance`, the lower bounds cut at zero, the upper bounds
/// cut at the level's tile counts.
pub open spec fn level_limits(raw: RawLimits, tolerance: int, level_max: CellIndex) -> ExtentInt {
    ExtentInt {
        minx: lower_limit(raw.minx as int, tolerance) as u32,
        miny: lower_limit(raw.miny as int, tolerance) as u32,
        maxx: upper_limit(raw.maxx as int, tolerance, level_max.0 as int) as u32,
        maxy: upper_limit(raw.maxy as int, tolerance, level_max.1 as int) as u32,
    }
}

fn lower_bound(raw: i32, tolerance: i32) -> (r: u32)
    ensures
        r == lower_limit(raw as int, tolerance as int),
{
    let wide: i64 = raw as i64 - tolerance as i64;
    if wide < 0 {
        0
    } else {
        wide as u32
    }
}

fn upper_bound(raw: i32, tolerance: i32, level_max: u32) -> (r: u32)
    ensures
        r == upper_limit(raw as int, tolerance as int, level_max as int),
        r <= level_max,
{
    let wide: i64 = raw as i64 + tolerance as i64;
    if wide > level_max as i64 {
        level_max
    } else if wide < 0 {
        0
    } else {
        wide as u32
    }
}

/// Cuts the rounded corner coordinates of a query to the tiles of one level.
pub fn clamp_limits(raw: RawLimits, tolerance: i32, level_max: CellIndex) -> (r: ExtentInt)
    ensures
        r == level_limits(raw, tolerance as int, level_max),
        r.maxx <= level_max.0,
        r.maxy <= level_max.1,
{
    ExtentInt {
        minx: lower_bound(raw.minx, tolerance),
        miny: lower_bound(raw.miny, tolerance),
        maxx: upper_bound(raw.maxx, tolerance, level_max.0),
        maxy: upper_bound(raw.maxy, tolerance, level_max.1),
    }
}

/// A query that reaches from the first tile of a level to its last one, or
/// beyond on either side, is cut to exactly the level: `(0, 0)` to the
/// level's tile counts. For a level of one tile that is the root tile
/// `{0, 0, 1, 1}`.
pub proof fn lemma_covering_query_yields_level(raw: RawLimits, tolerance: int, level_max: CellIndex)
    requires
        raw.minx - tolerance <= 0,
        raw.miny - tolerance <= 0,
        raw.maxx + tolerance >= level_max.0,
        raw.maxy + tolerance >= level_max.1,
    ensures
        level_limits(raw, tolerance, level_max) == (ExtentInt {
            minx: 0,
            miny: 0,
            maxx: level_max.0,
            maxy: level_max.1,
        }),
{
}

/// Whatever the query, its tile range at a level lies within the level.
pub proof fn lemma_limits_within_level(raw: RawLimits, tolerance: int, level_max: CellIndex)
    requires
        i32::MIN <= tolerance <= i32::MAX,
    ensures
        level_limits(raw, tolerance, level_max).maxx <= level_max.0,
        level_limits(raw, tolerance, level_max).maxy <= level_max.1,
        level_limits(raw, tolerance, level_max).minx == lower_limit(raw.minx as int, tolerance),
        level_limits(raw, tolerance, level_max).miny == lower_limit(raw.miny as int, tolerance),
{
}

/// The row of the grid that a row in XYZ addressing names, at a level of
/// `maxy` rows: counted from the other end, and row zero for a row beyond
/// the level.
pub open spec fn flipped_row(maxy: int, ytile: int) -> int {
    if ytile < maxy {
        maxy - ytile - 1
    } else {
        0
    }
}

/// The tile counts of a grid, level by level: what remains of a grid once
/// its extent and resolutions have been turned into tile numbers.
#[derive(Debug)]
pub struct GridLevels {
    level_max: Vec<CellIndex>,
}

impl View for GridLevels {
    type V = Seq<CellIndex>;

    closed spec fn view(&self) -> Seq<CellIndex> {
        self.level_max@
    }
}

impl GridLevels {
    /// A grid has at most 255 levels, so that their number is a `u8`.
    #[verifier::type_invariant]
    spec fn few_levels(&self) -> bool {
        self.level_max@.len() <= u8::MAX
    }

    /// Takes the tile counts `(maxx, maxy)` of each level, lowest zoom
    /// first. `None` if there are more than 255 of them.
    pub fn new(level_max: Vec<CellIndex>) -> (r: Option<GridLevels>)
        ensures
            r is Some == (level_max@.len() <= u8::MAX),
            r matches Some(g) ==> g@ == level_max@,
    {
        if level_max.len() <= 255 {
            Some(GridLevels { level_max })
        } else {
            None
        }
    }

    /// Number of zoom levels.
    pub fn nlevels(&self) -> (n: u8)
        ensures
            n == self@.len(),
    {
        proof {
            use_type_invariant(self);
        }
        self.level_max.len() as u8
    }

    /// The highest zoom level.
    pub fn maxzoom(&self) -> (z: u8)
        requires
            self@.len() > 0,
        ensures
            z == self@.len() - 1,
    {
        self.nlevels() - 1
    }

    /// `(maxx, maxy)` of a grid level.
    pub fn level_max(&self, zoom: u8) -> (m: CellIndex)
        requires
            zoom < self@.len(),
        ensures
            m == self@[zoom as int],
    {
        self.level_max[zoom as usize]
    }

    /// Reverses a tile row of the XYZ addressing scheme into the grid's own.
    ///
    /// A row beyond the level is not wrapped around: it gives row zero.
    pub fn ytile_from_xyz(&self, ytile: u32, zoom: u8) -> (y: u32)
        requires
            zoom < self@.len(),
        ensures
            y == flipped_row(self@[zoom as int].1 as int, ytile as int),
    {
        let maxy: u32 = self.level_max[zoom as usize].1;
        maxy.saturating_sub(ytile).saturating_sub(1)
    }

    /// Tile index limits covering a query, one per level, lowest zoom first.
    ///
    /// `raw` holds the rounded corner coordinates of the query at each
    /// level. Each level's range is widened by `tolerance` and cut to the
    /// level, so it lies within the grid wherever the query does.
    pub fn tile_limits(&self, raw: &Vec<RawLimits>, tolerance: i32) -> (limits: Vec<ExtentInt>)
        requires
            raw@.len() == self@.len(),
        ensures
            limits@.len() == self@.len(),
            forall|z: int|
                0 <= z < self@.len() ==> #[trigger] limits@[z] == level_limits(
                    raw@[z],
                    tolerance as int,
                    self@[z],
                ),
            forall|z: int|
                0 <= z < self@.len() ==> (#[trigger] limits@[z]).maxx <= self@[z].0
                    && limits@[z].maxy <= self@[z].1,
    {
        let mut limits: Vec<ExtentInt> = Vec::new();
        let mut z: usize = 0;
        while z < self.level_max.len()
            invariant
                raw@.len() == self@.len(),
                self@ == self.level_max@,
                z <= self@.len(),
                limits@.len() == z,
                forall|k: int|
                    0 <= k < z ==> #[trigger] limits@[k] == level_limits(
                        raw@[k],
                        tolerance as int,
                        self@[k],
                    ),
                forall|k: int|
                    0 <= k < z ==> (#[trigger] limits@[k]).maxx <= self@[k].0
                        && limits@[k].maxy <= self@[k].1,
            decreases self@.len() - z,
        {
            let level: ExtentInt = clamp_limits(raw[z], tolerance, self.level_max[z]);
            limits.push(level);
            z = z + 1;
        }
        limits
    }
}

/// Within a level, XYZ row `y` is the grid's row `maxy - y - 1`. A row past
/// the level, up to the largest `u32`, gives the same row as the level's
/// last XYZ row `maxy - 1`: the grid's row zero.
pub proof fn lemma_flipped_row(maxy: u32, ytile: u32)
    ensures
        ytile < maxy ==> flipped_row(maxy as int, ytile as int) == maxy - ytile - 1,
        ytile >= maxy && maxy > 0 ==> flipped_row(maxy as int, ytile as int) == flipped_row(
            maxy as int,
            maxy - 1,
        ),
        maxy > 0 ==> flipped_row(maxy as int, u32::MAX as int) == flipped_row(
            maxy as int,
            maxy - 1,
        ),
        0 <= flipped_row(maxy as int, ytile as int),
        maxy > 0 ==> flipped_row(maxy as int, ytile as int) < maxy,
{
}

/// Reversing a row twice gives the row back, within a level.
pub proof fn lemma_flipped_row_involution(maxy: u32, ytile: u32)
    requires
        ytile < maxy,
    ensures
        flipped_row(maxy as int, flipped_row(maxy as int, ytile as int)) == ytile,
{
}

} // verus!
