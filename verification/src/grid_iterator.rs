//! Grid iterators.
//!
//! A pyramid of tiles is walked level by level, lowest zoom first. Within a
//! level the columns are walked in ascending order, and within a column the
//! rows: `y` runs fastest, then `x`, then `z`.

use crate::grid::{lemma_cells_zero, ExtentInt};
use vstd::arithmetic::div_mod::lemma_fundamental_div_mod_converse;
use vstd::prelude::*;

verus! {

/// Cell index `(z, x, y)`.
pub type TileIndex = (u8, u32, u32);

/// The `i`-th tile of a level in scanline order.
pub open spec fn level_tile(z: u8, e: ExtentInt, i: int) -> TileIndex {
    (z, (e.minx + i / (e.rows() as int)) as u32, (e.miny + i % (e.rows() as int)) as u32)
}

/// The tiles of one level in scanline order: column by column, each column
/// from its lowest row to its highest.
pub open spec fn level_tiles(z: u8, e: ExtentInt) -> Seq<TileIndex> {
    Seq::new(e.cells(), |i: int| level_tile(z, e, i))
}

/// The tiles of the levels `lo` to `hi - 1`, level after level.
pub open spec fn levels_tiles(limits: Seq<ExtentInt>, lo: int, hi: int) -> Seq<TileIndex>
    decreases hi - lo,
{
    if lo >= hi {
        Seq::empty()
    } else {
        level_tiles(lo as u8, limits[lo]) + levels_tiles(limits, lo + 1, hi)
    }
}

/// The tiles of a pyramid from zoom `minz` to zoom `maxz`, both included,
/// where `limits` holds the tile range of each zoom level, indexed by zoom.
///
/// The pyramid is empty where `minz` is above `maxz`, and where `limits` has
/// no entry for `maxz`.
pub open spec fn pyramid_tiles(minz: u8, maxz: u8, limits: Seq<ExtentInt>) -> Seq<TileIndex> {
    if minz <= maxz && maxz < limits.len() {
        levels_tiles(limits, minz as int, maxz + 1)
    } else {
        Seq::empty()
    }
}

/// The number of cells of the levels `lo` to `hi - 1`.
pub open spec fn levels_cells(limits: Seq<ExtentInt>, lo: int, hi: int) -> nat
    decreases hi - lo,
{
    if lo >= hi {
        0
    } else {
        limits[lo].cells() + levels_cells(limits, lo + 1, hi)
    }
}

/// The number of cells of a pyramid: the sum over its levels of columns
/// times rows.
pub open spec fn pyramid_cells(minz: u8, maxz: u8, limits: Seq<ExtentInt>) -> nat {
    if minz <= maxz && maxz < limits.len() {
        levels_cells(limits, minz as int, maxz + 1)
    } else {
        0
    }
}

/// The walk of some levels has as many tiles as the levels have cells.
pub proof fn lemma_levels_count(limits: Seq<ExtentInt>, lo: int, hi: int)
    ensures
        levels_tiles(limits, lo, hi).len() == levels_cells(limits, lo, hi),
    decreases hi - lo,
{
    if lo < hi {
        lemma_levels_count(limits, lo + 1, hi);
    }
}

/// The walk of a pyramid has as many tiles as the sum, over its levels, of
/// `(maxx - minx) * (maxy - miny)`.
pub proof fn lemma_pyramid_count(minz: u8, maxz: u8, limits: Seq<ExtentInt>)
    ensures
        pyramid_tiles(minz, maxz, limits).len() == pyramid_cells(minz, maxz, limits),
{
    if minz <= maxz && maxz < limits.len() {
        lemma_levels_count(limits, minz as int, maxz + 1);
    }
}

/// The largest number of tiles of a pyramid: 256 levels of `u32::MAX` columns
/// and as many rows.
pub open spec fn max_pyramid_cells() -> nat {
    256 * (0xffff_ffff * 0xffff_ffff)
}

proof fn lemma_levels_bound(limits: Seq<ExtentInt>, lo: int, hi: int)
    requires
        lo <= hi,
    ensures
        levels_cells(limits, lo, hi) <= (hi - lo) * (0xffff_ffff * 0xffff_ffff),
    decreases hi - lo,
{
    if lo < hi {
        lemma_levels_bound(limits, lo + 1, hi);
        lemma_cells_zero(limits[lo]);
        assert((hi - lo) * (0xffff_ffff * 0xffff_ffff) == (hi - (lo + 1)) * (0xffff_ffff
            * 0xffff_ffff) + 0xffff_ffff * 0xffff_ffff) by (nonlinear_arith);
    }
}

/// No pyramid has more tiles than `max_pyramid_cells`, which is below
/// `2^72`.
pub proof fn lemma_pyramid_bound(minz: u8, maxz: u8, limits: Seq<ExtentInt>)
    ensures
        pyramid_tiles(minz, maxz, limits).len() <= max_pyramid_cells(),
        max_pyramid_cells() < 0x1_00_0000_0000_0000_0000,
{
    lemma_pyramid_count(minz, maxz, limits);
    if minz <= maxz && maxz < limits.len() {
        lemma_levels_bound(limits, minz as int, maxz + 1);
        assert((maxz + 1 - minz) * (0xffff_ffff * 0xffff_ffff) <= 256 * (0xffff_ffff
            * 0xffff_ffff)) by (nonlinear_arith)
            requires
                maxz + 1 - minz <= 256,
        ;
    }
}

/// A pyramid whose lowest zoom is above its highest has no tiles.
pub proof fn lemma_crossed_zooms_empty(minz: u8, maxz: u8, limits: Seq<ExtentInt>)
    requires
        minz > maxz,
    ensures
        pyramid_tiles(minz, maxz, limits) == Seq::<TileIndex>::empty(),
        pyramid_cells(minz, maxz, limits) == 0,
{
}

/// Where in a level's walk the tile `(x, y)` stands, and that it stands
/// there.
proof fn lemma_level_offset(z: u8, e: ExtentInt, x: u32, y: u32)
    requires
        e.minx <= x < e.maxx,
        e.miny <= y < e.maxy,
    ensures
        0 <= (x - e.minx) * e.rows() + (y - e.miny) < e.cells(),
        level_tiles(z, e)[(x - e.minx) * e.rows() + (y - e.miny)] == (z, x, y),
{
    let rows = e.rows() as int;
    let cols = e.columns() as int;
    let q = x - e.minx;
    let r = y - e.miny;
    let off = q * rows + r;
    assert(0 <= off < cols * rows) by (nonlinear_arith)
        requires
            0 <= q < cols,
            0 <= r < rows,
            off == q * rows + r,
    ;
    lemma_fundamental_div_mod_converse(off, rows, q, r);
}

/// Every tile of a level's walk lies within the level's range, and the walk
/// visits the tiles of the range in ascending order of `(x, y)`.
pub proof fn lemma_level_tiles_in_range(z: u8, e: ExtentInt, i: int)
    requires
        0 <= i < e.cells(),
    ensures
        level_tiles(z, e)[i].0 == z,
        e.minx <= level_tiles(z, e)[i].1 < e.maxx,
        e.miny <= level_tiles(z, e)[i].2 < e.maxy,
        (level_tiles(z, e)[i].1 - e.minx) * e.rows() + (level_tiles(z, e)[i].2 - e.miny) == i,
{
    let rows = e.rows() as int;
    let cols = e.columns() as int;
    lemma_cells_zero(e);
    assert(rows > 0 && cols > 0);
    let q = i / rows;
    let r = i % rows;
    vstd::arithmetic::div_mod::lemma_fundamental_div_mod(i, rows);
    assert(i == rows * q + r);
    assert(0 <= r < rows) by (nonlinear_arith)
        requires
            r == i % rows,
            rows > 0,
    ;
    assert(0 <= q < cols) by (nonlinear_arith)
        requires
            i == rows * q + r,
            0 <= r < rows,
            0 <= i < cols * rows,
            rows > 0,
    ;
    assert(q * rows + r == i) by (nonlinear_arith)
        requires
            i == rows * q + r,
    ;
}

/// The order of the walk: by zoom level, then by column, then by row.
pub open spec fn tile_before(a: TileIndex, b: TileIndex) -> bool {
    a.0 < b.0 || (a.0 == b.0 && (a.1 < b.1 || (a.1 == b.1 && a.2 < b.2)))
}

/// Within a level the walk goes on column by column, and row by row within
/// a column.
pub proof fn lemma_level_ascending(z: u8, e: ExtentInt, i: int, j: int)
    requires
        0 <= i < j < e.cells(),
    ensures
        tile_before(level_tiles(z, e)[i], level_tiles(z, e)[j]),
{
    lemma_level_tiles_in_range(z, e, i);
    lemma_level_tiles_in_range(z, e, j);
    let rows = e.rows() as int;
    let a = level_tiles(z, e)[i].1 - e.minx;
    let b = level_tiles(z, e)[i].2 - e.miny;
    let c = level_tiles(z, e)[j].1 - e.minx;
    let d = level_tiles(z, e)[j].2 - e.miny;
    assert(a <= c) by (nonlinear_arith)
        requires
            a * rows + b < c * rows + d,
            0 <= b < rows,
            0 <= d < rows,
    ;
}

/// The walk of the levels `lo` to `hi - 1` holds tiles of these levels
/// only.
pub proof fn lemma_levels_zoom(limits: Seq<ExtentInt>, lo: int, hi: int, i: int)
    requires
        0 <= lo <= hi <= 256,
        0 <= i < levels_tiles(limits, lo, hi).len(),
    ensures
        lo <= levels_tiles(limits, lo, hi)[i].0 < hi,
    decreases hi - lo,
{
    let first = level_tiles(lo as u8, limits[lo]);
    if i >= first.len() {
        lemma_levels_zoom(limits, lo + 1, hi, i - first.len());
    }
}

/// The walk of some levels goes on level by level, and within a level
/// column by column and row by row: of two tiles, the one that comes first
/// is the lower one in that order.
pub proof fn lemma_levels_ascending(limits: Seq<ExtentInt>, lo: int, hi: int, i: int, j: int)
    requires
        0 <= lo <= hi <= 256,
        0 <= i < j < levels_tiles(limits, lo, hi).len(),
    ensures
        tile_before(levels_tiles(limits, lo, hi)[i], levels_tiles(limits, lo, hi)[j]),
    decreases hi - lo,
{
    let first = level_tiles(lo as u8, limits[lo]);
    if j < first.len() {
        lemma_level_ascending(lo as u8, limits[lo], i, j);
    } else if i < first.len() {
        lemma_levels_zoom(limits, lo + 1, hi, j - first.len());
    } else {
        lemma_levels_ascending(limits, lo + 1, hi, i - first.len(), j - first.len());
    }
}

/// The walk of a pyramid is in ascending order of zoom level, column and
/// row. So it gives no tile twice, and it gives the tiles in the same
/// order whenever it is made.
pub proof fn lemma_pyramid_ascending(minz: u8, maxz: u8, limits: Seq<ExtentInt>, i: int, j: int)
    requires
        0 <= i < j < pyramid_tiles(minz, maxz, limits).len(),
    ensures
        tile_before(pyramid_tiles(minz, maxz, limits)[i], pyramid_tiles(minz, maxz, limits)[j]),
        pyramid_tiles(minz, maxz, limits)[i] != pyramid_tiles(minz, maxz, limits)[j],
{
    lemma_levels_ascending(limits, minz as int, maxz + 1, i, j);
}

/// Level-by-level iterator.
pub struct GridIterator {
    z: u8,
    x: u32,
    y: u32,
    minz: u8,
    maxz: u8,
    limits: Vec<ExtentInt>,
    finished: bool,
}

impl GridIterator {
    /// Until the walk has ended, the iterator stands on a tile of its level.
    pub closed spec fn wf(&self) -> bool {
        !self.finished ==> {
            &&& self.z <= self.maxz
            &&& self.maxz < self.limits@.len()
            &&& self.limits@[self.z as int].minx <= self.x < self.limits@[self.z as int].maxx
            &&& self.limits@[self.z as int].miny <= self.y < self.limits@[self.z as int].maxy
        }
    }

    spec fn offset(&self) -> int {
        let e = self.limits@[self.z as int];
        (self.x - e.minx) * e.rows() + (self.y - e.miny)
    }

    /// The whole walk: the tiles that the iterator gives from its start to
    /// its end, in order.
    pub closed spec fn walk(&self) -> Seq<TileIndex> {
        pyramid_tiles(self.minz, self.maxz, self.limits@)
    }

    /// The tiles that the iterator has yet to give, in order.
    pub closed spec fn remaining(&self) -> Seq<TileIndex> {
        if self.finished {
            Seq::empty()
        } else {
            level_tiles(self.z, self.limits@[self.z as int]).skip(self.offset()) + levels_tiles(
                self.limits@,
                self.z + 1,
                self.maxz + 1,
            )
        }
    }

    /// Moves to the first tile of the first level from `from` on that has
    /// one.
    fn seek(&mut self, from: u8)
        requires
            from <= old(self).maxz,
            old(self).maxz < old(self).limits@.len(),
        ensures
            final(self).wf(),
            final(self).limits == old(self).limits,
            final(self).minz == old(self).minz,
            final(self).maxz == old(self).maxz,
            final(self).remaining() == levels_tiles(
                old(self).limits@,
                from as int,
                old(self).maxz + 1,
            ),
    {
        let mut z: u8 = from;
        loop
            invariant
                from <= z <= self.maxz,
                self.maxz < self.limits@.len(),
                self.limits == old(self).limits,
                self.minz == old(self).minz,
                self.maxz == old(self).maxz,
                levels_tiles(self.limits@, from as int, self.maxz + 1) == levels_tiles(
                    self.limits@,
                    z as int,
                    self.maxz + 1,
                ),
            decreases self.maxz - z,
        {
            let level: ExtentInt = self.limits[z as usize];
            proof {
                lemma_cells_zero(level);
            }
            if !level.is_empty() {
                self.z = z;
                self.x = level.minx;
                self.y = level.miny;
                self.finished = false;
                proof {
                    assert(self.offset() == 0) by (nonlinear_arith)
                        requires
                            self.offset() == (self.x - level.minx) * level.rows() + (self.y
                                - level.miny),
                            self.x == level.minx,
                            self.y == level.miny,
                    ;
                    assert(level_tiles(z, level).skip(0) =~= level_tiles(z, level));
                }
                return ;
            }
            proof {
                assert(level_tiles(z, level) =~= Seq::<TileIndex>::empty());
                assert(levels_tiles(self.limits@, z as int, self.maxz + 1) =~= levels_tiles(
                    self.limits@,
                    z + 1,
                    self.maxz + 1,
                ));
            }
            if z == self.maxz {
                self.finished = true;
                return ;
            }
            z = z + 1;
        }
    }

    /// An iterator over the pyramid from zoom `minz` to zoom `maxz`, with
    /// the tile range of each zoom level in `limits`, indexed by zoom.
    ///
    /// Where `minz` is above `maxz`, or `limits` has no entry for `maxz`,
    /// the iterator gives nothing.
    pub fn new(minz: u8, maxz: u8, limits: Vec<ExtentInt>) -> (it: GridIterator)
        ensures
            it.wf(),
            it.walk() == pyramid_tiles(minz, maxz, limits@),
            it.remaining() == it.walk(),
    {
        let mut it = GridIterator { z: 0, x: 0, y: 0, minz, maxz, limits, finished: true };
        it.restart();
        it
    }

    /// Goes back to the start of the walk.
    pub fn restart(&mut self)
        ensures
            final(self).wf(),
            final(self).walk() == old(self).walk(),
            final(self).remaining() == old(self).walk(),
    {
        if self.minz <= self.maxz && (self.maxz as usize) < self.limits.len() {
            let from: u8 = self.minz;
            self.seek(from);
        } else {
            self.finished = true;
        }
    }

    /// Gives the next tile of the walk and moves on, or `None` once the walk
    /// has ended.
    pub fn next(&mut self) -> (r: Option<TileIndex>)
        requires
            old(self).wf(),
        ensures
            final(self).wf(),
            final(self).walk() == old(self).walk(),
            old(self).remaining().len() == 0 ==> r is None && final(self).remaining() == old(
                self,
            ).remaining(),
            old(self).remaining().len() > 0 ==> r == Some(old(self).remaining()[0])
                && final(self).remaining() == old(self).remaining().skip(1),
    {
        if self.finished {
            return None;
        }
        let current: TileIndex = (self.z, self.x, self.y);
        let level: ExtentInt = self.limits[self.z as usize];
        let ghost walk = level_tiles(self.z, level);
        let ghost rest = levels_tiles(self.limits@, self.z + 1, self.maxz + 1);
        let ghost off = self.offset();
        proof {
            lemma_level_offset(self.z, level, self.x, self.y);
            assert(old(self).remaining() == walk.skip(off) + rest);
            assert(old(self).remaining()[0] == current);
            assert(old(self).remaining().skip(1) =~= walk.skip(off + 1) + rest);
        }
        if self.y < level.maxy - 1 {
            self.y = self.y + 1;
            proof {
                assert(self.offset() == off + 1) by (nonlinear_arith)
                    requires
                        self.offset() == (self.x - level.minx) * level.rows() + (self.y
                            - level.miny),
                        off == (self.x - level.minx) * level.rows() + (self.y - 1 - level.miny),
                ;
            }
        } else if self.x < level.maxx - 1 {
            self.x = self.x + 1;
            self.y = level.miny;
            proof {
                assert(self.offset() == off + 1) by (nonlinear_arith)
                    requires
                        self.offset() == (self.x - level.minx) * level.rows() + (self.y
                            - level.miny),
                        off == (self.x - 1 - level.minx) * level.rows() + (level.rows() - 1),
                        self.y == level.miny,
                ;
            }
        } else {
            proof {
                assert(off + 1 == level.cells()) by (nonlinear_arith)
                    requires
                        off == (level.columns() - 1) * level.rows() + (level.rows() - 1),
                        level.cells() == level.columns() * level.rows(),
                ;
                assert(walk.skip(off + 1) =~= Seq::<TileIndex>::empty());
                assert(walk.skip(off + 1) + rest =~= rest);
            }
            if self.z < self.maxz {
                let up: u8 = self.z + 1;
                self.seek(up);
            } else {
                self.finished = true;
            }
        }
        Some(current)
    }
}

} // verus!
