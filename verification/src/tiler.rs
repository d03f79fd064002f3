//! The grid that cuts one source image into per-key tiles: so many rows and
//! columns of equal tiles, with a fixed gap between neighbours. The grid
//! only computes where the tiles lie; cropping the pixels is the codec's
//! work.

use vstd::prelude::*;
use vstd::arithmetic::div_mod::{lemma_fundamental_div_mod, lemma_fundamental_div_mod_converse};
use vstd::arithmetic::mul::lemma_mul_is_distributive_add;
use crate::engine::{ImageEngine, after_init, after_teardown};
use crate::text::{numbered, numbered_name};

verus! {

/// The number of rows of the default grid.
pub const DEFAULT_ROWS: usize = 3;

/// The number of columns of the default grid.
pub const DEFAULT_COLUMNS: usize = 6;

/// The gap between neighbouring tiles of the default grid.
pub const DEFAULT_GAP: usize = 40;

/// One tile as a mathematical value.
pub struct Region {
    /// The position of the tile in row-major order.
    pub index: int,
    /// The distance of the tile from the left edge of the source.
    pub x: int,
    /// The distance of the tile from the top edge of the source.
    pub y: int,
    /// The width of the tile.
    pub width: int,
    /// The height of the tile.
    pub height: int,
}

/// One tile: the rectangle of the source image that goes to one key.
#[derive(Clone, Copy, Debug, PartialEq, Eq, Structural)]
pub struct Tile {
    /// The position of the tile in row-major order.
    pub index: usize,
    /// The distance of the tile from the left edge of the source.
    pub x: usize,
    /// The distance of the tile from the top edge of the source.
    pub y: usize,
    /// The width of the tile.
    pub width: usize,
    /// The height of the tile.
    pub height: usize,
}

impl View for Tile {
    type V = Region;

    open spec fn view(&self) -> Region {
        Region {
            index: self.index as int,
            x: self.x as int,
            y: self.y as int,
            width: self.width as int,
            height: self.height as int,
        }
    }
}

/// Why a source image cannot be cut by a grid.
#[derive(Clone, Copy, Debug, PartialEq, Eq, Structural)]
pub enum ImageError {
    /// The source is not wide enough for the columns and the gaps between
    /// them.
    TooNarrow,
    /// The source is not high enough for the rows and the gaps between them.
    TooShort,
}

/// Whether `count` tiles of at least one pixel, with a gap between
/// neighbours, fit into `source` pixels.
pub open spec fn fits(source: int, gap: int, count: int) -> bool {
    source >= count + gap * (count - 1)
}

/// The size of one of `count` equal tiles cut from `source` pixels with a
/// gap between neighbours. The division truncates: pixels that are left over
/// stay unused at the far edge.
pub open spec fn extent(source: int, gap: int, count: int) -> int {
    (source - gap * (count - 1)) / count
}

/// Where the tile at position `k` along one axis begins.
pub open spec fn origin(extent: int, gap: int, k: int) -> int {
    k * (extent + gap)
}

/// A grid as a mathematical value.
pub struct Grid {
    /// The number of rows.
    pub rows: int,
    /// The number of columns.
    pub columns: int,
    /// The gap between neighbouring tiles, in pixels.
    pub gap: int,
}

impl Grid {
    /// A grid has at least one row and one column, and no more tiles than can
    /// be counted.
    pub open spec fn wf(self) -> bool {
        &&& self.rows >= 1
        &&& self.columns >= 1
        &&& self.gap >= 0
        &&& self.rows * self.columns <= usize::MAX
    }

    /// The number of tiles.
    pub open spec fn tile_count(self) -> int {
        self.rows * self.columns
    }

    /// Whether a source of the given size can be cut by this grid.
    pub open spec fn accepts(self, width: int, height: int) -> bool {
        fits(width, self.gap, self.columns) && fits(height, self.gap, self.rows)
    }

    /// The tile at `index` in row-major order: row `index / columns`, column
    /// `index % columns`.
    pub open spec fn region(self, width: int, height: int, index: int) -> Region {
        let tile_width = extent(width, self.gap, self.columns);
        let tile_height = extent(height, self.gap, self.rows);
        Region {
            index,
            x: origin(tile_width, self.gap, index % self.columns),
            y: origin(tile_height, self.gap, index / self.columns),
            width: tile_width,
            height: tile_height,
        }
    }

    /// All tiles of a source of the given size, row by row, each row from
    /// left to right.
    pub open spec fn regions(self, width: int, height: int) -> Seq<Region> {
        Seq::new(self.tile_count() as nat, |index: int| self.region(width, height, index))
    }

    /// Why a source of the given size that cannot be cut is refused: for its
    /// width, where that does not suffice, otherwise for its height.
    pub open spec fn refusal(self, width: int, height: int) -> ImageError {
        if !fits(width, self.gap, self.columns) {
            ImageError::TooNarrow
        } else {
            ImageError::TooShort
        }
    }
}

/// The file a tile is kept in.
pub open spec fn tile_path(index: int) -> Seq<char> {
    numbered_name("assets/icons/tiles/tile_"@, index as nat, ".png"@)
}

impl Tile {
    /// Returns the file this tile is kept in, which is named by the position
    /// of the tile.
    pub fn cache_path(&self) -> (path: String)
        ensures
            path@ == tile_path(self@.index),
    {
        numbered("assets/icons/tiles/tile_", self.index, ".png")
    }
}

/// A grid layout for the images of a deck.
#[derive(Clone, Copy, Debug, PartialEq, Eq)]
pub struct DeckImage {
    columns: usize,
    rows: usize,
    gap: usize,
}

impl View for DeckImage {
    type V = Grid;

    closed spec fn view(&self) -> Grid {
        Grid { rows: self.rows as int, columns: self.columns as int, gap: self.gap as int }
    }
}

/// The default grid: three rows of six tiles, forty pixels apart.
pub open spec fn default_grid() -> Grid {
    Grid { rows: DEFAULT_ROWS as int, columns: DEFAULT_COLUMNS as int, gap: DEFAULT_GAP as int }
}

impl Default for DeckImage {
    /// The default grid.
    fn default() -> (grid: DeckImage)
        ensures
            grid@ == default_grid(),
            grid@.wf(),
    {
        DeckImage { columns: DEFAULT_COLUMNS, rows: DEFAULT_ROWS, gap: DEFAULT_GAP }
    }
}

/// The size of one of `count` tiles along one axis, if they fit.
fn tile_extent(source: usize, gap: usize, count: usize) -> (size: Option<usize>)
    requires
        count >= 1,
    ensures
        size is Some == fits(source as int, gap as int, count as int),
        size matches Some(e) ==> e == extent(source as int, gap as int, count as int) && e >= 1,
{
    let gaps: usize = match gap.checked_mul(count - 1) {
        Some(gaps) => gaps,
        None => {
            return None;
        },
    };
    if source < gaps {
        return None;
    }
    let room: usize = source - gaps;
    if room < count {
        return None;
    }
    proof {
        lemma_fundamental_div_mod(room as int, count as int);
        assert(room as int / count as int >= 1) by (nonlinear_arith)
            requires
                room >= count,
                count >= 1,
        ;
    }
    Some(room / count)
}

/// The tiles of one axis lie inside the source, and the origin of each can be
/// computed as the sum of two products that both stay within the source.
proof fn lemma_origin_within(source: int, gap: int, count: int, k: int)
    requires
        count >= 1,
        gap >= 0,
        fits(source, gap, count),
        0 <= k < count,
    ensures
        0 <= k * extent(source, gap, count) <= source,
        0 <= k * gap <= source,
        k * extent(source, gap, count) + k * gap == origin(extent(source, gap, count), gap, k),
        origin(extent(source, gap, count), gap, k) + extent(source, gap, count) <= source,
{
    let gaps = gap * (count - 1);
    let room = source - gaps;
    let e = extent(source, gap, count);
    assert(gaps >= 0) by (nonlinear_arith)
        requires
            gap >= 0,
            count >= 1,
            gaps == gap * (count - 1),
    ;
    lemma_fundamental_div_mod(room, count);
    assert(0 <= room % count < count) by (nonlinear_arith)
        requires
            count >= 1,
    ;
    assert(e >= 0 && count * e <= room) by (nonlinear_arith)
        requires
            room == count * e + room % count,
            0 <= room % count < count,
            room >= 0,
            count >= 1,
    ;
    assert(0 <= k * e <= (count - 1) * e) by (nonlinear_arith)
        requires
            0 <= k <= count - 1,
            e >= 0,
    ;
    assert(0 <= k * gap <= (count - 1) * gap) by (nonlinear_arith)
        requires
            0 <= k <= count - 1,
            gap >= 0,
    ;
    assert((count - 1) * gap == gaps) by (nonlinear_arith)
        requires
            gaps == gap * (count - 1),
    ;
    assert((count - 1) * e == count * e - e) by (nonlinear_arith);
    lemma_mul_is_distributive_add(k, e, gap);
}

/// The position of a tile in row-major order gives back its row and column.
proof fn lemma_row_major(columns: int, row: int, col: int)
    requires
        columns >= 1,
        0 <= row,
        0 <= col < columns,
    ensures
        (row * columns + col) / columns == row,
        (row * columns + col) % columns == col,
{
    lemma_fundamental_div_mod_converse(row * columns + col, columns, row, col);
}

/// A position inside the grid is smaller than the number of tiles.
proof fn lemma_index_in_grid(rows: int, columns: int, row: int, col: int)
    requires
        0 <= row < rows,
        0 <= col < columns,
    ensures
        0 <= row * columns,
        row * columns + col < rows * columns,
        (row + 1) * columns == row * columns + columns,
{
    assert(0 <= row * columns && (row + 1) * columns <= rows * columns && (row + 1) * columns
        == row * columns + columns) by (nonlinear_arith)
        requires
            0 <= row,
            row + 1 <= rows,
            columns >= 1,
    ;
}

impl DeckImage {
    #[verifier::type_invariant]
    spec fn inv(&self) -> bool {
        self@.wf()
    }

    /// Makes the default grid, and asks for the image engine to be up. The
    /// second part of the result says whether the caller has to start the
    /// engine now: it does when this is the first init of a fresh engine.
    pub fn new(engine: &mut ImageEngine) -> (made: (DeckImage, bool))
        ensures
            made.0@ == default_grid(),
            made.0@.wf(),
            made.1 == (old(engine)@ is Fresh),
            final(engine)@ == after_init(old(engine)@),
    {
        let start: bool = engine.init();
        (DeckImage::default(), start)
    }

    /// Makes a grid of `rows` by `columns` tiles with `gap` pixels between
    /// neighbours. There is no grid without rows or columns, nor one with
    /// more tiles than `usize` can count.
    pub fn with_grid(rows: usize, columns: usize, gap: usize) -> (made: Option<DeckImage>)
        ensures
            made is Some == (rows >= 1 && columns >= 1 && rows * columns <= usize::MAX),
            made matches Some(grid) ==> grid@ == (Grid {
                rows: rows as int,
                columns: columns as int,
                gap: gap as int,
            }) && grid@.wf(),
    {
        if rows == 0 || columns == 0 {
            return None;
        }
        match rows.checked_mul(columns) {
            Some(_) => Some(DeckImage { columns, rows, gap }),
            None => None,
        }
    }

    /// Returns the number of rows.
    pub fn rows(&self) -> (rows: usize)
        ensures
            rows == self@.rows,
            self@.wf(),
    {
        proof {
            use_type_invariant(self);
        }
        self.rows
    }

    /// Returns the number of columns.
    pub fn columns(&self) -> (columns: usize)
        ensures
            columns == self@.columns,
            self@.wf(),
    {
        proof {
            use_type_invariant(self);
        }
        self.columns
    }

    /// Returns the gap between neighbouring tiles.
    pub fn gap(&self) -> (gap: usize)
        ensures
            gap == self@.gap,
            self@.wf(),
    {
        proof {
            use_type_invariant(self);
        }
        self.gap
    }

    /// Cuts a source image of `width` by `height` pixels into the tiles of
    /// the grid and returns them in row-major order: the first row from left
    /// to right, then the second, and so on.
    ///
    /// All tiles have the same size, `(width - gap * (columns - 1)) /
    /// columns` by `(height - gap * (rows - 1)) / rows`, and the tile in row
    /// `r` and column `c` begins at `(c * (tile_width + gap), r *
    /// (tile_height + gap))`. The divisions truncate, and what is left over
    /// at the right and bottom edge of the source belongs to no tile.
    ///
    /// A source too small to give every tile at least one pixel is refused:
    /// `TooNarrow` where the width does not suffice, otherwise `TooShort`.
    pub fn crop_grid(&self, width: usize, height: usize) -> (cut: Result<Vec<Tile>, ImageError>)
        ensures
            self@.wf(),
            cut is Ok == self@.accepts(width as int, height as int),
            cut matches Ok(tiles) ==> tiles@.len() == self@.tile_count() && forall|i: int|
                0 <= i < tiles@.len() ==> (#[trigger] tiles@[i])@ == self@.region(
                    width as int,
                    height as int,
                    i,
                ),
            cut matches Err(error) ==> error == self@.refusal(width as int, height as int),
    {
        proof {
            use_type_invariant(self);
        }
        let tile_width: usize = match tile_extent(width, self.gap, self.columns) {
            Some(size) => size,
            None => {
                return Err(ImageError::TooNarrow);
            },
        };
        let tile_height: usize = match tile_extent(height, self.gap, self.rows) {
            Some(size) => size,
            None => {
                return Err(ImageError::TooShort);
            },
        };
        let ghost grid = self@;
        let ghost w = width as int;
        let ghost h = height as int;
        let mut tiles: Vec<Tile> = Vec::new();
        let mut idx: usize = 0;
        let mut row: usize = 0;
        while row < self.rows
            invariant
                grid == self@,
                grid.wf(),
                w == width,
                h == height,
                grid.accepts(w, h),
                tile_width == extent(w, grid.gap, grid.columns),
                tile_height == extent(h, grid.gap, grid.rows),
                0 <= row <= self.rows,
                idx == row * grid.columns,
                tiles@.len() == idx,
                forall|i: int| 0 <= i < idx ==> (#[trigger] tiles@[i])@ == grid.region(w, h, i),
            decreases self.rows - row,
        {
            let mut col: usize = 0;
            while col < self.columns
                invariant
                    grid == self@,
                    grid.wf(),
                    w == width,
                    h == height,
                    grid.accepts(w, h),
                    tile_width == extent(w, grid.gap, grid.columns),
                    tile_height == extent(h, grid.gap, grid.rows),
                    0 <= row < self.rows,
                    0 <= col <= self.columns,
                    idx == row * grid.columns + col,
                    tiles@.len() == idx,
                    forall|i: int|
                        0 <= i < idx ==> (#[trigger] tiles@[i])@ == grid.region(w, h, i),
                decreases self.columns - col,
            {
                proof {
                    lemma_origin_within(w, grid.gap, grid.columns, col as int);
                    lemma_origin_within(h, grid.gap, grid.rows, row as int);
                    lemma_row_major(grid.columns, row as int, col as int);
                    lemma_index_in_grid(grid.rows, grid.columns, row as int, col as int);
                }
                let x: usize = col * tile_width + col * self.gap;
                let y: usize = row * tile_height + row * self.gap;
                tiles.push(Tile { index: idx, x, y, width: tile_width, height: tile_height });
                idx = idx + 1;
                col = col + 1;
            }
            proof {
                lemma_index_in_grid(grid.rows, grid.columns, row as int, 0);
            }
            row = row + 1;
        }
        Ok(tiles)
    }

    /// Asks for the image engine to be down, once the grid is no longer
    /// needed. Returns whether the caller has to stop the engine now: it does
    /// when this is the first teardown of a running engine.
    pub fn shutdown(&self, engine: &mut ImageEngine) -> (stop: bool)
        ensures
            stop == (old(engine)@ is Running),
            final(engine)@ == after_teardown(old(engine)@),
    {
        engine.teardown()
    }
}

/// Every grid cuts every source that leaves each tile a pixel into one tile
/// per cell, in row-major order, all of the same truncated size: the tile of
/// row `row` and column `col` is the one at `row * columns + col`.
pub proof fn lemma_cut_covers_grid(grid: Grid, width: int, height: int)
    requires
        grid.wf(),
        grid.accepts(width, height),
    ensures
        grid.regions(width, height).len() == grid.rows * grid.columns,
        forall|row: int, col: int|
            0 <= row < grid.rows && 0 <= col < grid.columns ==> {
                let tile = #[trigger] grid.regions(width, height)[row * grid.columns + col];
                &&& tile.index == row * grid.columns + col
                &&& tile.width == (width - grid.gap * (grid.columns - 1)) / grid.columns
                &&& tile.height == (height - grid.gap * (grid.rows - 1)) / grid.rows
                &&& tile.x == col * (tile.width + grid.gap)
                &&& tile.y == row * (tile.height + grid.gap)
            },
{
    assert forall|row: int, col: int|
        0 <= row < grid.rows && 0 <= col < grid.columns implies {
        let tile = #[trigger] grid.regions(width, height)[row * grid.columns + col];
        &&& tile.index == row * grid.columns + col
        &&& tile.width == (width - grid.gap * (grid.columns - 1)) / grid.columns
        &&& tile.height == (height - grid.gap * (grid.rows - 1)) / grid.rows
        &&& tile.x == col * (tile.width + grid.gap)
        &&& tile.y == row * (tile.height + grid.gap)
    } by {
        lemma_row_major(grid.columns, row, col);
        lemma_index_in_grid(grid.rows, grid.columns, row, col);
    }
}

/// The tiles of a cut lie inside the source and have at least one pixel.
pub proof fn lemma_tiles_inside_source(grid: Grid, width: int, height: int, index: int)
    requires
        grid.wf(),
        grid.accepts(width, height),
        0 <= index < grid.tile_count(),
    ensures
        grid.region(width, height, index).width >= 1,
        grid.region(width, height, index).height >= 1,
        0 <= grid.region(width, height, index).x,
        0 <= grid.region(width, height, index).y,
        grid.region(width, height, index).x + grid.region(width, height, index).width <= width,
        grid.region(width, height, index).y + grid.region(width, height, index).height <= height,
{
    let col = index % grid.columns;
    let row = index / grid.columns;
    lemma_fundamental_div_mod(index, grid.columns);
    assert(0 <= col < grid.columns) by (nonlinear_arith)
        requires
            col == index % grid.columns,
            grid.columns >= 1,
    ;
    assert(0 <= row < grid.rows) by (nonlinear_arith)
        requires
            index == grid.columns * row + col,
            0 <= col < grid.columns,
            0 <= index < grid.rows * grid.columns,
            grid.columns >= 1,
    ;
    lemma_origin_within(width, grid.gap, grid.columns, col);
    lemma_origin_within(height, grid.gap, grid.rows, row);
    lemma_extent_positive(width, grid.gap, grid.columns);
    lemma_extent_positive(height, grid.gap, grid.rows);
}

/// Where the tiles fit, each has at least one pixel.
proof fn lemma_extent_positive(source: int, gap: int, count: int)
    requires
        count >= 1,
        gap >= 0,
        fits(source, gap, count),
    ensures
        extent(source, gap, count) >= 1,
{
    let room = source - gap * (count - 1);
    lemma_fundamental_div_mod(room, count);
    assert(room / count >= 1) by (nonlinear_arith)
        requires
            room >= count,
            count >= 1,
    ;
}

} // verus!
