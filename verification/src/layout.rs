//! Tile layout: an index buffer cut into tiles of 8×8 pixels.

use crate::error::{Axis, DimensionError};
use vstd::arithmetic::div_mod::{lemma_fundamental_div_mod, lemma_fundamental_div_mod_converse};
use vstd::prelude::*;
use vstd::seq_lib::{to_multiset_build, to_multiset_remove};

verus! {

/// The raster place of the pixel that stands at place `k` of the tiled
/// order, in an image `width` pixels wide. Tiles follow one another row by
/// row of tiles, and within a tile the pixels row by row.
pub open spec fn tile_source(k: int, width: int) -> int {
    let cols = width / 8;
    let tile = k / 64;
    let y = k % 64 / 8;
    let x = k % 8;
    (tile / cols * 8 + y) * width + tile % cols * 8 + x
}

/// The place in the tiled order of the pixel at raster place `p`.
pub open spec fn tile_target(p: int, width: int) -> int {
    let cols = width / 8;
    let row = p / width / 8;
    let col = p % width / 8;
    let y = p / width % 8;
    let x = p % width % 8;
    (row * cols + col) * 64 + y * 8 + x
}

/// A buffer in tiled order: as long as the raster buffer, with the pixel of
/// raster place `tile_source(k, width)` at place `k`.
pub open spec fn tiled<T>(data: Seq<T>, width: int) -> Seq<T> {
    Seq::new(data.len(), |k: int| data[tile_source(k, width)])
}

/// The number of tiles of an image whose sides are multiples of 8.
pub open spec fn tile_count(width: int, height: int) -> int {
    (width / 8) * (height / 8)
}

/// In an image `cols` tiles wide, pixel (`x`, `y`) of the tile in column
/// `col` of tile row `row` stands at tiled place
/// `(row * cols + col) * 64 + y * 8 + x` and at raster place
/// `(row * 8 + y) * width + col * 8 + x`, and each numbering leads from the
/// one place to the other.
pub proof fn lemma_tile_place(cols: int, row: int, col: int, y: int, x: int)
    requires
        0 <= row,
        0 <= col < cols,
        0 <= y < 8,
        0 <= x < 8,
    ensures
        tile_source((row * cols + col) * 64 + y * 8 + x, cols * 8) == (row * 8 + y) * (cols * 8)
            + col * 8 + x,
        tile_target((row * 8 + y) * (cols * 8) + col * 8 + x, cols * 8) == (row * cols + col) * 64
            + y * 8 + x,
{
    let width = cols * 8;
    let tile = row * cols + col;
    let k = tile * 64 + y * 8 + x;
    let p = (row * 8 + y) * width + col * 8 + x;
    lemma_fundamental_div_mod_converse(width, 8, cols, 0);
    lemma_fundamental_div_mod_converse(k, 64, tile, y * 8 + x);
    lemma_fundamental_div_mod_converse(y * 8 + x, 8, y, x);
    lemma_fundamental_div_mod_converse(k, 8, tile * 8 + y, x);
    lemma_fundamental_div_mod_converse(tile, cols, row, col);
    lemma_fundamental_div_mod_converse(p, width, row * 8 + y, col * 8 + x);
    lemma_fundamental_div_mod_converse(row * 8 + y, 8, row, y);
    lemma_fundamental_div_mod_converse(col * 8 + x, 8, col, x);
}

/// The raster place of a pixel of tile row `row` lies within an image of
/// `rows` rows of tiles, and so does its tiled place.
proof fn lemma_tile_bounds(cols: int, rows: int, row: int, col: int, y: int, x: int)
    requires
        0 <= row < rows,
        0 <= col < cols,
        0 <= y < 8,
        0 <= x < 8,
    ensures
        0 <= (row * 8 + y) * (cols * 8) + col * 8 + x < (cols * 8) * (rows * 8),
        0 <= (row * 8 + y) * (cols * 8),
        (row * 8 + y) * (cols * 8) + cols * 8 <= (cols * 8) * (rows * 8),
        0 <= (row * cols + col) * 64 + y * 8 + x < (cols * 8) * (rows * 8),
        0 <= row * cols,
        row * cols + cols <= cols * rows,
{
    assert((row * 8 + y) * (cols * 8) + cols * 8 <= (cols * 8) * (rows * 8) && 0 <= (row * 8 + y)
        * (cols * 8)) by (nonlinear_arith)
        requires
            0 <= row * 8 + y <= rows * 8 - 1,
            0 <= cols,
    ;
    assert(row * cols + cols <= cols * rows && 0 <= row * cols) by (nonlinear_arith)
        requires
            0 <= row <= rows - 1,
            0 <= cols,
    ;
    assert((cols * rows) * 64 == (cols * 8) * (rows * 8)) by (nonlinear_arith);
}

/// Within an image whose sides are multiples of 8, the tiled numbering sends
/// each place to a place of the image, and the raster numbering sends that
/// place back.
pub proof fn lemma_tile_source_inverts(k: int, width: int, height: int)
    requires
        0 <= width,
        0 <= height,
        width % 8 == 0,
        height % 8 == 0,
        0 <= k < width * height,
    ensures
        0 <= tile_source(k, width) < width * height,
        tile_target(tile_source(k, width), width) == k,
{
    let cols = width / 8;
    let rows = height / 8;
    lemma_fundamental_div_mod(width, 8);
    lemma_fundamental_div_mod(height, 8);
    assert(cols > 0 && rows > 0) by (nonlinear_arith)
        requires
            width == 8 * cols,
            height == 8 * rows,
            0 <= width,
            0 <= height,
            0 < width * height,
    ;
    assert(width * height == (cols * rows) * 64) by (nonlinear_arith)
        requires
            width == 8 * cols,
            height == 8 * rows,
    ;
    let tile = k / 64;
    let within = k % 64;
    lemma_fundamental_div_mod(k, 64);
    let row = tile / cols;
    let col = tile % cols;
    lemma_fundamental_div_mod(tile, cols);
    let y = within / 8;
    let x = within % 8;
    lemma_fundamental_div_mod(within, 8);
    assert(0 <= row < rows) by (nonlinear_arith)
        requires
            tile == cols * row + col,
            0 <= col < cols,
            0 <= tile < cols * rows,
    ;
    assert(tile == row * cols + col) by (nonlinear_arith)
        requires
            tile == cols * row + col,
    ;
    lemma_tile_place(cols, row, col, y, x);
    lemma_tile_bounds(cols, rows, row, col, y, x);
}

/// Within an image whose sides are multiples of 8, the raster numbering
/// sends each place to a place of the image, and the tiled numbering sends
/// that place back.
pub proof fn lemma_tile_target_inverts(p: int, width: int, height: int)
    requires
        0 <= width,
        0 <= height,
        width % 8 == 0,
        height % 8 == 0,
        0 <= p < width * height,
    ensures
        0 <= tile_target(p, width) < width * height,
        tile_source(tile_target(p, width), width) == p,
{
    let cols = width / 8;
    let rows = height / 8;
    lemma_fundamental_div_mod(width, 8);
    lemma_fundamental_div_mod(height, 8);
    assert(width > 0) by (nonlinear_arith)
        requires
            0 <= width,
            0 <= p < width * height,
    ;
    let py = p / width;
    let px = p % width;
    lemma_fundamental_div_mod(p, width);
    assert(0 <= py < height) by (nonlinear_arith)
        requires
            p == width * py + px,
            0 <= px < width,
            0 <= p < width * height,
    ;
    let row = py / 8;
    let y = py % 8;
    lemma_fundamental_div_mod(py, 8);
    let col = px / 8;
    let x = px % 8;
    lemma_fundamental_div_mod(px, 8);
    assert(p == (row * 8 + y) * (cols * 8) + col * 8 + x) by (nonlinear_arith)
        requires
            p == width * py + px,
            py == 8 * row + y,
            px == 8 * col + x,
            width == 8 * cols,
    ;
    lemma_tile_place(cols, row, col, y, x);
    lemma_tile_bounds(cols, rows, row, col, y, x);
    assert(width * height == (cols * 8) * (rows * 8)) by (nonlinear_arith)
        requires
            width == 8 * cols,
            height == 8 * rows,
    ;
}

/// A sequence read through a renumbering of its places that has an inverse
/// holds every value as often as the sequence itself.
pub proof fn lemma_renumbered_multiset<T>(
    s: Seq<T>,
    t: Seq<T>,
    f: spec_fn(int) -> int,
    g: spec_fn(int) -> int,
)
    requires
        t.len() == s.len(),
        forall|k: int|
            0 <= k < s.len() ==> 0 <= #[trigger] f(k) < s.len() && g(f(k)) == k && t[k] == s[f(k)],
        forall|p: int| 0 <= p < s.len() ==> 0 <= #[trigger] g(p) < s.len() && f(g(p)) == p,
    ensures
        t.to_multiset() == s.to_multiset(),
    decreases s.len(),
{
    if s.len() == 0 {
        assert(s =~= t);
    } else {
        let last = s.len() - 1;
        let q = g(last);
        let shorter = s.drop_last();
        let rest = t.remove(q);
        let f1 = |k: int| if k < q { f(k) } else { f(k + 1) };
        let g1 = |p: int| if g(p) < q { g(p) } else { g(p) - 1 };
        assert forall|k: int| 0 <= k < shorter.len() implies 0 <= #[trigger] f1(k) < shorter.len()
            && g1(f1(k)) == k && rest[k] == shorter[f1(k)] by {
            let from = if k < q { k } else { k + 1 };
            assert(g(f(from)) == from && from != q);
            assert(f(from) != last);
        }
        assert forall|p: int| 0 <= p < shorter.len() implies 0 <= #[trigger] g1(p) < shorter.len()
            && f1(g1(p)) == p by {
            assert(f(g(p)) == p && p != last);
            assert(g(p) != q);
        }
        lemma_renumbered_multiset(shorter, rest, f1, g1);
        assert(rest.to_multiset() == t.to_multiset().remove(t[q])) by {
            to_multiset_remove(t, q);
        }
        assert(s.to_multiset() == shorter.to_multiset().insert(s[last])) by {
            assert(s =~= shorter.push(s[last]));
            to_multiset_build(shorter, s[last]);
        }
        assert(t[q] == s[last]);
        assert(t.to_multiset().count(t[q]) > 0) by {
            assert(t.contains(t[q]));
            vstd::seq_lib::to_multiset_contains(t, t[q]);
        }
        assert(t.to_multiset() =~= t.to_multiset().remove(t[q]).insert(t[q]));
    }
}

/// Tiling moves the pixels and neither loses nor repeats one: the tiled
/// buffer is as long as the raster buffer and holds every value as often.
pub proof fn lemma_tiled_is_permutation<T>(data: Seq<T>, width: int, height: int)
    requires
        0 <= width,
        0 <= height,
        width % 8 == 0,
        height % 8 == 0,
        data.len() == width * height,
    ensures
        tiled(data, width).len() == data.len(),
        tiled(data, width).to_multiset() == data.to_multiset(),
{
    let f = |k: int| tile_source(k, width);
    let g = |p: int| tile_target(p, width);
    let t = tiled(data, width);
    assert forall|k: int| 0 <= k < data.len() implies 0 <= #[trigger] f(k) < data.len() && g(f(k))
        == k && t[k] == data[f(k)] by {
        lemma_tile_source_inverts(k, width, height);
    }
    assert forall|p: int| 0 <= p < data.len() implies 0 <= #[trigger] g(p) < data.len() && f(g(p))
        == p by {
        lemma_tile_target_inverts(p, width, height);
    }
    lemma_renumbered_multiset(data, t, f, g);
}

/// An index buffer in tiled order, with the number of its tiles.
#[derive(Debug, Clone)]
pub struct Tiles {
    /// The number of tiles.
    pub count: usize,
    /// The indices, 64 for each tile.
    pub data: Vec<u8>,
}

/// Reorders a raster index buffer into tiles of 8×8 pixels. The tiles follow
/// one another row by row of tiles, and within a tile the pixels row by row.
/// The result is as long as the buffer and holds every value as often. An
/// image whose width or height is no multiple of 8 is refused, and the error
/// names the side: the width, if both are at fault.
#[verifier::loop_isolation(false)]
pub fn reorder(data: &Vec<u8>, width: u32, height: u32) -> (result: Result<Tiles, DimensionError>)
    requires
        data@.len() == width * height,
    ensures
        match result {
            Ok(tiles) => {
                &&& width % 8 == 0
                &&& height % 8 == 0
                &&& tiles.count == tile_count(width as int, height as int)
                &&& tiles.data@ == tiled(data@, width as int)
                &&& tiles.data@.len() == data@.len() == tiles.count * 64
                &&& tiles.data@.to_multiset() == data@.to_multiset()
            },
            Err(e) => if width % 8 != 0 {
                e == (DimensionError { axis: Axis::Width, value: width })
            } else {
                height % 8 != 0 && e == (DimensionError { axis: Axis::Height, value: height })
            },
        },
{
    if width % 8 != 0 {
        return Err(DimensionError { axis: Axis::Width, value: width });
    }
    if height % 8 != 0 {
        return Err(DimensionError { axis: Axis::Height, value: height });
    }
    let w: usize = width as usize;
    let cols: usize = (width / 8) as usize;
    let rows: usize = (height / 8) as usize;
    let n: usize = data.len();
    proof {
        lemma_fundamental_div_mod(width as int, 8);
        lemma_fundamental_div_mod(height as int, 8);
        assert((cols * rows) * 64 == (cols * 8) * (rows * 8)) by (nonlinear_arith);
        assert(0 <= cols * rows <= (cols * rows) * 64) by (nonlinear_arith)
            requires
                0 <= cols,
                0 <= rows,
        ;
    }
    let count: usize = cols * rows;
    let mut out: Vec<u8> = Vec::with_capacity(n);
    let mut row: usize = 0;
    while row < rows
        invariant
            row <= rows,
            out@.len() == row * cols * 64,
            forall|k: int| 0 <= k < out@.len() ==> out@[k] == data@[tile_source(k, w as int)],
        decreases rows - row,
    {
        let mut col: usize = 0;
        while col < cols
            invariant
                row < rows,
                col <= cols,
                out@.len() == (row * cols + col) * 64,
                forall|k: int| 0 <= k < out@.len() ==> out@[k] == data@[tile_source(k, w as int)],
            decreases cols - col,
        {
            let mut y: usize = 0;
            while y < 8
                invariant
                    row < rows,
                    col < cols,
                    y <= 8,
                    out@.len() == (row * cols + col) * 64 + y * 8,
                    forall|k: int|
                        0 <= k < out@.len() ==> out@[k] == data@[tile_source(k, w as int)],
                decreases 8 - y,
            {
                let mut x: usize = 0;
                while x < 8
                    invariant
                        row < rows,
                        col < cols,
                        y < 8,
                        x <= 8,
                        out@.len() == (row * cols + col) * 64 + y * 8 + x,
                        forall|k: int|
                            0 <= k < out@.len() ==> out@[k] == data@[tile_source(k, w as int)],
                    decreases 8 - x,
                {
                    proof {
                        lemma_tile_place(cols as int, row as int, col as int, y as int, x as int);
                        lemma_tile_bounds(
                            cols as int,
                            rows as int,
                            row as int,
                            col as int,
                            y as int,
                            x as int,
                        );
                    }
                    out.push(data[(row * 8 + y) * w + col * 8 + x]);
                    x += 1;
                }
                y += 1;
            }
            col += 1;
        }
        proof {
            assert((row * cols + cols) * 64 == (row + 1) * cols * 64) by (nonlinear_arith);
        }
        row += 1;
    }
    proof {
        assert(rows * cols * 64 == (cols * 8) * (rows * 8) && rows * cols * 64 == cols * rows * 64)
            by (nonlinear_arith);
        assert(out@ =~= tiled(data@, width as int));
        lemma_tiled_is_permutation(data@, width as int, height as int);
    }
    Ok(Tiles { count, data: out })
}

} // verus!
