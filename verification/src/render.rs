//! The arithmetic behind centred sprite drawing.
//!
//! The host walks the entities and writes the cells; this module computes,
//! for a glyph sequence of odd length drawn centred on a column, which
//! glyph lands on which display column.  Cells past either display edge
//! are left out, so the host never writes outside the display.

use vstd::prelude::*;

verus! {

use crate::BUFFER_WIDTH;

/// The (glyph index, column) pairs of the first `i` glyphs of a sprite of
/// half-width `half` centred on column `x`, keeping only columns on the
/// display.
pub open spec fn sprite_cells_upto(x: int, half: int, i: int) -> Seq<(usize, usize)>
    decreases i,
{
    if i <= 0 {
        Seq::empty()
    } else {
        sprite_cells_upto(x, half, i - 1) + if x + (i - 1) >= half && x - half + (i - 1)
            < BUFFER_WIDTH {
            seq![((i - 1) as usize, (x - half + (i - 1)) as usize)]
        } else {
            Seq::empty()
        }
    }
}

/// All cells of a sprite of half-width `half` (glyph count `2 * half + 1`)
/// centred on column `x`: glyph `i` on column `x - half + i`, clipped to
/// the display.
pub open spec fn sprite_cells(x: int, half: int) -> Seq<(usize, usize)> {
    sprite_cells_upto(x, half, 2 * half + 1)
}

/// Computes where each glyph of a sprite centred on column `x` lands: the
/// pairs of glyph index and display column, in glyph order, with cells
/// past either display edge left out.
pub fn sprite_columns(x: usize, half: usize) -> (r: Vec<(usize, usize)>)
    requires
        x < BUFFER_WIDTH,
        half <= BUFFER_WIDTH,
    ensures
        r@ == sprite_cells(x as int, half as int),
{
    let mut r: Vec<(usize, usize)> = Vec::new();
    let count: usize = 2 * half + 1;
    let mut i: usize = 0;
    while i < count
        invariant
            x < BUFFER_WIDTH,
            half <= BUFFER_WIDTH,
            count == 2 * half + 1,
            i <= count,
            r@ == sprite_cells_upto(x as int, half as int, i as int),
        decreases count - i,
    {
        if x + i >= half && x + i - half < BUFFER_WIDTH {
            r.push((i, x + i - half));
            proof {
                assert(r@ =~= sprite_cells_upto(x as int, half as int, i + 1));
            }
        } else {
            proof {
                assert(r@ =~= sprite_cells_upto(x as int, half as int, i + 1));
            }
        }
        i = i + 1;
    }
    r
}

} // verus!
