use vstd::prelude::*;
use vstd::arithmetic::mul::lemma_mul_inequality;
use crate::cursor::Cursor;
use crate::grid::Life;

verus! {

/// What the renderer decides for one screen cell: which glyph class to draw
/// and whether the cursor overlay highlights it.
#[derive(Clone, Copy, PartialEq, Eq, Structural, Debug)]
pub struct Tile {
    pub alive: bool,
    pub highlighted: bool,
}

/// The tile the renderer owes the cell at `(x, y)`: the cell's liveness, and
/// the highlight exactly at the cursor position, whatever the cell holds.
pub open spec fn tile_for(life: Life, cursor: Cursor, x: int, y: int) -> Tile {
    Tile { alive: life.cell(x, y), highlighted: x == cursor.x && y == cursor.y }
}

/// The frame the renderer produces, row-major at `x + y * w`: one tile per
/// grid cell, as `tile_for` owes it.
pub fn render(life: &Life, cursor: &Cursor) -> (tiles: Vec<Tile>)
    requires
        life.wf(),
    ensures
        tiles@.len() == life.w * life.h,
        forall|x: int, y: int|
            0 <= x < life.w && 0 <= y < life.h ==> tiles@[x + y * life.w] == #[trigger] tile_for(
                *life,
                *cursor,
                x,
                y,
            ),
{
    let mut tiles: Vec<Tile> = Vec::new();
    let mut y: i64 = 0;
    while y < life.h
        invariant
            life.wf(),
            0 <= y <= life.h,
            tiles@.len() == y * life.w,
            forall|i: int, j: int|
                0 <= i < life.w && 0 <= j < y ==> tiles@[i + j * life.w] == #[trigger] tile_for(
                    *life,
                    *cursor,
                    i,
                    j,
                ),
        decreases life.h - y,
    {
        let mut x: i64 = 0;
        while x < life.w
            invariant
                life.wf(),
                0 <= y < life.h,
                0 <= x <= life.w,
                tiles@.len() == y * life.w + x,
                forall|i: int, j: int|
                    0 <= i < life.w && 0 <= j < y ==> tiles@[i + j * life.w] == #[trigger] tile_for(
                        *life,
                        *cursor,
                        i,
                        j,
                    ),
                forall|i: int|
                    0 <= i < x ==> tiles@[i + y * life.w] == #[trigger] tile_for(
                        *life,
                        *cursor,
                        i,
                        y as int,
                    ),
            decreases life.w - x,
        {
            proof {
                assert(y * life.w + x < life.w * life.h) by (nonlinear_arith)
                    requires
                        0 <= x < life.w,
                        0 <= y < life.h,
                ;
            }
            let tile = Tile {
                alive: life.get(x, y),
                highlighted: x == cursor.x && y == cursor.y,
            };
            tiles.push(tile);
            x += 1;
            proof {
                assert forall|i: int, j: int|
                    0 <= i < life.w && 0 <= j < y implies tiles@[i + j * life.w]
                    == #[trigger] tile_for(*life, *cursor, i, j) by {
                    lemma_mul_inequality(j + 1, y as int, life.w as int);
                    assert((j + 1) * life.w == j * life.w + life.w) by (nonlinear_arith);
                    assert(0 <= j * life.w) by (nonlinear_arith)
                        requires
                            0 <= j,
                            0 < life.w,
                    ;
                }
            }
        }
        proof {
            assert((y + 1) * life.w == y * life.w + life.w) by (nonlinear_arith);
        }
        y += 1;
    }
    proof {
        assert(life.h * life.w == life.w * life.h) by (nonlinear_arith);
    }
    tiles
}

/// The character a tile is drawn with: the alive glyph or the blank glyph.
pub fn tile_symbol(tile: &Tile) -> (c: char)
    ensures
        c == (if tile.alive {
            'o'
        } else {
            ' '
        }),
{
    if tile.alive {
        'o'
    } else {
        ' '
    }
}

} // verus!
