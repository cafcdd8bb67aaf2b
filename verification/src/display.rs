//! What drawing a sprite does to the display.
//!
//! A sprite is a sequence of bytes, one per row from the top, the highest bit
//! of a byte leftmost. Drawn at `(x, y)`, bit `b` of row `j` lands on the
//! display cell in row `(y + j) mod 32` and column `(x + b) mod 64`, and a set
//! bit inverts that cell.

use vstd::prelude::*;
use crate::machine::{SCREEN_HEIGHT, SCREEN_WIDTH};

verus! {

/// Whether the pixel `column` places from the left of a sprite row is set.
pub open spec fn sprite_bit(row: u8, column: int) -> bool {
    0 <= column < 8 && (row >> ((7 - column) as u8)) & 1 == 1
}

/// The display row on which row `j` of a sprite drawn at height `y` lands.
pub open spec fn target_row(y: int, j: int) -> int {
    (y + j) % (SCREEN_HEIGHT as int)
}

/// The display column on which bit `b` of a sprite drawn at column `x` lands.
pub open spec fn target_column(x: int, b: int) -> int {
    (x + b) % (SCREEN_WIDTH as int)
}

/// The sprite row that lands on display row `r`, counted from the sprite's
/// top; 32 or more rows do not exist, so at most one lands there.
pub open spec fn source_row(y: int, r: int) -> int {
    (r - y) % (SCREEN_HEIGHT as int)
}

/// The sprite bit that lands on display column `c`, counted from the left.
pub open spec fn source_column(x: int, c: int) -> int {
    (c - x) % (SCREEN_WIDTH as int)
}

/// Whether the sprite, drawn at `(x, y)`, has a set pixel on cell `(r, c)`.
pub open spec fn sprite_covers(sprite: Seq<u8>, x: int, y: int, r: int, c: int) -> bool {
    let j = source_row(y, r);
    let b = source_column(x, c);
    j < sprite.len() && sprite_bit(sprite[j], b)
}

/// The display after the sprite was drawn at `(x, y)`: every cell that the
/// sprite covers is inverted, every other cell is as before.
pub open spec fn drawn(screen: Seq<Seq<bool>>, sprite: Seq<u8>, x: int, y: int) -> Seq<Seq<bool>> {
    Seq::new(
        SCREEN_HEIGHT as nat,
        |r: int|
            Seq::new(SCREEN_WIDTH as nat, |c: int| screen[r][c] != sprite_covers(sprite, x, y, r, c)),
    )
}

/// Whether cell `(r, c)` is lit and covered by the sprite, so that drawing
/// turns it off.
pub open spec fn erased_at(screen: Seq<Seq<bool>>, sprite: Seq<u8>, x: int, y: int, r: int, c: int) -> bool {
    &&& 0 <= r < SCREEN_HEIGHT
    &&& 0 <= c < SCREEN_WIDTH
    &&& screen[r][c]
    &&& sprite_covers(sprite, x, y, r, c)
}

/// Whether drawing the sprite at `(x, y)` turns off at least one lit cell.
pub open spec fn erases(screen: Seq<Seq<bool>>, sprite: Seq<u8>, x: int, y: int) -> bool {
    exists|r: int, c: int| erased_at(screen, sprite, x, y, r, c)
}

/// Pixel `b` of row `j` of a sprite lands on the cell in row
/// `target_row(y, j)` and column `target_column(x, b)`, which the sprite
/// therefore covers exactly when that pixel is set; and a cell of the
/// display is the landing place of the sprite pixel that `source_row` and
/// `source_column` name for it.
pub proof fn lemma_sprite_lands(sprite: Seq<u8>, x: int, y: int, j: int, b: int, r: int, c: int)
    requires
        0 <= j < sprite.len() <= SCREEN_HEIGHT,
        0 <= b < 8,
        0 <= r < SCREEN_HEIGHT,
        0 <= c < SCREEN_WIDTH,
    ensures
        0 <= target_row(y, j) < SCREEN_HEIGHT,
        0 <= target_column(x, b) < SCREEN_WIDTH,
        source_row(y, target_row(y, j)) == j,
        source_column(x, target_column(x, b)) == b,
        sprite_covers(sprite, x, y, target_row(y, j), target_column(x, b)) == sprite_bit(sprite[j], b),
        target_row(y, source_row(y, r)) == r,
        target_column(x, source_column(x, c)) == c,
{
}

/// Whether one of the first `count` pixels of a sprite row whose leftmost
/// pixel is at column `x` is set and lands on column `c`.
pub open spec fn row_covers(bits: u8, count: int, x: int, c: int) -> bool {
    source_column(x, c) < count && sprite_bit(bits, source_column(x, c))
}

/// A display row after the first `count` pixels of a sprite row were drawn
/// on it with the leftmost pixel at column `x`.
pub open spec fn row_drawn(row: Seq<bool>, bits: u8, count: int, x: int) -> Seq<bool> {
    Seq::new(SCREEN_WIDTH as nat, |c: int| row[c] != row_covers(bits, count, x, c))
}

/// Whether column `c` of a display row is lit and covered by one of the
/// first `count` pixels of the sprite row.
pub open spec fn row_erased_at(row: Seq<bool>, bits: u8, count: int, x: int, c: int) -> bool {
    0 <= c < SCREEN_WIDTH && row[c] && row_covers(bits, count, x, c)
}

/// Whether drawing the first `count` pixels of the sprite row turns off a
/// lit cell of the display row.
pub open spec fn row_erases(row: Seq<bool>, bits: u8, count: int, x: int) -> bool {
    exists|c: int| row_erased_at(row, bits, count, x, c)
}

/// Whether the display has 32 rows of 64 cells.
pub open spec fn screen_shaped(screen: Seq<Seq<bool>>) -> bool {
    &&& screen.len() == SCREEN_HEIGHT
    &&& forall|r: int| 0 <= r < SCREEN_HEIGHT ==> (#[trigger] screen[r]).len() == SCREEN_WIDTH
}

/// Drawing the same sprite twice at the same place gives back the display
/// as it was.
pub proof fn lemma_draw_twice_restores(screen: Seq<Seq<bool>>, sprite: Seq<u8>, x: int, y: int)
    requires
        screen_shaped(screen),
    ensures
        drawn(drawn(screen, sprite, x, y), sprite, x, y) == screen,
{
    assert(drawn(drawn(screen, sprite, x, y), sprite, x, y) =~~= screen);
}

/// The second of two equal draws turns a cell off exactly where the first
/// turned one on: it erases if and only if the sprite covers a cell that was
/// dark before the first draw.
pub proof fn lemma_second_draw_erases(screen: Seq<Seq<bool>>, sprite: Seq<u8>, x: int, y: int)
    requires
        screen_shaped(screen),
    ensures
        erases(drawn(screen, sprite, x, y), sprite, x, y) <==> exists|r: int, c: int|
            0 <= r < SCREEN_HEIGHT && 0 <= c < SCREEN_WIDTH && !screen[r][c] && #[trigger] sprite_covers(
                sprite,
                x,
                y,
                r,
                c,
            ),
{
    let once = drawn(screen, sprite, x, y);
    if erases(once, sprite, x, y) {
        let (r, c) = choose|r: int, c: int| erased_at(once, sprite, x, y, r, c);
        assert(!screen[r][c] && sprite_covers(sprite, x, y, r, c));
    }
    if exists|r: int, c: int|
        0 <= r < SCREEN_HEIGHT && 0 <= c < SCREEN_WIDTH && !screen[r][c] && #[trigger] sprite_covers(
            sprite,
            x,
            y,
            r,
            c,
        ) {
        let (r, c) = choose|r: int, c: int|
            0 <= r < SCREEN_HEIGHT && 0 <= c < SCREEN_WIDTH && !screen[r][c] && #[trigger] sprite_covers(
                sprite,
                x,
                y,
                r,
                c,
            );
        assert(erased_at(once, sprite, x, y, r, c));
    }
}

} // verus!
