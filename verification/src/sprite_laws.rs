//! What holds of sprite drawing in general: a draw toggles each pixel as
//! often as the sprite covers it, drawing twice undoes itself, and a sprite
//! drawn over its own image collides with it.

use vstd::prelude::*;
use crate::display::{
    column_offset, draw_rows, draw_sprite, grid_wf, has_ink, row_collides, row_covers, sprite_bit,
    target_row, xor_row, Grid, DISPLAY_HEIGHT, DISPLAY_WIDTH,
};

verus! {

/// Whether row `i` of a sprite drawn at `(x, y)` puts a set bit on the pixel
/// in row `r`, column `c`.
pub open spec fn row_hits(x: int, y: int, sprite: Seq<u8>, i: int, r: int, c: int) -> bool {
    target_row(y, i) == r && row_covers(x, sprite[i], c)
}

/// Whether the first `n` rows of a sprite drawn at `(x, y)` put a set bit on
/// the pixel in row `r`, column `c` an odd number of times.
pub open spec fn toggled(x: int, y: int, sprite: Seq<u8>, n: nat, r: int, c: int) -> bool
    decreases n,
{
    if n == 0 {
        false
    } else {
        toggled(x, y, sprite, (n - 1) as nat, r, c) != row_hits(x, y, sprite, n - 1, r, c)
    }
}

/// No two rows of the sprite that land on the same grid row have a set bit
/// in the same place. Every sprite of at most `DISPLAY_HEIGHT` rows is such
/// a sprite, because its rows all land on different grid rows.
pub open spec fn rows_apart(sprite: Seq<u8>) -> bool {
    forall|i: int, k: int, j: int|
        0 <= i < k < sprite.len() && (k - i) % (DISPLAY_HEIGHT as int) == 0 && 0 <= j < 8 ==> !(
        #[trigger] sprite_bit(sprite[i], j) && #[trigger] sprite_bit(sprite[k], j))
}

/// Every pixel on which the sprite, drawn at `(x, y)`, puts a set bit is
/// dark.
pub open spec fn lands_on_blank(g: Grid, x: int, y: int, sprite: Seq<u8>) -> bool {
    forall|i: int, c: int|
        0 <= i < sprite.len() && 0 <= c < DISPLAY_WIDTH && #[trigger] row_covers(x, sprite[i], c)
            ==> !g[target_row(y, i)][c]
}

/// A sprite of at most `DISPLAY_HEIGHT` rows has its rows apart.
pub proof fn lemma_short_sprite_rows_apart(sprite: Seq<u8>)
    requires
        sprite.len() <= DISPLAY_HEIGHT,
    ensures
        rows_apart(sprite),
{
}

/// Drawing keeps the grid's dimensions, and flips each pixel exactly if the
/// rows drawn cover it an odd number of times.
pub proof fn lemma_draw_rows_pointwise(g: Grid, x: int, y: int, sprite: Seq<u8>, n: nat)
    requires
        grid_wf(g),
    ensures
        grid_wf(draw_rows(g, x, y, sprite, n).0),
        forall|r: int, c: int|
            0 <= r < DISPLAY_HEIGHT && 0 <= c < DISPLAY_WIDTH ==> #[trigger] draw_rows(
                g,
                x,
                y,
                sprite,
                n,
            ).0[r][c] == (g[r][c] != toggled(x, y, sprite, n, r, c)),
    decreases n,
{
    if n > 0 {
        let i = n - 1;
        lemma_draw_rows_pointwise(g, x, y, sprite, i as nat);
        let before = draw_rows(g, x, y, sprite, i as nat).0;
        let after = draw_rows(g, x, y, sprite, n).0;
        let tr = target_row(y, i);
        assert(after == before.update(tr, xor_row(before[tr], x, sprite[i])));
        assert forall|r: int, c: int|
            0 <= r < DISPLAY_HEIGHT && 0 <= c < DISPLAY_WIDTH implies #[trigger] after[r][c] == (
        g[r][c] != toggled(x, y, sprite, n, r, c)) by {
            assert(before[r][c] == (g[r][c] != toggled(x, y, sprite, i as nat, r, c)));
        }
    }
}

/// Once a row has collided, the draw has.
pub proof fn lemma_collision_stays(g: Grid, x: int, y: int, sprite: Seq<u8>, m: nat, n: nat)
    requires
        m <= n,
        draw_rows(g, x, y, sprite, m).1,
    ensures
        draw_rows(g, x, y, sprite, n).1,
    decreases n,
{
    if m < n {
        lemma_collision_stays(g, x, y, sprite, m, (n - 1) as nat);
    }
}

/// Two rows that land on the same grid row are a multiple of the grid's
/// height apart.
proof fn lemma_same_target_row(y: int, i: int, k: int)
    requires
        target_row(y, i) == target_row(y, k),
    ensures
        (k - i) % (DISPLAY_HEIGHT as int) == 0,
{
}

/// With its rows apart, a sprite covers a pixel at most once, so the pixel
/// is flipped exactly if some row covers it.
proof fn lemma_toggled_once(x: int, y: int, sprite: Seq<u8>, n: nat, r: int, c: int)
    requires
        rows_apart(sprite),
        n <= sprite.len(),
    ensures
        toggled(x, y, sprite, n, r, c) <==> exists|k: int|
            0 <= k < n && #[trigger] row_hits(x, y, sprite, k, r, c),
    decreases n,
{
    if n > 0 {
        let i = n - 1;
        lemma_toggled_once(x, y, sprite, i as nat, r, c);
        if row_hits(x, y, sprite, i, r, c) {
            if exists|k: int| 0 <= k < i && #[trigger] row_hits(x, y, sprite, k, r, c) {
                let k = choose|k: int| 0 <= k < i && #[trigger] row_hits(x, y, sprite, k, r, c);
                lemma_same_target_row(y, k, i);
                let j = column_offset(x, c);
                assert(sprite_bit(sprite[k], j) && sprite_bit(sprite[i], j));
                assert(false);
            }
        } else {
            if exists|k: int| 0 <= k < n && #[trigger] row_hits(x, y, sprite, k, r, c) {
                let k = choose|k: int| 0 <= k < n && #[trigger] row_hits(x, y, sprite, k, r, c);
                assert(k < i);
            }
        }
    }
}

/// Drawing the same sprite at the same place a second time restores the
/// grid, whatever was on it: XOR undoes itself.
pub proof fn lemma_draw_twice_restores(g: Grid, x: int, y: int, sprite: Seq<u8>)
    requires
        grid_wf(g),
    ensures
        draw_sprite(draw_sprite(g, x, y, sprite).0, x, y, sprite).0 == g,
{
    let once = draw_sprite(g, x, y, sprite).0;
    let twice = draw_sprite(once, x, y, sprite).0;
    lemma_draw_rows_pointwise(g, x, y, sprite, sprite.len());
    lemma_draw_rows_pointwise(once, x, y, sprite, sprite.len());
    assert forall|r: int| 0 <= r < DISPLAY_HEIGHT implies #[trigger] twice[r] == g[r] by {
        assert forall|c: int| 0 <= c < DISPLAY_WIDTH implies #[trigger] twice[r][c] == g[r][c] by {
            assert(once[r][c] == (g[r][c] != toggled(x, y, sprite, sprite.len(), r, c)));
        }
        assert(twice[r] =~= g[r]);
    }
    assert(twice =~= g);
}

/// A sprite whose rows are apart, drawn where the pixels it covers are dark,
/// does not collide.
pub proof fn lemma_draw_on_blank_is_clean(g: Grid, x: int, y: int, sprite: Seq<u8>, n: nat)
    requires
        grid_wf(g),
        rows_apart(sprite),
        lands_on_blank(g, x, y, sprite),
        n <= sprite.len(),
    ensures
        !draw_rows(g, x, y, sprite, n).1,
    decreases n,
{
    if n > 0 {
        let i = n - 1;
        lemma_draw_on_blank_is_clean(g, x, y, sprite, i as nat);
        lemma_draw_rows_pointwise(g, x, y, sprite, i as nat);
        let before = draw_rows(g, x, y, sprite, i as nat).0;
        let tr = target_row(y, i);
        if row_collides(before[tr], x, sprite[i]) {
            let c = choose|c: int|
                0 <= c < DISPLAY_WIDTH && before[tr][c] && #[trigger] row_covers(x, sprite[i], c);
            assert(before[tr][c] == (g[tr][c] != toggled(x, y, sprite, i as nat, tr, c)));
            assert(!g[tr][c]);
            lemma_toggled_once(x, y, sprite, i as nat, tr, c);
            let k = choose|k: int| 0 <= k < i && #[trigger] row_hits(x, y, sprite, k, tr, c);
            lemma_same_target_row(y, k, i);
            let j = column_offset(x, c);
            assert(sprite_bit(sprite[k], j) && sprite_bit(sprite[i], j));
            assert(false);
        }
    }
}

/// Drawing the same sprite twice at the same place: the first draw, onto
/// pixels that are dark, reports no collision; the second one reports a
/// collision and clears every bit that the first one set, which leaves the
/// grid as it was before the two.
///
/// The sprite has at least one set bit, and its rows are apart, as the rows
/// of every sprite of at most `DISPLAY_HEIGHT` rows are. A longer sprite can
/// cover a pixel twice, and then already the first draw collides with
/// itself.
pub proof fn lemma_draw_same_sprite_twice(g: Grid, x: int, y: int, sprite: Seq<u8>)
    requires
        grid_wf(g),
        has_ink(sprite),
        rows_apart(sprite),
        lands_on_blank(g, x, y, sprite),
    ensures
        ({
            let (once, first) = draw_sprite(g, x, y, sprite);
            let (twice, second) = draw_sprite(once, x, y, sprite);
            &&& !first
            &&& second
            &&& twice == g
        }),
{
    let len = sprite.len();
    let once = draw_sprite(g, x, y, sprite).0;
    lemma_draw_on_blank_is_clean(g, x, y, sprite, len);
    lemma_draw_twice_restores(g, x, y, sprite);
    lemma_draw_rows_pointwise(g, x, y, sprite, len);
    // A set bit of the sprite, and the pixel on which it lands.
    let i = choose|i: int| 0 <= i < len && #[trigger] sprite[i] != 0;
    lemma_set_bit(sprite[i]);
    let j = choose|j: int| sprite_bit(sprite[i], j);
    let c = (x + j) % (DISPLAY_WIDTH as int);
    let r = target_row(y, i);
    assert(column_offset(x, c) == j);
    assert(row_hits(x, y, sprite, i, r, c));
    // The first draw lit it.
    lemma_toggled_once(x, y, sprite, len, r, c);
    assert(once[r][c] == (g[r][c] != toggled(x, y, sprite, len, r, c)));
    assert(once[r][c]);
    // No row before row `i` touches it, so the second draw finds it lit.
    lemma_draw_rows_pointwise(once, x, y, sprite, i as nat);
    lemma_toggled_once(x, y, sprite, i as nat, r, c);
    if exists|k: int| 0 <= k < i && #[trigger] row_hits(x, y, sprite, k, r, c) {
        let k = choose|k: int| 0 <= k < i && #[trigger] row_hits(x, y, sprite, k, r, c);
        lemma_same_target_row(y, k, i);
        assert(sprite_bit(sprite[k], j) && sprite_bit(sprite[i], j));
        assert(false);
    }
    let before = draw_rows(once, x, y, sprite, i as nat).0;
    assert(before[r][c] == (once[r][c] != toggled(x, y, sprite, i as nat, r, c)));
    assert(row_collides(before[r], x, sprite[i]));
    assert(draw_rows(once, x, y, sprite, (i + 1) as nat).1);
    lemma_collision_stays(once, x, y, sprite, (i + 1) as nat, len);
}

/// A sprite row that is not zero has a set bit.
proof fn lemma_set_bit(row: u8)
    requires
        row != 0,
    ensures
        exists|j: int| sprite_bit(row, j),
{
    assert(row != 0 ==> ((row >> 7u8) & 1 == 1 || (row >> 6u8) & 1 == 1 || (row >> 5u8) & 1 == 1
        || (row >> 4u8) & 1 == 1 || (row >> 3u8) & 1 == 1 || (row >> 2u8) & 1 == 1 || (row >> 1u8)
        & 1 == 1 || (row >> 0u8) & 1 == 1)) by (bit_vector);
    assert(sprite_bit(row, 0) || sprite_bit(row, 1) || sprite_bit(row, 2) || sprite_bit(row, 3)
        || sprite_bit(row, 4) || sprite_bit(row, 5) || sprite_bit(row, 6) || sprite_bit(row, 7));
}

/// Only the place of a sprite around the grid counts: drawing at `(x, y)`
/// is drawing at `(x mod DISPLAY_WIDTH, y mod DISPLAY_HEIGHT)`.
pub proof fn lemma_draw_wraps(g: Grid, x: int, y: int, sprite: Seq<u8>, n: nat)
    ensures
        draw_rows(g, x, y, sprite, n) == draw_rows(
            g,
            x % (DISPLAY_WIDTH as int),
            y % (DISPLAY_HEIGHT as int),
            sprite,
            n,
        ),
    decreases n,
{
    if n > 0 {
        let i = n - 1;
        let x0 = x % (DISPLAY_WIDTH as int);
        let y0 = y % (DISPLAY_HEIGHT as int);
        lemma_draw_wraps(g, x, y, sprite, i as nat);
        let before = draw_rows(g, x, y, sprite, i as nat).0;
        let tr = target_row(y, i);
        assert(target_row(y0, i) == tr);
        assert forall|c: int| column_offset(x0, c) == column_offset(x, c) by {}
        assert(xor_row(before[tr], x0, sprite[i]) =~= xor_row(before[tr], x, sprite[i]));
        assert(row_collides(before[tr], x0, sprite[i]) == row_collides(before[tr], x, sprite[i]))
            by {
            if row_collides(before[tr], x, sprite[i]) {
                let c = choose|c: int|
                    0 <= c < DISPLAY_WIDTH && before[tr][c] && #[trigger] row_covers(
                        x,
                        sprite[i],
                        c,
                    );
                assert(row_covers(x0, sprite[i], c));
            }
            if row_collides(before[tr], x0, sprite[i]) {
                let c = choose|c: int|
                    0 <= c < DISPLAY_WIDTH && before[tr][c] && #[trigger] row_covers(
                        x0,
                        sprite[i],
                        c,
                    );
                assert(row_covers(x, sprite[i], c));
            }
        }
    }
}

} // verus!
