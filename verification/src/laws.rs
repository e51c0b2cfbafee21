use vstd::prelude::*;
use crate::machine::{Machine, Effect, Pen, advance, pixel_index, sprite_bit, glyph};

verus! {

/// Where the pen's column is after `k` pixels of a row.
spec fn col_after(col: int, k: nat) -> int
    decreases k,
{
    if k == 0 {
        col
    } else {
        advance(col_after(col, (k - 1) as nat), 63)
    }
}

/// Where the pen's row is after `i` sprite rows.
spec fn row_after(row: int, i: nat) -> int
    decreases i,
{
    if i == 0 {
        row
    } else {
        advance(row_after(row, (i - 1) as nat), 31)
    }
}

/// Whether the first `k` pixels of a sprite row drawn from (col, row) flip
/// screen position `q` an odd number of times.
spec fn row_flips(col: int, row: int, byte: u8, k: nat, q: int) -> bool
    decreases k,
{
    if k == 0 {
        false
    } else {
        row_flips(col, row, byte, (k - 1) as nat, q) != (sprite_bit(byte, k - 1)
            && pixel_index(col_after(col, (k - 1) as nat), row) == q)
    }
}

/// Whether the first `i` rows of a sprite drawn from column `vx` and row
/// `row` flip screen position `q` an odd number of times.
spec fn sprite_flips(vx: u8, row: int, mem: Seq<u8>, start: int, i: nat, q: int) -> bool
    decreases i,
{
    if i == 0 {
        false
    } else {
        sprite_flips(vx, row, mem, start, (i - 1) as nat, q) != row_flips(
            vx as int,
            row_after(row, (i - 1) as nat),
            mem[start + i - 1],
            8,
            q,
        )
    }
}

/// Whether the first `k` pixels of a sprite row drawn from (col, row) set
/// any bit at screen position `q`.
spec fn row_hits(col: int, row: int, byte: u8, k: nat, q: int) -> bool
    decreases k,
{
    if k == 0 {
        false
    } else {
        row_hits(col, row, byte, (k - 1) as nat, q) || (sprite_bit(byte, k - 1) && pixel_index(
            col_after(col, (k - 1) as nat),
            row,
        ) == q)
    }
}

/// Whether the first `i` rows of a sprite drawn from column `vx` and row
/// `row` set any bit at screen position `q`.
spec fn sprite_hits(vx: u8, row: int, mem: Seq<u8>, start: int, i: nat, q: int) -> bool
    decreases i,
{
    if i == 0 {
        false
    } else {
        sprite_hits(vx, row, mem, start, (i - 1) as nat, q) || row_hits(
            vx as int,
            row_after(row, (i - 1) as nat),
            mem[start + i - 1],
            8,
            q,
        )
    }
}

/// Away from the right edge a row walks columns c, c + 1, ... modulo 64.
proof fn lemma_col_after(c: int, j: nat)
    requires
        0 <= c <= 63,
    ensures
        col_after(c, j) == (c + j) % 64,
    decreases j,
{
    if j > 0 {
        lemma_col_after(c, (j - 1) as nat);
    }
}

/// Away from the bottom edge rows walk r, r + 1, ... modulo 32.
proof fn lemma_row_after(r: int, i: nat)
    requires
        0 <= r <= 31,
    ensures
        row_after(r, i) == (r + i) % 32,
    decreases i,
{
    if i > 0 {
        lemma_row_after(r, (i - 1) as nat);
    }
}

/// The screen position of pixel `j` of sprite row `i` drawn from (c, r).
spec fn spot(c: int, r: int, i: int, j: int) -> int {
    pixel_index(c + j, r + i)
}

/// Where the pen plots pixel `j` of row `i` is `spot(c, r, i, j)`.
proof fn lemma_spot(c: int, r: int, i: nat, j: nat)
    requires
        0 <= c <= 63,
        0 <= r <= 31,
    ensures
        pixel_index(col_after(c, j), row_after(r, i)) == spot(c, r, i as int, j as int),
{
    lemma_col_after(c, j);
    lemma_row_after(r, i);
}

/// Different pixels of a sprite of up to 32 rows of up to 64 pixels land on
/// different screen positions.
proof fn lemma_spots_differ(c: int, r: int, i1: int, j1: int, i2: int, j2: int)
    requires
        0 <= c,
        0 <= r,
        0 <= i1 < 32,
        0 <= i2 < 32,
        0 <= j1 < 64,
        0 <= j2 < 64,
        i1 != i2 || j1 != j2,
    ensures
        spot(c, r, i1, j1) != spot(c, r, i2, j2),
{
    let a1 = (r + i1) % 32;
    let a2 = (r + i2) % 32;
    let b1 = (c + j1) % 64;
    let b2 = (c + j2) % 64;
    if a1 * 64 + b1 == a2 * 64 + b2 {
        assert(a1 == a2 && b1 == b2);
        assert(i1 == i2) by (nonlinear_arith)
            requires
                (r + i1) % 32 == (r + i2) % 32,
                0 <= i1 < 32,
                0 <= i2 < 32,
                0 <= r,
        ;
        assert(j1 == j2) by (nonlinear_arith)
            requires
                (c + j1) % 64 == (c + j2) % 64,
                0 <= j1 < 64,
                0 <= j2 < 64,
                0 <= c,
        ;
    }
}

proof fn lemma_pixel_index_in_screen(col: int, row: int)
    ensures
        0 <= pixel_index(col, row) < 2048,
{
}

/// Drawing a row flips the pixels it hits and leaves the pen on its row.
proof fn lemma_draw_row(p: Pen, byte: u8, k: nat)
    requires
        p.screen.len() == 2048,
    ensures
        p.draw_row(byte, k).row == p.row,
        p.draw_row(byte, k).col == col_after(p.col, k),
        p.draw_row(byte, k).screen.len() == 2048,
        forall|q: int|
            0 <= q < 2048 ==> #[trigger] p.draw_row(byte, k).screen[q] == (p.screen[q] != row_flips(
                p.col,
                p.row,
                byte,
                k,
                q,
            )),
    decreases k,
{
    if k > 0 {
        lemma_draw_row(p, byte, (k - 1) as nat);
        let r0 = p.draw_row(byte, (k - 1) as nat);
        lemma_pixel_index_in_screen(r0.col, r0.row);
        assert forall|q: int| 0 <= q < 2048 implies #[trigger] p.draw_row(byte, k).screen[q] == (
        p.screen[q] != row_flips(p.col, p.row, byte, k, q)) by {
            assert(r0.screen[q] == (p.screen[q] != row_flips(p.col, p.row, byte, (k - 1) as nat, q)));
        }
    }
}

/// With a column register other than the flag, every row starts at column
/// `vx` and the screen is the old one with the hit pixels flipped.
proof fn lemma_draw_rows(p: Pen, mem: Seq<u8>, start: int, x: int, vx: u8, i: nat)
    requires
        p.screen.len() == 2048,
        x != 15,
        p.col == vx as int,
    ensures
        p.draw_rows(mem, start, x, vx, i).col == vx as int,
        p.draw_rows(mem, start, x, vx, i).row == row_after(p.row, i),
        p.draw_rows(mem, start, x, vx, i).screen.len() == 2048,
        forall|q: int|
            0 <= q < 2048 ==> #[trigger] p.draw_rows(mem, start, x, vx, i).screen[q] == (p.screen[q]
                != sprite_flips(vx, p.row, mem, start, i, q)),
    decreases i,
{
    if i > 0 {
        lemma_draw_rows(p, mem, start, x, vx, (i - 1) as nat);
        let r0 = p.draw_rows(mem, start, x, vx, (i - 1) as nat);
        lemma_draw_row(r0, mem[start + i - 1], 8);
        assert forall|q: int| 0 <= q < 2048 implies #[trigger] p.draw_rows(mem, start, x, vx, i).screen[q]
            == (p.screen[q] != sprite_flips(vx, p.row, mem, start, i, q)) by {
            assert(r0.screen[q] == (p.screen[q] != sprite_flips(vx, p.row, mem, start, (i - 1) as nat, q)));
        }
    }
}

/// Drawing keeps the screen's size, whatever the registers.
proof fn lemma_draw_row_len(p: Pen, byte: u8, k: nat)
    requires
        p.screen.len() == 2048,
    ensures
        p.draw_row(byte, k).screen.len() == 2048,
    decreases k,
{
    if k > 0 {
        lemma_draw_row_len(p, byte, (k - 1) as nat);
        let r0 = p.draw_row(byte, (k - 1) as nat);
        lemma_pixel_index_in_screen(r0.col, r0.row);
    }
}

proof fn lemma_draw_rows_len(p: Pen, mem: Seq<u8>, start: int, x: int, vx: u8, i: nat)
    requires
        p.screen.len() == 2048,
    ensures
        p.draw_rows(mem, start, x, vx, i).screen.len() == 2048,
    decreases i,
{
    if i > 0 {
        lemma_draw_rows_len(p, mem, start, x, vx, (i - 1) as nat);
        lemma_draw_row_len(p.draw_rows(mem, start, x, vx, (i - 1) as nat), mem[start + i - 1], 8);
    }
}

/// Drawing the same sprite twice at the same place erases it: the screen is
/// back to what it was. This holds when neither coordinate comes from the
/// flag register, which the first drawing overwrites.
pub proof fn law_sprite_drawn_twice_is_erased(m: Machine, x: int, y: int, n: int)
    requires
        m.wf(),
        0 <= x < 15,
        0 <= y < 15,
        0 <= n < 16,
    ensures
        m.draw_sprite(x, y, n).draw_sprite(x, y, n).screen == m.screen,
{
    let m1 = m.draw_sprite(x, y, n);
    let vx = m.reg(x);
    let pen = Pen { screen: m.screen, flag: 0, col: vx as int, row: m.reg(y) as int };
    lemma_draw_rows(pen, m.memory, m.index as int, x, vx, n as nat);
    assert(m1.reg(x) == vx);
    assert(m1.reg(y) == m.reg(y));
    let pen1 = Pen { screen: m1.screen, flag: 0, col: vx as int, row: m.reg(y) as int };
    lemma_draw_rows(pen1, m.memory, m.index as int, x, vx, n as nat);
    let m2 = m1.draw_sprite(x, y, n);
    assert(m2.screen =~= m.screen);
}

/// A row hits only its own pixels: a pixel of another row, or one further
/// along this row, is not hit.
proof fn lemma_row_misses(c: int, r: int, i1: nat, byte: u8, k: nat, i2: int, j2: int)
    requires
        0 <= c <= 63,
        0 <= r <= 31,
        i1 < 16,
        0 <= i2 < 16,
        0 <= j2 < 8,
        k <= 8,
        i2 != i1 || j2 >= k,
    ensures
        !row_hits(c, row_after(r, i1), byte, k, spot(c, r, i2, j2)),
    decreases k,
{
    if k > 0 {
        lemma_row_misses(c, r, i1, byte, (k - 1) as nat, i2, j2);
        lemma_spot(c, r, i1, (k - 1) as nat);
        lemma_spots_differ(c, r, i1 as int, k - 1, i2, j2);
    }
}

/// The first `i` rows do not hit any pixel of row `i` or a later row.
proof fn lemma_sprite_misses(c: u8, r: int, mem: Seq<u8>, start: int, i: nat, i2: int, j2: int)
    requires
        c <= 63,
        0 <= r <= 31,
        i <= i2 < 16,
        0 <= j2 < 8,
    ensures
        !sprite_hits(c, r, mem, start, i, spot(c as int, r, i2, j2)),
    decreases i,
{
    if i > 0 {
        lemma_sprite_misses(c, r, mem, start, (i - 1) as nat, i2, j2);
        lemma_row_misses(c as int, r, (i - 1) as nat, mem[start + i - 1], 8, i2, j2);
    }
}

/// Positions hit before a row, or by its first `k` pixels.
spec fn covered(hit: spec_fn(int) -> bool, c: int, row: int, byte: u8, k: nat, q: int) -> bool {
    hit(q) || row_hits(c, row, byte, k, q)
}

/// Drawing a row of a sprite whose pixels all land on different positions:
/// each pixel flips the screen once, and the flag is 1 exactly when some
/// position hit so far was lit to begin with.
proof fn lemma_row_collision(
    p: Pen,
    init: Seq<bool>,
    hit: spec_fn(int) -> bool,
    byte: u8,
    k: nat,
    c: int,
    r: int,
    i: nat,
)
    requires
        0 <= c <= 63,
        0 <= r <= 31,
        i < 16,
        k <= 8,
        p.col == c,
        p.row == row_after(r, i),
        p.screen.len() == 2048,
        init.len() == 2048,
        forall|q: int| 0 <= q < 2048 ==> #[trigger] p.screen[q] == (init[q] != hit(q)),
        p.flag == 0 || p.flag == 1,
        (p.flag == 1) == (exists|q: int| 0 <= q < 2048 && #[trigger] hit(q) && init[q]),
        forall|j: int| 0 <= j < 8 ==> !#[trigger] hit(spot(c, r, i as int, j)),
    ensures
        p.draw_row(byte, k).screen.len() == 2048,
        p.draw_row(byte, k).row == p.row,
        p.draw_row(byte, k).col == col_after(c, k),
        forall|q: int|
            0 <= q < 2048 ==> #[trigger] p.draw_row(byte, k).screen[q] == (init[q] != covered(
                hit,
                c,
                p.row,
                byte,
                k,
                q,
            )),
        p.draw_row(byte, k).flag == 0 || p.draw_row(byte, k).flag == 1,
        (p.draw_row(byte, k).flag == 1) == (exists|q: int|
            0 <= q < 2048 && #[trigger] covered(hit, c, p.row, byte, k, q) && init[q]),
    decreases k,
{
    if k == 0 {
        if p.flag == 1 {
            let q = choose|q: int| 0 <= q < 2048 && #[trigger] hit(q) && init[q];
            assert(covered(hit, c, p.row, byte, k, q));
        }
        if exists|q: int| 0 <= q < 2048 && #[trigger] covered(hit, c, p.row, byte, k, q) && init[q] {
            let q = choose|q: int| 0 <= q < 2048 && #[trigger] covered(hit, c, p.row, byte, k, q) && init[q];
            assert(hit(q));
        }
    } else {
        let k1 = (k - 1) as nat;
        lemma_row_collision(p, init, hit, byte, k1, c, r, i);
        let p1 = p.draw_row(byte, k1);
        let pos = pixel_index(p1.col, p1.row);
        lemma_spot(c, r, i, k1);
        lemma_pixel_index_in_screen(p1.col, p1.row);
        assert(pos == spot(c, r, i as int, k1 as int));
        lemma_row_misses(c, r, i, byte, k1, i as int, k1 as int);
        assert(!hit(pos));
        assert(!covered(hit, c, p.row, byte, k1, pos));
        assert(p1.screen[pos] == init[pos]);
        let p2 = p.draw_row(byte, k);
        let on = sprite_bit(byte, k1 as int);
        assert(p2 == p1.plot(on));
        assert forall|q: int| 0 <= q < 2048 implies #[trigger] p2.screen[q] == (init[q] != covered(
            hit,
            c,
            p.row,
            byte,
            k,
            q,
        )) by {
            assert(p1.screen[q] == (init[q] != covered(hit, c, p.row, byte, k1, q)));
        }
        if p2.flag == 1 {
            if p1.flag == 1 {
                let q = choose|q: int| 0 <= q < 2048 && #[trigger] covered(hit, c, p.row, byte, k1, q) && init[q];
                assert(covered(hit, c, p.row, byte, k, q));
            } else {
                assert(on && init[pos]);
                assert(covered(hit, c, p.row, byte, k, pos));
            }
        }
        if exists|q: int| 0 <= q < 2048 && #[trigger] covered(hit, c, p.row, byte, k, q) && init[q] {
            let q = choose|q: int| 0 <= q < 2048 && #[trigger] covered(hit, c, p.row, byte, k, q) && init[q];
            if q == pos && on {
                assert(p2.flag == 1);
            } else {
                assert(covered(hit, c, p.row, byte, k1, q));
                assert(p1.flag == 1);
            }
        }
    }
}

/// Drawing a whole sprite whose pixels land on different positions, from a
/// column register other than the flag: each pixel flips the screen once,
/// and the flag is 1 exactly when some hit position was lit to begin with.
proof fn lemma_rows_collision(p: Pen, mem: Seq<u8>, start: int, x: int, vx: u8, i: nat)
    requires
        vx <= 63,
        0 <= p.row <= 31,
        x != 15,
        i <= 16,
        p.col == vx as int,
        p.flag == 0,
        p.screen.len() == 2048,
    ensures
        p.draw_rows(mem, start, x, vx, i).col == vx as int,
        p.draw_rows(mem, start, x, vx, i).row == row_after(p.row, i),
        p.draw_rows(mem, start, x, vx, i).screen.len() == 2048,
        forall|q: int|
            0 <= q < 2048 ==> #[trigger] p.draw_rows(mem, start, x, vx, i).screen[q] == (p.screen[q]
                != sprite_hits(vx, p.row, mem, start, i, q)),
        p.draw_rows(mem, start, x, vx, i).flag == 0 || p.draw_rows(mem, start, x, vx, i).flag == 1,
        (p.draw_rows(mem, start, x, vx, i).flag == 1) == (exists|q: int|
            0 <= q < 2048 && #[trigger] sprite_hits(vx, p.row, mem, start, i, q) && p.screen[q]),
    decreases i,
{
    if i > 0 {
        let i1 = (i - 1) as nat;
        lemma_rows_collision(p, mem, start, x, vx, i1);
        let p1 = p.draw_rows(mem, start, x, vx, i1);
        let hit = |q: int| sprite_hits(vx, p.row, mem, start, i1, q);
        assert forall|j: int| 0 <= j < 8 implies !#[trigger] hit(spot(vx as int, p.row, i1 as int, j)) by {
            lemma_sprite_misses(vx, p.row, mem, start, i1, i1 as int, j);
        }
        assert forall|q: int| 0 <= q < 2048 implies #[trigger] p1.screen[q] == (p.screen[q] != hit(q)) by {}
        if p1.flag == 1 {
            let q = choose|q: int| 0 <= q < 2048 && #[trigger] sprite_hits(vx, p.row, mem, start, i1, q) && p.screen[q];
            assert(hit(q));
        }
        if exists|q: int| 0 <= q < 2048 && #[trigger] hit(q) && p.screen[q] {
            let q = choose|q: int| 0 <= q < 2048 && #[trigger] hit(q) && p.screen[q];
            assert(sprite_hits(vx, p.row, mem, start, i1, q));
        }
        let byte = mem[start + i - 1];
        lemma_row_collision(p1, p.screen, hit, byte, 8, vx as int, p.row, i1);
        let p2 = p1.draw_row(byte, 8);
        assert forall|q: int| 0 <= q < 2048 implies #[trigger] p.draw_rows(mem, start, x, vx, i).screen[q]
            == (p.screen[q] != sprite_hits(vx, p.row, mem, start, i, q)) by {
            assert(p2.screen[q] == (p.screen[q] != covered(hit, vx as int, p1.row, byte, 8, q)));
        }
        if p2.flag == 1 {
            let q = choose|q: int| 0 <= q < 2048 && #[trigger] covered(hit, vx as int, p1.row, byte, 8, q) && p.screen[q];
            assert(sprite_hits(vx, p.row, mem, start, i, q));
        }
        if exists|q: int| 0 <= q < 2048 && #[trigger] sprite_hits(vx, p.row, mem, start, i, q) && p.screen[q] {
            let q = choose|q: int| 0 <= q < 2048 && #[trigger] sprite_hits(vx, p.row, mem, start, i, q) && p.screen[q];
            assert(covered(hit, vx as int, p1.row, byte, 8, q));
        }
    }
}

/// Pixel `j` of row `i` is hit exactly when its bit is set.
proof fn lemma_row_hits_at(c: int, r: int, i: nat, byte: u8, k: nat, j: int)
    requires
        0 <= c <= 63,
        0 <= r <= 31,
        i < 16,
        0 <= j < 8,
        k <= 8,
    ensures
        row_hits(c, row_after(r, i), byte, k, spot(c, r, i as int, j)) == (j < k && sprite_bit(byte, j)),
    decreases k,
{
    if k > 0 {
        lemma_row_hits_at(c, r, i, byte, (k - 1) as nat, j);
        lemma_spot(c, r, i, (k - 1) as nat);
        if j != k - 1 {
            lemma_spots_differ(c, r, i as int, k - 1, i as int, j);
        }
    }
}

/// A position that is none of a row's pixels is not hit by that row.
proof fn lemma_row_hits_elsewhere(c: int, r: int, i: nat, byte: u8, k: nat, q: int)
    requires
        0 <= c <= 63,
        0 <= r <= 31,
        forall|j: int| 0 <= j < 8 ==> q != #[trigger] spot(c, r, i as int, j),
        k <= 8,
    ensures
        !row_hits(c, row_after(r, i), byte, k, q),
    decreases k,
{
    if k > 0 {
        lemma_row_hits_elsewhere(c, r, i, byte, (k - 1) as nat, q);
        lemma_spot(c, r, i, (k - 1) as nat);
        assert(q != spot(c, r, i as int, k - 1));
    }
}

/// Among the first `i` rows, pixel `j` of row `i2` is hit exactly when that
/// row is drawn and its bit is set.
proof fn lemma_sprite_hits_at(vx: u8, r: int, mem: Seq<u8>, start: int, i: nat, i2: int, j: int)
    requires
        vx <= 63,
        0 <= r <= 31,
        i <= 16,
        0 <= i2 < 16,
        0 <= j < 8,
    ensures
        sprite_hits(vx, r, mem, start, i, spot(vx as int, r, i2, j)) == (i2 < i && sprite_bit(
            mem[start + i2],
            j,
        )),
    decreases i,
{
    if i > 0 {
        let i1 = (i - 1) as nat;
        lemma_sprite_hits_at(vx, r, mem, start, i1, i2, j);
        if i2 == i1 {
            lemma_row_hits_at(vx as int, r, i1, mem[start + i - 1], 8, j);
        } else {
            lemma_row_misses(vx as int, r, i1, mem[start + i - 1], 8, i2, j);
        }
    }
}

/// A position that is none of the sprite's pixels is not hit.
proof fn lemma_sprite_hits_elsewhere(vx: u8, r: int, mem: Seq<u8>, start: int, i: nat, q: int)
    requires
        vx <= 63,
        0 <= r <= 31,
        forall|i2: int, j: int| 0 <= i2 < i && 0 <= j < 8 ==> q != #[trigger] spot(vx as int, r, i2, j),
    ensures
        !sprite_hits(vx, r, mem, start, i, q),
    decreases i,
{
    if i > 0 {
        let i1 = (i - 1) as nat;
        lemma_sprite_hits_elsewhere(vx, r, mem, start, i1, q);
        assert forall|j: int| 0 <= j < 8 implies q != #[trigger] spot(vx as int, r, i1 as int, j) by {}
        lemma_row_hits_elsewhere(vx as int, r, i1, mem[start + i - 1], 8, q);
    }
}

/// DXYN flips exactly the pixels of the sprite's set bits: pixel j of row i
/// (bit 7 - j of the byte at I + i) lands at column VX + j and row VY + i,
/// wrapping at the edges, and every other pixel is left alone. This holds
/// when neither coordinate comes from the flag register and VX <= 63,
/// VY <= 31 (from further out the first column or row is drawn twice).
pub proof fn law_sprite_flips_its_pixels(m: Machine, x: int, y: int, n: int)
    requires
        m.wf(),
        0 <= x < 15,
        0 <= y < 15,
        0 <= n < 16,
        m.reg(x) <= 63,
        m.reg(y) <= 31,
    ensures
        forall|i: int, j: int|
            0 <= i < n && 0 <= j < 8 ==> #[trigger] m.draw_sprite(x, y, n).screen[((m.reg(y) + i) % 32) * 64
                + (m.reg(x) + j) % 64] == (m.screen[((m.reg(y) + i) % 32) * 64 + (m.reg(x) + j) % 64] != ((
            m.memory[m.index + i] >> ((7 - j) as u8)) & 1u8 == 1u8)),
        forall|q: int|
            0 <= q < 2048 && ((q / 64 - m.reg(y)) % 32 >= n || (q % 64 - m.reg(x)) % 64 >= 8)
                ==> #[trigger] m.draw_sprite(x, y, n).screen[q] == m.screen[q],
{
    let vx = m.reg(x);
    let vy = m.reg(y) as int;
    let start = m.index as int;
    let pen = Pen { screen: m.screen, flag: 0, col: vx as int, row: vy };
    lemma_rows_collision(pen, m.memory, start, x, vx, n as nat);
    let r = m.draw_sprite(x, y, n);
    assert forall|i: int, j: int| 0 <= i < n && 0 <= j < 8 implies #[trigger] r.screen[((vy + i) % 32) * 64
        + (vx + j) % 64] == (m.screen[((vy + i) % 32) * 64 + (vx + j) % 64] != ((m.memory[start + i] >> ((7
        - j) as u8)) & 1u8 == 1u8)) by {
        lemma_sprite_hits_at(vx, vy, m.memory, start, n as nat, i, j);
        assert(spot(vx as int, vy, i, j) == ((vy + i) % 32) * 64 + (vx + j) % 64);
        lemma_pixel_index_in_screen(vx + j, vy + i);
    }
    assert forall|q: int|
        0 <= q < 2048 && ((q / 64 - vy) % 32 >= n || (q % 64 - vx) % 64 >= 8) implies #[trigger] r.screen[q]
        == m.screen[q] by {
        assert forall|i2: int, j: int| 0 <= i2 < n && 0 <= j < 8 implies q != #[trigger] spot(vx as int, vy, i2, j) by {
            let a = (vy + i2) % 32;
            let b = (vx + j) % 64;
            assert(spot(vx as int, vy, i2, j) == a * 64 + b);
            if q == a * 64 + b {
                assert(q / 64 == a && q % 64 == b);
                assert((a - vy) % 32 == i2) by (nonlinear_arith)
                    requires
                        a == (vy + i2) % 32,
                        0 <= i2 < 16,
                        0 <= vy,
                ;
                assert((b - vx) % 64 == j) by (nonlinear_arith)
                    requires
                        b == (vx + j) % 64,
                        0 <= j < 8,
                        0 <= vx,
                ;
            }
        }
        lemma_sprite_hits_elsewhere(vx, vy, m.memory, start, n as nat, q);
    }
}

/// DXYN reports a collision exactly when it turns a lit pixel off: the flag
/// ends up 1 if some pixel lit before the drawing is dark after it, and 0
/// otherwise, whatever the flag held before. This holds when neither
/// coordinate comes from the flag register and the sprite's pixels land on
/// different positions (VX <= 63, VY <= 31; from further out the first
/// column or row is drawn twice).
pub proof fn law_sprite_collision_flag(m: Machine, x: int, y: int, n: int)
    requires
        m.wf(),
        0 <= x < 15,
        0 <= y < 15,
        0 <= n < 16,
        m.reg(x) <= 63,
        m.reg(y) <= 31,
    ensures
        m.draw_sprite(x, y, n).reg(15) == 0 || m.draw_sprite(x, y, n).reg(15) == 1,
        (m.draw_sprite(x, y, n).reg(15) == 1) == (exists|q: int|
            0 <= q < 2048 && #[trigger] m.screen[q] && !m.draw_sprite(x, y, n).screen[q]),
{
    let vx = m.reg(x);
    let pen = Pen { screen: m.screen, flag: 0, col: vx as int, row: m.reg(y) as int };
    lemma_rows_collision(pen, m.memory, m.index as int, x, vx, n as nat);
    let r = m.draw_sprite(x, y, n);
    let p = pen.draw_rows(m.memory, m.index as int, x, vx, n as nat);
    assert(r.reg(15) == p.flag);
    if p.flag == 1 {
        let q = choose|q: int| 0 <= q < 2048 && #[trigger] sprite_hits(vx, pen.row, m.memory, m.index as int, n as nat, q) && pen.screen[q];
        assert(m.screen[q] && !r.screen[q]);
    }
    if exists|q: int| 0 <= q < 2048 && #[trigger] m.screen[q] && !r.screen[q] {
        let q = choose|q: int| 0 <= q < 2048 && #[trigger] m.screen[q] && !r.screen[q];
        assert(sprite_hits(vx, pen.row, m.memory, m.index as int, n as nat, q));
    }
}

/// On a blank screen DXYN reports no collision (for sprites whose pixels
/// land on different positions, drawn from registers other than the flag).
pub proof fn law_sprite_on_blank_screen_no_collision(m: Machine, x: int, y: int, n: int)
    requires
        m.wf(),
        0 <= x < 15,
        0 <= y < 15,
        0 <= n < 16,
        m.reg(x) <= 63,
        m.reg(y) <= 31,
        forall|q: int| 0 <= q < 2048 ==> !m.screen[q],
    ensures
        m.draw_sprite(x, y, n).reg(15) == 0,
{
    law_sprite_collision_flag(m, x, y, n);
}

/// What the flag held before DXYN makes no difference to what DXYN does
/// (when neither coordinate comes from the flag register).
pub proof fn law_sprite_ignores_old_flag(m: Machine, x: int, y: int, n: int, v: u8)
    requires
        m.wf(),
        0 <= x < 15,
        0 <= y < 15,
    ensures
        m.set_reg(15, v).draw_sprite(x, y, n) == m.draw_sprite(x, y, n),
{
    let a = m.set_reg(15, v).draw_sprite(x, y, n);
    let b = m.draw_sprite(x, y, n);
    assert(m.set_reg(15, v).reg(x) == m.reg(x));
    assert(m.set_reg(15, v).reg(y) == m.reg(y));
    assert(a.registers =~= b.registers);
}

/// A call followed by a return comes back to the instruction after the call
/// with the stack pointer where it was; the return address stays in the
/// slot the call used.
pub proof fn law_call_then_return(m: Machine, addr: u16)
    requires
        m.wf(),
        m.stack_pointer < 16,
    ensures
        m.call(addr).ret() == (Machine {
            stack: m.stack.update(m.stack_pointer as int, m.program_counter),
            ..m
        }),
{
}

/// Loading the registers right after storing them changes nothing more.
pub proof fn law_store_then_load_registers(m: Machine)
    requires
        m.wf(),
        m.index + 16 <= 4096,
    ensures
        m.store_registers().load_registers() == m.store_registers(),
{
    assert(m.store_registers().load_registers().registers =~= m.registers);
}

/// Storing the registers right after loading them changes nothing more.
pub proof fn law_load_then_store_registers(m: Machine)
    requires
        m.wf(),
        m.index + 16 <= 4096,
    ensures
        m.load_registers().store_registers() == m.load_registers(),
{
    assert(m.load_registers().store_registers().memory =~= m.memory);
}

/// FX33 stores three decimal digits whose value is VX.
pub proof fn law_bcd_digits(m: Machine, x: int)
    requires
        m.wf(),
        0 <= x < 16,
        m.index + 2 < 4096,
    ensures
        ({
            let r = m.store_bcd(x);
            let i = m.index as int;
            &&& r.memory[i] < 10
            &&& r.memory[i + 1] < 10
            &&& r.memory[i + 2] < 10
            &&& r.memory[i] * 100 + r.memory[i + 1] * 10 + r.memory[i + 2] == m.reg(x)
        }),
{
}

/// 8XY4 loses nothing: the new VX plus 256 times the carry is the sum of
/// the old VX and VY (when X is not the flag register).
pub proof fn law_add_carry_is_exact(m: Machine, x: int, y: int)
    requires
        m.wf(),
        0 <= x < 15,
        0 <= y < 16,
    ensures
        m.add_carry(x, y).reg(x) + 256 * m.add_carry(x, y).reg(15) == m.reg(x) + m.reg(y),
        m.add_carry(x, y).reg(15) <= 1,
{
}

/// 8XY5 followed by 8XY4 on the same registers gives VX back: subtraction
/// and addition modulo 256 undo each other (when neither register is the
/// flag register and they differ).
pub proof fn law_sub_then_add_restores(m: Machine, x: int, y: int)
    requires
        m.wf(),
        0 <= x < 15,
        0 <= y < 15,
        x != y,
    ensures
        m.sub_xy(x, y).add_carry(x, y).reg(x) == m.reg(x),
{
}

/// 8XY5 is subtraction modulo 256 with the flag set exactly when VX > VY
/// as unsigned bytes (neither register being the flag register).
pub proof fn law_subtract_borrow(m: Machine, x: int, y: int)
    requires
        m.wf(),
        0 <= x < 15,
        0 <= y < 15,
    ensures
        m.sub_xy(x, y).reg(15) == (if m.reg(x) > m.reg(y) { 1u8 } else { 0u8 }),
        (m.sub_xy(x, y).reg(x) as int + m.reg(y) as int) % 256 == m.reg(x) as int,
{
}

/// 8XY7 is reverse subtraction modulo 256 with the flag set exactly when
/// VX < VY as unsigned bytes (neither register being the flag register).
pub proof fn law_reverse_subtract_borrow(m: Machine, x: int, y: int)
    requires
        m.wf(),
        0 <= x < 15,
        0 <= y < 15,
    ensures
        m.sub_yx(x, y).reg(15) == (if m.reg(x) < m.reg(y) { 1u8 } else { 0u8 }),
        (m.sub_yx(x, y).reg(x) as int + m.reg(x) as int) % 256 == m.reg(y) as int,
{
}

/// 8XY6 loses nothing: twice the new VX plus the flag is the old VX, the
/// flag being the bit shifted out.
pub proof fn law_shift_right_exact(m: Machine, x: int)
    requires
        m.wf(),
        0 <= x < 15,
    ensures
        2 * m.shift_right(x).reg(x) + m.shift_right(x).reg(15) == m.reg(x),
        m.shift_right(x).reg(15) <= 1,
{
}

/// 8XYE loses nothing: the new VX plus 256 times the flag is twice the old
/// VX, the flag being the bit shifted out.
pub proof fn law_shift_left_exact(m: Machine, x: int)
    requires
        m.wf(),
        0 <= x < 15,
    ensures
        m.shift_left(x).reg(x) + 256 * m.shift_left(x).reg(15) == 2 * m.reg(x),
        m.shift_left(x).reg(15) <= 1,
{
}

/// The 8XY0 to 8XY3 instructions copy, OR, AND and XOR VY into VX and touch
/// no other register.
pub proof fn law_register_logic(m: Machine, x: int, y: int)
    requires
        m.wf(),
        0 <= x < 16,
        0 <= y < 16,
    ensures
        m.alu(x, y, 0).reg(x) == m.reg(y),
        m.alu(x, y, 1).reg(x) == m.reg(x) | m.reg(y),
        m.alu(x, y, 2).reg(x) == m.reg(x) & m.reg(y),
        m.alu(x, y, 3).reg(x) == m.reg(x) ^ m.reg(y),
        forall|n: int, r: int|
            0 <= n <= 3 && 0 <= r < 16 && r != x ==> #[trigger] m.alu(x, y, n).reg(r) == m.reg(r),
{
}

/// 00E0 turns every pixel of the screen off.
pub proof fn law_clear_turns_every_pixel_off(m: Machine)
    requires
        m.wf(),
    ensures
        m.clear().screen.len() == 2048,
        forall|q: int| 0 <= q < 2048 ==> !#[trigger] m.clear().screen[q],
{
}

/// The built-in font is the standard CHIP-8 hexadecimal font: after it is
/// loaded, the five bytes at 5 * d draw the digit d, and no two digits look
/// alike.
pub proof fn law_font_glyphs(m: Machine)
    requires
        m.wf(),
    ensures
        ({
            let f = m.with_font().memory;
            &&& f.subrange(0, 5) == seq![0xF0u8, 0x90, 0x90, 0x90, 0xF0]
            &&& f.subrange(5, 10) == seq![0x20u8, 0x60, 0x20, 0x20, 0x70]
            &&& f.subrange(10, 15) == seq![0xF0u8, 0x10, 0xF0, 0x80, 0xF0]
            &&& f.subrange(15, 20) == seq![0xF0u8, 0x10, 0xF0, 0x10, 0xF0]
            &&& f.subrange(20, 25) == seq![0x90u8, 0x90, 0xF0, 0x10, 0x10]
            &&& f.subrange(25, 30) == seq![0xF0u8, 0x80, 0xF0, 0x10, 0xF0]
            &&& f.subrange(30, 35) == seq![0xF0u8, 0x80, 0xF0, 0x90, 0xF0]
            &&& f.subrange(35, 40) == seq![0xF0u8, 0x10, 0x20, 0x40, 0x40]
            &&& f.subrange(40, 45) == seq![0xF0u8, 0x90, 0xF0, 0x90, 0xF0]
            &&& f.subrange(45, 50) == seq![0xF0u8, 0x90, 0xF0, 0x10, 0xF0]
            &&& f.subrange(50, 55) == seq![0xF0u8, 0x90, 0xF0, 0x90, 0x90]
            &&& f.subrange(55, 60) == seq![0xE0u8, 0x90, 0xE0, 0x90, 0xE0]
            &&& f.subrange(60, 65) == seq![0xF0u8, 0x80, 0x80, 0x80, 0xF0]
            &&& f.subrange(65, 70) == seq![0xE0u8, 0x90, 0x90, 0x90, 0xE0]
            &&& f.subrange(70, 75) == seq![0xF0u8, 0x80, 0xF0, 0x80, 0xF0]
            &&& f.subrange(75, 80) == seq![0xF0u8, 0x80, 0xF0, 0x80, 0x80]
            &&& f.len() == 4096
            &&& forall|a: int| 80 <= a < 4096 ==> #[trigger] f[a] == m.memory[a]
            &&& m.with_font() == (Machine { memory: f, ..m })
            &&& forall|d1: int, d2: int|
                0 <= d1 < 16 && 0 <= d2 < 16 && d1 != d2 ==> #[trigger] f.subrange(5 * d1, 5 * d1 + 5)
                    != #[trigger] f.subrange(5 * d2, 5 * d2 + 5)
        }),
{
    let f = m.with_font().memory;
    assert(f.subrange(0, 5) =~= seq![0xF0u8, 0x90, 0x90, 0x90, 0xF0]);
    assert(f.subrange(5, 10) =~= seq![0x20u8, 0x60, 0x20, 0x20, 0x70]);
    assert(f.subrange(10, 15) =~= seq![0xF0u8, 0x10, 0xF0, 0x80, 0xF0]);
    assert(f.subrange(15, 20) =~= seq![0xF0u8, 0x10, 0xF0, 0x10, 0xF0]);
    assert(f.subrange(20, 25) =~= seq![0x90u8, 0x90, 0xF0, 0x10, 0x10]);
    assert(f.subrange(25, 30) =~= seq![0xF0u8, 0x80, 0xF0, 0x10, 0xF0]);
    assert(f.subrange(30, 35) =~= seq![0xF0u8, 0x80, 0xF0, 0x90, 0xF0]);
    assert(f.subrange(35, 40) =~= seq![0xF0u8, 0x10, 0x20, 0x40, 0x40]);
    assert(f.subrange(40, 45) =~= seq![0xF0u8, 0x90, 0xF0, 0x90, 0xF0]);
    assert(f.subrange(45, 50) =~= seq![0xF0u8, 0x90, 0xF0, 0x10, 0xF0]);
    assert(f.subrange(50, 55) =~= seq![0xF0u8, 0x90, 0xF0, 0x90, 0x90]);
    assert(f.subrange(55, 60) =~= seq![0xE0u8, 0x90, 0xE0, 0x90, 0xE0]);
    assert(f.subrange(60, 65) =~= seq![0xF0u8, 0x80, 0x80, 0x80, 0xF0]);
    assert(f.subrange(65, 70) =~= seq![0xE0u8, 0x90, 0x90, 0x90, 0xE0]);
    assert(f.subrange(70, 75) =~= seq![0xF0u8, 0x80, 0xF0, 0x80, 0xF0]);
    assert(f.subrange(75, 80) =~= seq![0xF0u8, 0x80, 0xF0, 0x80, 0x80]);
    assert(glyph_signature(f, 0) == 0xF0909090F0);
    assert(glyph_signature(f, 1) == 0x2060202070);
    assert(glyph_signature(f, 2) == 0xF010F080F0);
    assert(glyph_signature(f, 3) == 0xF010F010F0);
    assert(glyph_signature(f, 4) == 0x9090F01010);
    assert(glyph_signature(f, 5) == 0xF080F010F0);
    assert(glyph_signature(f, 6) == 0xF080F090F0);
    assert(glyph_signature(f, 7) == 0xF010204040);
    assert(glyph_signature(f, 8) == 0xF090F090F0);
    assert(glyph_signature(f, 9) == 0xF090F010F0);
    assert(glyph_signature(f, 10) == 0xF090F09090);
    assert(glyph_signature(f, 11) == 0xE090E090E0);
    assert(glyph_signature(f, 12) == 0xF0808080F0);
    assert(glyph_signature(f, 13) == 0xE0909090E0);
    assert(glyph_signature(f, 14) == 0xF080F080F0);
    assert(glyph_signature(f, 15) == 0xF080F08080);
    assert forall|d1: int, d2: int|
        0 <= d1 < 16 && 0 <= d2 < 16 && d1 != d2 implies #[trigger] f.subrange(5 * d1, 5 * d1 + 5)
            != #[trigger] f.subrange(5 * d2, 5 * d2 + 5) by {
        lemma_signature_of_glyph(f, d1);
        lemma_small_digit(d1);
        lemma_small_digit(d2);
    }
}

/// The five bytes of a glyph read as one big-endian number.
spec fn glyph_signature(f: Seq<u8>, d: int) -> int {
    f[5 * d] as int * 0x1_0000_0000 + f[5 * d + 1] as int * 0x100_0000 + f[5 * d + 2] as int * 0x1_0000
        + f[5 * d + 3] as int * 0x100 + f[5 * d + 4] as int
}

/// Glyphs with the same bytes have the same signature.
proof fn lemma_signature_of_glyph(f: Seq<u8>, d: int)
    requires
        f.len() >= 80,
        0 <= d < 16,
    ensures
        forall|e: int|
            0 <= e < 16 && #[trigger] f.subrange(5 * e, 5 * e + 5) == f.subrange(5 * d, 5 * d + 5)
                ==> glyph_signature(f, e) == glyph_signature(f, d),
{
    assert forall|e: int|
        0 <= e < 16 && #[trigger] f.subrange(5 * e, 5 * e + 5) == f.subrange(5 * d, 5 * d + 5) implies
        glyph_signature(f, e) == glyph_signature(f, d) by {
        let g = f.subrange(5 * d, 5 * d + 5);
        let h = f.subrange(5 * e, 5 * e + 5);
        assert(g[0] == f[5 * d] && h[0] == f[5 * e]);
        assert(g[1] == f[5 * d + 1] && h[1] == f[5 * e + 1]);
        assert(g[2] == f[5 * d + 2] && h[2] == f[5 * e + 2]);
        assert(g[3] == f[5 * d + 3] && h[3] == f[5 * e + 3]);
        assert(g[4] == f[5 * d + 4] && h[4] == f[5 * e + 4]);
    }
}

proof fn lemma_small_digit(d: int)
    requires
        0 <= d < 16,
    ensures
        d == 0 || d == 1 || d == 2 || d == 3 || d == 4 || d == 5 || d == 6 || d == 7 || d == 8 || d == 9 || d == 10 || d == 11 || d == 12 || d == 13 || d == 14 || d == 15,
{
}

/// Jumps: 1NNN sets the program counter to NNN, BNNN to NNN + V0; nothing
/// else changes.
pub proof fn law_jumps(m: Machine, op: u16, rnd: u8)
    requires
        m.wf(),
        m.accepts(op),
    ensures
        op as int / 4096 == 1 ==> m.execute(op, rnd) == (Machine {
            program_counter: (op as int % 4096) as u16,
            ..m
        }),
        op as int / 4096 == 11 ==> m.execute(op, rnd) == (Machine {
            program_counter: (op as int % 4096 + m.registers[0]) as u16,
            ..m
        }),
        op as int / 4096 == 11 ==> m.execute(op, rnd).program_counter as int == op as int % 4096
            + m.registers[0],
{
}

/// 2NNN saves the program counter in the first free stack slot and jumps to
/// NNN; 00EE takes the most recently saved address back.
pub proof fn law_call_and_return_steps(m: Machine, op: u16, rnd: u8)
    requires
        m.wf(),
        m.accepts(op),
    ensures
        op as int / 4096 == 2 ==> {
            let r = m.execute(op, rnd);
            &&& r.stack[m.stack_pointer as int] == m.program_counter
            &&& forall|k: int| 0 <= k < 16 && k != m.stack_pointer ==> #[trigger] r.stack[k] == m.stack[k]
            &&& r.stack_pointer == m.stack_pointer + 1
            &&& r.program_counter as int == op as int % 4096
            &&& r.registers == m.registers && r.memory == m.memory && r.screen == m.screen
        },
        op == 0x00EE ==> {
            let r = m.execute(op, rnd);
            &&& r.program_counter == m.stack[m.stack_pointer - 1]
            &&& r.stack_pointer == m.stack_pointer - 1
            &&& r.stack == m.stack && r.registers == m.registers && r.memory == m.memory
        },
{
}

/// The conditional skips (3XNN, 4XNN, 5XY0, 9XY0) move the program counter
/// on by exactly one instruction when their condition holds and change
/// nothing else.
pub proof fn law_skips(m: Machine, op: u16, rnd: u8)
    requires
        m.wf(),
        m.accepts(op),
    ensures
        ({
            let kind = op as int / 4096;
            let vx = m.registers[(op as int / 256) % 16];
            let vy = m.registers[(op as int / 16) % 16];
            let nn = op as int % 256;
            let cond = if kind == 3 {
                vx == nn
            } else if kind == 4 {
                vx != nn
            } else if kind == 5 {
                vx == vy
            } else {
                vx != vy
            };
            (kind == 3 || kind == 4 || kind == 5 || kind == 9) ==> m.execute(op, rnd) == (Machine {
                program_counter: if cond { (m.program_counter + 2) as u16 } else { m.program_counter },
                ..m
            })
        }),
{
}

/// Register loads: 6XNN sets VX to NN, 7XNN adds NN modulo 256 without
/// touching the flag, CXNN keeps the bits of the random byte that NN
/// selects; no other register changes.
pub proof fn law_register_loads(m: Machine, op: u16, rnd: u8)
    requires
        m.wf(),
        m.accepts(op),
    ensures
        ({
            let kind = op as int / 4096;
            let x = (op as int / 256) % 16;
            let nn = (op as int % 256) as u8;
            let r = m.execute(op, rnd);
            &&& kind == 6 ==> r.registers == m.registers.update(x, nn)
            &&& kind == 7 ==> r.registers == m.registers.update(x, ((m.registers[x] + nn) % 256) as u8)
            &&& kind == 12 ==> r.registers == m.registers.update(x, rnd & nn)
            &&& (kind == 6 || kind == 7 || kind == 12) ==> r == (Machine { registers: r.registers, ..m })
        }),
{
}

/// ANNN, FX1E and FX29 set the index register to NNN, to I + VX and to the
/// address 5 * VX of VX's font glyph; FX07, FX15 and FX18 move values
/// between VX and the timers.
pub proof fn law_index_and_timers(m: Machine, op: u16, rnd: u8)
    requires
        m.wf(),
        m.accepts(op),
    ensures
        ({
            let kind = op as int / 4096;
            let x = (op as int / 256) % 16;
            let nn = op as int % 256;
            let vx = m.registers[x];
            let r = m.execute(op, rnd);
            &&& kind == 10 ==> r == (Machine { index: (op as int % 4096) as u16, ..m })
            &&& kind == 15 && nn == 0x1E ==> r == (Machine { index: (m.index + vx) as u16, ..m })
            &&& kind == 15 && nn == 0x1E ==> r.index == m.index + vx
            &&& kind == 15 && nn == 0x29 ==> r == (Machine { index: (5 * vx) as u16, ..m })
            &&& kind == 15 && nn == 0x29 ==> r.index == 5 * vx
            &&& kind == 15 && nn == 0x07 ==> r == (Machine { registers: m.registers.update(x, m.delay_timer), ..m })
            &&& kind == 15 && nn == 0x15 ==> r == (Machine { delay_timer: vx, ..m })
            &&& kind == 15 && nn == 0x18 ==> r == (Machine { sound_timer: vx, ..m })
        }),
{
}

/// The instructions that wait for the keypad (EX9E, EXA1, FX0A) change
/// nothing until the key answer comes.
pub proof fn law_key_instructions_wait(m: Machine, op: u16, rnd: u8)
    requires
        m.wf(),
        m.accepts(op),
        op as int / 4096 == 14 || (op as int / 4096 == 15 && op as int % 256 == 0x0A),
    ensures
        m.execute(op, rnd) == m,
{
}

/// FX55 writes register r to address I + r for every r, and nothing else.
pub proof fn law_store_registers_layout(m: Machine)
    requires
        m.wf(),
        m.index + 16 <= 4096,
    ensures
        forall|r: int| 0 <= r < 16 ==> #[trigger] m.store_registers().memory[m.index + r] == m.registers[r],
        forall|a: int|
            0 <= a < 4096 && !(m.index <= a < m.index + 16) ==> #[trigger] m.store_registers().memory[a]
                == m.memory[a],
        m.store_registers().memory.len() == 4096,
        m.store_registers() == (Machine { memory: m.store_registers().memory, ..m }),
{
}

/// FX65 reads register r from address I + r for every r, and nothing else
/// changes.
pub proof fn law_load_registers_layout(m: Machine)
    requires
        m.wf(),
        m.index + 16 <= 4096,
    ensures
        forall|r: int| 0 <= r < 16 ==> #[trigger] m.load_registers().registers[r] == m.memory[m.index + r],
        m.load_registers().registers.len() == 16,
        m.load_registers() == (Machine { registers: m.load_registers().registers, ..m }),
{
}

/// The 8XYN instructions as `dispatch` runs them (X and Y not the flag
/// register): copy, OR, AND, XOR; addition with carry; subtractions with the
/// flag set exactly when no borrow happens; shifts with the shifted-out bit
/// in the flag. Only VX and the flag change.
pub proof fn law_arithmetic_instructions(m: Machine, op: u16, rnd: u8)
    requires
        m.wf(),
        m.accepts(op),
        op as int / 4096 == 8,
        (op as int / 256) % 16 != 15,
        (op as int / 16) % 16 != 15,
    ensures
        ({
            let x = (op as int / 256) % 16;
            let n = op as int % 16;
            let vx = m.registers[x] as int;
            let vy = m.registers[(op as int / 16) % 16] as int;
            let r = m.execute(op, rnd);
            let rx = r.registers[x] as int;
            let f = r.registers[15] as int;
            &&& n == 0 ==> rx == vy
            &&& n == 1 ==> r.registers[x] == m.registers[x] | m.registers[(op as int / 16) % 16]
            &&& n == 2 ==> r.registers[x] == m.registers[x] & m.registers[(op as int / 16) % 16]
            &&& n == 3 ==> r.registers[x] == m.registers[x] ^ m.registers[(op as int / 16) % 16]
            &&& n <= 3 ==> f == m.registers[15]
            &&& n == 4 ==> rx + 256 * f == vx + vy && f <= 1
            &&& n == 5 ==> (rx + vy) % 256 == vx && f == (if vx > vy { 1int } else { 0int })
            &&& n == 7 ==> (rx + vx) % 256 == vy && f == (if vx < vy { 1int } else { 0int })
            &&& n == 6 ==> 2 * rx + f == vx && f <= 1
            &&& n == 14 ==> rx + 256 * f == 2 * vx && f <= 1
            &&& forall|k: int| 0 <= k < 15 && k != x ==> #[trigger] r.registers[k] == m.registers[k]
            &&& r == (Machine { registers: r.registers, ..m })
        }),
{
    let x = (op as int / 256) % 16;
    let y = (op as int / 16) % 16;
    law_add_carry_is_exact(m, x, y);
    law_subtract_borrow(m, x, y);
    law_reverse_subtract_borrow(m, x, y);
    law_shift_right_exact(m, x);
    law_shift_left_exact(m, x);
}

/// What each instruction asks of the display and keypad: 00E0 a cleared
/// screen, DXYN a redraw, EX9E and EXA1 whether the key in VX is pressed,
/// FX0A a key press for VX; nothing for the others.
pub proof fn law_effects(m: Machine, op: u16)
    requires
        m.wf(),
    ensures
        ({
            let kind = op as int / 4096;
            let x = (op as int / 256) % 16;
            let nn = op as int % 256;
            let e = m.effect(op);
            &&& op == 0x00E0 ==> e == Effect::ClearScreen
            &&& kind == 13 ==> e == Effect::DrawScreen
            &&& kind == 14 && nn == 0x9E ==> e == (Effect::SkipIfPressed { key: m.registers[x] })
            &&& kind == 14 && nn == 0xA1 ==> e == (Effect::SkipIfNotPressed { key: m.registers[x] })
            &&& kind == 15 && nn == 0x0A ==> e == (Effect::WaitForKey { x: x as usize })
            &&& (op != 0x00E0 && kind != 13 && kind != 14 && !(kind == 15 && nn == 0x0A)) ==> e
                == Effect::Nothing
        }),
{
}

/// At power-on everything is zero and execution starts at 0x200, with no
/// display attached.
pub proof fn law_power_on()
    ensures
        Machine::power_on().wf(),
        Machine::power_on().program_counter == 0x200,
        Machine::power_on().stack_pointer == 0,
        Machine::power_on().index == 0,
        Machine::power_on().delay_timer == 0,
        Machine::power_on().sound_timer == 0,
        !Machine::power_on().display,
        forall|a: int| 0 <= a < 4096 ==> #[trigger] Machine::power_on().memory[a] == 0,
        forall|r: int| 0 <= r < 16 ==> #[trigger] Machine::power_on().registers[r] == 0,
        forall|k: int| 0 <= k < 16 ==> #[trigger] Machine::power_on().stack[k] == 0,
        forall|q: int| 0 <= q < 2048 ==> !#[trigger] Machine::power_on().screen[q],
{
}

/// Instructions are two bytes, most significant first.
pub proof fn law_fetch_is_big_endian(m: Machine)
    requires
        m.wf(),
        m.program_counter + 1 < 4096,
    ensures
        m.fetch() as int == m.memory[m.program_counter as int] * 256 + m.memory[m.program_counter + 1],
{
}

/// Which opcodes run: everything except the undefined 8XYN (N = 8 to D, F),
/// EXNN (NN other than 9E, A1) and FXNN (NN other than 07, 0A, 15, 18, 1E,
/// 29, 33, 55, 65); the screen and keypad instructions need a display; a
/// call needs a free stack slot and a return a saved address; a skip, FX1E
/// and the memory accesses of DXYN, FX33, FX55 and FX65 must stay in range.
pub proof fn law_accepted_opcodes(m: Machine, op: u16)
    requires
        m.wf(),
    ensures
        ({
            let kind = op as int / 4096;
            let x = (op as int / 256) % 16;
            let y = (op as int / 16) % 16;
            let n = op as int % 16;
            let nn = op as int % 256;
            let vx = m.registers[x] as int;
            let vy = m.registers[y] as int;
            let pc = m.program_counter as int;
            let i = m.index as int;
            m.accepts(op) == if kind == 0 {
                (op == 0x00E0 ==> m.display) && (op == 0x00EE ==> m.stack_pointer >= 1)
            } else if kind == 2 {
                m.stack_pointer < 16
            } else if kind == 3 {
                vx == nn ==> pc + 2 <= 0xFFFF
            } else if kind == 4 {
                vx != nn ==> pc + 2 <= 0xFFFF
            } else if kind == 5 {
                vx == vy ==> pc + 2 <= 0xFFFF
            } else if kind == 8 {
                n <= 7 || n == 14
            } else if kind == 9 {
                vx != vy ==> pc + 2 <= 0xFFFF
            } else if kind == 13 {
                m.display && (n == 0 || i + n <= 4096)
            } else if kind == 14 {
                m.display && (nn == 0x9E || nn == 0xA1)
            } else if kind == 15 {
                &&& (nn == 0x07 || nn == 0x0A || nn == 0x15 || nn == 0x18 || nn == 0x1E || nn == 0x29
                    || nn == 0x33 || nn == 0x55 || nn == 0x65)
                &&& nn == 0x0A ==> m.display
                &&& nn == 0x1E ==> i + vx <= 0xFFFF
                &&& nn == 0x33 ==> i + 2 < 4096
                &&& (nn == 0x55 || nn == 0x65) ==> i + 16 <= 4096
            } else {
                true
            }
        }),
{
}

/// After the font is loaded, FX29 points I at the glyph of the digit in VX.
pub proof fn law_font_glyph_address(m: Machine, x: int)
    requires
        m.wf(),
        0 <= x < 16,
        m.reg(x) < 16,
    ensures
        ({
            let r = m.with_font().misc(x, 0x29);
            r.memory.subrange(r.index as int, r.index + 5) == glyph(m.reg(x) as int)
        }),
{
    let r = m.with_font().misc(x, 0x29);
    assert(r.memory.subrange(r.index as int, r.index + 5) =~= glyph(m.reg(x) as int));
}

/// Every instruction the machine accepts keeps it well formed, whatever the
/// random byte.
pub proof fn law_execute_keeps_wf(m: Machine, op: u16, rnd: u8)
    requires
        m.wf(),
        m.accepts(op),
    ensures
        m.execute(op, rnd).wf(),
{
    let x = (op as int / 256) % 16;
    let vx = m.reg(x);
    let pen = Pen { screen: m.screen, flag: 0, col: vx as int, row: m.reg((op as int / 16) % 16) as int };
    lemma_draw_rows_len(pen, m.memory, m.index as int, x, vx, (op as int % 16) as nat);
}

} // verus!
