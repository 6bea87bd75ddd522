//! What drawing a sprite does to each pixel and to the flag.
//!
//! [`Machine::drawn`] draws pixel after pixel. Here the result is stated
//! for each pixel of the screen by itself, for the sprites that programs
//! draw: those placed by registers other than the flag.

use crate::machine::{lemma_sprite_bit, sprite_bit, Machine};
use vstd::prelude::*;

verus! {

/// Whether pixel (`r`, `c`) lies under a sprite of `n` rows whose top left
/// corner is at column `left`, row `top`. The sprite wraps at the screen's
/// edges.
pub open spec fn under_sprite(left: int, top: int, n: int, r: int, c: int) -> bool {
    (r - top) % 32 < n && (c - left) % 64 < 8
}

/// The pixel of the sprite at `i` that lies over pixel (`r`, `c`) of the
/// screen, for a sprite whose top left corner is at column `left`, row `top`.
pub open spec fn sprite_at(s: Machine, left: int, top: int, r: int, c: int) -> u8 {
    sprite_bit(s.memory[s.i + (r - top) % 32], (c - left) % 64)
}

/// Whether the pixel in row `row`, column `bit` of the sprite at `i` is set
/// and lies over a lit pixel of row `r` of the screen.
pub open spec fn hits(s: Machine, left: int, r: int, row: int, bit: int) -> bool {
    sprite_bit(s.memory[s.i + row], bit) & s.gfx[r][(left + bit) % 64] == 1
}

/// Whether one of the first `count` pixels of row `row` of the sprite hits a
/// lit pixel of row `r` of the screen.
pub open spec fn row_collides(s: Machine, left: int, r: int, row: int, count: int) -> bool {
    exists|bit: int| 0 <= bit < count && #[trigger] hits(s, left, r, row, bit)
}

/// Whether a sprite of `n` rows at column `left`, row `top` has a set pixel
/// over a lit pixel of the screen.
pub open spec fn collides(s: Machine, left: int, top: int, n: int) -> bool {
    exists|row: int, bit: int|
        0 <= row < n && 0 <= bit < 8 && #[trigger] hits(s, left, (top + row) % 32, row, bit)
}

/// How the flag picks up one pixel: it stays 0 or 1, and is 1 if it was or
/// if the sprite's pixel is set over a lit pixel.
proof fn lemma_flag(flag: u8, color: u8, before: u8)
    by (bit_vector)
    requires
        flag <= 1,
        color <= 1,
    ensures
        flag | (color & before) <= 1,
        (flag | (color & before)) == 1 <==> flag == 1 || (color & before) == 1,
{
}

/// The first `count` pixels of one sprite row, pixel by pixel of the screen.
proof fn lemma_row_drawn(s: Machine, x: int, r: int, row: int, count: nat)
    requires
        s.shaped(),
        0 <= x < 15,
        0 <= r < 32,
        count <= 8,
        s.v[0xF] <= 1,
    ensures
        ({
            let t = s.row_drawn(x, r, row, count);
            &&& t.shaped()
            &&& t == (Machine { v: s.v.update(0xF, t.v[0xF]), gfx: t.gfx, ..s })
            &&& t.v[0xF] <= 1
            &&& t.v[0xF] == 1 <==> s.v[0xF] == 1 || row_collides(s, s.v[x] as int, r, row, count as int)
            &&& forall|rr: int, cc: int|
                0 <= rr < 32 && 0 <= cc < 64 ==> #[trigger] t.gfx[rr][cc] == if rr == r && (cc
                    - s.v[x]) % 64 < count {
                    s.gfx[rr][cc] ^ sprite_bit(s.memory[s.i + row], (cc - s.v[x]) % 64)
                } else {
                    s.gfx[rr][cc]
                }
        }),
    decreases count,
{
    if count > 0 {
        let left = s.v[x] as int;
        let bit = count - 1;
        let t = s.row_drawn(x, r, row, bit as nat);
        lemma_row_drawn(s, x, r, row, bit as nat);
        let u = t.plotted(x, r, row, bit);
        // The pixel drawn now is none of those drawn before it.
        let c = (left + bit) % 64;
        let color = sprite_bit(s.memory[s.i + row], bit);
        let before = s.gfx[r][c];
        assert((c - left) % 64 == bit);
        assert(t.gfx[r][c] == before);
        lemma_sprite_bit(s.memory[s.i + row], bit);
        lemma_flag(t.v[0xF], color, before);
        assert(u.v =~= s.v.update(0xF, u.v[0xF]));
        assert(hits(s, left, r, row, bit) <==> (color & before) == 1);
        if row_collides(s, left, r, row, count as int) {
            let b = choose|b: int| 0 <= b < count && #[trigger] hits(s, left, r, row, b);
            if b < bit {
                assert(row_collides(s, left, r, row, bit));
            }
        }
        assert forall|rr: int, cc: int| 0 <= rr < 32 && 0 <= cc < 64 implies #[trigger] u.gfx[rr][cc]
            == if rr == r && (cc - left) % 64 < count {
            s.gfx[rr][cc] ^ sprite_bit(s.memory[s.i + row], (cc - left) % 64)
        } else {
            s.gfx[rr][cc]
        } by {
            if rr != r || cc != c {
                assert(u.gfx[rr][cc] == t.gfx[rr][cc]);
                if rr == r {
                    assert((cc - left) % 64 != bit);
                }
            }
        }
    }
}

/// The first `rows` rows of a sprite, pixel by pixel of the screen.
proof fn lemma_rows_drawn(s: Machine, x: int, y: int, rows: nat)
    requires
        s.shaped(),
        0 <= x < 15,
        0 <= y < 15,
        rows <= 16,
        s.v[0xF] <= 1,
    ensures
        ({
            let t = s.rows_drawn(x, y, rows);
            &&& t.shaped()
            &&& t == (Machine { v: s.v.update(0xF, t.v[0xF]), gfx: t.gfx, ..s })
            &&& t.v[0xF] <= 1
            &&& t.v[0xF] == 1 <==> s.v[0xF] == 1 || collides(s, s.v[x] as int, s.v[y] as int, rows as int)
            &&& forall|r: int, c: int|
                0 <= r < 32 && 0 <= c < 64 ==> #[trigger] t.gfx[r][c] == if under_sprite(
                    s.v[x] as int,
                    s.v[y] as int,
                    rows as int,
                    r,
                    c,
                ) {
                    s.gfx[r][c] ^ sprite_at(s, s.v[x] as int, s.v[y] as int, r, c)
                } else {
                    s.gfx[r][c]
                }
        }),
    decreases rows,
{
    if rows > 0 {
        let left = s.v[x] as int;
        let top = s.v[y] as int;
        let row = rows - 1;
        let t = s.rows_drawn(x, y, row as nat);
        lemma_rows_drawn(s, x, y, row as nat);
        // The row of the screen drawn on now is none of those drawn on before.
        let r0 = (top + row) % 32;
        let u = t.row_drawn(x, r0, row, 8);
        lemma_row_drawn(t, x, r0, row, 8);
        assert forall|c: int| 0 <= c < 64 implies #[trigger] t.gfx[r0][c] == s.gfx[r0][c] by {
            assert(!under_sprite(left, top, row, r0, c));
        }
        assert forall|r: int, c: int| 0 <= r < 32 && 0 <= c < 64 implies #[trigger] u.gfx[r][c]
            == if under_sprite(left, top, rows as int, r, c) {
            s.gfx[r][c] ^ sprite_at(s, left, top, r, c)
        } else {
            s.gfx[r][c]
        } by {
            assert(r != r0 ==> (r - top) % 32 != row);
        }
        assert forall|bit: int| 0 <= bit < 8 implies (hits(t, left, r0, row, bit) <==> hits(
            s,
            left,
            r0,
            row,
            bit,
        )) by {
            assert(t.gfx[r0][(left + bit) % 64] == s.gfx[r0][(left + bit) % 64]);
        }
        if row_collides(t, left, r0, row, 8) {
            let b = choose|b: int| 0 <= b < 8 && #[trigger] hits(t, left, r0, row, b);
            assert(hits(s, left, (top + row) % 32, row, b));
        }
        if collides(s, left, top, rows as int) && !collides(s, left, top, row) {
            let (a, b) = choose|a: int, b: int|
                0 <= a < rows && 0 <= b < 8 && #[trigger] hits(s, left, (top + a) % 32, a, b);
            assert(a == row);
            assert(hits(t, left, r0, row, b));
        }
    }
}

/// What `Dxyn` does, pixel by pixel, where neither `x` nor `y` is the flag
/// register.
///
/// A pixel under the sprite is combined by exclusive or with the sprite's
/// pixel over it; every other pixel stays as it was. The sprite's top left
/// corner is at column `v[x]`, row `v[y]`, and it wraps at the screen's
/// edges. The flag becomes 1 if a set pixel of the sprite lies over a lit
/// pixel of the screen, and 0 if none does. The framebuffer is marked as
/// written, and nothing else changes.
pub proof fn lemma_drawn(s: Machine, x: int, y: int, n: int)
    requires
        s.shaped(),
        0 <= x < 15,
        0 <= y < 15,
        0 <= n < 16,
    ensures
        ({
            let d = s.drawn(x, y, n);
            let left = s.v[x] as int;
            let top = s.v[y] as int;
            &&& d.shaped()
            &&& d == (Machine {
                v: s.v.update(
                    0xF,
                    if collides(s, left, top, n) {
                        1
                    } else {
                        0
                    },
                ),
                gfx: d.gfx,
                gfx_updated: true,
                ..s
            })
            &&& forall|r: int, c: int|
                0 <= r < 32 && 0 <= c < 64 ==> #[trigger] d.gfx[r][c] == if under_sprite(
                    left,
                    top,
                    n,
                    r,
                    c,
                ) {
                    s.gfx[r][c] ^ sprite_at(s, left, top, r, c)
                } else {
                    s.gfx[r][c]
                }
        }),
{
    let reset = s.set_v(0xF, 0);
    let left = s.v[x] as int;
    let top = s.v[y] as int;
    lemma_rows_drawn(reset, x, y, n as nat);
    // Resetting the flag changes neither the sprite nor the screen.
    if collides(reset, left, top, n) {
        let (a, b) = choose|a: int, b: int|
            0 <= a < n && 0 <= b < 8 && #[trigger] hits(reset, left, (top + a) % 32, a, b);
        assert(hits(s, left, (top + a) % 32, a, b));
    }
    if collides(s, left, top, n) {
        let (a, b) = choose|a: int, b: int|
            0 <= a < n && 0 <= b < 8 && #[trigger] hits(s, left, (top + a) % 32, a, b);
        assert(hits(reset, left, (top + a) % 32, a, b));
    }
    assert(s.drawn(x, y, n).v =~= s.v.update(
        0xF,
        if collides(s, left, top, n) {
            1
        } else {
            0
        },
    ));
    assert forall|r: int, c: int| 0 <= r < 32 && 0 <= c < 64 implies #[trigger] s.drawn(
        x,
        y,
        n,
    ).gfx[r][c] == if under_sprite(left, top, n, r, c) {
        s.gfx[r][c] ^ sprite_at(s, left, top, r, c)
    } else {
        s.gfx[r][c]
    } by {
        assert(sprite_at(reset, left, top, r, c) == sprite_at(s, left, top, r, c));
    }
}

} // verus!
