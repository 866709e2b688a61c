use vstd::prelude::*;

use crate::framebuffer::Framebuffer;
use crate::memory::Memory;

verus! {

/// Width of the canonical screen in pixels.
pub const SCREEN_WIDTH: u16 = 64;

/// Height of the canonical screen in pixels.
pub const SCREEN_HEIGHT: u16 = 32;

/// A start coordinate at or beyond the edge wraps to 0 before plotting.
pub open spec fn wrap_start(c: int, m: int) -> int {
    if c >= m {
        0
    } else {
        c
    }
}

/// Column at which bit `j` of a sprite row is plotted, for a draw whose
/// start column is `x0`.  Columns advance one per bit and wrap to 0 at the
/// right edge.
pub open spec fn sprite_col(x0: int, j: int) -> int {
    let s = wrap_start(x0, 64);
    if s + j < 64 {
        s + j
    } else {
        s + j - 64
    }
}

/// Row at which sprite row `i` is plotted, for a draw whose start row is
/// `y0`.  Rows advance one per sprite byte and wrap to 0 at the bottom.
pub open spec fn sprite_row(y0: int, i: int) -> int {
    let s = wrap_start(y0, 32);
    if s + i < 32 {
        s + i
    } else {
        s + i - 32
    }
}

/// Mask selecting bit `j` of a sprite byte, most significant bit first.
pub open spec fn bit_mask(j: int) -> u8 {
    if j == 0 {
        0x80
    } else if j == 1 {
        0x40
    } else if j == 2 {
        0x20
    } else if j == 3 {
        0x10
    } else if j == 4 {
        0x08
    } else if j == 5 {
        0x04
    } else if j == 6 {
        0x02
    } else {
        0x01
    }
}

/// Whether bit `j` (most significant first) of sprite byte `b` is set.
pub open spec fn sprite_bit(b: u8, j: int) -> bool {
    b & bit_mask(j) != 0
}

/// Whether sprite bit `(a, b)` is set and lands on screen cell `(r, c)`.
pub open spec fn plots(sprite: Seq<u8>, x0: int, y0: int, a: int, b: int, r: int, c: int) -> bool {
    &&& 0 <= a < sprite.len()
    &&& 0 <= b < 8
    &&& sprite_bit(sprite[a], b)
    &&& sprite_row(y0, a) == r
    &&& sprite_col(x0, b) == c
}

/// Whether the draw of `sprite` at `(x0, y0)` plots a set bit onto screen
/// cell `(r, c)`.
pub open spec fn sprite_hits(sprite: Seq<u8>, x0: int, y0: int, r: int, c: int) -> bool {
    exists|a: int, b: int| plots(sprite, x0, y0, a, b, r, c)
}

/// The framebuffer contents after XOR-drawing `sprite` at `(x0, y0)` onto
/// a 64x32 grid: each cell a set sprite bit lands on is toggled.  With at
/// most 16 sprite rows no cell is hit twice, so the toggle is a plain
/// exclusive-or with `sprite_hits`.
pub open spec fn draw_result(fb: Seq<bool>, sprite: Seq<u8>, x0: int, y0: int) -> Seq<bool> {
    Seq::new(fb.len(), |p: int| fb[p] != sprite_hits(sprite, x0, y0, p / 64, p % 64))
}

/// Whether sprite bit `(a, b)` is set and lands on a cell of `fb0` that is
/// already lit (so the XOR erases it).
pub open spec fn erases(
    fb0: Seq<bool>,
    sprite: Seq<u8>,
    x0: int,
    y0: int,
    a: int,
    b: int,
) -> bool {
    &&& 0 <= a < sprite.len()
    &&& 0 <= b < 8
    &&& sprite_bit(sprite[a], b)
    &&& fb0[sprite_row(y0, a) * 64 + sprite_col(x0, b)]
}

/// Whether the draw of `sprite` at `(x0, y0)` erases any previously-lit
/// pixel: the collision condition that the draw opcode reports in V[F].
pub open spec fn draw_collides(fb0: Seq<bool>, sprite: Seq<u8>, x0: int, y0: int) -> bool {
    exists|a: int, b: int| erases(fb0, sprite, x0, y0, a, b)
}

/// Cells toggled by the sprite bits that strictly precede `(i, j)` in
/// row-major plotting order.
spec fn hit_before(sprite: Seq<u8>, x0: int, y0: int, i: int, j: int, r: int, c: int) -> bool {
    exists|a: int, b: int| (a < i || (a == i && b < j)) && plots(sprite, x0, y0, a, b, r, c)
}

/// Erasures caused by the sprite bits that strictly precede `(i, j)` in
/// row-major plotting order.
spec fn collided_before(fb0: Seq<bool>, sprite: Seq<u8>, x0: int, y0: int, i: int, j: int) -> bool {
    exists|a: int, b: int| (a < i || (a == i && b < j)) && erases(fb0, sprite, x0, y0, a, b)
}

/// Two sprite bits never land on the same cell: rows advance by at most 15
/// from a start below 32, columns by at most 7 from a start below 64, so
/// neither coordinate repeats.
proof fn lemma_cell_injective(x0: int, y0: int, a: int, b: int, i: int, j: int)
    requires
        0 <= a < 16,
        0 <= b < 8,
        0 <= i < 16,
        0 <= j < 8,
        sprite_row(y0, a) == sprite_row(y0, i),
        sprite_col(x0, b) == sprite_col(x0, j),
    ensures
        a == i && b == j,
{
}

/// A screen position determines its row and column.
proof fn lemma_pos_unique(r1: int, c1: int, r2: int, c2: int)
    requires
        0 <= r1 < 32,
        0 <= c1 < 64,
        0 <= r2 < 32,
        0 <= c2 < 64,
    ensures
        (r1 * 64 + c1 == r2 * 64 + c2) <==> (r1 == r2 && c1 == c2),
{
}

/// No sprite bit precedes `(0, 0)`.
proof fn lemma_nothing_before(fb0: Seq<bool>, sprite: Seq<u8>, x0: int, y0: int)
    ensures
        forall|r: int, c: int| !hit_before(sprite, x0, y0, 0, 0, r, c),
        !collided_before(fb0, sprite, x0, y0, 0, 0),
{
    assert forall|r: int, c: int| !hit_before(sprite, x0, y0, 0, 0, r, c) by {
        if hit_before(sprite, x0, y0, 0, 0, r, c) {
            let (a, b) = choose|a: int, b: int|
                (a < 0 || (a == 0 && b < 0)) && plots(sprite, x0, y0, a, b, r, c);
            assert(false);
        }
    }
    if collided_before(fb0, sprite, x0, y0, 0, 0) {
        let (a, b) = choose|a: int, b: int|
            (a < 0 || (a == 0 && b < 0)) && erases(fb0, sprite, x0, y0, a, b);
        assert(false);
    }
}

/// Finishing one sprite row is the same point in plotting order as
/// starting the next.
proof fn lemma_row_rollover(fb0: Seq<bool>, sprite: Seq<u8>, x0: int, y0: int, i: int)
    ensures
        forall|r: int, c: int|
            hit_before(sprite, x0, y0, i, 8, r, c) == hit_before(sprite, x0, y0, i + 1, 0, r, c),
        collided_before(fb0, sprite, x0, y0, i, 8) == collided_before(
            fb0,
            sprite,
            x0,
            y0,
            i + 1,
            0,
        ),
{
    assert forall|r: int, c: int|
        hit_before(sprite, x0, y0, i, 8, r, c) == hit_before(
            sprite,
            x0,
            y0,
            i + 1,
            0,
            r,
            c,
        ) by {
        if hit_before(sprite, x0, y0, i, 8, r, c) {
            let (a, b) = choose|a: int, b: int|
                (a < i || (a == i && b < 8)) && plots(sprite, x0, y0, a, b, r, c);
            assert((a < i + 1 || (a == i + 1 && b < 0)) && plots(sprite, x0, y0, a, b, r, c));
        }
        if hit_before(sprite, x0, y0, i + 1, 0, r, c) {
            let (a, b) = choose|a: int, b: int|
                (a < i + 1 || (a == i + 1 && b < 0)) && plots(sprite, x0, y0, a, b, r, c);
            assert((a < i || (a == i && b < 8)) && plots(sprite, x0, y0, a, b, r, c));
        }
    }
    if collided_before(fb0, sprite, x0, y0, i, 8) {
        let (a, b) = choose|a: int, b: int|
            (a < i || (a == i && b < 8)) && erases(fb0, sprite, x0, y0, a, b);
        assert((a < i + 1 || (a == i + 1 && b < 0)) && erases(fb0, sprite, x0, y0, a, b));
    }
    if collided_before(fb0, sprite, x0, y0, i + 1, 0) {
        let (a, b) = choose|a: int, b: int|
            (a < i + 1 || (a == i + 1 && b < 0)) && erases(fb0, sprite, x0, y0, a, b);
        assert((a < i || (a == i && b < 8)) && erases(fb0, sprite, x0, y0, a, b));
    }
}

/// After every sprite bit has been plotted, the prefix notions coincide
/// with the full ones.
proof fn lemma_prefix_complete(fb0: Seq<bool>, sprite: Seq<u8>, x0: int, y0: int)
    ensures
        forall|r: int, c: int|
            hit_before(sprite, x0, y0, sprite.len() as int, 0, r, c) == sprite_hits(
                sprite,
                x0,
                y0,
                r,
                c,
            ),
        collided_before(fb0, sprite, x0, y0, sprite.len() as int, 0) == draw_collides(
            fb0,
            sprite,
            x0,
            y0,
        ),
{
    let n = sprite.len() as int;
    assert forall|r: int, c: int|
        hit_before(sprite, x0, y0, n, 0, r, c) == sprite_hits(sprite, x0, y0, r, c) by {
        if hit_before(sprite, x0, y0, n, 0, r, c) {
            let (a, b) = choose|a: int, b: int|
                (a < n || (a == n && b < 0)) && plots(sprite, x0, y0, a, b, r, c);
            assert(plots(sprite, x0, y0, a, b, r, c));
        }
        if sprite_hits(sprite, x0, y0, r, c) {
            let (a, b) = choose|a: int, b: int| plots(sprite, x0, y0, a, b, r, c);
            assert((a < n || (a == n && b < 0)) && plots(sprite, x0, y0, a, b, r, c));
        }
    }
    if collided_before(fb0, sprite, x0, y0, n, 0) {
        let (a, b) = choose|a: int, b: int|
            (a < n || (a == n && b < 0)) && erases(fb0, sprite, x0, y0, a, b);
        assert(erases(fb0, sprite, x0, y0, a, b));
    }
    if draw_collides(fb0, sprite, x0, y0) {
        let (a, b) = choose|a: int, b: int| erases(fb0, sprite, x0, y0, a, b);
        assert((a < n || (a == n && b < 0)) && erases(fb0, sprite, x0, y0, a, b));
    }
}

/// One plotting step: toggling the cell of sprite bit `(i, j)` carries the
/// framebuffer and collision flag from plotting prefix `(i, j)` to prefix
/// `(i, j + 1)`.
proof fn lemma_draw_step(
    fb0: Seq<bool>,
    fb_cur: Seq<bool>,
    sprite: Seq<u8>,
    x0: int,
    y0: int,
    i: int,
    j: int,
    coll_cur: bool,
)
    requires
        fb0.len() == 2048,
        fb_cur.len() == 2048,
        0 <= x0 < 256,
        0 <= y0 < 256,
        sprite.len() <= 16,
        0 <= i < sprite.len(),
        0 <= j < 8,
        forall|r: int, c: int|
            0 <= r < 32 && 0 <= c < 64 ==> fb_cur[r * 64 + c] == (fb0[r * 64 + c] != hit_before(
                sprite,
                x0,
                y0,
                i,
                j,
                r,
                c,
            )),
        coll_cur == collided_before(fb0, sprite, x0, y0, i, j),
    ensures
        !hit_before(sprite, x0, y0, i, j, sprite_row(y0, i), sprite_col(x0, j)),
        fb_cur[sprite_row(y0, i) * 64 + sprite_col(x0, j)] == fb0[sprite_row(y0, i) * 64
            + sprite_col(x0, j)],
        forall|r: int, c: int|
            0 <= r < 32 && 0 <= c < 64 ==> fb_cur.update(
                sprite_row(y0, i) * 64 + sprite_col(x0, j),
                fb_cur[sprite_row(y0, i) * 64 + sprite_col(x0, j)] != sprite_bit(sprite[i], j),
            )[r * 64 + c] == (fb0[r * 64 + c] != #[trigger] hit_before(
                sprite,
                x0,
                y0,
                i,
                j + 1,
                r,
                c,
            )),
        (coll_cur || (fb0[sprite_row(y0, i) * 64 + sprite_col(x0, j)] && sprite_bit(
            sprite[i],
            j,
        ))) == collided_before(fb0, sprite, x0, y0, i, j + 1),
{
    let ri = sprite_row(y0, i);
    let cj = sprite_col(x0, j);
    let q = ri * 64 + cj;
    assert(0 <= ri < 32 && 0 <= cj < 64);

    // Nothing plotted before (i, j) landed on this step's cell.
    if hit_before(sprite, x0, y0, i, j, ri, cj) {
        let (a, b) = choose|a: int, b: int|
            (a < i || (a == i && b < j)) && plots(sprite, x0, y0, a, b, ri, cj);
        lemma_cell_injective(x0, y0, a, b, i, j);
        assert(false);
    }
    assert(fb_cur[q] == fb0[q]);

    let fb_new = fb_cur.update(q, fb_cur[q] != sprite_bit(sprite[i], j));
    assert forall|r: int, c: int| 0 <= r < 32 && 0 <= c < 64 implies fb_new[r * 64 + c] == (fb0[r
        * 64 + c] != #[trigger] hit_before(sprite, x0, y0, i, j + 1, r, c)) by {
        lemma_pos_unique(r, c, ri, cj);
        if r == ri && c == cj {
            if sprite_bit(sprite[i], j) {
                assert((i < i || (i == i && j < j + 1)) && plots(sprite, x0, y0, i, j, r, c));
                assert(hit_before(sprite, x0, y0, i, j + 1, r, c));
            } else {
                if hit_before(sprite, x0, y0, i, j + 1, r, c) {
                    let (a, b) = choose|a: int, b: int|
                        (a < i || (a == i && b < j + 1)) && plots(sprite, x0, y0, a, b, r, c);
                    lemma_cell_injective(x0, y0, a, b, i, j);
                    assert(false);
                }
            }
        } else {
            assert(r * 64 + c != q);
            if hit_before(sprite, x0, y0, i, j + 1, r, c) {
                let (a, b) = choose|a: int, b: int|
                    (a < i || (a == i && b < j + 1)) && plots(sprite, x0, y0, a, b, r, c);
                if a == i && b == j {
                    assert(false);
                }
                assert((a < i || (a == i && b < j)) && plots(sprite, x0, y0, a, b, r, c));
                assert(hit_before(sprite, x0, y0, i, j, r, c));
            }
            if hit_before(sprite, x0, y0, i, j, r, c) {
                let (a, b) = choose|a: int, b: int|
                    (a < i || (a == i && b < j)) && plots(sprite, x0, y0, a, b, r, c);
                assert((a < i || (a == i && b < j + 1)) && plots(sprite, x0, y0, a, b, r, c));
                assert(hit_before(sprite, x0, y0, i, j + 1, r, c));
            }
        }
    }

    // The collision flag gains exactly this step's erasure.
    if collided_before(fb0, sprite, x0, y0, i, j + 1) {
        let (a, b) = choose|a: int, b: int|
            (a < i || (a == i && b < j + 1)) && erases(fb0, sprite, x0, y0, a, b);
        if a == i && b == j {
            assert(fb0[q] && sprite_bit(sprite[i], j));
        } else {
            assert((a < i || (a == i && b < j)) && erases(fb0, sprite, x0, y0, a, b));
            assert(collided_before(fb0, sprite, x0, y0, i, j));
        }
    }
    if coll_cur {
        let (a, b) = choose|a: int, b: int|
            (a < i || (a == i && b < j)) && erases(fb0, sprite, x0, y0, a, b);
        assert((a < i || (a == i && b < j + 1)) && erases(fb0, sprite, x0, y0, a, b));
        assert(collided_before(fb0, sprite, x0, y0, i, j + 1));
    }
    if fb0[q] && sprite_bit(sprite[i], j) {
        assert((i < i || (i == i && j < j + 1)) && erases(fb0, sprite, x0, y0, i, j));
        assert(collided_before(fb0, sprite, x0, y0, i, j + 1));
    }
}

/// XOR-draw an `n`-row, 8-column sprite read from memory at `addr` onto the
/// 64x32 framebuffer, starting at screen position `(x0, y0)`.  Start
/// coordinates beyond an edge wrap to 0, and plotting wraps around both
/// edges, independently per row and column.  Reports whether any
/// previously-lit pixel was erased.
pub fn draw_sprite(fb: &mut Framebuffer, mem: &Memory, addr: u16, x0: u8, y0: u8, n: u8) -> (collision:
    bool)
    requires
        old(fb).wf(),
        old(fb)@.width == 64,
        old(fb)@.height == 32,
        mem.wf(),
        n <= 15,
        addr as int + n as int <= 4096,
    ensures
        final(fb).wf(),
        final(fb)@.width == 64,
        final(fb)@.height == 32,
        final(fb)@.data == draw_result(
            old(fb)@.data,
            mem@.subrange(addr as int, addr as int + n as int),
            x0 as int,
            y0 as int,
        ),
        collision == draw_collides(
            old(fb)@.data,
            mem@.subrange(addr as int, addr as int + n as int),
            x0 as int,
            y0 as int,
        ),
{
    let ghost fb0 = fb@.data;
    let ghost sprite = mem@.subrange(addr as int, addr as int + n as int);
    let ghost x0i = x0 as int;
    let ghost y0i = y0 as int;
    proof {
        lemma_nothing_before(fb0, sprite, x0i, y0i);
    }
    let mut collision = false;
    let mut i: usize = 0;
    while i < n as usize
        invariant
            fb.wf(),
            fb@.width == 64,
            fb@.height == 32,
            fb@.data.len() == 2048,
            fb0.len() == 2048,
            mem.wf(),
            n <= 15,
            addr as int + n as int <= 4096,
            i <= n,
            sprite == mem@.subrange(addr as int, addr as int + n as int),
            x0i == x0 as int && y0i == y0 as int,
            forall|r: int, c: int|
                0 <= r < 32 && 0 <= c < 64 ==> fb@.data[r * 64 + c] == (fb0[r * 64 + c]
                    != hit_before(sprite, x0i, y0i, i as int, 0, r, c)),
            collision == collided_before(fb0, sprite, x0i, y0i, i as int, 0),
        decreases n - i,
    {
        let row_byte = mem.get(addr + i as u16);
        assert(row_byte == sprite[i as int]);
        let ys: u16 = if (y0 as u16) >= 32 {
            0
        } else {
            y0 as u16
        };
        let r: u16 = if ys + (i as u16) < 32 {
            ys + (i as u16)
        } else {
            ys + (i as u16) - 32
        };
        assert(r as int == sprite_row(y0i, i as int));
        let mut j: usize = 0;
        while j < 8
            invariant
                fb.wf(),
                fb@.width == 64,
                fb@.height == 32,
                fb@.data.len() == 2048,
                fb0.len() == 2048,
                n <= 15,
                i < n,
                j <= 8,
                sprite.len() == n,
                row_byte == sprite[i as int],
                r as int == sprite_row(y0i, i as int),
                r < 32,
                0 <= x0i < 256 && 0 <= y0i < 256,
                x0i == x0 as int && y0i == y0 as int,
                forall|rr: int, cc: int|
                    0 <= rr < 32 && 0 <= cc < 64 ==> fb@.data[rr * 64 + cc] == (fb0[rr * 64 + cc]
                        != hit_before(sprite, x0i, y0i, i as int, j as int, rr, cc)),
                collision == collided_before(fb0, sprite, x0i, y0i, i as int, j as int),
            decreases 8 - j,
        {
            let xs: u16 = if (x0 as u16) >= 64 {
                0
            } else {
                x0 as u16
            };
            let c: u16 = if xs + (j as u16) < 64 {
                xs + (j as u16)
            } else {
                xs + (j as u16) - 64
            };
            assert(c as int == sprite_col(x0i, j as int));
            let mask: u8 = match j {
                0 => 0x80,
                1 => 0x40,
                2 => 0x20,
                3 => 0x10,
                4 => 0x08,
                5 => 0x04,
                6 => 0x02,
                _ => 0x01,
            };
            assert(mask == bit_mask(j as int));
            let bit = row_byte & mask != 0;
            assert(bit == sprite_bit(sprite[i as int], j as int));
            let ghost fb_cur = fb@.data;
            let ghost coll_cur = collision;
            proof {
                lemma_draw_step(fb0, fb_cur, sprite, x0i, y0i, i as int, j as int, coll_cur);
            }
            let erased = fb.xor_pixel(c, r, bit);
            collision = collision || erased;
            j += 1;
        }
        proof {
            lemma_row_rollover(fb0, sprite, x0i, y0i, i as int);
            assert forall|rr: int, cc: int| 0 <= rr < 32 && 0 <= cc < 64 implies fb@.data[rr * 64
                + cc] == (fb0[rr * 64 + cc] != #[trigger] hit_before(
                sprite,
                x0i,
                y0i,
                i as int + 1,
                0,
                rr,
                cc,
            )) by {
                assert(fb@.data[rr * 64 + cc] == (fb0[rr * 64 + cc] != hit_before(
                    sprite,
                    x0i,
                    y0i,
                    i as int,
                    8,
                    rr,
                    cc,
                )));
            }
        }
        i += 1;
    }
    proof {
        lemma_prefix_complete(fb0, sprite, x0i, y0i);
        assert forall|p: int| 0 <= p < 2048 implies fb@.data[p] == (fb0[p] != sprite_hits(
            sprite,
            x0i,
            y0i,
            p / 64,
            p % 64,
        )) by {
            let r = p / 64;
            let c = p % 64;
            assert(0 <= r < 32);
            assert(0 <= c < 64);
            assert(p == r * 64 + c);
        }
        assert(fb@.data =~= draw_result(fb0, sprite, x0i, y0i));
    }
    collision
}

/// Law: drawing the same sprite twice at the same position restores every
/// pixel, whatever was on screen before: the XOR of identical bits
/// cancels.
pub proof fn lemma_draw_involutive(fb: Seq<bool>, sprite: Seq<u8>, x0: int, y0: int)
    ensures
        draw_result(draw_result(fb, sprite, x0, y0), sprite, x0, y0) == fb,
{
    assert(draw_result(draw_result(fb, sprite, x0, y0), sprite, x0, y0) =~= fb);
}

/// Law: on a cleared screen, a sprite with at least one set bit (bit
/// `(a, b)` here) erases nothing on its first draw, and drawing it again
/// unchanged reports a collision.
pub proof fn lemma_redraw_collides(
    fb: Seq<bool>,
    sprite: Seq<u8>,
    x0: int,
    y0: int,
    a: int,
    b: int,
)
    requires
        fb.len() == 2048,
        sprite.len() <= 16,
        0 <= x0 < 256,
        0 <= y0 < 256,
        forall|p: int| 0 <= p < 2048 ==> !fb[p],
        0 <= a < sprite.len(),
        0 <= b < 8,
        sprite_bit(sprite[a], b),
    ensures
        !draw_collides(fb, sprite, x0, y0),
        draw_collides(draw_result(fb, sprite, x0, y0), sprite, x0, y0),
{
    if draw_collides(fb, sprite, x0, y0) {
        let (a2, b2) = choose|a2: int, b2: int| erases(fb, sprite, x0, y0, a2, b2);
        assert(0 <= sprite_row(y0, a2) < 32 && 0 <= sprite_col(x0, b2) < 64);
        assert(false);
    }
    let fb1 = draw_result(fb, sprite, x0, y0);
    let r = sprite_row(y0, a);
    let c = sprite_col(x0, b);
    let p = r * 64 + c;
    assert(0 <= r < 32 && 0 <= c < 64);
    assert(p / 64 == r && p % 64 == c);
    assert(plots(sprite, x0, y0, a, b, r, c));
    assert(sprite_hits(sprite, x0, y0, p / 64, p % 64));
    assert(fb1[p]);
    assert(erases(fb1, sprite, x0, y0, a, b));
}

} // verus!
