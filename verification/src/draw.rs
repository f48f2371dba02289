use vstd::prelude::*;
use vstd::arithmetic::div_mod::{
    lemma_add_mod_noop, lemma_mod_division_less_than_divisor, lemma_mod_sub_multiples_vanish,
    lemma_small_mod,
};

verus! {

/// Index of the display cell at row `r`, column `c`, in the flat
/// row-major pixel buffer of a 32-row by 64-column screen.
pub open spec fn pix(r: int, c: int) -> int {
    r * 64 + c
}

/// Weight of sprite column `c` within a row byte: the most significant
/// bit is the leftmost pixel.
pub open spec fn bit_mask(c: int) -> int {
    if c == 0 {
        128
    } else if c == 1 {
        64
    } else if c == 2 {
        32
    } else if c == 3 {
        16
    } else if c == 4 {
        8
    } else if c == 5 {
        4
    } else if c == 6 {
        2
    } else {
        1
    }
}

/// Whether sprite row byte `b` has the pixel at column `c` set.
pub open spec fn sprite_bit(b: u8, c: int) -> bool {
    (b as int / bit_mask(c)) % 2 == 1
}

/// Display cell hit by sprite pixel (row `r`, column `c`) when the sprite
/// is drawn at base coordinates (`vx`, `vy`). Both coordinates wrap
/// independently per pixel.
pub open spec fn target(vx: int, vy: int, r: int, c: int) -> int {
    pix((vy + r) % 32, (vx + c) % 64)
}

/// Whether display cell `p` is hit by one of the sprite pixels already
/// processed when `r_done` full rows and `c_done` pixels of the next row
/// are drawn.
pub open spec fn covered_part(vx: int, vy: int, r_done: int, c_done: int, p: int) -> bool {
    exists|r: int, c: int|
        0 <= r && 0 <= c < 8 && (r < r_done || (r == r_done && c < c_done)) && p == target(
            vx,
            vy,
            r,
            c,
        )
}

/// How one draw of the sprite rows `rows` at base coordinates (`vx`, `vy`)
/// turns display `d0` into display `d1`: every sprite pixel is xor-ed onto
/// its (wrapped) target cell, and every other cell keeps its value.
pub open spec fn draw_rel(d0: Seq<bool>, d1: Seq<bool>, rows: Seq<u8>, vx: int, vy: int) -> bool {
    let n = rows.len() as int;
    &&& d0.len() == 2048
    &&& d1.len() == 2048
    &&& forall|r: int, c: int|
        0 <= r < n && 0 <= c < 8 ==> d1[#[trigger] target(vx, vy, r, c)] == (d0[target(vx, vy, r, c)]
            != sprite_bit(rows[r], c))
    &&& forall|p: int| 0 <= p < 2048 && !covered_part(vx, vy, n, 0, p) ==> d1[p] == d0[p]
}

/// Whether drawing the sprite rows `rows` at (`vx`, `vy`) onto display
/// `d0` erases at least one already-lit pixel; the draw operation reports
/// this in the flag register.
pub open spec fn draw_collision(d0: Seq<bool>, rows: Seq<u8>, vx: int, vy: int) -> bool {
    exists|r: int, c: int|
        0 <= r < rows.len() && 0 <= c < 8 && sprite_bit(rows[r], c) && d0[#[trigger] target(
            vx,
            vy,
            r,
            c,
        )]
}

/// A sum in [0, m) plus an offset in [0, m), taken mod m, wraps by at most
/// one subtraction of m.
proof fn lemma_wrap_val(q: int, i: int, m: int)
    requires
        m > 0,
        0 <= q < m,
        0 <= i < m,
    ensures
        (q + i) % m == if q + i < m {
            q + i
        } else {
            q + i - m
        },
{
    if q + i < m {
        lemma_small_mod((q + i) as nat, m as nat);
    } else {
        lemma_mod_sub_multiples_vanish(q + i, m);
        lemma_small_mod((q + i - m) as nat, m as nat);
    }
}

/// Adding distinct offsets below the modulus to the same base gives
/// distinct residues.
proof fn lemma_mod_shift_inj(a: int, i: int, j: int, m: int)
    requires
        m > 0,
        a >= 0,
        0 <= i < m,
        0 <= j < m,
        (a + i) % m == (a + j) % m,
    ensures
        i == j,
{
    let q = a % m;
    lemma_mod_division_less_than_divisor(a, m);
    lemma_add_mod_noop(a, i, m);
    lemma_add_mod_noop(a, j, m);
    lemma_small_mod(i as nat, m as nat);
    lemma_small_mod(j as nat, m as nat);
    lemma_wrap_val(q, i, m);
    lemma_wrap_val(q, j, m);
}

/// Every target cell lies inside the 2048-cell display buffer.
pub proof fn lemma_target_in_range(vx: int, vy: int, r: int, c: int)
    ensures
        0 <= target(vx, vy, r, c) < 2048,
{
    lemma_mod_division_less_than_divisor(vy + r, 32);
    lemma_mod_division_less_than_divisor(vx + c, 64);
}

/// Distinct sprite pixels of one draw land on distinct display cells:
/// row offsets stay below the display height and column offsets below the
/// display width, so neither wraps onto another.
pub proof fn lemma_target_inj(
    vx: int,
    vy: int,
    r1: int,
    c1: int,
    r2: int,
    c2: int,
)
    requires
        vx >= 0,
        vy >= 0,
        0 <= r1 < 32,
        0 <= r2 < 32,
        0 <= c1 < 8,
        0 <= c2 < 8,
        !(r1 == r2 && c1 == c2),
    ensures
        target(vx, vy, r1, c1) != target(vx, vy, r2, c2),
{
    let row1 = (vy + r1) % 32;
    let row2 = (vy + r2) % 32;
    let col1 = (vx + c1) % 64;
    let col2 = (vx + c2) % 64;
    lemma_mod_division_less_than_divisor(vy + r1, 32);
    lemma_mod_division_less_than_divisor(vy + r2, 32);
    lemma_mod_division_less_than_divisor(vx + c1, 64);
    lemma_mod_division_less_than_divisor(vx + c2, 64);
    if pix(row1, col1) == pix(row2, col2) {
        assert(row1 == row2 && col1 == col2);
        lemma_mod_shift_inj(vy, r1, r2, 32);
        lemma_mod_shift_inj(vx, c1, c2, 64);
    }
}

/// Drawing the same sprite twice at the same position restores the
/// display exactly: the second draw clears every pixel the first set and
/// re-sets every pixel the first cleared. The second draw reports a
/// collision precisely when the first draw set at least one pixel.
pub proof fn lemma_draw_twice(
    d0: Seq<bool>,
    d1: Seq<bool>,
    d2: Seq<bool>,
    rows: Seq<u8>,
    vx: int,
    vy: int,
)
    requires
        draw_rel(d0, d1, rows, vx, vy),
        draw_rel(d1, d2, rows, vx, vy),
    ensures
        d2 == d0,
        draw_collision(d1, rows, vx, vy) <==> (exists|r: int, c: int|
            0 <= r < rows.len() && 0 <= c < 8 && sprite_bit(rows[r], c) && !d0[#[trigger] target(
                vx,
                vy,
                r,
                c,
            )]),
{
    let n = rows.len() as int;
    assert forall|p: int| 0 <= p < 2048 implies d2[p] == d0[p] by {
        if covered_part(vx, vy, n, 0, p) {
            let (r, c) = choose|r: int, c: int|
                0 <= r && 0 <= c < 8 && (r < n || (r == n && c < 0)) && p == target(vx, vy, r, c);
            assert(d1[target(vx, vy, r, c)] == (d0[target(vx, vy, r, c)] != sprite_bit(
                rows[r],
                c,
            )));
            assert(d2[target(vx, vy, r, c)] == (d1[target(vx, vy, r, c)] != sprite_bit(
                rows[r],
                c,
            )));
        }
    }
    assert(d2 =~= d0);
    if draw_collision(d1, rows, vx, vy) {
        let (r, c) = choose|r: int, c: int|
            0 <= r < rows.len() && 0 <= c < 8 && sprite_bit(rows[r], c) && d1[target(vx, vy, r, c)];
        assert(d1[target(vx, vy, r, c)] == (d0[target(vx, vy, r, c)] != sprite_bit(rows[r], c)));
        assert(sprite_bit(rows[r], c) && !d0[target(vx, vy, r, c)]);
    }
    if exists|r: int, c: int|
        0 <= r < rows.len() && 0 <= c < 8 && sprite_bit(rows[r], c) && !d0[target(vx, vy, r, c)] {
        let (r, c) = choose|r: int, c: int|
            0 <= r < rows.len() && 0 <= c < 8 && sprite_bit(rows[r], c) && !d0[target(
                vx,
                vy,
                r,
                c,
            )];
        assert(d1[target(vx, vy, r, c)] == (d0[target(vx, vy, r, c)] != sprite_bit(rows[r], c)));
        assert(d1[target(vx, vy, r, c)]);
    }
}

} // verus!
