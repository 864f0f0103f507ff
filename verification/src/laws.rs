//! General laws of the machine, stated and proved once and for all inputs:
//! decoder totality, the arithmetic flag behaviour of the ALU family, the
//! shift-out flags, conditional-skip program-counter timing, and the
//! pixel-level reading of the draw instruction — an XOR-blit whose
//! collision flag reports exactly the overlap with set pixels, and which
//! cancels itself when repeated.

use vstd::prelude::*;

use crate::decode::Instruction;
use crate::decode::imm_kk;
use crate::decode::nib_a;
use crate::decode::nib_c;
use crate::decode::nib_d;
use crate::decode::spec_decode;
use crate::execute::DrawState;
use crate::execute::byte_bit;
use crate::execute::draw_bits;
use crate::execute::draw_rows;
use crate::execute::spec_step;
use crate::execute::wrap8;
use crate::machine::MachineV;

verus! {

/// Decoder totality: every word of an unconditionally-defined family
/// (1, 2, 3, 4, 6, 7, A, B, C, D) decodes to exactly one instruction;
/// within families 0, 5, 8, 9, E and F decoding succeeds precisely on the
/// defined sub-forms, so every other bit pattern — including the
/// machine-code-call family — is a decode error.
pub proof fn lemma_decoder_totality(w: u16)
    ensures
        (nib_a(w) == 1 || nib_a(w) == 2 || nib_a(w) == 3 || nib_a(w) == 4 || nib_a(w) == 6
            || nib_a(w) == 7 || nib_a(w) == 0xA || nib_a(w) == 0xB || nib_a(w) == 0xC
            || nib_a(w) == 0xD) ==> (spec_decode(w) matches Some(_)),
        nib_a(w) == 0 ==> ((spec_decode(w) matches Some(_)) <==> (w == 0x00E0 || w == 0x00EE)),
        nib_a(w) == 5 ==> ((spec_decode(w) matches Some(_)) <==> nib_d(w) == 0),
        nib_a(w) == 9 ==> ((spec_decode(w) matches Some(_)) <==> nib_d(w) == 0),
        nib_a(w) == 8 ==> ((spec_decode(w) matches Some(_)) <==> (nib_d(w) <= 7 || nib_d(w)
            == 0xE)),
        nib_a(w) == 0xE ==> ((spec_decode(w) matches Some(_)) <==> ((nib_c(w) == 9 && nib_d(w)
            == 0xE) || (nib_c(w) == 0xA && nib_d(w) == 1))),
        nib_a(w) == 0xF ==> ((spec_decode(w) matches Some(_)) <==> (imm_kk(w) == 0x07 || imm_kk(w)
            == 0x0A || imm_kk(w) == 0x15 || imm_kk(w) == 0x18 || imm_kk(w) == 0x1E || imm_kk(w)
            == 0x29 || imm_kk(w) == 0x33 || imm_kk(w) == 0x55 || imm_kk(w) == 0x65)),
{
    assert(nib_a(w) < 16) by (nonlinear_arith);
}

/// ALU add overflow law: the family-8 add leaves `Vx + Vy` reduced modulo
/// 256 in Vx, and VF is 1 exactly when the unsigned sum overflows 255.
pub proof fn lemma_add_carry(pre: MachineV, x: u8, y: u8)
    requires
        pre.wf(),
        x < 15,
        y < 16,
    ensures
        spec_step(pre, Instruction::Add(x, y)).post.v[x as int] == wrap8(
            pre.v[x as int] + pre.v[y as int],
        ),
        spec_step(pre, Instruction::Add(x, y)).post.v[15] == (if pre.v[x as int] + pre.v[y as int]
            > 255 {
            1u8
        } else {
            0u8
        }),
{
}

/// ALU subtract borrow law: the family-8 subtract leaves `Vx - Vy` reduced
/// modulo 256 in Vx, and VF is 1 exactly when no borrow occurred
/// (`Vx >= Vy` before the subtraction).
pub proof fn lemma_sub_borrow(pre: MachineV, x: u8, y: u8)
    requires
        pre.wf(),
        x < 15,
        y < 16,
    ensures
        spec_step(pre, Instruction::Sub(x, y)).post.v[x as int] == wrap8(
            pre.v[x as int] - pre.v[y as int],
        ),
        spec_step(pre, Instruction::Sub(x, y)).post.v[15] == (if pre.v[x as int] >= pre.v[y as int] {
            1u8
        } else {
            0u8
        }),
{
}

/// Shift laws: the right shift halves Vx and leaves its old low bit in VF;
/// the left shift doubles Vx modulo 256 and leaves its old high bit in VF.
pub proof fn lemma_shift(pre: MachineV, x: u8)
    requires
        pre.wf(),
        x < 15,
    ensures
        spec_step(pre, Instruction::Shr(x)).post.v[x as int] == pre.v[x as int] / 2,
        spec_step(pre, Instruction::Shr(x)).post.v[15] == pre.v[x as int] % 2,
        spec_step(pre, Instruction::Shl(x)).post.v[x as int] == wrap8(2 * pre.v[x as int]),
        spec_step(pre, Instruction::Shl(x)).post.v[15] == pre.v[x as int] / 128,
{
}

/// Whether column `col` of one sprite row lands on framebuffer position `p`
/// with its sprite pixel set, for a row drawn at screen row `y` and origin
/// column `vx`.
pub open spec fn row_mask(byte: u8, vx: u8, y: int, k: int, p: int) -> bool {
    exists|col: int|
        0 <= col < k && #[trigger] byte_bit(byte, col) && p == y * 64 + (vx + col) % 64
}

/// Whether sprite row `row` covers framebuffer position `p` with a set
/// sprite pixel.
pub open spec fn row_covers(mem: Seq<u8>, i: u16, vx: u8, vy: u8, row: int, p: int) -> bool {
    row_mask(mem[(i + row) % 4096], vx, (vy + row) % 32, 8, p)
}

/// Whether any of the first `n` sprite rows covers framebuffer position `p`
/// with a set sprite pixel.
pub open spec fn sprite_mask(mem: Seq<u8>, i: u16, vx: u8, vy: u8, n: int, p: int) -> bool {
    exists|row: int| 0 <= row < n && #[trigger] row_covers(mem, i, vx, vy, row, p)
}

/// Whether some set sprite pixel of one row lands on a set framebuffer
/// pixel of `screen`, for the first `k` columns of a row drawn at screen
/// row `y` and origin column `vx`.
pub open spec fn row_collision(byte: u8, vx: u8, y: int, k: int, screen: Seq<bool>) -> bool {
    exists|col: int|
        0 <= col < k && #[trigger] byte_bit(byte, col) && screen[y * 64 + (vx + col) % 64]
}

/// Whether sprite row `row` lands some set sprite pixel on a set pixel of
/// `screen`.
pub open spec fn row_hits(mem: Seq<u8>, i: u16, vx: u8, vy: u8, row: int, screen: Seq<bool>) -> bool {
    row_collision(mem[(i + row) % 4096], vx, (vy + row) % 32, 8, screen)
}

/// Whether any of the first `n` sprite rows lands a set sprite pixel on a
/// set pixel of `screen`.
pub open spec fn sprite_collision(
    mem: Seq<u8>,
    i: u16,
    vx: u8,
    vy: u8,
    n: int,
    screen: Seq<bool>,
) -> bool {
    exists|row: int| 0 <= row < n && #[trigger] row_hits(mem, i, vx, vy, row, screen)
}

proof fn lemma_wrap_distinct(base: int, c1: int, c2: int, m: int)
    by (nonlinear_arith)
    requires
        0 <= base,
        0 <= c1 < c2,
        c2 - c1 < m,
        0 < m,
    ensures
        (base + c1) % m != (base + c2) % m,
{
}

proof fn lemma_draw_bits_pixels(st: DrawState, byte: u8, vx: u8, y: int, k: int)
    requires
        st.screen.len() == 2048,
        0 <= y < 32,
        0 <= k <= 8,
    ensures
        draw_bits(st, byte, vx, y, k).screen.len() == 2048,
        forall|p: int|
            0 <= p < 2048 ==> draw_bits(st, byte, vx, y, k).screen[p] == (st.screen[p]
                != row_mask(byte, vx, y, k, p)),
        draw_bits(st, byte, vx, y, k).hit == (st.hit || row_collision(byte, vx, y, k, st.screen)),
    decreases k,
{
    if k == 0 {
        assert(forall|p: int| !row_mask(byte, vx, y, 0, p));
        assert(!row_collision(byte, vx, y, 0, st.screen));
    } else {
        lemma_draw_bits_pixels(st, byte, vx, y, k - 1);
        let prev = draw_bits(st, byte, vx, y, k - 1);
        let col0 = k - 1;
        let p0 = y * 64 + (vx + col0) % 64;
        assert(0 <= p0 < 2048);
        assert forall|p: int| 0 <= p < 2048 implies (row_mask(byte, vx, y, k, p) <==> (row_mask(
            byte,
            vx,
            y,
            k - 1,
            p,
        ) || (byte_bit(byte, col0) && p == p0))) by {
            if row_mask(byte, vx, y, k, p) {
                let c = choose|c: int|
                    0 <= c < k && #[trigger] byte_bit(byte, c) && p == y * 64 + (vx + c) % 64;
                if c < k - 1 {
                    assert(byte_bit(byte, c));
                    assert(row_mask(byte, vx, y, k - 1, p));
                }
            }
            if row_mask(byte, vx, y, k - 1, p) {
                let c = choose|c: int|
                    0 <= c < k - 1 && #[trigger] byte_bit(byte, c) && p == y * 64 + (vx + c) % 64;
                assert(byte_bit(byte, c));
                assert(row_mask(byte, vx, y, k, p));
            }
            if byte_bit(byte, col0) && p == p0 {
                assert(row_mask(byte, vx, y, k, p));
            }
        }
        assert(!row_mask(byte, vx, y, k - 1, p0)) by {
            if row_mask(byte, vx, y, k - 1, p0) {
                let c = choose|c: int|
                    0 <= c < k - 1 && #[trigger] byte_bit(byte, c) && p0 == y * 64 + (vx + c) % 64;
                lemma_wrap_distinct(vx as int, c, col0, 64);
            }
        }
        assert(row_collision(byte, vx, y, k, st.screen) <==> (row_collision(
            byte,
            vx,
            y,
            k - 1,
            st.screen,
        ) || (byte_bit(byte, col0) && st.screen[p0]))) by {
            if row_collision(byte, vx, y, k, st.screen) {
                let c = choose|c: int|
                    0 <= c < k && #[trigger] byte_bit(byte, c) && st.screen[y * 64 + (vx + c)
                        % 64];
                if c < k - 1 {
                    assert(byte_bit(byte, c));
                    assert(row_collision(byte, vx, y, k - 1, st.screen));
                }
            }
            if row_collision(byte, vx, y, k - 1, st.screen) {
                let c = choose|c: int|
                    0 <= c < k - 1 && #[trigger] byte_bit(byte, c) && st.screen[y * 64 + (vx + c)
                        % 64];
                assert(byte_bit(byte, c));
                assert(row_collision(byte, vx, y, k, st.screen));
            }
            if byte_bit(byte, col0) && st.screen[p0] {
                assert(row_collision(byte, vx, y, k, st.screen));
            }
        }
    }
}

proof fn lemma_row_band(byte: u8, vx: u8, y: int, p: int)
    requires
        row_mask(byte, vx, y, 8, p),
    ensures
        y * 64 <= p < y * 64 + 64,
{
    let c = choose|c: int|
        0 <= c < 8 && #[trigger] byte_bit(byte, c) && p == y * 64 + (vx + c) % 64;
}

proof fn lemma_draw_rows_pixels(st: DrawState, mem: Seq<u8>, i: u16, vx: u8, vy: u8, n: int)
    requires
        st.screen.len() == 2048,
        mem.len() == 4096,
        0 <= n <= 16,
    ensures
        draw_rows(st, mem, i, vx, vy, n).screen.len() == 2048,
        forall|p: int|
            0 <= p < 2048 ==> draw_rows(st, mem, i, vx, vy, n).screen[p] == (st.screen[p]
                != sprite_mask(mem, i, vx, vy, n, p)),
        draw_rows(st, mem, i, vx, vy, n).hit == (st.hit || sprite_collision(
            mem,
            i,
            vx,
            vy,
            n,
            st.screen,
        )),
    decreases n,
{
    if n == 0 {
        assert(forall|p: int| !sprite_mask(mem, i, vx, vy, 0, p));
        assert(!sprite_collision(mem, i, vx, vy, 0, st.screen));
    } else {
        lemma_draw_rows_pixels(st, mem, i, vx, vy, n - 1);
        let prev = draw_rows(st, mem, i, vx, vy, n - 1);
        let row0 = n - 1;
        let byte = mem[(i + row0) % 4096];
        let yy = (vy + row0) % 32;
        assert(0 <= yy < 32);
        lemma_draw_bits_pixels(prev, byte, vx, yy, 8);
        assert forall|p: int| 0 <= p < 2048 implies (sprite_mask(mem, i, vx, vy, n, p) <==> (
        sprite_mask(mem, i, vx, vy, n - 1, p) || row_covers(mem, i, vx, vy, row0, p))) by {
            if sprite_mask(mem, i, vx, vy, n, p) {
                let r = choose|r: int| 0 <= r < n && #[trigger] row_covers(mem, i, vx, vy, r, p);
                if r < n - 1 {
                    assert(row_covers(mem, i, vx, vy, r, p));
                    assert(sprite_mask(mem, i, vx, vy, n - 1, p));
                }
            }
            if sprite_mask(mem, i, vx, vy, n - 1, p) {
                let r = choose|r: int|
                    0 <= r < n - 1 && #[trigger] row_covers(mem, i, vx, vy, r, p);
                assert(row_covers(mem, i, vx, vy, r, p));
                assert(sprite_mask(mem, i, vx, vy, n, p));
            }
            if row_covers(mem, i, vx, vy, row0, p) {
                assert(sprite_mask(mem, i, vx, vy, n, p));
            }
        }
        assert forall|p: int|
            0 <= p < 2048 && sprite_mask(mem, i, vx, vy, n - 1, p) implies !row_covers(
            mem,
            i,
            vx,
            vy,
            row0,
            p,
        ) by {
            let r = choose|r: int| 0 <= r < n - 1 && #[trigger] row_covers(mem, i, vx, vy, r, p);
            if row_covers(mem, i, vx, vy, row0, p) {
                lemma_row_band(mem[(i + r) % 4096], vx, (vy + r) % 32, p);
                lemma_row_band(byte, vx, yy, p);
                lemma_wrap_distinct(vy as int, r, row0, 32);
            }
        }
        assert forall|q: int| yy * 64 <= q < yy * 64 + 64 implies prev.screen[q] == st.screen[q] by {
            if sprite_mask(mem, i, vx, vy, n - 1, q) {
                let r = choose|r: int| 0 <= r < n - 1 && #[trigger] row_covers(mem, i, vx, vy, r, q);
                lemma_row_band(mem[(i + r) % 4096], vx, (vy + r) % 32, q);
                lemma_wrap_distinct(vy as int, r, row0, 32);
            }
        }
        assert(row_collision(byte, vx, yy, 8, prev.screen) <==> row_collision(
            byte,
            vx,
            yy,
            8,
            st.screen,
        )) by {
            if row_collision(byte, vx, yy, 8, prev.screen) {
                let c = choose|c: int|
                    0 <= c < 8 && #[trigger] byte_bit(byte, c) && prev.screen[yy * 64 + (vx + c)
                        % 64];
                assert(prev.screen[yy * 64 + (vx + c) % 64] == st.screen[yy * 64 + (vx + c) % 64]);
                assert(row_collision(byte, vx, yy, 8, st.screen));
            }
            if row_collision(byte, vx, yy, 8, st.screen) {
                let c = choose|c: int|
                    0 <= c < 8 && #[trigger] byte_bit(byte, c) && st.screen[yy * 64 + (vx + c)
                        % 64];
                assert(prev.screen[yy * 64 + (vx + c) % 64] == st.screen[yy * 64 + (vx + c) % 64]);
                assert(row_collision(byte, vx, yy, 8, prev.screen));
            }
        }
        assert(sprite_collision(mem, i, vx, vy, n, st.screen) <==> (sprite_collision(
            mem,
            i,
            vx,
            vy,
            n - 1,
            st.screen,
        ) || row_hits(mem, i, vx, vy, row0, st.screen))) by {
            if sprite_collision(mem, i, vx, vy, n, st.screen) {
                let r = choose|r: int|
                    0 <= r < n && #[trigger] row_hits(mem, i, vx, vy, r, st.screen);
                if r < n - 1 {
                    assert(row_hits(mem, i, vx, vy, r, st.screen));
                    assert(sprite_collision(mem, i, vx, vy, n - 1, st.screen));
                }
            }
            if sprite_collision(mem, i, vx, vy, n - 1, st.screen) {
                let r = choose|r: int|
                    0 <= r < n - 1 && #[trigger] row_hits(mem, i, vx, vy, r, st.screen);
                assert(row_hits(mem, i, vx, vy, r, st.screen));
                assert(sprite_collision(mem, i, vx, vy, n, st.screen));
            }
            if row_hits(mem, i, vx, vy, row0, st.screen) {
                assert(sprite_collision(mem, i, vx, vy, n, st.screen));
            }
        }
    }
}

/// Pixel-level reading of the draw instruction: position `p` of the
/// framebuffer afterwards is its old value XORed with whether some set
/// sprite pixel lands on `p`; so a draw is exactly an XOR-blit of the
/// sprite, wrapped modulo the screen dimensions.
pub proof fn lemma_draw_pixelwise(pre: MachineV, x: u8, y: u8, n: u8)
    requires
        pre.wf(),
        x < 16,
        y < 16,
        n < 16,
    ensures
        spec_step(pre, Instruction::Draw(x, y, n)).post.screen.len() == 2048,
        forall|p: int|
            0 <= p < 2048 ==> spec_step(pre, Instruction::Draw(x, y, n)).post.screen[p] == (
            pre.screen[p] != sprite_mask(
                pre.mem,
                pre.i,
                pre.v[x as int],
                pre.v[y as int],
                n as int,
                p,
            )),
{
    let st = (DrawState { screen: pre.screen, hit: false });
    let dr = draw_rows(st, pre.mem, pre.i, pre.v[x as int], pre.v[y as int], n as int);
    lemma_draw_rows_pixels(st, pre.mem, pre.i, pre.v[x as int], pre.v[y as int], n as int);
    assert(spec_step(pre, Instruction::Draw(x, y, n)).post.screen == dr.screen);
    assert forall|p: int| 0 <= p < 2048 implies spec_step(
        pre,
        Instruction::Draw(x, y, n),
    ).post.screen[p] == (pre.screen[p] != sprite_mask(
        pre.mem,
        pre.i,
        pre.v[x as int],
        pre.v[y as int],
        n as int,
        p,
    )) by {
        assert(dr.screen[p] == (st.screen[p] != sprite_mask(
            pre.mem,
            pre.i,
            pre.v[x as int],
            pre.v[y as int],
            n as int,
            p,
        )));
    }
}

/// Collision law: the draw instruction sets VF to 1 exactly when some set
/// sprite pixel lands on an already-set framebuffer pixel — that is, when
/// an XOR write turns a set pixel off — and to 0 otherwise, computed once
/// over the whole draw.
pub proof fn lemma_draw_collision(pre: MachineV, x: u8, y: u8, n: u8)
    requires
        pre.wf(),
        x < 16,
        y < 16,
        n < 16,
    ensures
        spec_step(pre, Instruction::Draw(x, y, n)).post.v[15] == (if sprite_collision(
            pre.mem,
            pre.i,
            pre.v[x as int],
            pre.v[y as int],
            n as int,
            pre.screen,
        ) {
            1u8
        } else {
            0u8
        }),
{
    lemma_draw_rows_pixels(
        (DrawState { screen: pre.screen, hit: false }),
        pre.mem,
        pre.i,
        pre.v[x as int],
        pre.v[y as int],
        n as int,
    );
}

/// Draw involution: drawing the same sprite twice at the same origin
/// restores the framebuffer, because XOR cancels. The origin and sprite
/// registers must not be VF, which the first draw overwrites with the
/// collision flag.
pub proof fn lemma_draw_involution(pre: MachineV, x: u8, y: u8, n: u8)
    requires
        pre.wf(),
        x < 15,
        y < 15,
        n < 16,
    ensures
        spec_step(
            spec_step(pre, Instruction::Draw(x, y, n)).post,
            Instruction::Draw(x, y, n),
        ).post.screen =~= pre.screen,
{
    let s1 = spec_step(pre, Instruction::Draw(x, y, n)).post;
    lemma_draw_pixelwise(pre, x, y, n);
    assert(s1.wf());
    assert(s1.v[x as int] == pre.v[x as int]);
    assert(s1.v[y as int] == pre.v[y as int]);
    lemma_draw_pixelwise(s1, x, y, n);
}

/// Skip timing: a conditional skip with a true condition advances the
/// program counter by 4 from its original value, a false one by 2.
pub proof fn lemma_skip_timing(pre: MachineV, x: u8, kk: u8)
    requires
        pre.wf(),
        x < 16,
    ensures
        pre.v[x as int] == kk ==> spec_step(pre, Instruction::SkipEqImm(x, kk)).post.pc == ((
        pre.pc + 4) % 0x10000) as u16,
        pre.v[x as int] != kk ==> spec_step(pre, Instruction::SkipEqImm(x, kk)).post.pc == ((
        pre.pc + 2) % 0x10000) as u16,
{
}

} // verus!
