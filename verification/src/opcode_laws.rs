//! What each opcode does, stated from its two bytes with the arithmetic and bit
//! operators themselves: every law here speaks of `execute` (what
//! `Cpu::dispatch_operation` runs) on a state whose opcode register holds the
//! given bytes, and says what comes out in terms of the registers, memory and
//! screen that went in.
use vstd::prelude::*;

use crate::laws::{lemma_lowest_key, lemma_short_sprite_flips_once};
use crate::state::{
    can_execute,
    ldk_diff,
    step,
    drw,
    execute,
    fetch,
    flipped_by_rows,
    install_font,
    load_program,
    sprite_row_hits,
    CpuState,
    DEFAULT_FONT,
};

verus! {

/// 6xkk puts `kk` in Vx; 7xkk adds `kk` to Vx modulo 256 and leaves VF alone.
pub proof fn lemma_opcode_load_and_add_byte(s: CpuState, r: u8, x: u8, kk: u8)
    requires
        s.wf(),
        x < 16,
        s.opcode[1] == kk,
    ensures
        s.opcode[0] == 0x60 + x ==> execute(s, r) == (CpuState { v: s.v.update(x as int, kk), ..s }),
        s.opcode[0] == 0x70 + x ==> execute(s, r) == (CpuState {
            v: s.v.update(x as int, ((s.v[x as int] + kk) % 256) as u8),
            ..s
        }),
{
}

/// 8xy0 copies Vy into Vx; 8xy1, 8xy2, 8xy3 put Vx | Vy, Vx & Vy, Vx ^ Vy in
/// Vx; 8xy4 adds Vy to Vx modulo 256 and leaves VF alone. Nothing else changes.
pub proof fn lemma_opcode_register_logic(s: CpuState, r: u8, x: u8, y: u8)
    requires
        s.wf(),
        x < 16,
        y < 16,
        s.opcode[0] == 0x80 + x,
    ensures
        s.opcode[1] == 16 * y + 0 ==> execute(s, r) == (CpuState {
            v: s.v.update(x as int, s.v[y as int]),
            ..s
        }),
        s.opcode[1] == 16 * y + 1 ==> execute(s, r) == (CpuState {
            v: s.v.update(x as int, s.v[x as int] | s.v[y as int]),
            ..s
        }),
        s.opcode[1] == 16 * y + 2 ==> execute(s, r) == (CpuState {
            v: s.v.update(x as int, s.v[x as int] & s.v[y as int]),
            ..s
        }),
        s.opcode[1] == 16 * y + 3 ==> execute(s, r) == (CpuState {
            v: s.v.update(x as int, s.v[x as int] ^ s.v[y as int]),
            ..s
        }),
        s.opcode[1] == 16 * y + 4 ==> execute(s, r) == (CpuState {
            v: s.v.update(x as int, ((s.v[x as int] + s.v[y as int]) % 256) as u8),
            ..s
        }),
{
}

/// 8xy5 sets VF to 1 and then Vx to Vx - Vy modulo 256; 8xy7 sets VF to 1 and
/// then Vx to Vy - Vx. When x or y is F, the subtraction sees the 1 just
/// written to VF.
pub proof fn lemma_opcode_subtractions(s: CpuState, r: u8, x: u8, y: u8)
    requires
        s.wf(),
        x < 16,
        y < 16,
        s.opcode[0] == 0x80 + x,
    ensures
        ({
            let a: int = if x == 15 {
                1
            } else {
                s.v[x as int] as int
            };
            let b: int = if y == 15 {
                1
            } else {
                s.v[y as int] as int
            };
            &&& s.opcode[1] == 16 * y + 5 ==> execute(s, r) == (CpuState {
                v: s.v.update(15, 1).update(x as int, ((a - b) % 256) as u8),
                ..s
            })
            &&& s.opcode[1] == 16 * y + 7 ==> execute(s, r) == (CpuState {
                v: s.v.update(15, 1).update(x as int, (b - a) as u8),
                ..s
            })
        }),
{
}

/// 8xy6 puts the low bit of Vx in VF and then halves Vx; 8xyE puts Vx & 0x80 in
/// VF and then doubles Vx modulo 256. When x is F, the shift works on the
/// value just written to VF.
pub proof fn lemma_opcode_shifts(s: CpuState, r: u8, x: u8, y: u8)
    requires
        s.wf(),
        x < 16,
        y < 16,
        s.opcode[0] == 0x80 + x,
    ensures
        s.opcode[1] == 16 * y + 6 ==> execute(s, r) == (CpuState {
            v: s.v.update(15, s.v[x as int] % 2).update(
                x as int,
                ((if x == 15 {
                    s.v[x as int] % 2
                } else {
                    s.v[x as int]
                }) / 2) as u8,
            ),
            ..s
        }),
        s.opcode[1] == 16 * y + 0xE ==> execute(s, r) == (CpuState {
            v: s.v.update(15, if s.v[x as int] >= 128 {
                128u8
            } else {
                0u8
            }).update(
                x as int,
                (((if x == 15 {
                    if s.v[x as int] >= 128 {
                        128int
                    } else {
                        0int
                    }
                } else {
                    s.v[x as int] as int
                }) * 2) % 256) as u8,
            ),
            ..s
        }),
{
    let v = s.v[x as int];
    assert(v & 1u8 == v % 2) by (bit_vector);
    assert(v & 0x80u8 == if v >= 128 {
        128u8
    } else {
        0u8
    }) by (bit_vector);
}

/// Cxkk puts the random byte ANDed with `kk` in Vx: no bit outside `kk` is set.
pub proof fn lemma_opcode_random(s: CpuState, r: u8, x: u8, kk: u8)
    requires
        s.wf(),
        x < 16,
        s.opcode[0] == 0xC0 + x,
        s.opcode[1] == kk,
    ensures
        execute(s, r) == (CpuState { v: s.v.update(x as int, r & kk), ..s }),
        execute(s, r).v[x as int] & !kk == 0,
        execute(s, r).v[x as int] <= kk,
{
    assert((r & kk) & !kk == 0) by (bit_vector);
    assert(r & kk <= kk) by (bit_vector);
}

/// 00E0 darkens every pixel of the screen and changes nothing else.
pub proof fn lemma_opcode_clear_screen(s: CpuState, r: u8)
    requires
        s.wf(),
        s.opcode[0] == 0x00,
        s.opcode[1] == 0xE0,
    ensures
        execute(s, r).pixels.len() == 32,
        forall|row: int| 0 <= row < 32 ==> (#[trigger] execute(s, r).pixels[row]).len() == 64,
        forall|row: int, col: int|
            0 <= row < 32 && 0 <= col < 64 ==> !#[trigger] execute(s, r).pixels[row][col],
        execute(s, r) == (CpuState { pixels: execute(s, r).pixels, ..s }),
{
}

/// 00EE jumps to the address in the top stack slot and moves the stack pointer
/// down, stopping at 0; any other 0nnn does nothing.
pub proof fn lemma_opcode_return_and_system(s: CpuState, r: u8, lo: u8)
    requires
        s.wf(),
        s.opcode[0] == 0x00,
        s.opcode[1] == lo,
    ensures
        lo == 0xEE ==> execute(s, r) == (CpuState {
            pc: s.stack[s.sp as int],
            sp: if s.sp > 0 {
                (s.sp - 1) as usize
            } else {
                0usize
            },
            ..s
        }),
        lo != 0xEE && lo != 0xE0 ==> execute(s, r) == s,
{
}

/// 1nnn jumps to nnn and holds the program counter there; 2nnn pushes the
/// current address into the slot above the stack pointer and jumps to nnn,
/// unless the stack pointer is 254, when only the hold is set.
pub proof fn lemma_opcode_jump_and_call(s: CpuState, r: u8, a: u8, b: u8)
    requires
        s.wf(),
        a < 16,
        s.opcode[1] == b,
    ensures
        s.opcode[0] == 0x10 + a ==> execute(s, r) == (CpuState {
            pc: (256 * a + b) as u16,
            no_pc_incr: true,
            ..s
        }),
        s.opcode[0] == 0x20 + a && s.sp != 254 ==> execute(s, r) == (CpuState {
            stack: s.stack.update(s.sp + 1, s.pc),
            sp: (s.sp + 1) as usize,
            pc: (256 * a + b) as u16,
            no_pc_incr: true,
            ..s
        }),
        s.opcode[0] == 0x20 + a && s.sp == 254 ==> execute(s, r) == (CpuState {
            no_pc_incr: true,
            ..s
        }),
{
}

/// 3xkk, 4xkk, 5xy0 and 9xy0 move the program counter two bytes on exactly
/// when Vx == kk, Vx != kk, Vx == Vy and Vx != Vy respectively, and change
/// nothing else.
pub proof fn lemma_opcode_conditional_skips(s: CpuState, r: u8, x: u8, y: u8, kk: u8)
    requires
        s.wf(),
        x < 16,
        y < 16,
    ensures
        s.opcode[0] == 0x30 + x && s.opcode[1] == kk ==> execute(s, r) == if s.v[x as int] == kk {
            CpuState { pc: (s.pc + 2) as u16, ..s }
        } else {
            s
        },
        s.opcode[0] == 0x40 + x && s.opcode[1] == kk ==> execute(s, r) == if s.v[x as int] != kk {
            CpuState { pc: (s.pc + 2) as u16, ..s }
        } else {
            s
        },
        s.opcode[0] == 0x50 + x && s.opcode[1] == 16 * y ==> execute(s, r) == if s.v[x as int]
            == s.v[y as int] {
            CpuState { pc: (s.pc + 2) as u16, ..s }
        } else {
            s
        },
        s.opcode[0] == 0x90 + x && s.opcode[1] == 16 * y ==> execute(s, r) == if s.v[x as int]
            != s.v[y as int] {
            CpuState { pc: (s.pc + 2) as u16, ..s }
        } else {
            s
        },
{
}

/// Annn puts nnn in I; Bnnn jumps to nnn + V0 without holding the counter.
pub proof fn lemma_opcode_index_and_offset_jump(s: CpuState, r: u8, a: u8, b: u8)
    requires
        s.wf(),
        a < 16,
        s.opcode[1] == b,
    ensures
        s.opcode[0] == 0xA0 + a ==> execute(s, r) == (CpuState { i: (256 * a + b) as u16, ..s }),
        s.opcode[0] == 0xB0 + a ==> execute(s, r) == (CpuState {
            pc: (256 * a + b + s.v[0]) as u16,
            ..s
        }),
{
}

/// Ex9E and ExA1 move the program counter two bytes on exactly when bit Vx of
/// the keys is set, respectively clear.
pub proof fn lemma_opcode_key_skips(s: CpuState, r: u8, x: u8)
    requires
        s.wf(),
        x < 16,
        s.opcode[0] == 0xE0 + x,
    ensures
        s.opcode[1] == 0x9E ==> execute(s, r) == if (s.keys >> s.v[x as int]) & 1 == 1 {
            CpuState { pc: (s.pc + 2) as u16, ..s }
        } else {
            s
        },
        s.opcode[1] == 0xA1 ==> execute(s, r) == if (s.keys >> s.v[x as int]) & 1 != 1 {
            CpuState { pc: (s.pc + 2) as u16, ..s }
        } else {
            s
        },
{
}

/// Fx07 reads the delay timer into Vx; Fx15 and Fx18 set the delay and the
/// sound timer from Vx; Fx1E adds Vx to I; Fx29 points I at glyph number x of
/// the font, five bytes per glyph from 0x50 on.
pub proof fn lemma_opcode_timers_and_index(s: CpuState, r: u8, x: u8)
    requires
        s.wf(),
        x < 16,
        s.opcode[0] == 0xF0 + x,
    ensures
        s.opcode[1] == 0x07 ==> execute(s, r) == (CpuState {
            v: s.v.update(x as int, s.delay),
            ..s
        }),
        s.opcode[1] == 0x15 ==> execute(s, r) == (CpuState { delay: s.v[x as int], ..s }),
        s.opcode[1] == 0x18 ==> execute(s, r) == (CpuState { sound: s.v[x as int], ..s }),
        s.opcode[1] == 0x1E ==> execute(s, r) == (CpuState { i: (s.i + s.v[x as int]) as u16, ..s }),
        s.opcode[1] == 0x29 ==> execute(s, r) == (CpuState { i: (0x50 + 5 * x) as u16, ..s }),
{
}

/// Fx0A with no key held holds the program counter and changes nothing else;
/// with keys held it puts in Vx the lowest key whose bit is set, and changes
/// nothing else.
pub proof fn lemma_opcode_wait_for_key(s: CpuState, r: u8, x: u8)
    requires
        s.wf(),
        x < 16,
        s.opcode[0] == 0xF0 + x,
        s.opcode[1] == 0x0A,
    ensures
        s.keys == 0 ==> execute(s, r) == (CpuState { no_pc_incr: true, ..s }),
        s.keys != 0 ==> {
            let k = execute(s, r).v[x as int];
            &&& k < 16
            &&& (s.keys >> k) & 1 == 1
            &&& forall|j: u8| j < k ==> (s.keys >> j) & 1 != 1
            &&& execute(s, r) == (CpuState { v: s.v.update(x as int, k), ..s })
        },
{
    lemma_lowest_key(s.keys);
    if s.keys != 0 {
        let k = crate::state::lowest_key(s.keys);
        assert(execute(s, r).v[x as int] == k);
        assert forall|j: u8| j < k implies (s.keys >> j) & 1 != 1 by {
            assert(!crate::state::key_down(s.keys, j));
        }
    }
}

/// Fx33 writes the hundreds, tens and units of Vx at I, I + 1 and I + 2;
/// Fx55 copies V0 to Vx into memory from I on; Fx65 copies memory from I on
/// into V0 to Vx. Nothing else changes.
pub proof fn lemma_opcode_memory(s: CpuState, r: u8, x: u8)
    requires
        s.wf(),
        x < 16,
        s.i + x < 4096,
        s.i + 2 < 4096,
        s.opcode[0] == 0xF0 + x,
    ensures
        s.opcode[1] == 0x33 ==> execute(s, r) == (CpuState {
            mem: s.mem.update(s.i as int, s.v[x as int] / 100).update(
                s.i + 1,
                (s.v[x as int] / 10) % 10,
            ).update(s.i + 2, s.v[x as int] % 10),
            ..s
        }),
        s.opcode[1] == 0x55 ==> {
            &&& execute(s, r) == (CpuState { mem: execute(s, r).mem, ..s })
            &&& execute(s, r).mem.len() == 4096
            &&& forall|k: int|
                0 <= k < 4096 ==> #[trigger] execute(s, r).mem[k] == if s.i <= k <= s.i + x {
                    s.v[k - s.i]
                } else {
                    s.mem[k]
                }
        },
        s.opcode[1] == 0x65 ==> {
            &&& execute(s, r) == (CpuState { v: execute(s, r).v, ..s })
            &&& execute(s, r).v.len() == 16
            &&& forall|k: int|
                0 <= k < 16 ==> #[trigger] execute(s, r).v[k] == if k <= x {
                    s.mem[s.i + k]
                } else {
                    s.v[k]
                }
        },
{
    if s.opcode[1] == 0x33 {
        assert(execute(s, r).mem =~= s.mem.update(s.i as int, s.v[x as int] / 100).update(
            s.i + 1,
            (s.v[x as int] / 10) % 10,
        ).update(s.i + 2, s.v[x as int] % 10));
    }
}

/// Dxyn draws the n rows of the sprite at I with its top left corner at column
/// Vx, row Vy: the pixel at row `row`, column `col` flips exactly when it lies
/// `b = (row - Vy) mod 32` rows below and `p = (col - Vx) mod 64` columns right
/// of the corner with `b < n`, `p < 8` and bit `7 - p` of the byte at I + b
/// set. VF becomes 1 exactly when such a flip turns a lit pixel dark, else 0;
/// nothing else changes.
#[verifier::rlimit(50)]
pub proof fn lemma_opcode_draw(s: CpuState, r: u8, x: u8, y: u8, n: u8)
    requires
        s.wf(),
        x < 16,
        y < 16,
        n < 16,
        s.opcode[0] == 0xD0 + x,
        s.opcode[1] == 16 * y + n,
    ensures
        ({
            let t = execute(s, r);
            let vx = s.v[x as int];
            let vy = s.v[y as int];
            &&& t == (CpuState { pixels: t.pixels, v: s.v.update(15, t.v[15]), ..s })
            &&& forall|row: int, col: int|
                0 <= row < 32 && 0 <= col < 64 ==> #[trigger] t.pixels[row][col] == (
                s.pixels[row][col] != ((row - vy) % 32 < n && (col - vx) % 64 < 8 && (s.mem[s.i
                + (row - vy) % 32] >> ((7 - (col - vx) % 64) as u8)) & 1 == 1))
            &&& t.v[15] == 1 <==> exists|row: int, col: int|
                0 <= row < 32 && 0 <= col < 64 && #[trigger] s.pixels[row][col] && (row - vy) % 32
                    < n && (col - vx) % 64 < 8 && (s.mem[s.i + (row - vy) % 32] >> ((7 - (col
                    - vx) % 64) as u8)) & 1 == 1
            &&& t.v[15] == 0 || t.v[15] == 1
        }),
{
    let t = execute(s, r);
    let vx = s.v[x as int];
    let vy = s.v[y as int];
    assert(t == drw(s, x as usize, y as usize, n));
    assert forall|row: int, col: int| 0 <= row < 32 && 0 <= col < 64 implies #[trigger] t.pixels[row][col]
        == (s.pixels[row][col] != ((row - vy) % 32 < n && (col - vx) % 64 < 8 && (s.mem[s.i + (row
        - vy) % 32] >> ((7 - (col - vx) % 64) as u8)) & 1 == 1)) by {
        lemma_short_sprite_flips_once(s.mem, s.i, vx, vy, n as int, row, col);
    }
    let lit_hit = exists|row: int, col: int|
        0 <= row < 32 && 0 <= col < 64 && #[trigger] s.pixels[row][col] && (row - vy) % 32 < n && (
        col - vx) % 64 < 8 && (s.mem[s.i + (row - vy) % 32] >> ((7 - (col - vx) % 64) as u8)) & 1
            == 1;
    if lit_hit {
        let (row, col) = choose|row: int, col: int|
            0 <= row < 32 && 0 <= col < 64 && #[trigger] s.pixels[row][col] && (row - vy) % 32 < n
                && (col - vx) % 64 < 8 && (s.mem[s.i + (row - vy) % 32] >> ((7 - (col - vx) % 64)
                as u8)) & 1 == 1;
        let b = (row - vy) % 32;
        lemma_short_sprite_flips_once(s.mem, s.i, vx, vy, b, row, col);
        assert(sprite_row_hits(s.mem, s.i, vx, vy, b, row, col));
        assert(t.v[15] == 1);
    }
    if t.v[15] == 1 {
        let (row, col, b) = choose|row: int, col: int, b: int|
            0 <= row < 32 && 0 <= col < 64 && 0 <= b < n && #[trigger] sprite_row_hits(
                s.mem,
                s.i,
                vx,
                vy,
                b,
                row,
                col,
            ) && (s.pixels[row][col] != flipped_by_rows(s.mem, s.i, vx, vy, b, row, col));
        lemma_short_sprite_flips_once(s.mem, s.i, vx, vy, b, row, col);
        assert(s.pixels[row][col]);
        assert(lit_hit);
    }
}

/// DRW with any number of rows (a sprite taller than the screen comes round
/// onto the same rows): VF is 1 exactly when, for some sprite row b < n, a set
/// bit of that row lands on a pixel that is lit when row b is drawn, that is,
/// lit before drawing and flipped an even number of times by rows 0 to b - 1.
/// VF is 0 otherwise, whichever row the collision happens in.
pub proof fn lemma_draw_collision_in_any_row(s: CpuState, x: usize, y: usize, n: u8)
    requires
        s.wf(),
        x < 16,
        y < 16,
    ensures
        ({
            let vx = s.v[x as int];
            let vy = s.v[y as int];
            &&& drw(s, x, y, n).v[15] == 0 || drw(s, x, y, n).v[15] == 1
            &&& drw(s, x, y, n).v[15] == 1 <==> exists|row: int, col: int, b: int|
                0 <= row < 32 && 0 <= col < 64 && 0 <= b < n && ((s.mem[s.i + b] >> ((7 - (col
                    - vx) % 64) as u8)) & 1 == 1) && b % 32 == (row - vy) % 32 && (col - vx) % 64
                    < 8 && (s.pixels[row][col] != #[trigger] flipped_by_rows(
                    s.mem,
                    s.i,
                    vx,
                    vy,
                    b,
                    row,
                    col,
                ))
        }),
{
    let vx = s.v[x as int];
    let vy = s.v[y as int];
    let any_row = exists|row: int, col: int, b: int|
        0 <= row < 32 && 0 <= col < 64 && 0 <= b < n && ((s.mem[s.i + b] >> ((7 - (col - vx) % 64)
            as u8)) & 1 == 1) && b % 32 == (row - vy) % 32 && (col - vx) % 64 < 8 && (s.pixels[row][col]
            != #[trigger] flipped_by_rows(s.mem, s.i, vx, vy, b, row, col));
    if any_row {
        let (row, col, b) = choose|row: int, col: int, b: int|
            0 <= row < 32 && 0 <= col < 64 && 0 <= b < n && ((s.mem[s.i + b] >> ((7 - (col - vx)
                % 64) as u8)) & 1 == 1) && b % 32 == (row - vy) % 32 && (col - vx) % 64 < 8 && (
            s.pixels[row][col] != #[trigger] flipped_by_rows(s.mem, s.i, vx, vy, b, row, col));
        assert(sprite_row_hits(s.mem, s.i, vx, vy, b, row, col));
        assert(crate::state::sprite_collides(s, x, y, n));
    }
    if crate::state::sprite_collides(s, x, y, n) {
        let (row, col, b) = choose|row: int, col: int, b: int|
            0 <= row < 32 && 0 <= col < 64 && 0 <= b < n && #[trigger] sprite_row_hits(
                s.mem,
                s.i,
                vx,
                vy,
                b,
                row,
                col,
            ) && (s.pixels[row][col] != flipped_by_rows(s.mem, s.i, vx, vy, b, row, col));
        assert(flipped_by_rows(s.mem, s.i, vx, vy, b, row, col) == flipped_by_rows(
            s.mem,
            s.i,
            vx,
            vy,
            b,
            row,
            col,
        ));
        assert(any_row);
    }
}

/// Flipping by the first k + 1 rows is flipping by the first k rows and then
/// once more exactly when row k has a set bit over the pixel: each sprite row
/// flips a pixel when its bit over it is set.
pub proof fn lemma_rows_flip_one_after_another(
    mem: Seq<u8>,
    i: u16,
    vx: u8,
    vy: u8,
    k: nat,
    row: int,
    col: int,
)
    ensures
        !flipped_by_rows(mem, i, vx, vy, 0, row, col),
        flipped_by_rows(mem, i, vx, vy, k + 1int, row, col) == (flipped_by_rows(
            mem,
            i,
            vx,
            vy,
            k as int,
            row,
            col,
        ) != (k % 32 == (row - vy) % 32 && (col - vx) % 64 < 8 && (mem[i + k] >> ((7 - (col - vx)
            % 64) as u8)) & 1 == 1)),
{
}

/// Loading a program copies every byte of it to 0x200 on and leaves the rest of
/// memory and the machine as they were.
pub proof fn lemma_load_places_every_byte(s: CpuState, rom: Seq<u8>)
    requires
        s.wf(),
        rom.len() <= 4096 - 0x200,
    ensures
        load_program(s, rom).mem.len() == 4096,
        forall|k: int| 0 <= k < rom.len() ==> #[trigger] load_program(s, rom).mem[0x200 + k] == rom[k],
        forall|k: int|
            0 <= k < 4096 && !(0x200 <= k < 0x200 + rom.len()) ==> #[trigger] load_program(
                s,
                rom,
            ).mem[k] == s.mem[k],
        load_program(s, rom) == (CpuState { mem: load_program(s, rom).mem, ..s }),
{
}

/// Installing the font copies the 80 bytes of `DEFAULT_FONT` to 0x50 on and
/// leaves the rest of memory and the machine as they were.
pub proof fn lemma_font_placed_at_its_start(s: CpuState)
    requires
        s.wf(),
    ensures
        install_font(s).mem.len() == 4096,
        forall|k: int| 0 <= k < 80 ==> #[trigger] install_font(s).mem[0x50 + k] == DEFAULT_FONT@[k],
        forall|k: int|
            0 <= k < 4096 && !(0x50 <= k < 0xA0) ==> #[trigger] install_font(s).mem[k] == s.mem[k],
        install_font(s) == (CpuState { mem: install_font(s).mem, ..s }),
{
    assert(DEFAULT_FONT@ =~= crate::state::font());
}

/// Fetching copies the two bytes at the program counter into the opcode
/// register and changes nothing else.
pub proof fn lemma_fetch_reads_two_bytes_at_pc(s: CpuState)
    ensures
        fetch(s) == (CpuState { opcode: seq![s.mem[s.pc as int], s.mem[s.pc + 1]], ..s }),
{
}

/// The wait for a change of keys: with no keys remembered it remembers the
/// keys held now and holds the program counter; with the keys unchanged it
/// holds the counter; once they differ it puts the lowest key held now in Vx
/// (leaving Vx alone when none is held), forgets the remembered keys and lets
/// the counter move on.
pub proof fn lemma_wait_for_key_change(s: CpuState, x: usize)
    requires
        s.wf(),
        s.keys_old == 0 || s.keys == s.keys_old || s.keys == 0 || x < 16,
    ensures
        s.keys_old == 0 ==> ldk_diff(s, x) == (CpuState {
            keys_old: s.keys,
            no_pc_incr: true,
            ..s
        }),
        s.keys_old != 0 && s.keys == s.keys_old ==> ldk_diff(s, x) == (CpuState {
            no_pc_incr: true,
            ..s
        }),
        s.keys_old != 0 && s.keys != s.keys_old && s.keys == 0 ==> ldk_diff(s, x) == (CpuState {
            keys_old: 0,
            no_pc_incr: false,
            ..s
        }),
        s.keys_old != 0 && s.keys != s.keys_old && s.keys != 0 ==> {
            let k = ldk_diff(s, x).v[x as int];
            &&& k < 16
            &&& (s.keys >> k) & 1 == 1
            &&& forall|j: u8| j < k ==> (s.keys >> j) & 1 != 1
            &&& ldk_diff(s, x) == (CpuState {
                v: s.v.update(x as int, k),
                keys_old: 0,
                no_pc_incr: false,
                ..s
            })
        },
{
    lemma_lowest_key(s.keys);
    if s.keys_old != 0 && s.keys != s.keys_old && s.keys != 0 {
        let k = crate::state::lowest_key(s.keys);
        assert(ldk_diff(s, x).v[x as int] == k);
        assert forall|j: u8| j < k implies (s.keys >> j) & 1 != 1 by {
            assert(!crate::state::key_down(s.keys, j));
        }
    }
}

/// A cycle over 1nnn leaves the program counter at nnn, clears the hold and
/// keeps the opcode bytes; a cycle over Annn or 6xkk moves it two bytes on.
pub proof fn lemma_cycle_jump_and_move_on(s: CpuState, r: u8, a: u8)
    requires
        s.wf(),
        a < 16,
        s.pc + 3 < 4096,
        !s.no_pc_incr,
    ensures
        s.mem[s.pc as int] == 0x10 + a ==> {
            &&& step(s, r).pc == 256 * a + s.mem[s.pc + 1]
            &&& !step(s, r).no_pc_incr
            &&& step(s, r) == (CpuState {
                pc: step(s, r).pc,
                opcode: seq![s.mem[s.pc as int], s.mem[s.pc + 1]],
                ..s
            })
        },
        s.mem[s.pc as int] == 0xA0 + a ==> {
            &&& step(s, r).pc == s.pc + 2
            &&& step(s, r).i == 256 * a + s.mem[s.pc + 1]
            &&& !step(s, r).no_pc_incr
        },
        s.mem[s.pc as int] == 0x60 + a ==> {
            &&& step(s, r).pc == s.pc + 2
            &&& step(s, r).v == s.v.update(a as int, s.mem[s.pc + 1])
            &&& !step(s, r).no_pc_incr
        },
{
}

/// Every instruction runs to its end on an ordinary state: I leaves room for
/// 16 bytes, the stack has a free slot, skipping keeps the program counter in
/// range and every register names a key. The one exception is 8xy7, which also
/// needs Vy >= Vx (with VF counted as 1).
pub proof fn lemma_instructions_run_in_ordinary_states(s: CpuState)
    requires
        s.wf(),
        s.i + 16 <= 4096,
        s.sp < 15,
        s.pc + 2 <= u16::MAX,
        forall|k: int| 0 <= k < 16 ==> #[trigger] s.v[k] < 16,
        !(s.opcode[0] / 16 == 8 && s.opcode[1] % 16 == 7),
    ensures
        can_execute(s),
{
    assert(s.v[(s.opcode[0] % 16) as int] < 16);
}

} // verus!
