use vstd::prelude::*;

use crate::state::{
    apply,
    call,
    can_apply,
    can_step,
    current_op,
    decode,
    drw,
    fetch,
    font,
    install_font,
    execute,
    can_execute,
    tick_timers,
    load_program,
    PROGRAM_START,
    key_down,
    first_key_from,
    lowest_key,
    ldb,
    ldfm,
    ldtm,
    ret,
    sprite_row_hits,
    flipped_by_rows,
    row_offset,
    sprite_collides,
    step,
    blank_screen,
    write_bytes,
    CpuState,
    Op,
    FONT_START_MEM_LOCATION,
};

verus! {

/// Drawing the same sprite twice at the same place leaves the screen as it was
/// (drawing flips pixels), as long as neither coordinate register is VF, which
/// the first draw overwrites with its collision flag.
pub proof fn lemma_draw_twice_restores_screen(s: CpuState, x: usize, y: usize, n: u8)
    requires
        s.wf(),
        can_apply(s, Op::Drw { x, y, n }),
        x != 15,
        y != 15,
    ensures
        can_apply(drw(s, x, y, n), Op::Drw { x, y, n }),
        drw(drw(s, x, y, n), x, y, n).pixels == s.pixels,
{
    let t = drw(s, x, y, n);
    assert(t.v[x as int] == s.v[x as int]);
    assert(t.v[y as int] == s.v[y as int]);
    assert(drw(t, x, y, n).pixels =~~= s.pixels);
}

/// A sprite of at most 32 rows flips each pixel at most once: exactly when the
/// one sprite row that lands on the pixel's screen row has a set bit over it.
pub proof fn lemma_short_sprite_flips_once(
    mem: Seq<u8>,
    i: u16,
    vx: u8,
    vy: u8,
    n: int,
    r: int,
    c: int,
)
    requires
        0 <= n <= 32,
        0 <= r < 32,
    ensures
        flipped_by_rows(mem, i, vx, vy, n, r, c) == (row_offset(r, vy) < n && sprite_row_hits(
            mem,
            i,
            vx,
            vy,
            row_offset(r, vy),
            r,
            c,
        )),
    decreases n,
{
    if n > 0 {
        lemma_short_sprite_flips_once(mem, i, vx, vy, n - 1, r, c);
    }
}

/// Drawing a sprite of at most 32 rows on a dark screen lights exactly the set
/// bits of the sprite and reports no collision.
pub proof fn lemma_draw_on_blank_screen(s: CpuState, x: usize, y: usize, n: u8)
    requires
        s.wf(),
        s.pixels == blank_screen(),
        can_apply(s, Op::Drw { x, y, n }),
        n <= 32,
    ensures
        drw(s, x, y, n).v[15] == 0,
        forall|r: int, c: int|
            0 <= r < 32 && 0 <= c < 64 ==> #[trigger] drw(s, x, y, n).pixels[r][c] == (row_offset(
                r,
                s.v[y as int],
            ) < n && sprite_row_hits(
                s.mem,
                s.i,
                s.v[x as int],
                s.v[y as int],
                row_offset(r, s.v[y as int]),
                r,
                c,
            )),
{
    let vx = s.v[x as int];
    let vy = s.v[y as int];
    if sprite_collides(s, x, y, n) {
        let (r, c, b) = choose|r: int, c: int, b: int|
            0 <= r < 32 && 0 <= c < 64 && 0 <= b < n && #[trigger] sprite_row_hits(
                s.mem,
                s.i,
                vx,
                vy,
                b,
                r,
                c,
            ) && (s.pixels[r][c] != flipped_by_rows(s.mem, s.i, vx, vy, b, r, c));
        lemma_short_sprite_flips_once(s.mem, s.i, vx, vy, b, r, c);
        assert(!s.pixels[r][c]);
        assert(false);
    }
    assert forall|r: int, c: int| 0 <= r < 32 && 0 <= c < 64 implies #[trigger] drw(
        s,
        x,
        y,
        n,
    ).pixels[r][c] == (row_offset(r, vy) < n && sprite_row_hits(
        s.mem,
        s.i,
        vx,
        vy,
        row_offset(r, vy),
        r,
        c,
    )) by {
        lemma_short_sprite_flips_once(s.mem, s.i, vx, vy, n as int, r, c);
        assert(!s.pixels[r][c]);
    }
}

/// RET right after CALL comes back to the calling instruction with the stack
/// pointer where it was; only the slot above the pointer keeps the return
/// address.
pub proof fn lemma_ret_undoes_call(s: CpuState, addr: u16)
    requires
        s.wf(),
        s.sp < 15,
    ensures
        ret(call(s, addr)) == (CpuState {
            stack: s.stack.update(s.sp + 1, s.pc),
            no_pc_incr: true,
            ..s
        }),
{
}

/// A cycle that runs CALL to a subroutine whose first instruction is RET,
/// followed by the cycle that runs that RET, resumes at the instruction after
/// the CALL with the stack pointer where it was.
pub proof fn lemma_call_then_return_resumes_after_call(s: CpuState, addr: u16, r1: u8, r2: u8)
    requires
        s.wf(),
        !s.no_pc_incr,
        s.sp < 15,
        s.pc + 2 <= u16::MAX,
        s.pc + 1 < 4096,
        addr + 1 < 4096,
        decode(s.mem[s.pc as int], s.mem[s.pc + 1]) == (Op::Call { addr }),
        decode(s.mem[addr as int], s.mem[addr + 1]) == Op::Ret,
    ensures
        can_step(s),
        can_step(step(s, r1)),
        step(step(s, r1), r2).pc == s.pc + 2,
        step(step(s, r1), r2).sp == s.sp,
{
    let t = step(s, r1);
    assert(t.pc == addr);
    assert(t.mem == s.mem);
    assert(t.sp == s.sp + 1);
    assert(t.stack[t.sp as int] == s.pc);
}

/// Loading V0 to Vx back from where they were just stored changes nothing.
pub proof fn lemma_load_after_store_is_idle(s: CpuState, x: usize)
    requires
        s.wf(),
        x < 16,
        s.i + x < 4096,
    ensures
        ldfm(ldtm(s, x), x) == ldtm(s, x),
{
    let t = ldtm(s, x);
    assert(t.v =~= write_bytes(t.v, 0, t.mem.subrange(t.i as int, t.i + x + 1)));
    assert(ldfm(t, x) =~~= t);
}

/// Storing V0 to Vx back where they were just loaded from changes nothing.
pub proof fn lemma_store_after_load_is_idle(s: CpuState, x: usize)
    requires
        s.wf(),
        x < 16,
        s.i + x < 4096,
    ensures
        ldtm(ldfm(s, x), x) == ldfm(s, x),
{
    let t = ldfm(s, x);
    assert(t.mem =~= write_bytes(t.mem, t.i as int, t.v.take(x + 1)));
    assert(ldtm(t, x) =~~= t);
}

/// LD B, Vx writes three decimal digits whose value is Vx.
pub proof fn lemma_bcd_digits(s: CpuState, x: usize)
    requires
        s.wf(),
        x < 16,
        s.i + 2 < 4096,
    ensures
        ({
            let m = ldb(s, x).mem;
            let i = s.i as int;
            &&& m[i] < 10
            &&& m[i + 1] < 10
            &&& m[i + 2] < 10
            &&& m[i] * 100 + m[i + 1] * 10 + m[i + 2] == s.v[x as int]
        }),
{
}

/// The lowest held key: there is one exactly when some key is held; it is held,
/// and no lower key is.
pub proof fn lemma_lowest_key(keys: u16)
    ensures
        (keys != 0) == (lowest_key(keys) < 16),
        keys != 0 ==> key_down(keys, lowest_key(keys)),
        forall|j: u8| j < lowest_key(keys) ==> !#[trigger] key_down(keys, j),
{
    lemma_first_key_from(keys, 0);
    if keys != 0 && lowest_key(keys) >= 16 {
        assert(!key_down(keys, 0) && !key_down(keys, 1) && !key_down(keys, 2) && !key_down(
            keys,
            3,
        ) && !key_down(keys, 4) && !key_down(keys, 5) && !key_down(keys, 6) && !key_down(keys, 7)
            && !key_down(keys, 8) && !key_down(keys, 9) && !key_down(keys, 10) && !key_down(
            keys,
            11,
        ) && !key_down(keys, 12) && !key_down(keys, 13) && !key_down(keys, 14) && !key_down(
            keys,
            15,
        ));
        assert(false) by (bit_vector)
            requires
                keys != 0,
                (keys >> 0u8) & 1u16 != 1u16,
                (keys >> 1u8) & 1u16 != 1u16,
                (keys >> 2u8) & 1u16 != 1u16,
                (keys >> 3u8) & 1u16 != 1u16,
                (keys >> 4u8) & 1u16 != 1u16,
                (keys >> 5u8) & 1u16 != 1u16,
                (keys >> 6u8) & 1u16 != 1u16,
                (keys >> 7u8) & 1u16 != 1u16,
                (keys >> 8u8) & 1u16 != 1u16,
                (keys >> 9u8) & 1u16 != 1u16,
                (keys >> 10u8) & 1u16 != 1u16,
                (keys >> 11u8) & 1u16 != 1u16,
                (keys >> 12u8) & 1u16 != 1u16,
                (keys >> 13u8) & 1u16 != 1u16,
                (keys >> 14u8) & 1u16 != 1u16,
                (keys >> 15u8) & 1u16 != 1u16,
        ;
    }
    if keys == 0 && lowest_key(keys) < 16 {
        let k = lowest_key(keys);
        assert((keys >> k) & 1u16 != 1u16) by (bit_vector)
            requires
                keys == 0,
        ;
    }
}

/// The search from key `k` on finds the first held key at or after `k`, or 16.
proof fn lemma_first_key_from(keys: u16, k: u8)
    requires
        k <= 16,
    ensures
        k <= first_key_from(keys, k) <= 16,
        first_key_from(keys, k) < 16 ==> key_down(keys, first_key_from(keys, k)),
        forall|j: u8| k <= j < first_key_from(keys, k) ==> !#[trigger] key_down(keys, j),
    decreases 16 - k,
{
    if k < 16 && !key_down(keys, k) {
        lemma_first_key_from(keys, (k + 1) as u8);
    }
}

/// LD Vx, K with a key held puts the lowest held key in Vx.
pub proof fn lemma_key_wait_takes_lowest_key(s: CpuState, x: usize)
    requires
        s.wf(),
        x < 16,
        s.keys != 0,
    ensures
        key_down(s.keys, apply(s, Op::Ldk { x }, 0).v[x as int]),
        forall|j: u8|
            j < apply(s, Op::Ldk { x }, 0).v[x as int] ==> !#[trigger] key_down(s.keys, j),
        !apply(s, Op::Ldk { x }, 0).no_pc_incr || s.no_pc_incr,
{
    lemma_lowest_key(s.keys);
}

/// After the font is installed, LD F, Vx points I at the five bytes of the
/// glyph for the digit `x`.
pub proof fn lemma_font_glyph_address(s: CpuState, x: usize)
    requires
        s.wf(),
        x < 16,
    ensures
        ({
            let t = apply(install_font(s), Op::Ldf { x }, 0);
            t.mem.subrange(t.i as int, t.i + 5) == font().subrange(5 * x, 5 * x + 5)
        }),
{
    let t = apply(install_font(s), Op::Ldf { x }, 0);
    assert(t.i == FONT_START_MEM_LOCATION + 5 * x);
    assert(t.mem.subrange(t.i as int, t.i + 5) =~= font().subrange(5 * x, 5 * x + 5));
}

/// XOR Vx, Vy applied twice, with two different registers, leaves the machine
/// as it was.
pub proof fn lemma_xor_twice_is_idle(s: CpuState, x: usize, y: usize)
    requires
        s.wf(),
        x < 16,
        y < 16,
        x != y,
    ensures
        apply(apply(s, Op::Xor { x, y }, 0), Op::Xor { x, y }, 0) == s,
{
    let a = s.v[x as int];
    let b = s.v[y as int];
    assert((a ^ b) ^ b == a) by (bit_vector);
    assert(apply(apply(s, Op::Xor { x, y }, 0), Op::Xor { x, y }, 0).v =~= s.v);
    assert(apply(apply(s, Op::Xor { x, y }, 0), Op::Xor { x, y }, 0) =~~= s);
}

/// Whether `op` neither jumps, skips, returns nor waits: after it the cycle
/// moves to the next instruction.
pub open spec fn falls_through(op: Op) -> bool {
    match op {
        Op::Ret | Op::Jp { .. } | Op::Call { .. } | Op::SeByte { .. } | Op::SneByte { .. }
        | Op::SeReg { .. } | Op::SneReg { .. } | Op::Jpv0 { .. } | Op::Skp { .. } | Op::Sknp {
            ..
        } | Op::Ldk { .. } => false,
        _ => true,
    }
}

/// Every instruction that neither jumps, skips, returns nor waits moves the
/// program counter to the next instruction, two bytes on.
pub proof fn lemma_step_moves_to_next_instruction(s: CpuState, r: u8)
    requires
        s.wf(),
        can_step(s),
        !s.no_pc_incr,
        falls_through(current_op(fetch(s))),
    ensures
        step(s, r).pc == s.pc + 2,
        !step(s, r).no_pc_incr,
{
}

/// For the six conditional skips, whether the condition to skip holds on `s`;
/// `None` for every other instruction.
pub open spec fn skip_condition(s: CpuState, op: Op) -> Option<bool> {
    match op {
        Op::SeByte { x, byte } => Some(s.v[x as int] == byte),
        Op::SneByte { x, byte } => Some(s.v[x as int] != byte),
        Op::SeReg { x, y } => Some(s.v[x as int] == s.v[y as int]),
        Op::SneReg { x, y } => Some(s.v[x as int] != s.v[y as int]),
        Op::Skp { x } => Some(key_down(s.keys, s.v[x as int])),
        Op::Sknp { x } => Some(!key_down(s.keys, s.v[x as int])),
        _ => None,
    }
}

/// A conditional skip whose condition holds moves the program counter past the
/// next instruction, four bytes on; when the condition fails, two bytes on.
/// Nothing else changes but the opcode register.
pub proof fn lemma_skip_moves_past_next_instruction(s: CpuState, r: u8)
    requires
        s.wf(),
        can_step(s),
        !s.no_pc_incr,
        skip_condition(s, current_op(fetch(s))) is Some,
    ensures
        step(s, r) == (CpuState {
            pc: (s.pc + if skip_condition(s, current_op(fetch(s)))->0 {
                4int
            } else {
                2int
            }) as u16,
            ..fetch(s)
        }),
{
}

/// The timers after `k` ticks.
pub open spec fn after_timer_ticks(s: CpuState, k: nat) -> CpuState
    decreases k,
{
    if k == 0 {
        s
    } else {
        tick_timers(after_timer_ticks(s, (k - 1) as nat))
    }
}

/// Each timer counts down by one per tick and then stays at zero; nothing else
/// changes.
pub proof fn lemma_timers_count_down_to_zero(s: CpuState, k: nat)
    ensures
        after_timer_ticks(s, k).delay == if s.delay >= k {
            s.delay - k
        } else {
            0
        },
        after_timer_ticks(s, k).sound == if s.sound >= k {
            s.sound - k
        } else {
            0
        },
        (CpuState { delay: s.delay, sound: s.sound, ..after_timer_ticks(s, k) }) == s,
    decreases k,
{
    if k > 0 {
        lemma_timers_count_down_to_zero(s, (k - 1) as nat);
    }
}

/// Every instruction that runs to its end keeps the shapes of the machine.
pub proof fn lemma_apply_keeps_shapes(s: CpuState, op: Op, r: u8)
    requires
        s.wf(),
        can_apply(s, op),
    ensures
        apply(s, op, r).wf(),
{
    let t = apply(s, op, r);
    match op {
        Op::Drw { x, y, n } => {
            assert(forall|k: int| 0 <= k < 32 ==> (#[trigger] t.pixels[k]).len() == 64);
        },
        Op::Cls => {
            assert(forall|k: int| 0 <= k < 32 ==> (#[trigger] t.pixels[k]).len() == 64);
        },
        Op::Ldb { x } => {
            assert(t.mem.len() == 4096);
        },
        Op::Ldtm { x } => {
            assert(t.mem.len() == 4096);
        },
        Op::Ldfm { x } => {
            assert(t.v.len() == 16);
        },
        _ => {},
    }
}

/// A cycle keeps the shapes of the machine: memory, registers, stack, opcode
/// and screen keep their sizes.
pub proof fn lemma_step_keeps_shapes(s: CpuState, r: u8)
    requires
        s.wf(),
        can_step(s),
    ensures
        step(s, r).wf(),
{
    let f = fetch(s);
    assert(f.wf());
    lemma_apply_keeps_shapes(f, current_op(f), r);
}

/// After a program is loaded and the program counter is at the start of
/// programs, the first instruction fetched is the program's first two bytes.
pub proof fn lemma_first_fetch_reads_program(s: CpuState, rom: Seq<u8>)
    requires
        s.wf(),
        2 <= rom.len() <= 4096 - PROGRAM_START,
        s.pc == PROGRAM_START,
    ensures
        fetch(load_program(s, rom)).opcode == seq![rom[0], rom[1]],
{
    assert(fetch(load_program(s, rom)).opcode =~= seq![rom[0], rom[1]]);
}

/// An opcode that the machine does not recognise only moves the program
/// counter on.
pub proof fn lemma_unknown_opcode_only_moves_on(s: CpuState, r: u8)
    requires
        s.wf(),
        can_step(s),
        !s.no_pc_incr,
        current_op(fetch(s)) == Op::Nop,
    ensures
        step(s, r) == (CpuState { pc: (s.pc + 2) as u16, ..fetch(s) }),
{
}

/// The stack pointer stays inside the sixteen slots from cycle to cycle.
pub proof fn lemma_step_keeps_stack_pointer_in_range(s: CpuState, r: u8)
    requires
        s.wf(),
        s.sp < 16,
        can_step(s),
    ensures
        step(s, r).sp < 16,
{
}

/// What one instruction may touch, told by its opcode bytes: it never changes
/// the opcode register or the keys; it writes memory only for LD B, Vx and
/// LD [I], Vx (Fx33, Fx55), the screen only for CLS and DRW (00E0, Dxyn), the
/// stack only for RET and CALL (00EE, 2nnn), and the timers only for
/// LD DT, Vx and LD ST, Vx (Fx15, Fx18).
pub proof fn lemma_execute_frame(s: CpuState, r: u8)
    requires
        s.wf(),
        can_execute(s),
    ensures
        ({
            let t = execute(s, r);
            let hi = s.opcode[0];
            let lo = s.opcode[1];
            let h = hi / 16;
            &&& t.opcode == s.opcode
            &&& t.keys == s.keys
            &&& t.keys_old == s.keys_old
            &&& t.mem != s.mem ==> h == 0xF && (lo == 0x33 || lo == 0x55)
            &&& t.pixels != s.pixels ==> (hi == 0 && lo == 0xE0) || h == 0xD
            &&& (t.stack != s.stack || t.sp != s.sp) ==> (hi == 0 && lo == 0xEE) || h == 2
            &&& (t.delay != s.delay || t.sound != s.sound) ==> h == 0xF && (lo == 0x15 || lo
                == 0x18)
        }),
{
}

/// A cycle over an instruction that neither jumps, skips, returns nor waits,
/// told by its opcode bytes (6xkk, 7xkk, 8xyn, Annn, Cxkk, Dxyn, Fxkk other
/// than Fx0A, and 00E0), moves the program counter two bytes on and leaves
/// those bytes in the opcode register.
pub proof fn lemma_tick_falls_through_by_opcode(s: CpuState, r: u8)
    requires
        s.wf(),
        can_step(s),
        !s.no_pc_incr,
        ({
            let hi = s.mem[s.pc as int];
            let lo = s.mem[s.pc + 1];
            let h = hi / 16;
            h == 6 || h == 7 || h == 8 || h == 0xA || h == 0xC || h == 0xD || (h == 0xF && lo
                != 0x0A) || (hi == 0 && lo == 0xE0)
        }),
    ensures
        step(s, r).pc == s.pc + 2,
        !step(s, r).no_pc_incr,
        step(s, r).opcode == seq![s.mem[s.pc as int], s.mem[s.pc + 1]],
{
    assert(falls_through(current_op(fetch(s))));
    lemma_step_moves_to_next_instruction(s, r);
    lemma_step_keeps_shapes(s, r);
    assert(step(s, r).opcode == fetch(s).opcode);
}

} // verus!
