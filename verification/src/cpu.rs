use vstd::prelude::*;

use vstd::arithmetic::div_mod::{
    lemma_add_mod_noop,
    lemma_mod_twice,
    lemma_small_mod,
    lemma_sub_mod_noop,
    lemma_sub_mod_noop_right,
};

use crate::display::{DisplayData, SCREEN_HEIGHT, SCREEN_WIDTH};
use crate::keypad::KeyPad;
use crate::pc::PC;
use crate::random::random_byte;
use crate::stack::StackData;
use crate::state::{
    apply,
    call,
    can_apply,
    can_execute,
    can_step,
    lemma_execute_random_reaches_only_rnd,
    lemma_apply_ignores_opcode,
    decode_opcode,
    cls,
    current_op,
    drw,
    execute,
    fetch,
    font,
    jp,
    ldb,
    ldfm,
    ldk,
    ldk_diff,
    ldtm,
    ret,
    set_v,
    shl,
    shr,
    step,
    sub_regs,
    subn,
    tick_timers,
    write_bytes,
    sprite_row_hits,
    flipped_by_rows,
    row_offset,
    col_offset,
    sprite_collides,
    drawn,
    lowest_key,
    first_key_from,
    CpuState,
    Op,
    FONT_START_MEM_LOCATION,
    FONT_WIDTH_BYTES,
    PROGRAM_START,
    DEFAULT_FONT,
    load_program,
    install_font,
};

verus! {

/// Whether the pixel at `r`, `c` has been flipped an odd number of times once
/// the sprite rows before `byte`, and the bits before `px` of row `byte`, are
/// drawn.
spec fn flipped_so_far(mem: Seq<u8>, i: u16, vx: u8, vy: u8, byte: int, px: int, r: int, c: int) -> bool {
    flipped_by_rows(mem, i, vx, vy, byte, r, c) != (sprite_row_hits(mem, i, vx, vy, byte, r, c)
        && col_offset(c, vx) < px)
}

/// Whether, by that point of the drawing, some set bit has landed on a lit
/// pixel.
spec fn collided_so_far(s0: CpuState, vx: u8, vy: u8, byte: int, px: int) -> bool {
    exists|r: int, c: int, b: int|
        0 <= r < 32 && 0 <= c < 64 && 0 <= b && (b < byte || (b == byte && col_offset(c, vx) < px))
            && #[trigger] sprite_row_hits(s0.mem, s0.i, vx, vy, b, r, c) && (s0.pixels[r][c]
            != flipped_by_rows(s0.mem, s0.i, vx, vy, b, r, c))
}

/// Sprite row `byte` lands on screen row `(vy + byte) % 32`, and no other
/// screen row has that row offset.
proof fn lemma_row_offset(vy: u8, byte: u8)
    ensures
        row_offset((vy + byte) % 32, vy) == byte % 32,
        forall|r: int|
            0 <= r < 32 && #[trigger] row_offset(r, vy) == byte % 32 ==> r == (vy + byte) % 32,
{
    let v = vy as int;
    let b = byte as int;
    let x = v + b;
    lemma_sub_mod_noop(x, v, 32);
    lemma_sub_mod_noop_right(x % 32, v, 32);
    lemma_mod_twice(x, 32);
    assert(row_offset(x % 32, vy) == b % 32);
    assert forall|r: int| 0 <= r < 32 && #[trigger] row_offset(r, vy) == byte % 32 implies r == x
        % 32 by {
        lemma_add_mod_noop(r - v, v, 32);
        lemma_add_mod_noop(b, v, 32);
        lemma_mod_twice(v, 32);
        lemma_small_mod(r as nat, 32);
    }
}

/// Bit `px` of a sprite row lands on screen column `(vx + px) % 64`, and no
/// other screen column has that column offset.
proof fn lemma_col_offset(vx: u8, px: u8)
    requires
        px < 64,
    ensures
        col_offset((vx + px) % 64, vx) == px,
        forall|c: int| 0 <= c < 64 && #[trigger] col_offset(c, vx) == px ==> c == (vx + px) % 64,
{
}

/// Whether the timers count down on this cycle: once more than `hz / 60`
/// cycles have run since the start.
pub fn timers_due(cycles: u64, hz: u64) -> (due: bool)
    ensures
        due == (cycles > hz / 60),
{
    cycles > (hz / 60)
}

/// Unsigned division never wraps: `wrapping_div` is plain division, and it
/// panics on a zero divisor.
pub assume_specification[ <u8>::wrapping_div ](x: u8, y: u8) -> (r: u8)
    requires
        y != 0,
    ensures
        r == x / y,
;

/// The 4096 bytes of memory.
pub struct Memory {
    pub data: [u8; 4096],
}

/// The general registers V0 to VF and the address register I.
pub struct GPRegisters {
    pub v: [u8; 16],
    pub i: u16,
}

/// The delay and sound timers.
pub struct SPRegisters {
    pub d: u8,
    pub s: u8,
}

/// The whole machine.
pub struct Cpu {
    pub mem: Memory,
    pub gpreg: GPRegisters,
    pub spreg: SPRegisters,
    pub stack: StackData,
    pub pc: PC,
    pub opcode: [u8; 2],
    pub display_mem: DisplayData,
    pub kpad: KeyPad,
    pub kpad_old: KeyPad,
    pub no_pc_incr: bool,
}

impl View for Cpu {
    type V = CpuState;

    open spec fn view(&self) -> CpuState {
        CpuState {
            mem: self.mem.data@,
            v: self.gpreg.v@,
            i: self.gpreg.i,
            delay: self.spreg.d,
            sound: self.spreg.s,
            stack: self.stack.data@,
            sp: self.stack.pointer,
            pc: self.pc.c,
            opcode: self.opcode@,
            pixels: self.display_mem@,
            keys: self.kpad.keys,
            keys_old: self.kpad_old.keys,
            no_pc_incr: self.no_pc_incr,
        }
    }
}

impl Cpu {
    /// Every machine state has the shapes of the model.
    pub proof fn lemma_view_wf(&self)
        ensures
            self@.wf(),
    {
        assert forall|r: int| 0 <= r < 32 implies (#[trigger] self@.pixels[r]).len() == 64 by {
            assert(self@.pixels[r] == self.display_mem.pixels@[r]@);
        }
    }

    /// A machine just switched on: everything zero, the screen dark, the
    /// program counter at the start of programs.
    pub fn new() -> (cpu: Cpu)
        ensures
            cpu@.mem == Seq::new(4096, |k: int| 0u8),
            cpu@.v == Seq::new(16, |k: int| 0u8),
            cpu@.i == 0,
            cpu@.delay == 0,
            cpu@.sound == 0,
            cpu@.stack == Seq::new(16, |k: int| 0u16),
            cpu@.sp == 0,
            cpu@.pc == PROGRAM_START,
            cpu@.opcode == seq![0u8, 0u8],
            cpu@.pixels =~~= crate::state::blank_screen(),
            cpu@.keys == 0,
            cpu@.keys_old == 0,
            !cpu@.no_pc_incr,
    {
        let cpu = Cpu {
            mem: Memory { data: [0; 4096] },
            gpreg: GPRegisters { v: [0; 16], i: 0 },
            spreg: SPRegisters { d: 0, s: 0 },
            stack: StackData { data: [0; 16], pointer: 0 },
            pc: PC { c: PROGRAM_START },
            opcode: [0; 2],
            display_mem: DisplayData::new(),
            kpad: KeyPad { keys: 0 },
            kpad_old: KeyPad { keys: 0 },
            no_pc_incr: false,
        };
        assert(cpu@.mem =~= Seq::new(4096, |k: int| 0u8));
        assert(cpu@.v =~= Seq::new(16, |k: int| 0u8));
        assert(cpu@.stack =~= Seq::new(16, |k: int| 0u16));
        assert(cpu@.opcode =~= seq![0u8, 0u8]);
        cpu
    }

    /// CLS: clears the screen.
    pub fn inst_cls(&mut self)
        ensures
            final(self)@ =~~= cls(old(self)@),
    {
        let mut y: u8 = 0;
        while y < SCREEN_HEIGHT
            invariant
                y <= 32,
                (CpuState { pixels: old(self)@.pixels, ..self@ }) == old(self)@,
                forall|r: int, c: int| 0 <= r < y && 0 <= c < 64 ==> !#[trigger] self@.pixels[r][c],
            decreases 32 - y,
        {
            let mut x: u8 = 0;
            while x < SCREEN_WIDTH
                invariant
                    y < 32,
                    x <= 64,
                    (CpuState { pixels: old(self)@.pixels, ..self@ }) == old(self)@,
                    forall|r: int, c: int|
                        0 <= r < y && 0 <= c < 64 ==> !#[trigger] self@.pixels[r][c],
                    forall|c: int| 0 <= c < x ==> !#[trigger] self@.pixels[y as int][c],
                decreases 64 - x,
            {
                proof {
                    self.lemma_view_wf();
                }
                self.display_mem.set_pixel(y as usize, x as usize, false);
                x += 1;
            }
            y += 1;
        }
        proof {
            self.lemma_view_wf();
        }
        assert(self@.pixels =~~= crate::state::blank_screen());
    }

    /// RET: returns from a subroutine.
    pub fn inst_ret(&mut self)
        requires
            old(self)@.sp < 16,
        ensures
            final(self)@ =~~= ret(old(self)@),
    {
        self.pc.set_as(self.stack.pop());
    }

    /// JP addr: jumps to `addr`.
    pub fn inst_jp(&mut self, addr: u16)
        ensures
            final(self)@ =~~= jp(old(self)@, addr),
    {
        self.pc.set_as(addr);
        self.no_pc_incr = true;
    }

    /// CALL addr: pushes the current address and jumps to `addr`; a full stack
    /// (pointer at 254) refuses the push and the jump. Returns what the stack
    /// answered, so that the caller can report a full stack.
    pub fn inst_call(&mut self, addr: u16) -> (r: Result<usize, usize>)
        requires
            old(self).stack.can_push(),
        ensures
            final(self)@ =~~= call(old(self)@, addr),
            r == if old(self)@.sp == 254 {
                Err::<usize, usize>(254)
            } else {
                Ok::<usize, usize>((old(self)@.sp + 1) as usize)
            },
    {
        let pushed = self.stack.push(self.pc.get_cur());
        match pushed {
            Err(_cur_stack_ptr) => {},
            Ok(_cur_stack_ptr) => self.pc.set_as(addr),
        }
        self.no_pc_incr = true;
        pushed
    }

    /// SE Vx, byte: skips the next instruction when Vx equals `byte`.
    pub fn inst_se_byte(&mut self, vreg_x: usize, byte: u8)
        requires
            can_apply(old(self)@, Op::SeByte { x: vreg_x, byte }),
        ensures
            final(self)@ =~~= apply(old(self)@, Op::SeByte { x: vreg_x, byte }, 0),
    {
        if self.gpreg.v[vreg_x] == byte {
            self.pc.incr_n(1);
        }
    }

    /// SE Vx, Vy: skips the next instruction when Vx equals Vy.
    pub fn inst_se_reg(&mut self, vreg_x: usize, vreg_y: usize)
        requires
            can_apply(old(self)@, Op::SeReg { x: vreg_x, y: vreg_y }),
        ensures
            final(self)@ =~~= apply(old(self)@, Op::SeReg { x: vreg_x, y: vreg_y }, 0),
    {
        if self.gpreg.v[vreg_x] == self.gpreg.v[vreg_y] {
            self.pc.incr_n(1);
        }
    }

    /// SNE Vx, byte: skips the next instruction when Vx differs from `byte`.
    pub fn inst_sne_byte(&mut self, vreg_x: usize, byte: u8)
        requires
            can_apply(old(self)@, Op::SneByte { x: vreg_x, byte }),
        ensures
            final(self)@ =~~= apply(old(self)@, Op::SneByte { x: vreg_x, byte }, 0),
    {
        if self.gpreg.v[vreg_x] != byte {
            self.pc.incr_n(1);
        }
    }

    /// SNE Vx, Vy: skips the next instruction when Vx differs from Vy.
    pub fn inst_sne_reg(&mut self, vreg_x: usize, vreg_y: usize)
        requires
            can_apply(old(self)@, Op::SneReg { x: vreg_x, y: vreg_y }),
        ensures
            final(self)@ =~~= apply(old(self)@, Op::SneReg { x: vreg_x, y: vreg_y }, 0),
    {
        if self.gpreg.v[vreg_x] != self.gpreg.v[vreg_y] {
            self.pc.incr_n(1);
        }
    }

    /// LD Vx, byte.
    pub fn inst_ld_byte(&mut self, vreg_x: usize, byte: u8)
        requires
            vreg_x < 16,
        ensures
            final(self)@ =~~= set_v(old(self)@, vreg_x, byte),
    {
        self.gpreg.v[vreg_x] = byte;
    }

    /// LD Vx, Vy.
    pub fn inst_ld_reg(&mut self, vreg_x: usize, vreg_y: usize)
        requires
            vreg_x < 16,
            vreg_y < 16,
        ensures
            final(self)@ =~~= set_v(old(self)@, vreg_x, old(self)@.v[vreg_y as int]),
    {
        self.gpreg.v[vreg_x] = self.gpreg.v[vreg_y];
    }

    /// ADD Vx, byte: addition modulo 256, VF untouched.
    pub fn inst_add_byte(&mut self, vreg_x: usize, byte: u8)
        requires
            vreg_x < 16,
        ensures
            final(self)@ =~~= apply(old(self)@, Op::AddByte { x: vreg_x, byte }, 0),
    {
        self.gpreg.v[vreg_x] = self.gpreg.v[vreg_x].wrapping_add(byte);
    }

    /// ADD Vx, Vy: addition modulo 256, VF untouched.
    pub fn inst_add_reg(&mut self, vreg_x: usize, vreg_y: usize)
        requires
            vreg_x < 16,
            vreg_y < 16,
        ensures
            final(self)@ =~~= apply(old(self)@, Op::AddReg { x: vreg_x, y: vreg_y }, 0),
    {
        self.gpreg.v[vreg_x] = self.gpreg.v[vreg_x].wrapping_add(self.gpreg.v[vreg_y]);
    }

    /// OR Vx, Vy.
    pub fn inst_or(&mut self, vreg_x: usize, vreg_y: usize)
        requires
            vreg_x < 16,
            vreg_y < 16,
        ensures
            final(self)@ =~~= set_v(
                old(self)@,
                vreg_x,
                old(self)@.v[vreg_x as int] | old(self)@.v[vreg_y as int],
            ),
    {
        self.gpreg.v[vreg_x] |= self.gpreg.v[vreg_y];
    }

    /// AND Vx, Vy.
    pub fn inst_and(&mut self, vreg_x: usize, vreg_y: usize)
        requires
            vreg_x < 16,
            vreg_y < 16,
        ensures
            final(self)@ =~~= set_v(
                old(self)@,
                vreg_x,
                old(self)@.v[vreg_x as int] & old(self)@.v[vreg_y as int],
            ),
    {
        self.gpreg.v[vreg_x] &= self.gpreg.v[vreg_y];
    }

    /// XOR Vx, Vy.
    pub fn inst_xor(&mut self, vreg_x: usize, vreg_y: usize)
        requires
            vreg_x < 16,
            vreg_y < 16,
        ensures
            final(self)@ =~~= set_v(
                old(self)@,
                vreg_x,
                old(self)@.v[vreg_x as int] ^ old(self)@.v[vreg_y as int],
            ),
    {
        self.gpreg.v[vreg_x] ^= self.gpreg.v[vreg_y];
    }

    /// SUB Vx, Vy: VF := 1 (whichever is larger), then Vx := Vx - Vy modulo 256.
    pub fn inst_sub(&mut self, vreg_x: usize, vreg_y: usize)
        requires
            vreg_x < 16,
            vreg_y < 16,
        ensures
            final(self)@ =~~= sub_regs(old(self)@, vreg_x, vreg_y),
    {
        if self.gpreg.v[vreg_x] > self.gpreg.v[vreg_y] {
            self.gpreg.v[0xF] = 1;
        } else {
            self.gpreg.v[0xF] = 1;
        }
        self.gpreg.v[vreg_x] = self.gpreg.v[vreg_x].wrapping_sub(self.gpreg.v[vreg_y]);
    }

    /// SUBN Vx, Vy: VF := 1 (whichever is larger), then Vx := Vy - Vx, which
    /// must not go below zero.
    pub fn inst_subn(&mut self, vreg_x: usize, vreg_y: usize)
        requires
            can_apply(old(self)@, Op::Subn { x: vreg_x, y: vreg_y }),
        ensures
            final(self)@ =~~= subn(old(self)@, vreg_x, vreg_y),
    {
        if self.gpreg.v[vreg_y] > self.gpreg.v[vreg_x] {
            self.gpreg.v[0xF] = 1;
        } else {
            self.gpreg.v[0xF] = 1;
        }
        self.gpreg.v[vreg_x] = self.gpreg.v[vreg_y] - self.gpreg.v[vreg_x];
    }

    /// SHR Vx: VF := the low bit of Vx, then Vx := Vx / 2.
    pub fn inst_shr(&mut self, vreg_x: usize)
        requires
            vreg_x < 16,
        ensures
            final(self)@ =~~= shr(old(self)@, vreg_x),
    {
        self.gpreg.v[0xF] = self.gpreg.v[vreg_x] & 0b00000001;
        self.gpreg.v[vreg_x] = self.gpreg.v[vreg_x].wrapping_div(2);
    }

    /// SHL Vx: VF := Vx & 0x80, then Vx := Vx * 2 modulo 256.
    pub fn inst_shl(&mut self, vreg_x: usize)
        requires
            vreg_x < 16,
        ensures
            final(self)@ =~~= shl(old(self)@, vreg_x),
    {
        self.gpreg.v[0xF] = self.gpreg.v[vreg_x] & 0b10000000;
        self.gpreg.v[vreg_x] = self.gpreg.v[vreg_x].wrapping_mul(2);
    }

    /// LD I, addr.
    pub fn inst_ldi(&mut self, addr: u16)
        ensures
            final(self)@ =~~= apply(old(self)@, Op::Ldi { addr }, 0),
    {
        self.gpreg.i = addr;
    }

    /// JP V0, addr: jumps to `addr` + V0. Unlike JP, the cycle still moves the
    /// program counter on afterwards.
    pub fn inst_jpv0(&mut self, addr: u16)
        requires
            addr + old(self)@.v[0] <= u16::MAX,
        ensures
            final(self)@ =~~= apply(old(self)@, Op::Jpv0 { addr }, 0),
    {
        self.pc.set_as(addr + self.gpreg.v[0x0] as u16);
    }

    /// RND Vx, byte with the random byte `random`: Vx := `random` & `byte`.
    pub fn inst_rnd_from(&mut self, vreg_x: usize, byte: u8, random: u8)
        requires
            vreg_x < 16,
        ensures
            final(self)@ =~~= set_v(old(self)@, vreg_x, random & byte),
    {
        self.gpreg.v[vreg_x] = random & byte;
    }

    /// RND Vx, byte: Vx := a random byte & `byte`.
    pub fn inst_rnd(&mut self, vreg_x: usize, byte: u8)
        requires
            vreg_x < 16,
        ensures
            exists|r: u8| final(self)@ =~~= #[trigger] set_v(old(self)@, vreg_x, r & byte),
    {
        let r = random_byte();
        self.inst_rnd_from(vreg_x, byte, r);
    }

    /// LD Vx, DT.
    pub fn inst_ldvdt(&mut self, vreg_x: usize)
        requires
            vreg_x < 16,
        ensures
            final(self)@ =~~= set_v(old(self)@, vreg_x, old(self)@.delay),
    {
        self.gpreg.v[vreg_x] = self.spreg.d;
    }

    /// LD DT, Vx.
    pub fn inst_lddt(&mut self, vreg_x: usize)
        requires
            vreg_x < 16,
        ensures
            final(self)@ =~~= apply(old(self)@, Op::LdDt { x: vreg_x }, 0),
    {
        self.spreg.d = self.gpreg.v[vreg_x];
    }

    /// LD ST, Vx.
    pub fn inst_ldst(&mut self, vreg_x: usize)
        requires
            vreg_x < 16,
        ensures
            final(self)@ =~~= apply(old(self)@, Op::LdSt { x: vreg_x }, 0),
    {
        self.spreg.s = self.gpreg.v[vreg_x];
    }

    /// ADD I, Vx.
    pub fn inst_addi(&mut self, vreg_x: usize)
        requires
            can_apply(old(self)@, Op::AddI { x: vreg_x }),
        ensures
            final(self)@ =~~= apply(old(self)@, Op::AddI { x: vreg_x }, 0),
    {
        self.gpreg.i += self.gpreg.v[vreg_x] as u16;
    }

    /// LD F, Vx: I := the address of the glyph number `vreg_x` of the font (the
    /// register's index, not its value).
    pub fn inst_ldf(&mut self, vreg_x: usize)
        requires
            vreg_x < 16,
        ensures
            final(self)@ =~~= apply(old(self)@, Op::Ldf { x: vreg_x }, 0),
            final(self)@.i == FONT_START_MEM_LOCATION + 5 * vreg_x,
    {
        assert(vreg_x * FONT_WIDTH_BYTES as usize <= 75) by (nonlinear_arith)
            requires
                vreg_x < 16,
                FONT_WIDTH_BYTES == 5,
        ;
        self.gpreg.i = FONT_START_MEM_LOCATION + (vreg_x * FONT_WIDTH_BYTES as usize) as u16;
    }

    /// SKP Vx: skips the next instruction when key Vx is held.
    pub fn inst_skp(&mut self, vreg_x: usize)
        requires
            can_apply(old(self)@, Op::Skp { x: vreg_x }),
        ensures
            final(self)@ =~~= apply(old(self)@, Op::Skp { x: vreg_x }, 0),
    {
        let keys = self.kpad.keys;
        let k = self.gpreg.v[vreg_x];
        assert(((keys >> k) & 0b1 > 0) == ((keys >> k) & 1u16 == 1u16)) by (bit_vector);
        if ((self.kpad.keys >> self.gpreg.v[vreg_x]) & 0b1 > 0) {
            self.pc.incr_n(1);
        }
    }

    /// SKNP Vx: skips the next instruction when key Vx is not held.
    pub fn inst_sknp(&mut self, vreg_x: usize)
        requires
            can_apply(old(self)@, Op::Sknp { x: vreg_x }),
        ensures
            final(self)@ =~~= apply(old(self)@, Op::Sknp { x: vreg_x }, 0),
    {
        let keys = self.kpad.keys;
        let k = self.gpreg.v[vreg_x];
        assert(((keys >> k) & 0b1 > 0) == ((keys >> k) & 1u16 == 1u16)) by (bit_vector);
        if !((self.kpad.keys >> self.gpreg.v[vreg_x]) & 0b1 > 0) {
            self.pc.incr_n(1);
        }
    }

    /// Waits for a change of the keys (see `ldk_diff` in the model).
    pub fn inst_ldk_diff(&mut self, vreg_x: usize)
        requires
            old(self).kpad_old.keys == 0 || old(self).kpad.keys == old(self).kpad_old.keys
                || old(self).kpad.keys == 0 || vreg_x < 16,
        ensures
            final(self)@ =~~= ldk_diff(old(self)@, vreg_x),
    {
        self.no_pc_incr = true;

        if self.kpad_old.keys == 0 {
            self.kpad_old.keys = self.kpad.keys;
        } else {
            if self.kpad.keys != self.kpad_old.keys {
                let ghost before = self@;
                let keys = self.kpad.keys;
                let mut it: u8 = 0;
                while it < 16
                    invariant_except_break
                        keys == 0 || vreg_x < 16,
                        it <= 16,
                        self@ == before,
                        keys == before.keys,
                        lowest_key(keys) == first_key_from(keys, it),
                    ensures
                        self@ =~~= (if lowest_key(keys) < 16 {
                            set_v(before, vreg_x, lowest_key(keys))
                        } else {
                            before
                        }),
                    decreases 16 - it,
                {
                    assert(((keys >> it) & 0b1 > 0) == ((keys >> it) & 1u16 == 1u16)) by (bit_vector);
                    assert((keys >> it) & 0b1 > 0 ==> keys != 0) by (bit_vector);
                    if (self.kpad.keys >> it) & 0b1 > 0 {
                        self.gpreg.v[vreg_x] = it;
                        break;
                    }
                    it += 1;
                }
                self.no_pc_incr = false;
                self.kpad_old.keys = 0;
            }
        }
    }

    /// LD Vx, K: waits for a key; with one held, Vx gets the lowest key held.
    pub fn inst_ldk(&mut self, vreg_x: usize)
        requires
            old(self).kpad.keys == 0 || vreg_x < 16,
        ensures
            final(self)@ =~~= ldk(old(self)@, vreg_x),
    {
        if self.kpad.keys == 0 {
            self.no_pc_incr = true;
        } else {
            let ghost before = self@;
            let keys = self.kpad.keys;
            let mut i: u8 = 0;
            while i < 16
                invariant_except_break
                    vreg_x < 16,
                    i <= 16,
                    self@ == before,
                    keys == before.keys,
                    lowest_key(keys) == first_key_from(keys, i),
                ensures
                    self@ =~~= (if lowest_key(keys) < 16 {
                        set_v(before, vreg_x, lowest_key(keys))
                    } else {
                        before
                    }),
                decreases 16 - i,
            {
                assert(((keys >> i) & 0b1 > 0) == ((keys >> i) & 1u16 == 1u16)) by (bit_vector);
                if (self.kpad.keys >> i) & 0b1 > 0 {
                    self.gpreg.v[vreg_x] = i;
                    break;
                }
                i += 1;
            }
        }
    }

    /// LD B, Vx: writes the hundreds, tens and units of Vx at I, I + 1, I + 2.
    pub fn inst_ldb(&mut self, vreg_x: usize)
        requires
            can_apply(old(self)@, Op::Ldb { x: vreg_x }),
        ensures
            final(self)@ =~~= ldb(old(self)@, vreg_x),
    {
        self.mem.data[self.gpreg.i as usize] = self.gpreg.v[vreg_x] / 100;
        self.mem.data[self.gpreg.i as usize + 1] = (self.gpreg.v[vreg_x] % 100) / 10;
        self.mem.data[self.gpreg.i as usize + 2] = self.gpreg.v[vreg_x] % 10;
    }

    /// LD [I], Vx: stores V0 to Vx in memory from I on.
    pub fn inst_ldtm(&mut self, vreg_x: usize)
        requires
            can_apply(old(self)@, Op::Ldtm { x: vreg_x }),
        ensures
            final(self)@ =~~= ldtm(old(self)@, vreg_x),
    {
        let mut it: usize = 0;
        while it <= vreg_x
            invariant
                vreg_x < 16,
                old(self)@.i + vreg_x < 4096,
                it <= vreg_x + 1,
                self@ =~~= (CpuState {
                    mem: write_bytes(old(self)@.mem, old(self)@.i as int, old(self)@.v.take(it as int)),
                    ..old(self)@
                }),
            decreases vreg_x + 1 - it,
        {
            self.mem.data[(self.gpreg.i as usize) + it] = self.gpreg.v[it];
            it += 1;
        }
    }

    /// LD Vx, [I]: loads V0 to Vx from memory from I on.
    pub fn inst_ldfm(&mut self, vreg_x: usize)
        requires
            can_apply(old(self)@, Op::Ldfm { x: vreg_x }),
        ensures
            final(self)@ =~~= ldfm(old(self)@, vreg_x),
    {
        let mut it: usize = 0;
        while it <= vreg_x
            invariant
                vreg_x < 16,
                old(self)@.i + vreg_x < 4096,
                it <= vreg_x + 1,
                self@ =~~= (CpuState {
                    v: write_bytes(
                        old(self)@.v,
                        0,
                        old(self)@.mem.subrange(old(self)@.i as int, old(self)@.i + it),
                    ),
                    ..old(self)@
                }),
            decreases vreg_x + 1 - it,
        {
            self.gpreg.v[it] = self.mem.data[(self.gpreg.i as usize) + it];
            it += 1;
        }
    }

    /// Copies the program `rom` into memory from the start of programs on.
    pub fn load_rom(&mut self, rom: Vec<u8>)
        requires
            rom.len() <= 4096 - PROGRAM_START,
        ensures
            final(self)@ =~~= load_program(old(self)@, rom@),
    {
        for i in 0..rom.len()
            invariant
                rom.len() <= 4096 - PROGRAM_START,
                self@ =~~= load_program(old(self)@, rom@.take(i as int)),
        {
            self.mem.data[i + 0x200] = rom[i];
        }
        assert(rom@.take(rom.len() as int) =~= rom@);
    }

    /// Copies the font into memory from its start address on.
    pub fn init_mem(&mut self)
        ensures
            final(self)@ =~~= install_font(old(self)@),
    {
        assert(DEFAULT_FONT@ =~= font());
        for b in 0..80
            invariant
                DEFAULT_FONT@ == font(),
                self@ =~~= (CpuState {
                    mem: write_bytes(old(self)@.mem, FONT_START_MEM_LOCATION as int, font().take(b as int)),
                    ..old(self)@
                }),
        {
            self.mem.data[(FONT_START_MEM_LOCATION + b) as usize] = DEFAULT_FONT[b as usize];
        }
        assert(font().take(80) =~= font());
    }

    /// Counts each timer down by one, stopping at zero.
    pub fn decr_timers(&mut self)
        ensures
            final(self)@ =~~= tick_timers(old(self)@),
    {
        if self.spreg.d > 0 {
            self.spreg.d -= 1;
        }
        if self.spreg.s > 0 {
            self.spreg.s -= 1;
        }
    }

    /// Takes the keys held now.
    pub fn push_keys(&mut self, new_keys: KeyPad)
        ensures
            final(self)@ =~~= (CpuState { keys: new_keys.keys, ..old(self)@ }),
    {
        self.kpad.keys = new_keys.keys;
    }

    /// Copies the two bytes at the program counter into the opcode register.
    pub fn read_opcode(&mut self)
        requires
            old(self)@.pc + 1 < 4096,
        ensures
            final(self)@ =~~= fetch(old(self)@),
    {
        self.opcode[0] = self.mem.data[self.pc.get_cur() as usize];
        self.opcode[1] = self.mem.data[self.pc.get_cur() as usize + 1];
    }

    /// DRW Vx, Vy, n: draws the `nibble` rows of the sprite at I with its top
    /// left corner at column Vx, row Vy, flipping each pixel under a set bit and
    /// wrapping around the edges (a sprite taller than the screen comes round
    /// onto its first rows again); VF := 1 when a set bit landed on a lit pixel,
    /// else 0.
    pub fn inst_drw(&mut self, vreg_x: usize, vreg_y: usize, nibble: u8)
        requires
            can_apply(old(self)@, Op::Drw { x: vreg_x, y: vreg_y, n: nibble }),
        ensures
            final(self)@ =~~= drw(old(self)@, vreg_x, vreg_y, nibble),
    {
        let ghost s0 = self@;
        let ghost vx = s0.v[vreg_x as int];
        let ghost vy = s0.v[vreg_y as int];
        proof {
            self.lemma_view_wf();
        }
        let mut collision = false;
        let mut byte: u8 = 0;
        while byte < nibble
            invariant
                vreg_x < 16,
                vreg_y < 16,
                nibble == 0 || s0.i + nibble <= 4096,
                byte <= nibble,
                s0.wf(),
                vx == s0.v[vreg_x as int],
                vy == s0.v[vreg_y as int],
                (CpuState { pixels: s0.pixels, ..self@ }) == s0,
                self@.pixels.len() == 32,
                forall|r: int| 0 <= r < 32 ==> (#[trigger] self@.pixels[r]).len() == 64,
                forall|r: int, c: int|
                    0 <= r < 32 && 0 <= c < 64 ==> #[trigger] self@.pixels[r][c] == (s0.pixels[r][c]
                        != flipped_so_far(s0.mem, s0.i, vx, vy, byte as int, 0, r, c)),
                collision == collided_so_far(s0, vx, vy, byte as int, 0),
            decreases nibble - byte,
        {
            let mut px: u8 = 0;
            while px < 8
                invariant
                    vreg_x < 16,
                    vreg_y < 16,
                    s0.i + nibble <= 4096,
                    byte < nibble,
                    px <= 8,
                    s0.wf(),
                    vx == s0.v[vreg_x as int],
                    vy == s0.v[vreg_y as int],
                    (CpuState { pixels: s0.pixels, ..self@ }) == s0,
                    self@.pixels.len() == 32,
                    forall|r: int| 0 <= r < 32 ==> (#[trigger] self@.pixels[r]).len() == 64,
                    forall|r: int, c: int|
                        0 <= r < 32 && 0 <= c < 64 ==> #[trigger] self@.pixels[r][c] == (
                        s0.pixels[r][c] != flipped_so_far(
                            s0.mem,
                            s0.i,
                            vx,
                            vy,
                            byte as int,
                            px as int,
                            r,
                            c,
                        )),
                    collision == collided_so_far(s0, vx, vy, byte as int, px as int),
                decreases 8 - px,
            {
                let x = (self.gpreg.v[vreg_x].wrapping_add(px)) % SCREEN_WIDTH;
                let y = (self.gpreg.v[vreg_y].wrapping_add(byte)) % SCREEN_HEIGHT;
                proof {
                    lemma_row_offset(vy, byte);
                    lemma_col_offset(vx, px);
                    assert(x == (vx + px) % 64);
                    assert(y == (vy + byte) % 32);
                }
                let old_px = self.display_mem.pixels[y as usize][x as usize];
                let row = self.mem.data[(self.gpreg.i + byte as u16) as usize];
                let shift: u8 = 7 - px;
                let bit = ((row >> shift) & 0b1) > 0;
                assert(bit == (((row >> shift) & 1u8) == 1u8)) by (bit_vector)
                    requires
                        bit == (((row >> shift) & 0b1) > 0),
                ;
                let ghost before = self@;
                let ghost coll0 = collision;
                let new_px = old_px ^ bit;
                self.display_mem.set_pixel(y as usize, x as usize, new_px);
                assert(self.display_mem.pixels[y as int][x as int] == self@.pixels[y as int][x as int]);
                assert(self.display_mem.pixels[y as int][x as int] == new_px);
                assert((old_px && !new_px) == (old_px && bit));
                if old_px && !self.display_mem.pixels[y as usize][x as usize] {
                    collision = true;
                }
                proof {
                    let yi = y as int;
                    let xi = x as int;
                    let b = byte as int;
                    assert(sprite_row_hits(s0.mem, s0.i, vx, vy, b, yi, xi) == bit);
                    assert(old_px == (s0.pixels[yi][xi] != flipped_by_rows(
                        s0.mem,
                        s0.i,
                        vx,
                        vy,
                        b,
                        yi,
                        xi,
                    )));
                    assert forall|r: int, c: int|
                        0 <= r < 32 && 0 <= c < 64 implies #[trigger] self@.pixels[r][c] == (
                        s0.pixels[r][c] != flipped_so_far(
                            s0.mem,
                            s0.i,
                            vx,
                            vy,
                            b,
                            px + 1,
                            r,
                            c,
                        )) by {
                        if r == yi && c == xi {
                        } else {
                            assert(self@.pixels[r][c] == before.pixels[r][c]);
                            if sprite_row_hits(s0.mem, s0.i, vx, vy, b, r, c) && col_offset(c, vx)
                                == px {
                                assert(r == yi);
                                assert(c == xi);
                            }
                        }
                    }
                    let was = collided_so_far(s0, vx, vy, b, px as int);
                    let now = collided_so_far(s0, vx, vy, b, px + 1);
                    if was {
                        let (r, c, bb) = choose|r: int, c: int, bb: int|
                            0 <= r < 32 && 0 <= c < 64 && 0 <= bb && (bb < b || (bb == b
                                && col_offset(c, vx) < px)) && #[trigger] sprite_row_hits(
                                s0.mem,
                                s0.i,
                                vx,
                                vy,
                                bb,
                                r,
                                c,
                            ) && (s0.pixels[r][c] != flipped_by_rows(s0.mem, s0.i, vx, vy, bb, r, c));
                        assert(sprite_row_hits(s0.mem, s0.i, vx, vy, bb, r, c));
                        assert(now);
                    }
                    if old_px && bit {
                        assert(sprite_row_hits(s0.mem, s0.i, vx, vy, b, yi, xi));
                        assert(now);
                    }
                    if now {
                        let (r, c, bb) = choose|r: int, c: int, bb: int|
                            0 <= r < 32 && 0 <= c < 64 && 0 <= bb && (bb < b || (bb == b
                                && col_offset(c, vx) < px + 1)) && #[trigger] sprite_row_hits(
                                s0.mem,
                                s0.i,
                                vx,
                                vy,
                                bb,
                                r,
                                c,
                            ) && (s0.pixels[r][c] != flipped_by_rows(s0.mem, s0.i, vx, vy, bb, r, c));
                        if bb == b && col_offset(c, vx) == px {
                            assert(r == yi);
                            assert(c == xi);
                            assert(old_px && bit);
                        } else {
                            assert(sprite_row_hits(s0.mem, s0.i, vx, vy, bb, r, c));
                            assert(was);
                        }
                    }
                    assert(coll0 == was);
                    assert(collision == (was || (old_px && bit)));
                    assert(collision == now);
                }
                px += 1;
            }
            proof {
                let b = byte as int;
                assert forall|r: int, c: int|
                    0 <= r < 32 && 0 <= c < 64 implies flipped_so_far(s0.mem, s0.i, vx, vy, b, 8, r, c)
                    == flipped_so_far(s0.mem, s0.i, vx, vy, b + 1, 0, r, c) by {}
                let was = collided_so_far(s0, vx, vy, b, 8);
                let now = collided_so_far(s0, vx, vy, b + 1, 0);
                if was {
                    let (r, c, bb) = choose|r: int, c: int, bb: int|
                        0 <= r < 32 && 0 <= c < 64 && 0 <= bb && (bb < b || (bb == b && col_offset(
                            c,
                            vx,
                        ) < 8)) && #[trigger] sprite_row_hits(s0.mem, s0.i, vx, vy, bb, r, c) && (
                        s0.pixels[r][c] != flipped_by_rows(s0.mem, s0.i, vx, vy, bb, r, c));
                    assert(sprite_row_hits(s0.mem, s0.i, vx, vy, bb, r, c));
                    assert(now);
                }
                if now {
                    let (r, c, bb) = choose|r: int, c: int, bb: int|
                        0 <= r < 32 && 0 <= c < 64 && 0 <= bb && (bb < b + 1 || (bb == b + 1
                            && col_offset(c, vx) < 0)) && #[trigger] sprite_row_hits(
                            s0.mem,
                            s0.i,
                            vx,
                            vy,
                            bb,
                            r,
                            c,
                        ) && (s0.pixels[r][c] != flipped_by_rows(s0.mem, s0.i, vx, vy, bb, r, c));
                    assert(sprite_row_hits(s0.mem, s0.i, vx, vy, bb, r, c));
                    assert(was);
                }
            }
            byte += 1;
        }
        if collision {
            self.gpreg.v[0xF] = 1;
        } else {
            self.gpreg.v[0xF] = 0;
        }
        proof {
            let n = nibble as int;
            let was = collided_so_far(s0, vx, vy, n, 0);
            let goal = sprite_collides(s0, vreg_x, vreg_y, nibble);
            if was {
                let (r, c, bb) = choose|r: int, c: int, bb: int|
                    0 <= r < 32 && 0 <= c < 64 && 0 <= bb && (bb < n || (bb == n && col_offset(
                        c,
                        vx,
                    ) < 0)) && #[trigger] sprite_row_hits(s0.mem, s0.i, vx, vy, bb, r, c) && (
                    s0.pixels[r][c] != flipped_by_rows(s0.mem, s0.i, vx, vy, bb, r, c));
                assert(sprite_row_hits(s0.mem, s0.i, vx, vy, bb, r, c));
                assert(goal);
            }
            if goal {
                let (r, c, bb) = choose|r: int, c: int, bb: int|
                    0 <= r < 32 && 0 <= c < 64 && 0 <= bb < n && #[trigger] sprite_row_hits(
                        s0.mem,
                        s0.i,
                        vx,
                        vy,
                        bb,
                        r,
                        c,
                    ) && (s0.pixels[r][c] != flipped_by_rows(s0.mem, s0.i, vx, vy, bb, r, c));
                assert(sprite_row_hits(s0.mem, s0.i, vx, vy, bb, r, c));
                assert(was);
            }
            assert(collision == goal);
            assert forall|r: int, c: int|
                0 <= r < 32 && 0 <= c < 64 implies flipped_so_far(s0.mem, s0.i, vx, vy, n, 0, r, c)
                == flipped_by_rows(s0.mem, s0.i, vx, vy, n, r, c) by {}
            assert(self@.pixels =~~= drawn(s0, vreg_x, vreg_y, nibble));
        }
    }

    /// Decodes the instruction in the opcode register and runs it.
    #[verifier::rlimit(60)]
    /// Returns `Err(254)` exactly when the instruction is a CALL that the full
    /// stack refused.
    pub fn dispatch_operation(&mut self) -> (res: Result<(), usize>)
        requires
            can_execute(old(self)@),
        ensures
            exists|r: u8| final(self)@ == #[trigger] execute(old(self)@, r),
            !(current_op(old(self)@) is Rnd) ==> final(self)@ == execute(old(self)@, 0),
            res == if current_op(old(self)@) is Call && old(self)@.sp == 254 {
                Err::<(), usize>(254)
            } else {
                Ok::<(), usize>(())
            },
    {
        let mut res: Result<(), usize> = Ok(());
        let ghost s0 = self@;
        let hi = self.opcode[0];
        let lo = self.opcode[1];
        assert(hi & 0x0F == hi % 16) by (bit_vector);
        assert(lo & 0x0F == lo % 16) by (bit_vector);
        let opcode_digits_hex: [u8; 4] = [
            self.opcode[0] / 0x10,
            self.opcode[0] & 0x0F,
            self.opcode[1] / 0x10,
            self.opcode[1] & 0x0F,
        ];

        let opcode_as_u16: u16 = (self.opcode[0] as u16 * 0x100) + (self.opcode[1] as u16);

        let vreg_x = opcode_digits_hex[1] as usize;
        let vreg_y = opcode_digits_hex[2] as usize;
        let byte = self.opcode[1];
        let addr = opcode_as_u16 % 0x1000;
        let nibble = opcode_digits_hex[3];
        assert(s0.opcode[0] == hi && s0.opcode[1] == lo);

        match opcode_digits_hex[0] {
            0x0 => {
                if opcode_as_u16 == 0x00E0 {
                    self.inst_cls();
                } else if opcode_as_u16 == 0x00EE {
                    self.inst_ret();
                }
            },
            0x1 => {
                self.inst_jp(addr);
            },
            0x2 => {
                match self.inst_call(addr) {
                    Err(cur_stack_ptr) => {
                        res = Err(cur_stack_ptr);
                    },
                    Ok(_cur_stack_ptr) => {},
                }
            },
            0x3 => {
                self.inst_se_byte(vreg_x, byte);
            },
            0x4 => {
                self.inst_sne_byte(vreg_x, byte);
            },
            0x5 => {
                if opcode_digits_hex[3] == 0 {
                    self.inst_se_reg(vreg_x, vreg_y);
                }
            },
            0x6 => {
                self.inst_ld_byte(vreg_x, byte);
            },
            0x7 => {
                self.inst_add_byte(vreg_x, byte);
            },
            0x8 => {
                match opcode_digits_hex[3] {
                    0x0 => {
                        self.inst_ld_reg(vreg_x, vreg_y);
                    },
                    0x1 => {
                        self.inst_or(vreg_x, vreg_y);
                    },
                    0x2 => {
                        self.inst_and(vreg_x, vreg_y);
                    },
                    0x3 => {
                        self.inst_xor(vreg_x, vreg_y);
                    },
                    0x4 => {
                        self.inst_add_reg(vreg_x, vreg_y);
                    },
                    0x5 => {
                        self.inst_sub(vreg_x, vreg_y);
                    },
                    0x6 => {
                        self.inst_shr(vreg_x);
                    },
                    0x7 => {
                        self.inst_subn(vreg_x, vreg_y);
                    },
                    0xE => {
                        self.inst_shl(vreg_x);
                    },
                    _ => {},
                }
            },
            0x9 => {
                if opcode_digits_hex[3] == 0 {
                    self.inst_sne_reg(vreg_x, vreg_y);
                }
            },
            0xA => {
                self.inst_ldi(addr);
            },
            0xB => {
                self.inst_jpv0(addr);
            },
            0xC => {
                self.inst_rnd(vreg_x, byte);
            },
            0xD => {
                self.inst_drw(vreg_x, vreg_y, nibble);
            },
            0xE => {
                if self.opcode[1] == 0x9E {
                    self.inst_skp(vreg_x);
                } else if self.opcode[1] == 0xA1 {
                    self.inst_sknp(vreg_x);
                }
            },
            0xF => {
                match self.opcode[1] {
                    0x07 => {
                        self.inst_ldvdt(vreg_x);
                    },
                    0x0A => {
                        self.inst_ldk(vreg_x);
                    },
                    0x15 => {
                        self.inst_lddt(vreg_x);
                    },
                    0x18 => {
                        self.inst_ldst(vreg_x);
                    },
                    0x1E => {
                        self.inst_addi(vreg_x);
                    },
                    0x29 => {
                        self.inst_ldf(vreg_x);
                    },
                    0x33 => {
                        self.inst_ldb(vreg_x);
                    },
                    0x55 => {
                        self.inst_ldtm(vreg_x);
                    },
                    0x65 => {
                        self.inst_ldfm(vreg_x);
                    },
                    _ => {},
                }
            },
            _ => {},
        }
        proof {
            if current_op(s0) is Rnd {
                let r = choose|r: u8| self@ =~~= #[trigger] set_v(s0, vreg_x, r & byte);
                assert(self@ =~~= execute(s0, r));
            } else {
                assert(self@ =~~= execute(s0, 0));
            }
        }
        res
    }

    /// One cycle: fetches the instruction at the program counter, runs it, and
    /// moves to the next one unless the instruction set the program counter.
    /// Showing the screen is left to the caller (see `DisplayData::draw`).
    /// Returns `Err(254)` exactly when the instruction is a CALL that the full
    /// stack refused.
    pub fn tick(&mut self) -> (res: Result<(), usize>)
        requires
            can_step(old(self)@),
        ensures
            exists|r: u8| final(self)@ == #[trigger] step(old(self)@, r),
            !(current_op(fetch(old(self)@)) is Rnd) ==> final(self)@ == step(old(self)@, 0),
            res == if current_op(fetch(old(self)@)) is Call && old(self)@.sp == 254 {
                Err::<(), usize>(254)
            } else {
                Ok::<(), usize>(())
            },
    {
        let ghost s0 = self@;
        self.read_opcode();
        let ghost f = self@;
        let res = self.dispatch_operation();
        let ghost r = choose|r: u8| self@ == #[trigger] execute(f, r);
        proof {
            lemma_execute_random_reaches_only_rnd(f, r, 0);
        }
        let ghost e = self@;
        if self.no_pc_incr {
            self.no_pc_incr = false;
        } else {
            self.pc.incr();
        }
        assert(self@ =~~= step(s0, r));
        proof {
            if !(current_op(f) is Rnd) {
                assert(e == execute(f, 0));
                assert(step(s0, r) == step(s0, 0));
            }
        }
        res
    }

    /// Whether the instruction `op` runs to its end on this machine.
    pub fn can_run(&self, op: &Op) -> (ok: bool)
        ensures
            ok == can_apply(self@, *op),
    {
        let skip_ok = self.pc.c <= u16::MAX - 2;
        match *op {
            Op::Ret => self.stack.pointer < 16,
            Op::Call { addr } => self.stack.pointer < 15 || self.stack.pointer == 254,
            Op::SeByte { x, byte } => x < 16 && (self.gpreg.v[x] != byte || skip_ok),
            Op::SneByte { x, byte } => x < 16 && (self.gpreg.v[x] == byte || skip_ok),
            Op::SeReg { x, y } => x < 16 && y < 16 && (self.gpreg.v[x] != self.gpreg.v[y]
                || skip_ok),
            Op::SneReg { x, y } => x < 16 && y < 16 && (self.gpreg.v[x] == self.gpreg.v[y]
                || skip_ok),
            Op::LdByte { x, byte } => x < 16,
            Op::AddByte { x, byte } => x < 16,
            Op::LdReg { x, y } => x < 16 && y < 16,
            Op::Or { x, y } => x < 16 && y < 16,
            Op::And { x, y } => x < 16 && y < 16,
            Op::Xor { x, y } => x < 16 && y < 16,
            Op::AddReg { x, y } => x < 16 && y < 16,
            Op::Sub { x, y } => x < 16 && y < 16,
            Op::Shr { x } => x < 16,
            Op::Subn { x, y } => {
                if x < 16 && y < 16 {
                    let vx: u8 = if x == 15 {
                        1
                    } else {
                        self.gpreg.v[x]
                    };
                    let vy: u8 = if y == 15 {
                        1
                    } else {
                        self.gpreg.v[y]
                    };
                    vx <= vy
                } else {
                    false
                }
            },
            Op::Shl { x } => x < 16,
            Op::Jpv0 { addr } => addr as u32 + self.gpreg.v[0] as u32 <= u16::MAX as u32,
            Op::Rnd { x, byte } => x < 16,
            Op::Drw { x, y, n } => x < 16 && y < 16 && (n == 0 || self.gpreg.i as u32
                + n as u32 <= 4096),
            Op::Skp { x } => {
                if x < 16 && self.gpreg.v[x] < 16 {
                    let k = self.gpreg.v[x];
                    let keys = self.kpad.keys;
                    assert(((keys >> k) & 0b1 > 0) == ((keys >> k) & 1u16 == 1u16)) by (bit_vector);
                    !((keys >> k) & 0b1 > 0) || skip_ok
                } else {
                    false
                }
            },
            Op::Sknp { x } => {
                if x < 16 && self.gpreg.v[x] < 16 {
                    let k = self.gpreg.v[x];
                    let keys = self.kpad.keys;
                    assert(((keys >> k) & 0b1 > 0) == ((keys >> k) & 1u16 == 1u16)) by (bit_vector);
                    ((keys >> k) & 0b1 > 0) || skip_ok
                } else {
                    false
                }
            },
            Op::LdVDt { x } => x < 16,
            Op::Ldk { x } => self.kpad.keys == 0 || x < 16,
            Op::LdDt { x } => x < 16,
            Op::LdSt { x } => x < 16,
            Op::AddI { x } => x < 16 && self.gpreg.i as u32 + self.gpreg.v[x] as u32 <= u16::MAX as u32,
            Op::Ldf { x } => x < 16,
            Op::Ldb { x } => x < 16 && (self.gpreg.i as u32) + 2 < 4096,
            Op::Ldtm { x } => x < 16 && (self.gpreg.i as usize) + x < 4096,
            Op::Ldfm { x } => x < 16 && (self.gpreg.i as usize) + x < 4096,
            _ => true,
        }
    }

    /// Where the instruction `op` leaves the program counter, and whether it
    /// holds the counter back from moving on.
    fn control_after(&self, op: &Op) -> (r: (bool, u16))
        requires
            can_apply(self@, *op),
        ensures
            r.0 == apply(self@, *op, 0).no_pc_incr,
            r.1 == apply(self@, *op, 0).pc,
    {
        let hold = self.no_pc_incr;
        let pc = self.pc.c;
        match *op {
            Op::Ret => (hold, self.stack.data[self.stack.pointer]),
            Op::Jp { addr } => (true, addr),
            Op::Call { addr } => (true, if self.stack.pointer == 254 {
                pc
            } else {
                addr
            }),
            Op::SeByte { x, byte } => (hold, if self.gpreg.v[x] == byte {
                pc + 2
            } else {
                pc
            }),
            Op::SneByte { x, byte } => (hold, if self.gpreg.v[x] != byte {
                pc + 2
            } else {
                pc
            }),
            Op::SeReg { x, y } => (hold, if self.gpreg.v[x] == self.gpreg.v[y] {
                pc + 2
            } else {
                pc
            }),
            Op::SneReg { x, y } => (hold, if self.gpreg.v[x] != self.gpreg.v[y] {
                pc + 2
            } else {
                pc
            }),
            Op::Jpv0 { addr } => (hold, addr + self.gpreg.v[0] as u16),
            Op::Skp { x } => {
                let k = self.gpreg.v[x];
                let keys = self.kpad.keys;
                assert(((keys >> k) & 0b1 > 0) == ((keys >> k) & 1u16 == 1u16)) by (bit_vector);
                (hold, if (keys >> k) & 0b1 > 0 {
                    pc + 2
                } else {
                    pc
                })
            },
            Op::Sknp { x } => {
                let k = self.gpreg.v[x];
                let keys = self.kpad.keys;
                assert(((keys >> k) & 0b1 > 0) == ((keys >> k) & 1u16 == 1u16)) by (bit_vector);
                (hold, if (keys >> k) & 0b1 > 0 {
                    pc
                } else {
                    pc + 2
                })
            },
            Op::Ldk { x } => (hold || self.kpad.keys == 0, pc),
            _ => (hold, pc),
        }
    }

    /// Whether `tick` runs to its end on this machine.
    pub fn can_tick(&self) -> (ok: bool)
        ensures
            ok == can_step(self@),
    {
        let pc = self.pc.c;
        if pc >= 4095 {
            return false;
        }
        let hi = self.mem.data[pc as usize];
        let lo = self.mem.data[pc as usize + 1];
        let op = decode_opcode(hi, lo);
        let ghost s = self@;
        proof {
            lemma_apply_ignores_opcode(s, seq![hi, lo], op, 0);
            assert(fetch(s) == (CpuState { opcode: seq![hi, lo], ..s }));
        }
        if !self.can_run(&op) {
            return false;
        }
        let (hold, next) = self.control_after(&op);
        hold || next <= u16::MAX - 2
    }
}

} // verus!
