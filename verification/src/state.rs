use vstd::prelude::*;

verus! {

/// The machine with the program `rom` copied into memory from the start of
/// programs on.
pub open spec fn load_program(s: CpuState, rom: Seq<u8>) -> CpuState {
    CpuState { mem: write_bytes(s.mem, PROGRAM_START as int, rom), ..s }
}

/// The machine with the font copied into memory from its start address on.
pub open spec fn install_font(s: CpuState) -> CpuState {
    CpuState { mem: write_bytes(s.mem, FONT_START_MEM_LOCATION as int, font()), ..s }
}

/// The whole machine as mathematical values: what a `Cpu` holds.
#[verifier::ext_equal]
pub struct CpuState {
    /// The 4096 bytes of memory.
    pub mem: Seq<u8>,
    /// The sixteen general registers V0 to VF.
    pub v: Seq<u8>,
    /// The address register I.
    pub i: u16,
    /// The delay timer.
    pub delay: u8,
    /// The sound timer.
    pub sound: u8,
    /// The sixteen slots of the call stack.
    pub stack: Seq<u16>,
    /// The index of the top slot of the call stack.
    pub sp: usize,
    /// The program counter.
    pub pc: u16,
    /// The two bytes of the instruction last fetched.
    pub opcode: Seq<u8>,
    /// The screen, row by row.
    pub pixels: Seq<Seq<bool>>,
    /// The keys held now, one bit per key.
    pub keys: u16,
    /// The keys remembered by the edge-triggered key wait.
    pub keys_old: u16,
    /// Whether the instruction just run set the program counter itself.
    pub no_pc_incr: bool,
}

/// The instructions, as the opcode decoder tells them apart.
pub enum Op {
    Cls,
    Ret,
    Jp { addr: u16 },
    Call { addr: u16 },
    SeByte { x: usize, byte: u8 },
    SneByte { x: usize, byte: u8 },
    SeReg { x: usize, y: usize },
    LdByte { x: usize, byte: u8 },
    AddByte { x: usize, byte: u8 },
    LdReg { x: usize, y: usize },
    Or { x: usize, y: usize },
    And { x: usize, y: usize },
    Xor { x: usize, y: usize },
    AddReg { x: usize, y: usize },
    Sub { x: usize, y: usize },
    Shr { x: usize },
    Subn { x: usize, y: usize },
    Shl { x: usize },
    SneReg { x: usize, y: usize },
    Ldi { addr: u16 },
    Jpv0 { addr: u16 },
    Rnd { x: usize, byte: u8 },
    Drw { x: usize, y: usize, n: u8 },
    Skp { x: usize },
    Sknp { x: usize },
    LdVDt { x: usize },
    Ldk { x: usize },
    LdDt { x: usize },
    LdSt { x: usize },
    AddI { x: usize },
    Ldf { x: usize },
    Ldb { x: usize },
    Ldtm { x: usize },
    Ldfm { x: usize },
    /// An opcode that the machine does not recognise: it does nothing.
    Nop,
}

/// Where the built-in font starts in memory.
pub const FONT_START_MEM_LOCATION: u16 = 0x50;

/// The bytes of one glyph of the font.
pub const FONT_WIDTH_BYTES: u8 = 5;

/// Where programs are loaded and start.
pub const PROGRAM_START: u16 = 0x200;

/// The font in memory order: five bytes for each hexadecimal digit.
pub const DEFAULT_FONT: [u8; 80] = [
    0xF0, 0x90, 0x90, 0x90, 0xF0, // 0
    0x20, 0x60, 0x20, 0x20, 0x70, // 1
    0xF0, 0x10, 0xF0, 0x80, 0xF0, // 2
    0xF0, 0x10, 0xF0, 0x10, 0xF0, // 3
    0x90, 0x90, 0xF0, 0x10, 0x10, // 4
    0xF0, 0x80, 0xF0, 0x10, 0xF0, // 5
    0xF0, 0x80, 0xF0, 0x90, 0xF0, // 6
    0xF0, 0x10, 0x20, 0x40, 0x40, // 7
    0xF0, 0x90, 0xF0, 0x90, 0xF0, // 8
    0xF0, 0x90, 0xF0, 0x10, 0xF0, // 9
    0xF0, 0x90, 0xF0, 0x90, 0x90, // A
    0xE0, 0x90, 0xE0, 0x90, 0xE0, // B
    0xF0, 0x80, 0x80, 0x80, 0xF0, // C
    0xE0, 0x90, 0x90, 0x90, 0xE0, // D
    0xF0, 0x80, 0xF0, 0x80, 0xF0, // E
    0xF0, 0x80, 0xF0, 0x80, 0x80, // F
];

/// The font: five rows of four pixels for each hexadecimal digit.
pub open spec fn font() -> Seq<u8> {
    seq![
        0xF0u8, 0x90, 0x90, 0x90, 0xF0,
        0x20, 0x60, 0x20, 0x20, 0x70,
        0xF0, 0x10, 0xF0, 0x80, 0xF0,
        0xF0, 0x10, 0xF0, 0x10, 0xF0,
        0x90, 0x90, 0xF0, 0x10, 0x10,
        0xF0, 0x80, 0xF0, 0x10, 0xF0,
        0xF0, 0x80, 0xF0, 0x90, 0xF0,
        0xF0, 0x10, 0x20, 0x40, 0x40,
        0xF0, 0x90, 0xF0, 0x90, 0xF0,
        0xF0, 0x90, 0xF0, 0x10, 0xF0,
        0xF0, 0x90, 0xF0, 0x90, 0x90,
        0xE0, 0x90, 0xE0, 0x90, 0xE0,
        0xF0, 0x80, 0x80, 0x80, 0xF0,
        0xE0, 0x90, 0x90, 0x90, 0xE0,
        0xF0, 0x80, 0xF0, 0x80, 0xF0,
        0xF0, 0x80, 0xF0, 0x80, 0x80,
    ]
}

impl CpuState {
    /// The shapes that every machine state has.
    pub open spec fn wf(self) -> bool {
        &&& self.mem.len() == 4096
        &&& self.v.len() == 16
        &&& self.stack.len() == 16
        &&& self.opcode.len() == 2
        &&& self.pixels.len() == 32
        &&& forall|r: int| 0 <= r < 32 ==> (#[trigger] self.pixels[r]).len() == 64
    }
}

/// The state with register `x` set to `val`.
pub open spec fn set_v(s: CpuState, x: usize, val: u8) -> CpuState {
    CpuState { v: s.v.update(x as int, val), ..s }
}

/// The state with the program counter one instruction further on.
pub open spec fn skip(s: CpuState) -> CpuState {
    CpuState { pc: (s.pc + 2) as u16, ..s }
}

/// Whether skipping one instruction keeps the program counter in range.
pub open spec fn can_skip(s: CpuState) -> bool {
    s.pc + 2 <= u16::MAX
}

/// Whether key `k` (0 to 15) is held in the key bits `keys`.
pub open spec fn key_down(keys: u16, k: u8) -> bool {
    (keys >> k) & 1u16 == 1u16
}

/// The lowest key from `k` on that is held, or 16 if none is.
pub open spec fn first_key_from(keys: u16, k: u8) -> u8
    decreases 16 - k,
{
    if k >= 16 {
        16
    } else if key_down(keys, k) {
        k
    } else {
        first_key_from(keys, (k + 1) as u8)
    }
}

/// The lowest key that is held, or 16 if none is.
pub open spec fn lowest_key(keys: u16) -> u8 {
    first_key_from(keys, 0)
}

/// A screen with every pixel dark.
pub open spec fn blank_screen() -> Seq<Seq<bool>> {
    Seq::new(32, |r: int| Seq::new(64, |c: int| false))
}

/// How many rows below row `vy` the screen row `row` lies, wrapping around.
pub open spec fn row_offset(row: int, vy: u8) -> int {
    (row - vy) % 32
}

/// How many columns right of column `vx` the screen column `col` lies,
/// wrapping around.
pub open spec fn col_offset(col: int, vx: u8) -> int {
    (col - vx) % 64
}

/// Whether row `b` of the sprite at address `i`, drawn with its top left corner
/// at column `vx` and row `vy`, has a set bit over the pixel at `row`, `col`.
/// Sprite rows wrap around the bottom of the screen (row `b` lands on screen
/// row `(vy + b) % 32`) and columns around its right edge; bit 7 of a sprite
/// row is its leftmost pixel.
pub open spec fn sprite_row_hits(mem: Seq<u8>, i: u16, vx: u8, vy: u8, b: int, row: int, col: int) -> bool {
    let p = col_offset(col, vx);
    &&& b % 32 == row_offset(row, vy)
    &&& p < 8
    &&& (mem[i + b] >> ((7 - p) as u8)) & 1u8 == 1u8
}

/// Whether the first `k` rows of the sprite flip the pixel at `row`, `col` an
/// odd number of times. A sprite of more than 32 rows comes round onto the
/// same screen rows again.
pub open spec fn flipped_by_rows(mem: Seq<u8>, i: u16, vx: u8, vy: u8, k: int, row: int, col: int) -> bool
    decreases k,
{
    if k <= 0 {
        false
    } else {
        flipped_by_rows(mem, i, vx, vy, k - 1, row, col) != sprite_row_hits(
            mem,
            i,
            vx,
            vy,
            k - 1,
            row,
            col,
        )
    }
}

/// The screen after the sprite of `n` rows is drawn: each pixel is flipped once
/// for each sprite row with a set bit over it.
pub open spec fn drawn(s: CpuState, x: usize, y: usize, n: u8) -> Seq<Seq<bool>> {
    Seq::new(
        32,
        |r: int|
            Seq::new(
                64,
                |c: int|
                    s.pixels[r][c] != flipped_by_rows(
                        s.mem,
                        s.i,
                        s.v[x as int],
                        s.v[y as int],
                        n as int,
                        r,
                        c,
                    ),
            ),
    )
}

/// Whether drawing the sprite of `n` rows turns a lit pixel dark at some point:
/// some sprite row has a set bit over a pixel that is lit when that row is
/// drawn.
pub open spec fn sprite_collides(s: CpuState, x: usize, y: usize, n: u8) -> bool {
    exists|r: int, c: int, b: int|
        0 <= r < 32 && 0 <= c < 64 && 0 <= b < n && #[trigger] sprite_row_hits(
            s.mem,
            s.i,
            s.v[x as int],
            s.v[y as int],
            b,
            r,
            c,
        ) && (s.pixels[r][c] != flipped_by_rows(s.mem, s.i, s.v[x as int], s.v[y as int], b, r, c))
}

/// The memory with `bytes` written from address `start` on.
pub open spec fn write_bytes(mem: Seq<u8>, start: int, bytes: Seq<u8>) -> Seq<u8> {
    Seq::new(
        mem.len(),
        |k: int|
            if start <= k < start + bytes.len() {
                bytes[k - start]
            } else {
                mem[k]
            },
    )
}

/// Clears the screen.
pub open spec fn cls(s: CpuState) -> CpuState {
    CpuState { pixels: blank_screen(), ..s }
}

/// Returns from a subroutine: jumps to the address on top of the stack and
/// pops it.
pub open spec fn ret(s: CpuState) -> CpuState {
    CpuState {
        pc: s.stack[s.sp as int],
        sp: if s.sp > 0 {
            (s.sp - 1) as usize
        } else {
            0
        },
        ..s
    }
}

/// Jumps to `addr`.
pub open spec fn jp(s: CpuState, addr: u16) -> CpuState {
    CpuState { pc: addr, no_pc_incr: true, ..s }
}

/// Calls the subroutine at `addr`: pushes the current address and jumps. When
/// the stack refuses the push, the jump does not happen.
pub open spec fn call(s: CpuState, addr: u16) -> CpuState {
    if s.sp == 254 {
        CpuState { no_pc_incr: true, ..s }
    } else {
        CpuState {
            stack: s.stack.update(s.sp + 1, s.pc),
            sp: (s.sp + 1) as usize,
            pc: addr,
            no_pc_incr: true,
            ..s
        }
    }
}

/// Skips the next instruction when `cond` holds.
pub open spec fn skip_if(s: CpuState, cond: bool) -> CpuState {
    if cond {
        skip(s)
    } else {
        s
    }
}

/// VF := 1, then Vx := Vx - Vy modulo 256.
pub open spec fn sub_regs(s: CpuState, x: usize, y: usize) -> CpuState {
    let t = set_v(s, 15, 1);
    set_v(t, x, ((t.v[x as int] - t.v[y as int]) % 256) as u8)
}

/// VF := 1, then Vx := Vy - Vx.
pub open spec fn subn(s: CpuState, x: usize, y: usize) -> CpuState {
    let t = set_v(s, 15, 1);
    set_v(t, x, (t.v[y as int] - t.v[x as int]) as u8)
}

/// VF := the low bit of Vx, then Vx := Vx / 2.
pub open spec fn shr(s: CpuState, x: usize) -> CpuState {
    let t = set_v(s, 15, s.v[x as int] & 1u8);
    set_v(t, x, (t.v[x as int] / 2) as u8)
}

/// VF := the high bit of Vx, kept in its place (0 or 0x80), then Vx := Vx * 2
/// modulo 256.
pub open spec fn shl(s: CpuState, x: usize) -> CpuState {
    let t = set_v(s, 15, s.v[x as int] & 0x80u8);
    set_v(t, x, ((t.v[x as int] * 2) % 256) as u8)
}

/// Draws the sprite of `n` rows at I at column Vx and row Vy; VF tells whether
/// a lit pixel went dark.
pub open spec fn drw(s: CpuState, x: usize, y: usize, n: u8) -> CpuState {
    CpuState {
        pixels: drawn(s, x, y, n),
        v: s.v.update(
            15,
            if sprite_collides(s, x, y, n) {
                1u8
            } else {
                0u8
            },
        ),
        ..s
    }
}

/// Waits for a key: with no key held the instruction repeats; otherwise Vx
/// gets the lowest key held.
pub open spec fn ldk(s: CpuState, x: usize) -> CpuState {
    if s.keys == 0 {
        CpuState { no_pc_incr: true, ..s }
    } else if lowest_key(s.keys) < 16 {
        set_v(s, x, lowest_key(s.keys))
    } else {
        s
    }
}

/// Waits for a change of the keys: the first time it remembers the keys held;
/// it repeats until the keys differ from those, and then Vx gets the lowest key
/// held now (if any) and the memory is cleared.
pub open spec fn ldk_diff(s: CpuState, x: usize) -> CpuState {
    if s.keys_old == 0 {
        CpuState { keys_old: s.keys, no_pc_incr: true, ..s }
    } else if s.keys != s.keys_old {
        let t = if lowest_key(s.keys) < 16 {
            set_v(s, x, lowest_key(s.keys))
        } else {
            s
        };
        CpuState { no_pc_incr: false, keys_old: 0, ..t }
    } else {
        CpuState { no_pc_incr: true, ..s }
    }
}

/// Writes the decimal digits of Vx at I, I + 1 and I + 2.
pub open spec fn ldb(s: CpuState, x: usize) -> CpuState {
    let val = s.v[x as int];
    CpuState {
        mem: write_bytes(s.mem, s.i as int, seq![val / 100, (val % 100) / 10, val % 10]),
        ..s
    }
}

/// Stores V0 to Vx in memory from I on.
pub open spec fn ldtm(s: CpuState, x: usize) -> CpuState {
    CpuState { mem: write_bytes(s.mem, s.i as int, s.v.take(x + 1)), ..s }
}

/// Loads V0 to Vx from memory from I on.
pub open spec fn ldfm(s: CpuState, x: usize) -> CpuState {
    CpuState { v: write_bytes(s.v, 0, s.mem.subrange(s.i as int, s.i + x + 1)), ..s }
}

/// What the instruction `op` does; `r` is the random byte that RND draws.
pub open spec fn apply(s: CpuState, op: Op, r: u8) -> CpuState {
    match op {
        Op::Cls => cls(s),
        Op::Ret => ret(s),
        Op::Jp { addr } => jp(s, addr),
        Op::Call { addr } => call(s, addr),
        Op::SeByte { x, byte } => skip_if(s, s.v[x as int] == byte),
        Op::SneByte { x, byte } => skip_if(s, s.v[x as int] != byte),
        Op::SeReg { x, y } => skip_if(s, s.v[x as int] == s.v[y as int]),
        Op::LdByte { x, byte } => set_v(s, x, byte),
        Op::AddByte { x, byte } => set_v(s, x, ((s.v[x as int] + byte) % 256) as u8),
        Op::LdReg { x, y } => set_v(s, x, s.v[y as int]),
        Op::Or { x, y } => set_v(s, x, s.v[x as int] | s.v[y as int]),
        Op::And { x, y } => set_v(s, x, s.v[x as int] & s.v[y as int]),
        Op::Xor { x, y } => set_v(s, x, s.v[x as int] ^ s.v[y as int]),
        Op::AddReg { x, y } => set_v(s, x, ((s.v[x as int] + s.v[y as int]) % 256) as u8),
        Op::Sub { x, y } => sub_regs(s, x, y),
        Op::Shr { x } => shr(s, x),
        Op::Subn { x, y } => subn(s, x, y),
        Op::Shl { x } => shl(s, x),
        Op::SneReg { x, y } => skip_if(s, s.v[x as int] != s.v[y as int]),
        Op::Ldi { addr } => CpuState { i: addr, ..s },
        Op::Jpv0 { addr } => CpuState { pc: (addr + s.v[0]) as u16, ..s },
        Op::Rnd { x, byte } => set_v(s, x, r & byte),
        Op::Drw { x, y, n } => drw(s, x, y, n),
        Op::Skp { x } => skip_if(s, key_down(s.keys, s.v[x as int])),
        Op::Sknp { x } => skip_if(s, !key_down(s.keys, s.v[x as int])),
        Op::LdVDt { x } => set_v(s, x, s.delay),
        Op::Ldk { x } => ldk(s, x),
        Op::LdDt { x } => CpuState { delay: s.v[x as int], ..s },
        Op::LdSt { x } => CpuState { sound: s.v[x as int], ..s },
        Op::AddI { x } => CpuState { i: (s.i + s.v[x as int]) as u16, ..s },
        Op::Ldf { x } => CpuState {
            i: (FONT_START_MEM_LOCATION + x * FONT_WIDTH_BYTES) as u16,
            ..s
        },
        Op::Ldb { x } => ldb(s, x),
        Op::Ldtm { x } => ldtm(s, x),
        Op::Ldfm { x } => ldfm(s, x),
        Op::Nop => s,
    }
}

/// Whether the instruction `op` runs to its end on `s`: every index in range,
/// no arithmetic that overflows and no shift past the width of the keys.
pub open spec fn can_apply(s: CpuState, op: Op) -> bool {
    match op {
        Op::Ret => s.sp < 16,
        Op::Call { addr } => s.sp < 15 || s.sp == 254,
        Op::SeByte { x, byte } => x < 16 && (s.v[x as int] == byte ==> can_skip(s)),
        Op::SneByte { x, byte } => x < 16 && (s.v[x as int] != byte ==> can_skip(s)),
        Op::SeReg { x, y } => x < 16 && y < 16 && (s.v[x as int] == s.v[y as int] ==> can_skip(s)),
        Op::SneReg { x, y } => x < 16 && y < 16 && (s.v[x as int] != s.v[y as int] ==> can_skip(
            s,
        )),
        Op::LdByte { x, byte } => x < 16,
        Op::AddByte { x, byte } => x < 16,
        Op::LdReg { x, y } => x < 16 && y < 16,
        Op::Or { x, y } => x < 16 && y < 16,
        Op::And { x, y } => x < 16 && y < 16,
        Op::Xor { x, y } => x < 16 && y < 16,
        Op::AddReg { x, y } => x < 16 && y < 16,
        Op::Sub { x, y } => x < 16 && y < 16,
        Op::Shr { x } => x < 16,
        Op::Subn { x, y } => x < 16 && y < 16 && set_v(s, 15, 1).v[x as int] <= set_v(
            s,
            15,
            1,
        ).v[y as int],
        Op::Shl { x } => x < 16,
        Op::Jpv0 { addr } => addr + s.v[0] <= u16::MAX,
        Op::Rnd { x, byte } => x < 16,
        Op::Drw { x, y, n } => x < 16 && y < 16 && (n == 0 || s.i + n <= 4096),
        Op::Skp { x } => x < 16 && s.v[x as int] < 16 && (key_down(s.keys, s.v[x as int])
            ==> can_skip(s)),
        Op::Sknp { x } => x < 16 && s.v[x as int] < 16 && (!key_down(s.keys, s.v[x as int])
            ==> can_skip(s)),
        Op::LdVDt { x } => x < 16,
        Op::Ldk { x } => s.keys == 0 || x < 16,
        Op::LdDt { x } => x < 16,
        Op::LdSt { x } => x < 16,
        Op::AddI { x } => x < 16 && s.i + s.v[x as int] <= u16::MAX,
        Op::Ldf { x } => x < 16,
        Op::Ldb { x } => x < 16 && s.i + 2 < 4096,
        Op::Ldtm { x } => x < 16 && s.i + x < 4096,
        Op::Ldfm { x } => x < 16 && s.i + x < 4096,
        _ => true,
    }
}

/// The instruction that the two bytes `hi`, `lo` encode.
pub open spec fn decode(hi: u8, lo: u8) -> Op {
    let x = (hi % 16) as usize;
    let y = (lo / 16) as usize;
    let n = lo % 16;
    let word = hi * 256 + lo;
    let addr = (word % 4096) as u16;
    let kind = hi / 16;
    if kind == 0 {
        if word == 0x00E0 {
            Op::Cls
        } else if word == 0x00EE {
            Op::Ret
        } else {
            Op::Nop
        }
    } else if kind == 1 {
        Op::Jp { addr }
    } else if kind == 2 {
        Op::Call { addr }
    } else if kind == 3 {
        Op::SeByte { x, byte: lo }
    } else if kind == 4 {
        Op::SneByte { x, byte: lo }
    } else if kind == 5 {
        if n == 0 {
            Op::SeReg { x, y }
        } else {
            Op::Nop
        }
    } else if kind == 6 {
        Op::LdByte { x, byte: lo }
    } else if kind == 7 {
        Op::AddByte { x, byte: lo }
    } else if kind == 8 {
        if n == 0 {
            Op::LdReg { x, y }
        } else if n == 1 {
            Op::Or { x, y }
        } else if n == 2 {
            Op::And { x, y }
        } else if n == 3 {
            Op::Xor { x, y }
        } else if n == 4 {
            Op::AddReg { x, y }
        } else if n == 5 {
            Op::Sub { x, y }
        } else if n == 6 {
            Op::Shr { x }
        } else if n == 7 {
            Op::Subn { x, y }
        } else if n == 0xE {
            Op::Shl { x }
        } else {
            Op::Nop
        }
    } else if kind == 9 {
        if n == 0 {
            Op::SneReg { x, y }
        } else {
            Op::Nop
        }
    } else if kind == 0xA {
        Op::Ldi { addr }
    } else if kind == 0xB {
        Op::Jpv0 { addr }
    } else if kind == 0xC {
        Op::Rnd { x, byte: lo }
    } else if kind == 0xD {
        Op::Drw { x, y, n }
    } else if kind == 0xE {
        if lo == 0x9E {
            Op::Skp { x }
        } else if lo == 0xA1 {
            Op::Sknp { x }
        } else {
            Op::Nop
        }
    } else {
        if lo == 0x07 {
            Op::LdVDt { x }
        } else if lo == 0x0A {
            Op::Ldk { x }
        } else if lo == 0x15 {
            Op::LdDt { x }
        } else if lo == 0x18 {
            Op::LdSt { x }
        } else if lo == 0x1E {
            Op::AddI { x }
        } else if lo == 0x29 {
            Op::Ldf { x }
        } else if lo == 0x33 {
            Op::Ldb { x }
        } else if lo == 0x55 {
            Op::Ldtm { x }
        } else if lo == 0x65 {
            Op::Ldfm { x }
        } else {
            Op::Nop
        }
    }
}

/// The instruction in the opcode register.
pub open spec fn current_op(s: CpuState) -> Op {
    decode(s.opcode[0], s.opcode[1])
}

/// Runs the instruction in the opcode register.
pub open spec fn execute(s: CpuState, r: u8) -> CpuState {
    apply(s, current_op(s), r)
}

/// Whether the instruction in the opcode register runs to its end.
pub open spec fn can_execute(s: CpuState) -> bool {
    can_apply(s, current_op(s))
}

/// Copies the instruction at the program counter into the opcode register.
pub open spec fn fetch(s: CpuState) -> CpuState {
    CpuState { opcode: seq![s.mem[s.pc as int], s.mem[s.pc + 1]], ..s }
}

/// One cycle: fetch, run, then move to the next instruction unless the
/// instruction set the program counter itself.
pub open spec fn step(s: CpuState, r: u8) -> CpuState {
    let e = execute(fetch(s), r);
    if e.no_pc_incr {
        CpuState { no_pc_incr: false, ..e }
    } else {
        CpuState { pc: (e.pc + 2) as u16, ..e }
    }
}

/// Whether a cycle runs to its end on `s`, whatever byte RND draws.
pub open spec fn can_step(s: CpuState) -> bool {
    &&& s.pc + 1 < 4096
    &&& can_execute(fetch(s))
    &&& (!execute(fetch(s), 0).no_pc_incr ==> execute(fetch(s), 0).pc + 2 <= u16::MAX)
}

/// The timers one tick later: each counts down and stops at zero.
pub open spec fn tick_timers(s: CpuState) -> CpuState {
    CpuState {
        delay: if s.delay > 0 {
            (s.delay - 1) as u8
        } else {
            0
        },
        sound: if s.sound > 0 {
            (s.sound - 1) as u8
        } else {
            0
        },
        ..s
    }
}

/// The random byte that RND draws reaches only the register that RND writes:
/// for any other instruction the result is the same for every byte, and the
/// program counter and the flag that holds it back never depend on it.
pub proof fn lemma_execute_random_reaches_only_rnd(s: CpuState, r1: u8, r2: u8)
    ensures
        execute(s, r1).pc == execute(s, r2).pc,
        execute(s, r1).no_pc_incr == execute(s, r2).no_pc_incr,
        !(current_op(s) is Rnd) ==> execute(s, r1) == execute(s, r2),
{
}

/// No instruction reads the opcode register or writes it: running one on a
/// state with other opcode bytes gives the same result with those bytes.
pub proof fn lemma_apply_ignores_opcode(s: CpuState, opcode: Seq<u8>, op: Op, r: u8)
    ensures
        apply((CpuState { opcode, ..s }), op, r) == (CpuState { opcode, ..apply(s, op, r) }),
        can_apply((CpuState { opcode, ..s }), op) == can_apply(s, op),
{
    assert(apply((CpuState { opcode, ..s }), op, r) =~~= (CpuState { opcode, ..apply(s, op, r) }));
}

/// Tells the instruction that the bytes `hi`, `lo` encode.
pub fn decode_opcode(hi: u8, lo: u8) -> (op: Op)
    ensures
        op == decode(hi, lo),
{
    let x = (hi % 16) as usize;
    let y = (lo / 16) as usize;
    let n = lo % 16;
    let word: u16 = hi as u16 * 256 + lo as u16;
    let addr = word % 4096;
    let kind = hi / 16;
    if kind == 0 {
        if word == 0x00E0 {
            Op::Cls
        } else if word == 0x00EE {
            Op::Ret
        } else {
            Op::Nop
        }
    } else if kind == 1 {
        Op::Jp { addr }
    } else if kind == 2 {
        Op::Call { addr }
    } else if kind == 3 {
        Op::SeByte { x, byte: lo }
    } else if kind == 4 {
        Op::SneByte { x, byte: lo }
    } else if kind == 5 {
        if n == 0 {
            Op::SeReg { x, y }
        } else {
            Op::Nop
        }
    } else if kind == 6 {
        Op::LdByte { x, byte: lo }
    } else if kind == 7 {
        Op::AddByte { x, byte: lo }
    } else if kind == 8 {
        if n == 0 {
            Op::LdReg { x, y }
        } else if n == 1 {
            Op::Or { x, y }
        } else if n == 2 {
            Op::And { x, y }
        } else if n == 3 {
            Op::Xor { x, y }
        } else if n == 4 {
            Op::AddReg { x, y }
        } else if n == 5 {
            Op::Sub { x, y }
        } else if n == 6 {
            Op::Shr { x }
        } else if n == 7 {
            Op::Subn { x, y }
        } else if n == 0xE {
            Op::Shl { x }
        } else {
            Op::Nop
        }
    } else if kind == 9 {
        if n == 0 {
            Op::SneReg { x, y }
        } else {
            Op::Nop
        }
    } else if kind == 0xA {
        Op::Ldi { addr }
    } else if kind == 0xB {
        Op::Jpv0 { addr }
    } else if kind == 0xC {
        Op::Rnd { x, byte: lo }
    } else if kind == 0xD {
        Op::Drw { x, y, n }
    } else if kind == 0xE {
        if lo == 0x9E {
            Op::Skp { x }
        } else if lo == 0xA1 {
            Op::Sknp { x }
        } else {
            Op::Nop
        }
    } else {
        if lo == 0x07 {
            Op::LdVDt { x }
        } else if lo == 0x0A {
            Op::Ldk { x }
        } else if lo == 0x15 {
            Op::LdDt { x }
        } else if lo == 0x18 {
            Op::LdSt { x }
        } else if lo == 0x1E {
            Op::AddI { x }
        } else if lo == 0x29 {
            Op::Ldf { x }
        } else if lo == 0x33 {
            Op::Ldb { x }
        } else if lo == 0x55 {
            Op::Ldtm { x }
        } else if lo == 0x65 {
            Op::Ldfm { x }
        } else {
            Op::Nop
        }
    }
}

} // verus!
