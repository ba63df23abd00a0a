use chip8::cpu::{timers_due, Cpu};
use chip8::keypad::KeyPad;
use chip8::pc::PC;
use chip8::stack::StackData;
use chip8::state::{decode_opcode, Op, DEFAULT_FONT, FONT_START_MEM_LOCATION, PROGRAM_START};

/// A fresh machine with `program` loaded and the font installed.
fn machine_with(program: &[u8]) -> Cpu {
    let mut cpu = Cpu::new();
    cpu.load_rom(program.to_vec());
    cpu.init_mem();
    cpu
}

/// Runs `n` cycles, checking first that each can run.
fn run(cpu: &mut Cpu, n: usize) {
    for _ in 0..n {
        assert!(cpu.can_tick());
        assert_eq!(cpu.tick(), Ok(()));
    }
}

fn lit(cpu: &Cpu, row: usize, col: usize) -> bool {
    cpu.display_mem.pixels[row][col]
}

#[test]
fn pc_moves_by_two_bytes_per_instruction() {
    let mut pc = PC { c: 0x200 };
    pc.incr();
    assert_eq!(pc.get_cur(), 0x202);
    pc.incr_n(3);
    assert_eq!(pc.get_cur(), 0x208);
    pc.set_as(0x345);
    assert_eq!(pc.get_cur(), 0x345);
}

#[test]
fn stack_push_then_pop_gives_back_the_value() {
    let mut st = StackData { data: [0; 16], pointer: 0 };
    assert_eq!(st.push(0x222), Ok(1));
    assert_eq!(st.push(0x333), Ok(2));
    assert_eq!(st.data[1], 0x222);
    assert_eq!(st.pop(), 0x333);
    assert_eq!(st.pointer, 1);
    assert_eq!(st.pop(), 0x222);
    assert_eq!(st.pointer, 0);
    // At the bottom the pointer stays put and slot 0 is read.
    assert_eq!(st.pop(), 0);
    assert_eq!(st.pointer, 0);
}

#[test]
fn stack_refuses_push_at_pointer_254() {
    let mut st = StackData { data: [7; 16], pointer: 254 };
    assert_eq!(st.push(1), Err(254));
    assert_eq!(st.pointer, 254);
    assert_eq!(st.data, [7; 16]);
}

#[test]
fn new_machine_starts_at_program_start() {
    let cpu = Cpu::new();
    assert_eq!(cpu.pc.c, 0x200);
    assert_eq!(PROGRAM_START, 0x200);
    assert_eq!(cpu.stack.pointer, 0);
    assert!(cpu.gpreg.v.iter().all(|b| *b == 0));
    assert!(cpu.mem.data.iter().all(|b| *b == 0));
    assert!(!cpu.no_pc_incr);
}

#[test]
fn load_rom_and_init_mem_fill_memory() {
    let cpu = machine_with(&[0xA2, 0x2A, 0x60, 0x0C]);
    assert_eq!(&cpu.mem.data[0x200..0x204], &[0xA2, 0x2A, 0x60, 0x0C]);
    assert_eq!(cpu.mem.data[0x204], 0);
    assert_eq!(cpu.mem.data[0x1FF], 0);
    assert_eq!(&cpu.mem.data[0x50..0xA0], &DEFAULT_FONT[..]);
    assert_eq!(&cpu.mem.data[0x50..0x55], &[0xF0, 0x90, 0x90, 0x90, 0xF0]);
    assert_eq!(cpu.mem.data[0x4F], 0);
    assert_eq!(cpu.mem.data[0xA0], 0);
}

#[test]
fn read_opcode_takes_two_bytes_at_pc() {
    let mut cpu = machine_with(&[0x12, 0x34]);
    cpu.read_opcode();
    assert_eq!(cpu.opcode, [0x12, 0x34]);
}

#[test]
fn jump_sets_pc_without_moving_on() {
    let mut cpu = machine_with(&[0x12, 0x34]);
    run(&mut cpu, 1);
    assert_eq!(cpu.pc.c, 0x234);
    assert!(!cpu.no_pc_incr);
}

#[test]
fn call_and_return_resume_after_the_call() {
    // 0x200: CALL 0x206; 0x202: LD V0, 1; 0x204: JP 0x204; 0x206: RET
    let mut cpu = machine_with(&[0x22, 0x06, 0x60, 0x01, 0x12, 0x04, 0x00, 0xEE]);
    run(&mut cpu, 1);
    assert_eq!(cpu.pc.c, 0x206);
    assert_eq!(cpu.stack.pointer, 1);
    assert_eq!(cpu.stack.data[1], 0x200);
    run(&mut cpu, 1);
    assert_eq!(cpu.pc.c, 0x202);
    assert_eq!(cpu.stack.pointer, 0);
    run(&mut cpu, 1);
    assert_eq!(cpu.gpreg.v[0], 1);
    assert_eq!(cpu.pc.c, 0x204);
}

#[test]
fn skips_on_equal_and_not_equal() {
    // LD V1, 5; SE V1, 5 (skips); LD V2, 9 (skipped); SNE V1, 5 (no skip); LD V3, 7
    let mut cpu = machine_with(&[0x61, 0x05, 0x31, 0x05, 0x62, 0x09, 0x41, 0x05, 0x63, 0x07]);
    run(&mut cpu, 2);
    assert_eq!(cpu.pc.c, 0x206);
    run(&mut cpu, 2);
    assert_eq!(cpu.gpreg.v[2], 0);
    assert_eq!(cpu.gpreg.v[3], 7);
    assert_eq!(cpu.pc.c, 0x20A);
}

#[test]
fn register_skips_compare_two_registers() {
    // LD V1, 4; LD V2, 4; SE V1, V2 (skip); LD V5, 1; SNE V1, V2 (no skip); 9 with n != 0 is unknown
    let mut cpu = machine_with(&[0x61, 0x04, 0x62, 0x04, 0x51, 0x20, 0x65, 0x01, 0x91, 0x20]);
    run(&mut cpu, 3);
    assert_eq!(cpu.pc.c, 0x208);
    run(&mut cpu, 1);
    assert_eq!(cpu.pc.c, 0x20A);
    assert_eq!(cpu.gpreg.v[5], 0);
}

#[test]
fn add_byte_wraps_and_leaves_vf() {
    let mut cpu = machine_with(&[0x6A, 0xFF, 0x7A, 0x02]);
    run(&mut cpu, 2);
    assert_eq!(cpu.gpreg.v[0xA], 1);
    assert_eq!(cpu.gpreg.v[0xF], 0);
}

#[test]
fn logic_and_add_registers() {
    let mut cpu = Cpu::new();
    cpu.inst_ld_byte(1, 0b1100);
    cpu.inst_ld_byte(2, 0b1010);
    cpu.inst_ld_reg(3, 1);
    cpu.inst_or(3, 2);
    assert_eq!(cpu.gpreg.v[3], 0b1110);
    cpu.inst_ld_reg(3, 1);
    cpu.inst_and(3, 2);
    assert_eq!(cpu.gpreg.v[3], 0b1000);
    cpu.inst_ld_reg(3, 1);
    cpu.inst_xor(3, 2);
    assert_eq!(cpu.gpreg.v[3], 0b0110);
    cpu.inst_ld_byte(4, 250);
    cpu.inst_ld_byte(5, 10);
    cpu.inst_add_reg(4, 5);
    assert_eq!(cpu.gpreg.v[4], 4);
    assert_eq!(cpu.gpreg.v[0xF], 0);
}

#[test]
fn xor_twice_gives_the_register_back() {
    let mut cpu = Cpu::new();
    cpu.inst_ld_byte(1, 0x5A);
    cpu.inst_ld_byte(2, 0xC3);
    cpu.inst_xor(1, 2);
    cpu.inst_xor(1, 2);
    assert_eq!(cpu.gpreg.v[1], 0x5A);
}

#[test]
fn sub_sets_vf_to_one_and_wraps() {
    // LD V1, 3; LD V2, 5; SUB V1, V2
    let mut cpu = machine_with(&[0x61, 0x03, 0x62, 0x05, 0x81, 0x25]);
    run(&mut cpu, 3);
    assert_eq!(cpu.gpreg.v[1], 254);
    assert_eq!(cpu.gpreg.v[0xF], 1);
}

#[test]
fn sub_into_vf_uses_the_flag_just_written() {
    let mut cpu = Cpu::new();
    cpu.inst_ld_byte(2, 3);
    cpu.inst_sub(0xF, 2);
    // VF := 1 first, then VF := 1 - 3 modulo 256.
    assert_eq!(cpu.gpreg.v[0xF], 254);
}

#[test]
fn subn_takes_vx_from_vy() {
    // LD V1, 3; LD V2, 5; SUBN V1, V2
    let mut cpu = machine_with(&[0x61, 0x03, 0x62, 0x05, 0x81, 0x27]);
    run(&mut cpu, 3);
    assert_eq!(cpu.gpreg.v[1], 2);
    assert_eq!(cpu.gpreg.v[0xF], 1);
}

#[test]
fn subn_below_zero_cannot_run() {
    // LD V1, 5; LD V2, 3; SUBN V1, V2 would go below zero
    let mut cpu = machine_with(&[0x61, 0x05, 0x62, 0x03, 0x81, 0x27]);
    run(&mut cpu, 2);
    assert!(!cpu.can_tick());
}

#[test]
fn shifts_keep_the_dropped_bit_in_vf() {
    let mut cpu = Cpu::new();
    cpu.inst_ld_byte(1, 5);
    cpu.inst_shr(1);
    assert_eq!(cpu.gpreg.v[1], 2);
    assert_eq!(cpu.gpreg.v[0xF], 1);
    cpu.inst_ld_byte(1, 0x81);
    cpu.inst_shl(1);
    assert_eq!(cpu.gpreg.v[1], 0x02);
    assert_eq!(cpu.gpreg.v[0xF], 0x80);
    cpu.inst_ld_byte(1, 0x40);
    cpu.inst_shl(1);
    assert_eq!(cpu.gpreg.v[1], 0x80);
    assert_eq!(cpu.gpreg.v[0xF], 0);
}

#[test]
fn shift_opcodes_through_dispatch() {
    // LD V3, 9; SHR V3; LD V4, 0xC0; SHL V4
    let mut cpu = machine_with(&[0x63, 0x09, 0x83, 0x06, 0x64, 0xC0, 0x84, 0x0E]);
    run(&mut cpu, 2);
    assert_eq!(cpu.gpreg.v[3], 4);
    assert_eq!(cpu.gpreg.v[0xF], 1);
    run(&mut cpu, 2);
    assert_eq!(cpu.gpreg.v[4], 0x80);
    assert_eq!(cpu.gpreg.v[0xF], 0x80);
}

#[test]
fn ldi_and_jump_plus_v0() {
    // LD I, 0x345; LD V0, 4; JP V0, 0x300
    let mut cpu = machine_with(&[0xA3, 0x45, 0x60, 0x04, 0xB3, 0x00]);
    run(&mut cpu, 2);
    assert_eq!(cpu.gpreg.i, 0x345);
    run(&mut cpu, 1);
    // The jump does not hold the counter back: the cycle moves on after it.
    assert_eq!(cpu.pc.c, 0x306);
}

#[test]
fn random_byte_is_masked() {
    let mut cpu = machine_with(&[0xC0, 0x0F]);
    run(&mut cpu, 1);
    assert_eq!(cpu.gpreg.v[0] & 0xF0, 0);
    assert_eq!(cpu.pc.c, 0x202);
    let mut cpu = Cpu::new();
    cpu.inst_rnd_from(7, 0x0F, 0xAB);
    assert_eq!(cpu.gpreg.v[7], 0x0B);
    cpu.inst_rnd(8, 0);
    assert_eq!(cpu.gpreg.v[8], 0);
}

#[test]
fn draw_glyph_then_draw_again_clears_it() {
    // LD I, 0x50 (glyph 0); DRW V0, V1, 5; DRW V0, V1, 5
    let mut cpu = machine_with(&[0xA0, 0x50, 0xD0, 0x15, 0xD0, 0x15]);
    run(&mut cpu, 2);
    assert!(lit(&cpu, 0, 0) && lit(&cpu, 0, 1) && lit(&cpu, 0, 2) && lit(&cpu, 0, 3));
    assert!(!lit(&cpu, 0, 4));
    assert!(lit(&cpu, 1, 0) && !lit(&cpu, 1, 1) && !lit(&cpu, 1, 2) && lit(&cpu, 1, 3));
    assert!(lit(&cpu, 4, 0));
    assert!(!lit(&cpu, 5, 0));
    assert_eq!(cpu.gpreg.v[0xF], 0);
    run(&mut cpu, 1);
    assert!(cpu.display_mem.pixels.iter().all(|row| row.iter().all(|p| !*p)));
    assert_eq!(cpu.gpreg.v[0xF], 1);
}

#[test]
fn draw_wraps_around_the_edges() {
    let mut cpu = Cpu::new();
    cpu.mem.data[0x300] = 0xFF;
    cpu.mem.data[0x301] = 0x81;
    cpu.inst_ldi(0x300);
    cpu.inst_ld_byte(0, 60);
    cpu.inst_ld_byte(1, 31);
    cpu.inst_drw(0, 1, 2);
    for c in [60, 61, 62, 63, 0, 1, 2, 3] {
        assert!(lit(&cpu, 31, c));
    }
    assert!(!lit(&cpu, 31, 4) && !lit(&cpu, 31, 59));
    assert!(lit(&cpu, 0, 60) && lit(&cpu, 0, 3));
    assert!(!lit(&cpu, 0, 61) && !lit(&cpu, 0, 0));
    assert_eq!(cpu.gpreg.v[0xF], 0);
}

#[test]
fn draw_reports_a_collision_only_where_pixels_go_dark() {
    let mut cpu = Cpu::new();
    cpu.mem.data[0x300] = 0b1000_0000;
    cpu.mem.data[0x301] = 0b0100_0000;
    cpu.inst_ldi(0x300);
    cpu.inst_drw(0, 1, 1);
    assert_eq!(cpu.gpreg.v[0xF], 0);
    cpu.inst_ldi(0x301);
    cpu.inst_drw(0, 1, 1);
    assert_eq!(cpu.gpreg.v[0xF], 0);
    assert!(lit(&cpu, 0, 0) && lit(&cpu, 0, 1));
    cpu.inst_drw(0, 1, 1);
    assert_eq!(cpu.gpreg.v[0xF], 1);
    assert!(lit(&cpu, 0, 0) && !lit(&cpu, 0, 1));
}

#[test]
fn draw_with_zero_rows_only_clears_vf() {
    let mut cpu = Cpu::new();
    cpu.inst_ld_byte(0xF, 9);
    cpu.inst_drw(0, 1, 0);
    assert_eq!(cpu.gpreg.v[0xF], 0);
    assert!(cpu.display_mem.pixels.iter().all(|row| row.iter().all(|p| !*p)));
}

#[test]
fn clear_screen_darkens_everything() {
    // LD I, 0x50; DRW V0, V1, 5; CLS
    let mut cpu = machine_with(&[0xA0, 0x50, 0xD0, 0x15, 0x00, 0xE0]);
    run(&mut cpu, 2);
    assert!(lit(&cpu, 0, 0));
    run(&mut cpu, 1);
    assert!(cpu.display_mem.pixels.iter().all(|row| row.iter().all(|p| !*p)));
}

#[test]
fn key_skips_follow_the_keypad() {
    // LD V1, 0xA; SKP V1; SKNP V1
    let mut cpu = machine_with(&[0x61, 0x0A, 0xE1, 0x9E, 0xE1, 0xA1, 0x00, 0x00]);
    run(&mut cpu, 1);
    cpu.push_keys(KeyPad { keys: 1 << 0xA });
    run(&mut cpu, 1);
    assert_eq!(cpu.pc.c, 0x206);
    let mut cpu = machine_with(&[0x61, 0x0A, 0xE1, 0x9E, 0xE1, 0xA1, 0x00, 0x00, 0x00, 0x00]);
    run(&mut cpu, 2);
    assert_eq!(cpu.pc.c, 0x204);
    run(&mut cpu, 1);
    assert_eq!(cpu.pc.c, 0x208);
}

#[test]
fn key_skip_with_register_past_fifteen_cannot_run() {
    let mut cpu = machine_with(&[0x61, 0x10, 0xE1, 0x9E]);
    run(&mut cpu, 1);
    assert!(!cpu.can_tick());
}

#[test]
fn timers_load_read_and_count_down() {
    // LD V2, 2; LD DT, V2; LD ST, V2; LD V3, DT
    let mut cpu = machine_with(&[0x62, 0x02, 0xF2, 0x15, 0xF2, 0x18, 0xF3, 0x07]);
    run(&mut cpu, 4);
    assert_eq!(cpu.spreg.d, 2);
    assert_eq!(cpu.spreg.s, 2);
    assert_eq!(cpu.gpreg.v[3], 2);
    cpu.decr_timers();
    assert_eq!((cpu.spreg.d, cpu.spreg.s), (1, 1));
    cpu.decr_timers();
    cpu.decr_timers();
    assert_eq!((cpu.spreg.d, cpu.spreg.s), (0, 0));
}

#[test]
fn key_wait_repeats_until_a_key_is_held() {
    // LD V5, K
    let mut cpu = machine_with(&[0xF5, 0x0A]);
    run(&mut cpu, 3);
    assert_eq!(cpu.pc.c, 0x200);
    cpu.push_keys(KeyPad { keys: 0b1000_0000_0000_1000 });
    run(&mut cpu, 1);
    assert_eq!(cpu.gpreg.v[5], 3);
    assert_eq!(cpu.pc.c, 0x202);
}

#[test]
fn key_wait_on_change_remembers_then_takes_the_new_key() {
    let mut cpu = Cpu::new();
    cpu.push_keys(KeyPad { keys: 1 << 4 });
    cpu.inst_ldk_diff(2);
    assert_eq!(cpu.kpad_old.keys, 1 << 4);
    assert!(cpu.no_pc_incr);
    cpu.inst_ldk_diff(2);
    assert!(cpu.no_pc_incr);
    assert_eq!(cpu.gpreg.v[2], 0);
    cpu.push_keys(KeyPad { keys: (1 << 4) | (1 << 9) });
    cpu.inst_ldk_diff(2);
    assert_eq!(cpu.gpreg.v[2], 4);
    assert!(!cpu.no_pc_incr);
    assert_eq!(cpu.kpad_old.keys, 0);
}

#[test]
fn add_to_i_and_font_address() {
    let mut cpu = Cpu::new();
    cpu.inst_ldi(0x100);
    cpu.inst_ld_byte(3, 0x20);
    cpu.inst_addi(3);
    assert_eq!(cpu.gpreg.i, 0x120);
    // The glyph chosen is that of the register index, not of its value.
    cpu.inst_ldf(3);
    assert_eq!(cpu.gpreg.i, FONT_START_MEM_LOCATION + 15);
}

#[test]
fn bcd_writes_three_digits() {
    // LD V7, 254; LD I, 0x300; LD B, V7
    let mut cpu = machine_with(&[0x67, 0xFE, 0xA3, 0x00, 0xF7, 0x33]);
    run(&mut cpu, 3);
    assert_eq!(&cpu.mem.data[0x300..0x303], &[2, 5, 4]);
    let mut cpu = Cpu::new();
    cpu.inst_ld_byte(0, 7);
    cpu.inst_ldi(0x400);
    cpu.inst_ldb(0);
    assert_eq!(&cpu.mem.data[0x400..0x403], &[0, 0, 7]);
}

#[test]
fn store_and_load_registers() {
    let mut cpu = Cpu::new();
    for r in 0..16 {
        cpu.inst_ld_byte(r, (r as u8) * 3 + 1);
    }
    cpu.inst_ldi(0x300);
    cpu.inst_ldtm(3);
    assert_eq!(&cpu.mem.data[0x300..0x305], &[1, 4, 7, 10, 0]);
    for r in 0..16 {
        cpu.inst_ld_byte(r, 0);
    }
    cpu.inst_ldfm(2);
    assert_eq!(&cpu.gpreg.v[0..4], &[1, 4, 7, 0]);
}

#[test]
fn store_then_load_opcodes_round_trip() {
    // LD V0, 9; LD V1, 8; LD I, 0x300; LD [I], V1; LD V0, 0; LD V1, 0; LD V1, [I]
    let mut cpu = machine_with(&[
        0x60, 0x09, 0x61, 0x08, 0xA3, 0x00, 0xF1, 0x55, 0x60, 0x00, 0x61, 0x00, 0xF1, 0x65,
    ]);
    run(&mut cpu, 7);
    assert_eq!(cpu.gpreg.v[0], 9);
    assert_eq!(cpu.gpreg.v[1], 8);
}

#[test]
fn unknown_opcode_only_moves_on() {
    let mut cpu = machine_with(&[0xFF, 0xFF, 0x80, 0x08, 0x01, 0x23]);
    let regs = cpu.gpreg.v;
    run(&mut cpu, 3);
    assert_eq!(cpu.pc.c, 0x206);
    assert_eq!(cpu.gpreg.v, regs);
}

#[test]
fn cycle_at_end_of_memory_cannot_run() {
    let mut cpu = Cpu::new();
    cpu.pc.set_as(4095);
    assert!(!cpu.can_tick());
    cpu.pc.set_as(4094);
    assert!(cpu.can_tick());
}

#[test]
fn return_with_empty_stack_reads_slot_zero() {
    let mut cpu = machine_with(&[0x00, 0xEE]);
    cpu.stack.data[0] = 0x250;
    run(&mut cpu, 1);
    assert_eq!(cpu.pc.c, 0x252);
    assert_eq!(cpu.stack.pointer, 0);
}

#[test]
fn call_with_full_stack_cannot_run() {
    let mut cpu = machine_with(&[0x22, 0x00]);
    cpu.stack.pointer = 15;
    assert!(!cpu.can_tick());
    cpu.stack.pointer = 14;
    assert!(cpu.can_tick());
}

#[test]
fn call_refused_at_pointer_254_still_holds_the_counter() {
    let mut cpu = machine_with(&[0x23, 0x00]);
    cpu.stack.pointer = 254;
    assert!(cpu.can_tick());
    assert_eq!(cpu.tick(), Err(254));
    assert_eq!(cpu.pc.c, 0x200);
    assert_eq!(cpu.stack.pointer, 254);
}

#[test]
fn decode_tells_instructions_apart() {
    assert!(matches!(decode_opcode(0x00, 0xE0), Op::Cls));
    assert!(matches!(decode_opcode(0x00, 0xEE), Op::Ret));
    assert!(matches!(decode_opcode(0x00, 0xE1), Op::Nop));
    assert!(matches!(decode_opcode(0x1A, 0xBC), Op::Jp { addr: 0xABC }));
    assert!(matches!(decode_opcode(0x8A, 0xB4), Op::AddReg { x: 10, y: 11 }));
    assert!(matches!(decode_opcode(0x8A, 0xB8), Op::Nop));
    assert!(matches!(decode_opcode(0xD1, 0x2F), Op::Drw { x: 1, y: 2, n: 15 }));
    assert!(matches!(decode_opcode(0xF3, 0x33), Op::Ldb { x: 3 }));
    assert!(matches!(decode_opcode(0xE3, 0x9F), Op::Nop));
}

#[test]
fn can_run_checks_bounds() {
    let mut cpu = Cpu::new();
    assert!(cpu.can_run(&Op::Ldtm { x: 15 }));
    cpu.inst_ldi(0xFF8);
    assert!(!cpu.can_run(&Op::Ldtm { x: 15 }));
    assert!(!cpu.can_run(&Op::Ldb { x: 0 }) || 0xFF8 + 2 < 4096);
    assert!(!cpu.can_run(&Op::Drw { x: 0, y: 0, n: 9 }));
    assert!(cpu.can_run(&Op::Drw { x: 0, y: 0, n: 8 }));
    assert!(!cpu.can_run(&Op::LdByte { x: 16, byte: 0 }));
}

#[test]
fn font_glyph_address_points_at_the_glyph() {
    let mut cpu = machine_with(&[]);
    for x in 0..16usize {
        cpu.inst_ldf(x);
        let i = cpu.gpreg.i as usize;
        assert_eq!(&cpu.mem.data[i..i + 5], &DEFAULT_FONT[5 * x..5 * x + 5]);
    }
}

#[test]
fn draw_sprite_of_32_rows_covers_every_row_once() {
    let mut cpu = Cpu::new();
    for k in 0..32 {
        cpu.mem.data[0x300 + k] = 0x80;
    }
    cpu.inst_ldi(0x300);
    cpu.inst_ld_byte(1, 5);
    cpu.inst_drw(0, 1, 32);
    for r in 0..32 {
        assert!(lit(&cpu, r, 0));
        assert!(!lit(&cpu, r, 1));
    }
    assert_eq!(cpu.gpreg.v[0xF], 0);
}

#[test]
fn call_reports_what_the_stack_answered() {
    let mut cpu = Cpu::new();
    assert_eq!(cpu.inst_call(0x300), Ok(1));
    assert_eq!(cpu.pc.c, 0x300);
    cpu.stack.pointer = 254;
    assert_eq!(cpu.inst_call(0x400), Err(254));
    assert_eq!(cpu.pc.c, 0x300);
    assert!(cpu.no_pc_incr);
}

#[test]
fn key_wait_with_no_key_ignores_the_register_index() {
    let mut cpu = Cpu::new();
    cpu.inst_ldk(16);
    assert!(cpu.no_pc_incr);
    assert_eq!(cpu.gpreg.v, [0; 16]);
}

#[test]
fn key_change_wait_ignores_the_register_index_while_waiting() {
    let mut cpu = Cpu::new();
    cpu.push_keys(KeyPad { keys: 1 << 2 });
    cpu.inst_ldk_diff(16);
    assert_eq!(cpu.kpad_old.keys, 1 << 2);
    assert!(cpu.no_pc_incr);
    cpu.no_pc_incr = false;
    cpu.inst_ldk_diff(16);
    assert!(cpu.no_pc_incr);
    assert_eq!(cpu.kpad_old.keys, 1 << 2);
    // Keys released: nothing to take, the wait ends and forgets the keys.
    cpu.push_keys(KeyPad { keys: 0 });
    cpu.inst_ldk_diff(16);
    assert!(!cpu.no_pc_incr);
    assert_eq!(cpu.kpad_old.keys, 0);
    assert_eq!(cpu.gpreg.v, [0; 16]);
}

#[test]
fn draw_taller_than_the_screen_comes_round_again() {
    let mut cpu = Cpu::new();
    cpu.mem.data[0x300] = 0x80;
    cpu.mem.data[0x300 + 32] = 0xC0;
    cpu.inst_ldi(0x300);
    cpu.inst_drw(0, 1, 33);
    // Row 0 gets 0x80 and then 0xC0: the first pixel goes dark again.
    assert!(!lit(&cpu, 0, 0));
    assert!(lit(&cpu, 0, 1));
    assert_eq!(cpu.gpreg.v[0xF], 1);
    let mut cpu = Cpu::new();
    cpu.mem.data[0x300 + 32] = 0x01;
    cpu.inst_ldi(0x300);
    cpu.inst_drw(0, 1, 33);
    assert!(lit(&cpu, 0, 7));
    assert_eq!(cpu.gpreg.v[0xF], 0);
}

#[test]
fn timers_are_due_after_hz_over_60_cycles() {
    assert!(!timers_due(8, 500));
    assert!(timers_due(9, 500));
    assert!(!timers_due(0, 0));
    assert!(timers_due(1, 0));
}
