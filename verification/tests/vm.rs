use chip8::cpu::CPU;
use chip8::decode::{decode, Instr};
use chip8::{Flow, VmError};

#[test]
fn add() {
    let mut cpu = CPU::new();
    cpu.load_program(&[0x80, 0x14]).unwrap();
    cpu.regs[0] = 5;
    cpu.regs[1] = 10;

    assert_eq!(cpu.run(16), Ok(Flow::Halted));

    assert_eq!(cpu.regs[0], 15);
}

#[test]
fn sub() {
    let mut cpu = CPU::new();
    cpu.load_program(&[0x80, 0x15]).unwrap();
    cpu.regs[0] = 15;
    cpu.regs[1] = 8;

    assert_eq!(cpu.run(16), Ok(Flow::Halted));

    assert_eq!(cpu.regs[0], 7);
}

#[test]
fn add_to_halt_leaves_carry_clear() {
    let mut cpu = CPU::new();
    cpu.load_program(&[0x80, 0x14]).unwrap();
    cpu.regs[0] = 5;
    cpu.regs[1] = 10;
    assert_eq!(cpu.run(16), Ok(Flow::Halted));
    assert_eq!(cpu.regs[0], 15);
    assert_eq!(cpu.regs[15], 0);
}

#[test]
fn sub_to_halt_sets_no_borrow_flag() {
    let mut cpu = CPU::new();
    cpu.load_program(&[0x80, 0x15]).unwrap();
    cpu.regs[0] = 15;
    cpu.regs[1] = 8;
    assert_eq!(cpu.run(16), Ok(Flow::Halted));
    assert_eq!(cpu.regs[0], 7);
    assert_eq!(cpu.regs[15], 1);
}

#[test]
fn add_wraps_and_sets_carry() {
    let mut cpu = CPU::new();
    cpu.regs[2] = 200;
    cpu.regs[3] = 100;
    cpu.add_xy(2, 3);
    assert_eq!(cpu.regs[2], 44);
    assert_eq!(cpu.regs[15], 1);
}

#[test]
fn sub_wraps_and_clears_flag_on_borrow() {
    let mut cpu = CPU::new();
    cpu.regs[2] = 8;
    cpu.regs[3] = 15;
    cpu.sub_xy(2, 3);
    assert_eq!(cpu.regs[2], 249);
    assert_eq!(cpu.regs[15], 0);
}

#[test]
fn subn_sets_flag_on_borrow() {
    let mut cpu = CPU::new();
    cpu.regs[2] = 8;
    cpu.regs[3] = 15;
    cpu.subn_xy(2, 3);
    assert_eq!(cpu.regs[2], 249);
    assert_eq!(cpu.regs[15], 1);
}

#[test]
fn shr_flag_is_pre_shift_low_bit() {
    let mut cpu = CPU::new();
    cpu.regs[4] = 0x81;
    cpu.shr_x(4);
    assert_eq!(cpu.regs[4], 0x40);
    assert_eq!(cpu.regs[15], 1);
    cpu.regs[5] = 0x40;
    cpu.shr_x(5);
    assert_eq!(cpu.regs[5], 0x20);
    assert_eq!(cpu.regs[15], 0);
}

#[test]
fn shl_flag_is_pre_shift_high_bit() {
    let mut cpu = CPU::new();
    cpu.regs[4] = 0x81;
    cpu.shl_x(4);
    assert_eq!(cpu.regs[4], 0x02);
    assert_eq!(cpu.regs[15], 1);
    cpu.regs[5] = 0x01;
    cpu.shl_x(5);
    assert_eq!(cpu.regs[5], 0x02);
    assert_eq!(cpu.regs[15], 0);
}

#[test]
fn add_immediate_wraps_without_flag() {
    let mut cpu = CPU::new();
    cpu.regs[1] = 250;
    cpu.regs[15] = 9;
    cpu.add_x(1, 10);
    assert_eq!(cpu.regs[1], 4);
    assert_eq!(cpu.regs[15], 9);
}

#[test]
fn draw_twice_clears_and_reports_collision() {
    let mut cpu = CPU::new();
    cpu.memory[0x300] = 0xFF;
    cpu.memory[0x301] = 0x81;
    cpu.index = 0x300;
    cpu.regs[0] = 10;
    cpu.regs[1] = 5;
    cpu.drw_xyn(0, 1, 2).unwrap();
    assert_eq!(cpu.regs[15], 0);
    assert!(cpu.display[5 * 64 + 10]);
    assert!(cpu.display[6 * 64 + 10]);
    assert!(!cpu.display[6 * 64 + 11]);
    cpu.drw_xyn(0, 1, 2).unwrap();
    assert_eq!(cpu.regs[15], 1);
    for p in 0..2048 {
        assert!(!cpu.display[p]);
    }
}

#[test]
fn draw_wraps_around_the_right_edge() {
    let mut cpu = CPU::new();
    cpu.memory[0x300] = 0xFF;
    cpu.index = 0x300;
    cpu.regs[0] = 63;
    cpu.regs[1] = 0;
    cpu.drw_xyn(0, 1, 1).unwrap();
    assert!(cpu.display[63]);
    for c in 0..7 {
        assert!(cpu.display[c]);
    }
    assert!(!cpu.display[7]);
}

#[test]
fn draw_past_memory_is_out_of_bounds() {
    let mut cpu = CPU::new();
    cpu.index = 4090;
    assert_eq!(cpu.drw_xyn(0, 1, 15), Err(VmError::OutOfBoundsAccess));
}

#[test]
fn call_then_ret_restores_pc() {
    let mut cpu = CPU::new();
    cpu.pc = 0x250;
    cpu.call(0x300).unwrap();
    assert_eq!(cpu.pc, 0x300);
    cpu.ret().unwrap();
    assert_eq!(cpu.pc, 0x250);
}

#[test]
fn seventeenth_nested_call_overflows() {
    let mut cpu = CPU::new();
    for _ in 0..16 {
        cpu.call(0x300).unwrap();
    }
    assert_eq!(cpu.call(0x300), Err(VmError::StackOverflow));
}

#[test]
fn ret_without_call_underflows() {
    let mut cpu = CPU::new();
    assert_eq!(cpu.ret(), Err(VmError::StackUnderflow));
}

#[test]
fn unknown_word_is_unimplemented() {
    let mut cpu = CPU::new();
    cpu.load_program(&[0xE0, 0x00]).unwrap();
    assert_eq!(cpu.step(), Err(VmError::UnimplementedOpcode));
}

#[test]
fn fetch_past_memory_is_out_of_bounds() {
    let mut cpu = CPU::new();
    cpu.jmp(4095);
    assert_eq!(cpu.step(), Err(VmError::OutOfBoundsAccess));
}

#[test]
fn oversize_program_is_rejected() {
    let mut cpu = CPU::new();
    let image = vec![0u8; 3585];
    assert_eq!(cpu.load_program(&image), Err(VmError::ProgramTooLarge));
    let image = vec![0xAAu8; 3584];
    assert_eq!(cpu.load_program(&image), Ok(()));
    assert_eq!(cpu.memory[0x200], 0xAA);
    assert_eq!(cpu.memory[0xFFF], 0xAA);
}

#[test]
fn bcd_stores_decimal_digits() {
    let mut cpu = CPU::new();
    cpu.regs[2] = 173;
    cpu.index = 0x400;
    cpu.ld_bcd(2).unwrap();
    assert_eq!(cpu.memory[0x400], 1);
    assert_eq!(cpu.memory[0x401], 7);
    assert_eq!(cpu.memory[0x402], 3);
}

#[test]
fn register_dump_and_load_are_inclusive() {
    let mut cpu = CPU::new();
    for i in 0..16 {
        cpu.regs[i] = (i as u8) + 1;
    }
    cpu.index = 0x500;
    cpu.ld_ix(3).unwrap();
    assert_eq!(cpu.memory[0x500], 1);
    assert_eq!(cpu.memory[0x503], 4);
    assert_eq!(cpu.memory[0x504], 0);
    let mut other = CPU::new();
    other.index = 0x500;
    other.memory = cpu.memory.clone();
    other.ld_xi(3).unwrap();
    assert_eq!(other.regs[0], 1);
    assert_eq!(other.regs[3], 4);
    assert_eq!(other.regs[4], 0);
}

#[test]
fn register_dump_past_memory_is_out_of_bounds() {
    let mut cpu = CPU::new();
    cpu.index = 4090;
    assert_eq!(cpu.ld_ix(9), Err(VmError::OutOfBoundsAccess));
    assert_eq!(cpu.ld_xi(9), Err(VmError::OutOfBoundsAccess));
}

#[test]
fn timers_tick_once_per_instruction_and_stop_at_zero() {
    let mut cpu = CPU::new();
    cpu.load_program(&[0x60, 0x05, 0x61, 0x0A, 0x62, 0x01]).unwrap();
    cpu.delay_timer = 2;
    cpu.sound_timer = 1;
    assert_eq!(cpu.step(), Ok(Flow::Running));
    assert_eq!(cpu.delay_timer, 1);
    assert_eq!(cpu.sound_timer, 0);
    assert_eq!(cpu.step(), Ok(Flow::Running));
    assert_eq!(cpu.delay_timer, 0);
    assert_eq!(cpu.sound_timer, 0);
    assert_eq!(cpu.step(), Ok(Flow::Running));
    assert_eq!(cpu.delay_timer, 0);
    assert_eq!(cpu.sound_timer, 0);
    assert_eq!(cpu.step(), Ok(Flow::Halted));
}

#[test]
fn delay_timer_round_trip() {
    let mut cpu = CPU::new();
    cpu.regs[3] = 42;
    cpu.ld_dtx(3);
    assert_eq!(cpu.delay_timer, 42);
    cpu.ld_xdt(7);
    assert_eq!(cpu.regs[7], 42);
    cpu.regs[4] = 9;
    cpu.ld_st(4);
    assert_eq!(cpu.sound_timer, 9);
}

#[test]
fn random_with_zero_mask_is_zero() {
    let mut cpu = CPU::new();
    cpu.regs[3] = 0xAB;
    cpu.rnd(3, 0x00);
    assert_eq!(cpu.regs[3], 0);
    cpu.rnd(3, 0x0F);
    assert_eq!(cpu.regs[3] & 0xF0, 0);
}

#[test]
fn skips_consult_the_key_named_by_the_register() {
    let mut cpu = CPU::new();
    cpu.regs[0] = 0x12;
    cpu.keyboard[2] = true;
    let pc = cpu.pc;
    cpu.skp_x(0);
    assert_eq!(cpu.pc, pc + 2);
    cpu.sknp_x(0);
    assert_eq!(cpu.pc, pc + 2);
    cpu.keyboard[2] = false;
    cpu.sknp_x(0);
    assert_eq!(cpu.pc, pc + 4);
}

#[test]
fn key_wait_stores_lowest_pressed_key() {
    let mut cpu = CPU::new();
    assert!(!cpu.ld_xk(0));
    assert_eq!(cpu.regs[0], 0);
    cpu.keyboard[7] = true;
    cpu.keyboard[9] = true;
    assert!(cpu.ld_xk(0));
    assert_eq!(cpu.regs[0], 7);
}

#[test]
fn key_wait_step_suspends_without_ticking() {
    let mut cpu = CPU::new();
    cpu.load_program(&[0xF1, 0x0A]).unwrap();
    cpu.delay_timer = 5;
    assert_eq!(cpu.step(), Ok(Flow::Running));
    assert_eq!(cpu.pc, 0x200);
    assert_eq!(cpu.delay_timer, 5);
    cpu.keyboard[4] = true;
    assert_eq!(cpu.step(), Ok(Flow::Running));
    assert_eq!(cpu.pc, 0x202);
    assert_eq!(cpu.regs[1], 4);
    assert_eq!(cpu.delay_timer, 4);
}

#[test]
fn conditional_skips_advance_past_one_instruction() {
    let mut cpu = CPU::new();
    cpu.load_program(&[0x30, 0x07, 0x30, 0x08]).unwrap();
    cpu.regs[0] = 7;
    assert_eq!(cpu.step(), Ok(Flow::Running));
    assert_eq!(cpu.pc, 0x204);
}

#[test]
fn jump_with_offset_adds_register_zero() {
    let mut cpu = CPU::new();
    cpu.load_program(&[0xB2, 0x10]).unwrap();
    cpu.regs[0] = 4;
    assert_eq!(cpu.step(), Ok(Flow::Running));
    assert_eq!(cpu.pc, 0x214);
}

#[test]
fn cls_clears_every_pixel() {
    let mut cpu = CPU::new();
    cpu.memory[0x300] = 0xFF;
    cpu.index = 0x300;
    cpu.drw_xyn(0, 1, 1).unwrap();
    assert!(cpu.display[0]);
    cpu.cls();
    for p in 0..2048 {
        assert!(!cpu.display[p]);
    }
}

#[test]
fn index_register_operations() {
    let mut cpu = CPU::new();
    cpu.ld_i(0x123);
    assert_eq!(cpu.index, 0x123);
    cpu.regs[2] = 0x10;
    cpu.add_ix(2);
    assert_eq!(cpu.index, 0x133);
    cpu.index = 0xFFFF;
    cpu.regs[2] = 2;
    cpu.add_ix(2);
    assert_eq!(cpu.index, 1);
    cpu.regs[5] = 0xC;
    cpu.ld_fx(5);
    assert_eq!(cpu.index, 0xC);
}

#[test]
fn decode_picks_the_documented_variants() {
    assert_eq!(decode(0x0000), Instr::Halt);
    assert_eq!(decode(0x00EE), Instr::Ret);
    assert_eq!(decode(0x00E0), Instr::Cls);
    assert_eq!(decode(0x1ABC), Instr::Jmp(0xABC));
    assert_eq!(decode(0x2ABC), Instr::Call(0xABC));
    assert_eq!(decode(0x3A12), Instr::SeByte(0xA, 0x12));
    assert_eq!(decode(0x8014), Instr::Add(0, 1));
    assert_eq!(decode(0x8015), Instr::Sub(0, 1));
    assert_eq!(decode(0x8106), Instr::Shr(1));
    assert_eq!(decode(0x810E), Instr::Shl(1));
    assert_eq!(decode(0xD125), Instr::Drw(1, 2, 5));
    assert_eq!(decode(0xF133), Instr::StoreBcd(1));
    assert_eq!(decode(0x5001), Instr::Unknown(0x5001));
    assert_eq!(decode(0xFFFF), Instr::Unknown(0xFFFF));
}

#[test]
fn run_returns_running_when_the_budget_ends() {
    let mut cpu = CPU::new();
    cpu.load_program(&[0x12, 0x00]).unwrap();
    assert_eq!(cpu.run(100), Ok(Flow::Running));
    assert_eq!(cpu.pc, 0x200);
}
