use chip8::machine::PROGRAM_START;
use chip8::{Cpu, CpuError, FaultKind, MemoryError};

fn machine(program: &[u8]) -> Cpu {
    let mut cpu = Cpu::new();
    cpu.load_program(program, PROGRAM_START).unwrap();
    cpu
}

fn run(cpu: &mut Cpu, cycles: usize) {
    for _ in 0..cycles {
        cpu.cycle().unwrap();
    }
}

fn lit(cpu: &Cpu) -> usize {
    cpu.display().iter().filter(|c| **c).count()
}

#[test]
fn new_machine_state() {
    let cpu = Cpu::new();
    assert_eq!(cpu.program_counter(), 0x200);
    assert_eq!(cpu.index(), 0);
    assert_eq!(cpu.stack_pointer(), 0);
    assert_eq!(cpu.registers(), &[0u8; 16]);
    assert_eq!(cpu.display().len(), 2048);
    assert_eq!(lit(&cpu), 0);
    let mem = cpu.memory().as_slice();
    assert_eq!(&mem[0..5], &[0xF0, 0x90, 0x90, 0x90, 0xF0]);
    assert_eq!(&mem[75..80], &[0xF0, 0x80, 0xF0, 0x80, 0x80]);
    assert!(mem[80..].iter().all(|b| *b == 0));
}

#[test]
fn add_registers_wraps_with_carry() {
    let mut cpu = machine(&[0x60, 250, 0x61, 10, 0x80, 0x14]);
    run(&mut cpu, 3);
    assert_eq!(cpu.registers()[0], 4);
    assert_eq!(cpu.registers()[0xF], 1);
}

#[test]
fn add_registers_without_carry_clears_flag() {
    let mut cpu = machine(&[0x6F, 9, 0x60, 20, 0x61, 10, 0x80, 0x14]);
    run(&mut cpu, 4);
    assert_eq!(cpu.registers()[0], 30);
    assert_eq!(cpu.registers()[0xF], 0);
}

#[test]
fn sub_borrow_wraps() {
    let mut cpu = machine(&[0x60, 1, 0x61, 2, 0x80, 0x15]);
    run(&mut cpu, 3);
    assert_eq!(cpu.registers()[0], 255);
    assert_eq!(cpu.registers()[0xF], 0);
}

#[test]
fn sub_without_borrow_sets_flag() {
    let mut cpu = machine(&[0x60, 5, 0x61, 3, 0x80, 0x15, 0x62, 7, 0x63, 7, 0x82, 0x35]);
    run(&mut cpu, 3);
    assert_eq!(cpu.registers()[0], 2);
    assert_eq!(cpu.registers()[0xF], 1);
    run(&mut cpu, 3);
    assert_eq!(cpu.registers()[2], 0);
    assert_eq!(cpu.registers()[0xF], 1);
}

#[test]
fn reverse_sub() {
    let mut cpu = machine(&[0x60, 5, 0x61, 3, 0x80, 0x17]);
    run(&mut cpu, 3);
    assert_eq!(cpu.registers()[0], 254);
    assert_eq!(cpu.registers()[0xF], 0);
}

#[test]
fn shifts_set_flag_from_source_bit() {
    let mut cpu = machine(&[0x61, 0x81, 0x80, 0x16, 0x82, 0x1E]);
    run(&mut cpu, 2);
    assert_eq!(cpu.registers()[0], 0x40);
    assert_eq!(cpu.registers()[0xF], 1);
    run(&mut cpu, 1);
    assert_eq!(cpu.registers()[2], 0x02);
    assert_eq!(cpu.registers()[0xF], 1);
}

#[test]
fn bitwise_and_copy() {
    let mut cpu = machine(&[
        0x60, 0x0C, 0x61, 0x0A, 0x82, 0x00, 0x82, 0x11, 0x83, 0x00, 0x83, 0x12, 0x84, 0x00,
        0x84, 0x13,
    ]);
    run(&mut cpu, 8);
    let r = cpu.registers();
    assert_eq!(r[2], 0x0E);
    assert_eq!(r[3], 0x08);
    assert_eq!(r[4], 0x06);
}

#[test]
fn add_immediate_wraps_without_flag() {
    let mut cpu = machine(&[0x60, 0xFF, 0x70, 0x02]);
    run(&mut cpu, 2);
    assert_eq!(cpu.registers()[0], 1);
    assert_eq!(cpu.registers()[0xF], 0);
}

#[test]
fn draw_twice_restores_display() {
    let mut cpu = machine(&[0xA0, 0x00, 0x60, 5, 0x61, 7, 0xD0, 0x15, 0xD0, 0x15]);
    run(&mut cpu, 4);
    assert_eq!(lit(&cpu), 14);
    assert_eq!(cpu.registers()[0xF], 0);
    assert!(cpu.pixel(5, 7));
    run(&mut cpu, 1);
    assert_eq!(lit(&cpu), 0);
    assert_eq!(cpu.registers()[0xF], 1);
}

#[test]
fn draw_wraps_around_screen_edges() {
    let mut cpu = machine(&[0xA3, 0x00, 0x60, 60, 0x61, 30, 0xD0, 0x18]);
    cpu.load_program(&[0xFF; 8], 0x300).unwrap();
    run(&mut cpu, 4);
    assert_eq!(lit(&cpu), 64);
    for y in 0..32usize {
        for x in 0..64usize {
            let xs = x >= 60 || x < 4;
            let ys = y >= 30 || y < 6;
            assert_eq!(cpu.pixel(x, y), xs && ys, "cell {} {}", x, y);
        }
    }
}

#[test]
fn draw_past_memory_end_fails() {
    let mut cpu = machine(&[0xAF, 0xFE, 0xD0, 0x05]);
    run(&mut cpu, 1);
    let err = cpu.cycle().unwrap_err();
    assert_eq!(
        err,
        CpuError { kind: FaultKind::OutOfBounds, program_counter: 0x202, opcode: 0xD005 }
    );
    assert_eq!(cpu.program_counter(), 0x202);
}

#[test]
fn clear_screen_turns_every_cell_off() {
    let mut cpu = machine(&[0xA0, 0x00, 0xD0, 0x05, 0x00, 0xE0]);
    run(&mut cpu, 2);
    assert!(lit(&cpu) > 0);
    run(&mut cpu, 1);
    assert_eq!(lit(&cpu), 0);
}

#[test]
fn call_then_return_resumes_after_call() {
    let mut cpu = machine(&[0x23, 0x00]);
    cpu.load_program(&[0x00, 0xEE], 0x300).unwrap();
    run(&mut cpu, 1);
    assert_eq!(cpu.program_counter(), 0x300);
    assert_eq!(cpu.stack_pointer(), 1);
    run(&mut cpu, 1);
    assert_eq!(cpu.program_counter(), 0x202);
    assert_eq!(cpu.stack_pointer(), 0);
}

#[test]
fn seventeenth_nested_call_overflows() {
    let mut cpu = machine(&[0x22, 0x00]);
    run(&mut cpu, 16);
    assert_eq!(cpu.stack_pointer(), 16);
    let err = cpu.cycle().unwrap_err();
    assert_eq!(
        err,
        CpuError { kind: FaultKind::StackOverflow, program_counter: 0x200, opcode: 0x2200 }
    );
    assert_eq!(cpu.stack_pointer(), 16);
}

#[test]
fn return_on_empty_stack_underflows() {
    let mut cpu = machine(&[0x00, 0xEE]);
    let err = cpu.cycle().unwrap_err();
    assert_eq!(
        err,
        CpuError { kind: FaultKind::StackUnderflow, program_counter: 0x200, opcode: 0x00EE }
    );
    assert_eq!(cpu.program_counter(), 0x200);
}

#[test]
fn unknown_instruction_is_reported() {
    let mut cpu = machine(&[0x50, 0x11]);
    let err = cpu.cycle().unwrap_err();
    assert_eq!(
        err,
        CpuError { kind: FaultKind::UnknownInstruction, program_counter: 0x200, opcode: 0x5011 }
    );
}

#[test]
fn fetch_past_memory_end_fails() {
    let mut cpu = machine(&[0x1F, 0xFF]);
    run(&mut cpu, 1);
    assert_eq!(cpu.program_counter(), 0xFFF);
    let err = cpu.cycle().unwrap_err();
    assert_eq!(err, CpuError { kind: FaultKind::OutOfBounds, program_counter: 0xFFF, opcode: 0 });
}

#[test]
fn bcd_of_156() {
    let mut cpu = machine(&[0xA3, 0x00, 0x60, 156, 0xF0, 0x33]);
    run(&mut cpu, 3);
    assert_eq!(&cpu.memory().as_slice()[0x300..0x303], &[1, 5, 6]);
}

#[test]
fn bcd_past_memory_end_fails() {
    let mut cpu = machine(&[0xAF, 0xFE, 0xF0, 0x33]);
    run(&mut cpu, 1);
    let err = cpu.cycle().unwrap_err();
    assert_eq!(err.kind, FaultKind::OutOfBounds);
    assert_eq!(cpu.memory().as_slice()[0xFFE], 0);
}

#[test]
fn get_key_blocks_until_pressed() {
    let mut cpu = machine(&[0xF3, 0x0A]);
    run(&mut cpu, 1);
    assert_eq!(cpu.program_counter(), 0x200);
    run(&mut cpu, 1);
    assert_eq!(cpu.program_counter(), 0x200);
    cpu.set_key(9, true);
    cpu.set_key(7, true);
    run(&mut cpu, 1);
    assert_eq!(cpu.program_counter(), 0x202);
    assert_eq!(cpu.registers()[3], 7);
}

#[test]
fn font_character_of_a() {
    let mut cpu = machine(&[0x60, 0x0A, 0xF0, 0x29]);
    run(&mut cpu, 2);
    assert_eq!(cpu.index(), 50);
}

#[test]
fn font_character_uses_low_nibble() {
    let mut cpu = machine(&[0x60, 0xF3, 0xF0, 0x29]);
    run(&mut cpu, 2);
    assert_eq!(cpu.index(), 15);
}

#[test]
fn skips_on_immediates_and_registers() {
    let mut cpu = machine(&[0x60, 5, 0x30, 5]);
    run(&mut cpu, 2);
    assert_eq!(cpu.program_counter(), 0x206);
    let mut cpu = machine(&[0x60, 5, 0x40, 5]);
    run(&mut cpu, 2);
    assert_eq!(cpu.program_counter(), 0x204);
    let mut cpu = machine(&[0x60, 5, 0x61, 5, 0x50, 0x10]);
    run(&mut cpu, 3);
    assert_eq!(cpu.program_counter(), 0x208);
    let mut cpu = machine(&[0x60, 5, 0x61, 6, 0x90, 0x10]);
    run(&mut cpu, 3);
    assert_eq!(cpu.program_counter(), 0x208);
}

#[test]
fn skips_on_key_state() {
    let mut cpu = machine(&[0x60, 0x12, 0xE0, 0x9E, 0xE0, 0xA1]);
    cpu.set_key(2, true);
    run(&mut cpu, 2);
    assert_eq!(cpu.program_counter(), 0x206);
    let mut cpu = machine(&[0x60, 0x02, 0xE0, 0xA1]);
    run(&mut cpu, 2);
    assert_eq!(cpu.program_counter(), 0x206);
    assert!(!cpu.is_key_pressed(2));
}

#[test]
fn jump_and_jump_with_offset() {
    let mut cpu = machine(&[0x60, 4, 0xB3, 0x00]);
    run(&mut cpu, 2);
    assert_eq!(cpu.program_counter(), 0x304);
    assert_eq!(cpu.index(), 0);
    let mut cpu = machine(&[0x14, 0x56]);
    run(&mut cpu, 1);
    assert_eq!(cpu.program_counter(), 0x456);
}

#[test]
fn add_to_index_wraps_and_flags() {
    let mut cpu = machine(&[0xA1, 0x00, 0xF5, 0x1E]);
    run(&mut cpu, 2);
    assert_eq!(cpu.index(), 0x108);
    assert_eq!(cpu.registers()[0xF], 0);
    let mut cpu = machine(&[0xAF, 0xFC, 0xF0, 0x1E]);
    run(&mut cpu, 2);
    assert_eq!(cpu.index(), 4);
    assert_eq!(cpu.registers()[0xF], 1);
}

#[test]
fn random_is_masked() {
    let mut cpu = machine(&[0xC0, 0x0F, 0xC1, 0x00]);
    cpu.step(0xFF).unwrap();
    assert_eq!(cpu.registers()[0], 0x0F);
    run(&mut cpu, 1);
    assert_eq!(cpu.registers()[1], 0);
    let mut cpu = machine(&[0xC0, 0xF0]);
    run(&mut cpu, 1);
    assert_eq!(cpu.registers()[0] & 0x0F, 0);
}

#[test]
fn store_and_load_registers_inclusive() {
    let mut cpu = machine(&[
        0x60, 1, 0x61, 2, 0x62, 3, 0x63, 4, 0xA3, 0x00, 0xF2, 0x55, 0x60, 0, 0x61, 0, 0x62,
        0, 0xF1, 0x65,
    ]);
    run(&mut cpu, 6);
    assert_eq!(&cpu.memory().as_slice()[0x300..0x304], &[1, 2, 3, 0]);
    run(&mut cpu, 4);
    assert_eq!(&cpu.registers()[0..4], &[1, 2, 0, 4]);
}

#[test]
fn store_registers_past_memory_end_fails() {
    let mut cpu = machine(&[0xAF, 0xFF, 0xF1, 0x55]);
    run(&mut cpu, 1);
    assert_eq!(cpu.cycle().unwrap_err().kind, FaultKind::OutOfBounds);
    let mut cpu = machine(&[0xAF, 0xFF, 0xF1, 0x65]);
    run(&mut cpu, 1);
    assert_eq!(
        cpu.cycle().unwrap_err(),
        CpuError { kind: FaultKind::OutOfBounds, program_counter: 0x202, opcode: 0xF165 }
    );
    assert_eq!(cpu.registers()[0], 0);
}

#[test]
fn load_registers_of_v0_at_last_address() {
    let mut cpu = machine(&[0xAF, 0xFF, 0xF0, 0x65]);
    cpu.load_program(&[0x5A], 0xFFF).unwrap();
    run(&mut cpu, 2);
    assert_eq!(cpu.registers()[0], 0x5A);
}

#[test]
fn timers_set_read_and_tick() {
    let mut cpu = machine(&[0x60, 3, 0xF0, 0x15, 0xF0, 0x18, 0xF1, 0x07]);
    run(&mut cpu, 4);
    assert_eq!(cpu.delay_timer(), 3);
    assert_eq!(cpu.sound_timer(), 3);
    assert_eq!(cpu.registers()[1], 3);
    assert!(cpu.sound_active());
    for _ in 0..4 {
        cpu.decrement_timers();
    }
    assert_eq!(cpu.delay_timer(), 0);
    assert_eq!(cpu.sound_timer(), 0);
    assert!(!cpu.sound_active());
    cpu.set_delay_timer(9);
    cpu.set_sound_timer(1);
    cpu.decrement_timers();
    assert_eq!(cpu.delay_timer(), 8);
    assert_eq!(cpu.sound_timer(), 0);
}

#[test]
fn load_program_past_end_fails() {
    let mut cpu = Cpu::new();
    assert_eq!(cpu.load_program(&[1, 2], 4095), Err(MemoryError::OutOfBounds));
}

#[test]
fn ibm_logo_runs_and_draws() {
    let mut cpu = Cpu::new();
    cpu.load_ibm();
    assert_eq!(&cpu.memory().as_slice()[0x200..0x204], &[0x00, 0xE0, 0xA2, 0x2A]);
    run(&mut cpu, 21);
    assert_eq!(cpu.program_counter(), 0x228);
    assert!(lit(&cpu) > 0);
    run(&mut cpu, 5);
    assert_eq!(cpu.program_counter(), 0x228);
}
