use chip8::cpu::Cpu;
use chip8::semantics::{Fault, Step, FONT};

fn machine() -> Cpu {
    let mut cpu = Cpu::new();
    cpu.load_font();
    cpu
}

#[test]
fn new_machine_starts_at_program_start() {
    let cpu = Cpu::new();
    assert_eq!(cpu.pc, 0x200);
    assert_eq!(cpu.i, 0);
    assert_eq!(cpu.sp, 0);
    assert!(cpu.mem.iter().all(|b| *b == 0));
    assert!(cpu.display.iter().all(|c| c.iter().all(|p| !*p)));
    assert!(cpu.keys_pressed.iter().all(|k| !*k));
}

#[test]
fn load_font_places_font_at_0x50() {
    let mut cpu = Cpu::new();
    cpu.mem[0x4F] = 7;
    cpu.mem[0xA0] = 9;
    cpu.load_font();
    assert_eq!(&cpu.mem[0x50..0xA0], &FONT[..]);
    assert_eq!(cpu.mem[0x4F], 7);
    assert_eq!(cpu.mem[0xA0], 9);
    assert_eq!(cpu.mem[0x50], 0xF0);
    assert_eq!(cpu.mem[0x9F], 0x80);
}

#[test]
fn load_program_places_bytes_at_0x200() {
    let mut cpu = Cpu::new();
    cpu.mem[0x203] = 0x55;
    cpu.load_program(&[0x12, 0x34, 0x56]);
    assert_eq!(&cpu.mem[0x200..0x203], &[0x12, 0x34, 0x56]);
    assert_eq!(cpu.mem[0x203], 0x55);
    assert_eq!(cpu.mem[0x1FF], 0);
    assert_eq!(cpu.pc, 0x200);
}

#[test]
fn load_program_fills_all_memory_above_0x200() {
    let mut cpu = Cpu::new();
    let program = vec![0xAB; 4096 - 0x200];
    cpu.load_program(&program);
    assert_eq!(cpu.mem[0x200], 0xAB);
    assert_eq!(cpu.mem[4095], 0xAB);
}

#[test]
fn push_then_pop_returns_value() {
    let mut cpu = Cpu::new();
    cpu.push_stack(0x234);
    cpu.push_stack(0x456);
    assert_eq!(cpu.sp, 2);
    assert_eq!(cpu.stack[0], 0x234);
    assert_eq!(cpu.stack[1], 0x456);
    assert_eq!(cpu.pop_stack(), 0x456);
    assert_eq!(cpu.pop_stack(), 0x234);
    assert_eq!(cpu.sp, 0);
    assert_eq!(cpu.stack[1], 0x456);
}

#[test]
fn fetch_reads_big_endian_opcode() {
    let mut cpu = Cpu::new();
    cpu.load_program(&[0xA2, 0xF0]);
    assert_eq!(cpu.fetch(), Some(0xA2F0));
    cpu.pc = 4095;
    assert_eq!(cpu.fetch(), None);
    cpu.pc = 4094;
    assert_eq!(cpu.fetch(), Some(0));
}

#[test]
fn clear_screen() {
    let mut cpu = machine();
    cpu.display[3][4] = true;
    cpu.display[63][31] = true;
    assert_eq!(cpu.execute(0x00E0, 0), Step::Done);
    assert!(cpu.display.iter().all(|c| c.iter().all(|p| !*p)));
}

#[test]
fn jump_call_and_return() {
    let mut cpu = machine();
    cpu.pc = 0x202;
    cpu.execute(0x1ABC, 0);
    assert_eq!(cpu.pc, 0xABC);
    cpu.pc = 0x206;
    cpu.execute(0x2400, 0);
    assert_eq!(cpu.pc, 0x400);
    assert_eq!(cpu.sp, 1);
    assert_eq!(cpu.stack[0], 0x206);
    cpu.execute(0x00EE, 0);
    assert_eq!(cpu.pc, 0x206);
    assert_eq!(cpu.sp, 0);
}

#[test]
fn jump_with_offset() {
    let mut cpu = machine();
    cpu.v[0] = 0xFF;
    cpu.execute(0xBFFF, 0);
    assert_eq!(cpu.pc, 0x10FE);
}

#[test]
fn other_0nnn_does_nothing() {
    let mut cpu = machine();
    cpu.pc = 0x202;
    cpu.execute(0x0123, 0);
    assert_eq!(cpu.pc, 0x202);
}

#[test]
fn skips_on_register_and_byte() {
    let mut cpu = machine();
    cpu.pc = 0x202;
    cpu.v[3] = 0x42;
    cpu.execute(0x3342, 0);
    assert_eq!(cpu.pc, 0x204);
    cpu.execute(0x3343, 0);
    assert_eq!(cpu.pc, 0x204);
    cpu.execute(0x4343, 0);
    assert_eq!(cpu.pc, 0x206);
    cpu.execute(0x4342, 0);
    assert_eq!(cpu.pc, 0x206);
}

#[test]
fn skips_on_two_registers() {
    let mut cpu = machine();
    cpu.pc = 0x202;
    cpu.v[1] = 5;
    cpu.v[2] = 5;
    cpu.execute(0x5120, 0);
    assert_eq!(cpu.pc, 0x204);
    cpu.execute(0x9120, 0);
    assert_eq!(cpu.pc, 0x204);
    cpu.v[2] = 6;
    cpu.execute(0x9120, 0);
    assert_eq!(cpu.pc, 0x206);
    cpu.execute(0x5120, 0);
    assert_eq!(cpu.pc, 0x206);
}

#[test]
fn skips_on_keys() {
    let mut cpu = machine();
    cpu.pc = 0x202;
    cpu.v[4] = 0xA;
    cpu.keys_pressed[0xA] = true;
    cpu.execute(0xE49E, 0);
    assert_eq!(cpu.pc, 0x204);
    cpu.execute(0xE4A1, 0);
    assert_eq!(cpu.pc, 0x204);
    cpu.keys_pressed[0xA] = false;
    cpu.execute(0xE4A1, 0);
    assert_eq!(cpu.pc, 0x206);
    cpu.execute(0xE49E, 0);
    assert_eq!(cpu.pc, 0x206);
    cpu.execute(0xE400, 0);
    assert_eq!(cpu.pc, 0x206);
}

#[test]
fn load_and_add_immediate() {
    let mut cpu = machine();
    cpu.execute(0x6AFE, 0);
    assert_eq!(cpu.v[0xA], 0xFE);
    cpu.execute(0x7A03, 0);
    assert_eq!(cpu.v[0xA], 0x01);
    assert_eq!(cpu.v[0xF], 0);
}

#[test]
fn register_logic() {
    let mut cpu = machine();
    cpu.v[1] = 0b1100;
    cpu.v[2] = 0b1010;
    cpu.execute(0x8121, 0);
    assert_eq!(cpu.v[1], 0b1110);
    cpu.v[1] = 0b1100;
    cpu.execute(0x8122, 0);
    assert_eq!(cpu.v[1], 0b1000);
    cpu.v[1] = 0b1100;
    cpu.execute(0x8123, 0);
    assert_eq!(cpu.v[1], 0b0110);
    cpu.execute(0x8120, 0);
    assert_eq!(cpu.v[1], 0b1010);
}

#[test]
fn add_with_carry() {
    let mut cpu = machine();
    cpu.v[1] = 200;
    cpu.v[2] = 100;
    cpu.execute(0x8124, 0);
    assert_eq!(cpu.v[1], 44);
    assert_eq!(cpu.v[0xF], 1);
    cpu.v[1] = 20;
    cpu.execute(0x8124, 0);
    assert_eq!(cpu.v[1], 120);
    assert_eq!(cpu.v[0xF], 0);
}

#[test]
fn add_into_flag_register_keeps_sum() {
    let mut cpu = machine();
    cpu.v[0xF] = 200;
    cpu.v[2] = 100;
    cpu.execute(0x8F24, 0);
    assert_eq!(cpu.v[0xF], 44);
}

#[test]
fn subtract_and_reverse_subtract() {
    let mut cpu = machine();
    cpu.v[1] = 10;
    cpu.v[2] = 3;
    cpu.execute(0x8125, 0);
    assert_eq!(cpu.v[1], 7);
    assert_eq!(cpu.v[0xF], 1);
    cpu.v[1] = 3;
    cpu.v[2] = 10;
    cpu.execute(0x8125, 0);
    assert_eq!(cpu.v[1], 249);
    assert_eq!(cpu.v[0xF], 0);
    cpu.v[1] = 5;
    cpu.v[2] = 5;
    cpu.execute(0x8125, 0);
    assert_eq!(cpu.v[1], 0);
    assert_eq!(cpu.v[0xF], 0);
    cpu.v[1] = 3;
    cpu.v[2] = 10;
    cpu.execute(0x8127, 0);
    assert_eq!(cpu.v[1], 7);
    assert_eq!(cpu.v[0xF], 1);
    cpu.v[1] = 10;
    cpu.v[2] = 3;
    cpu.execute(0x8127, 0);
    assert_eq!(cpu.v[1], 249);
    assert_eq!(cpu.v[0xF], 0);
}

#[test]
fn shifts() {
    let mut cpu = machine();
    cpu.v[1] = 0b1000_0011;
    cpu.execute(0x8126, 0);
    assert_eq!(cpu.v[1], 0b0100_0001);
    assert_eq!(cpu.v[0xF], 1);
    cpu.v[1] = 0b1000_0011;
    cpu.execute(0x812E, 0);
    assert_eq!(cpu.v[1], 0b0000_0110);
    assert_eq!(cpu.v[0xF], 1);
    cpu.v[1] = 0b0100_0010;
    cpu.execute(0x812E, 0);
    assert_eq!(cpu.v[1], 0b1000_0100);
    assert_eq!(cpu.v[0xF], 0);
}

#[test]
fn shift_of_flag_register_reads_the_new_flag() {
    let mut cpu = machine();
    cpu.v[0xF] = 0b0000_0011;
    cpu.execute(0x8F06, 0);
    assert_eq!(cpu.v[0xF], 0);
}

#[test]
fn index_and_random() {
    let mut cpu = machine();
    cpu.execute(0xA123, 0);
    assert_eq!(cpu.i, 0x123);
    cpu.execute(0xC50F, 0xAB);
    assert_eq!(cpu.v[5], 0x0B);
}

#[test]
fn draw_sets_pixels_and_reports_collision() {
    let mut cpu = machine();
    cpu.i = 0x50;
    cpu.v[3] = 0;
    cpu.v[4] = 0;
    cpu.execute(0xD345, 0);
    assert_eq!(cpu.v[0xF], 0);
    for col in 0..4 {
        assert!(cpu.display[col][0]);
        assert!(cpu.display[col][4]);
    }
    assert!(cpu.display[0][1]);
    assert!(!cpu.display[1][1]);
    assert!(cpu.display[3][1]);
    assert!(!cpu.display[4][0]);
    cpu.execute(0xD345, 0);
    assert_eq!(cpu.v[0xF], 1);
    assert!(cpu.display.iter().all(|c| c.iter().all(|p| !*p)));
}

#[test]
fn draw_wraps_around_edges() {
    let mut cpu = machine();
    cpu.mem[0x300] = 0xFF;
    cpu.mem[0x301] = 0x80;
    cpu.i = 0x300;
    cpu.v[1] = 60 + 64;
    cpu.v[2] = 31 + 32;
    cpu.execute(0xD122, 0);
    for col in [60, 61, 62, 63, 0, 1, 2, 3] {
        assert!(cpu.display[col][31]);
    }
    assert!(cpu.display[60][0]);
    assert!(!cpu.display[61][0]);
    assert!(!cpu.display[4][31]);
}

#[test]
fn draw_with_zero_rows_clears_flag_only() {
    let mut cpu = machine();
    cpu.v[0xF] = 1;
    cpu.display[0][0] = true;
    cpu.execute(0xD000, 0);
    assert_eq!(cpu.v[0xF], 0);
    assert!(cpu.display[0][0]);
}

#[test]
fn timers_instructions() {
    let mut cpu = machine();
    cpu.v[2] = 60;
    cpu.execute(0xF215, 0);
    assert_eq!(cpu.delay_timer, 60);
    cpu.delay_timer = 17;
    cpu.execute(0xF307, 0);
    assert_eq!(cpu.v[3], 17);
    cpu.v[4] = 9;
    cpu.execute(0xF418, 0);
    assert_eq!(cpu.delay_timer, 9);
    assert_eq!(cpu.sound_timer, 0);
}

#[test]
fn add_to_index_sets_flag_past_0xfff() {
    let mut cpu = machine();
    cpu.i = 0xFFE;
    cpu.v[1] = 1;
    cpu.execute(0xF11E, 0);
    assert_eq!(cpu.i, 0xFFF);
    assert_eq!(cpu.v[0xF], 0);
    cpu.execute(0xF11E, 0);
    assert_eq!(cpu.i, 0x1000);
    assert_eq!(cpu.v[0xF], 1);
}

#[test]
fn font_address() {
    let mut cpu = machine();
    cpu.v[6] = 0x1A;
    cpu.execute(0xF629, 0);
    assert_eq!(cpu.i, 0x50 + 0xA * 5);
    assert_eq!(&cpu.mem[cpu.i as usize..cpu.i as usize + 5], &[0xF0, 0x90, 0xF0, 0x90, 0x90]);
}

#[test]
fn binary_coded_decimal() {
    let mut cpu = machine();
    cpu.v[7] = 254;
    cpu.i = 0x300;
    cpu.execute(0xF733, 0);
    assert_eq!(&cpu.mem[0x300..0x303], &[2, 5, 4]);
    cpu.v[7] = 7;
    cpu.execute(0xF733, 0);
    assert_eq!(&cpu.mem[0x300..0x303], &[0, 0, 7]);
}

#[test]
fn store_and_load_registers() {
    let mut cpu = machine();
    for k in 0..16 {
        cpu.v[k] = k as u8 + 1;
    }
    cpu.i = 0x400;
    cpu.execute(0xF355, 0);
    assert_eq!(&cpu.mem[0x400..0x405], &[1, 2, 3, 4, 0]);
    assert_eq!(cpu.i, 0x400);
    for k in 0..16 {
        cpu.v[k] = 0;
    }
    cpu.execute(0xF265, 0);
    assert_eq!(&cpu.v[0..4], &[1, 2, 3, 0]);
}

#[test]
fn key_wait_takes_lowest_key() {
    let mut cpu = machine();
    cpu.keys_pressed[9] = true;
    cpu.keys_pressed[3] = true;
    assert_eq!(cpu.execute(0xF50A, 0), Step::Done);
    assert_eq!(cpu.v[5], 3);
}

#[test]
fn key_wait_without_key_awaits() {
    let mut cpu = machine();
    cpu.pc = 0x202;
    assert_eq!(cpu.execute(0xF50A, 0), Step::AwaitKey(5));
    assert_eq!(cpu.v[5], 0);
    assert_eq!(cpu.pc, 0x202);
    assert!(!cpu.finish_key_wait(5));
    cpu.keys_pressed[0xC] = true;
    assert!(cpu.finish_key_wait(5));
    assert_eq!(cpu.v[5], 0xC);
}

#[test]
fn faults_are_reported() {
    let mut cpu = machine();
    assert_eq!(cpu.fault(0x00EE), Some(Fault::StackUnderflow));
    cpu.sp = 16;
    assert_eq!(cpu.fault(0x2300), Some(Fault::StackOverflow));
    cpu.sp = 17;
    assert_eq!(cpu.fault(0x00EE), Some(Fault::StackOverflow));
    cpu.sp = 0;
    assert_eq!(cpu.fault(0x812F), Some(Fault::Unimplemented(0x812F)));
    assert_eq!(cpu.fault(0x8128), Some(Fault::Unimplemented(0x8128)));
    cpu.i = 0xFFE;
    assert_eq!(cpu.fault(0xD013), Some(Fault::MemoryBounds));
    assert_eq!(cpu.fault(0xD012), None);
    assert_eq!(cpu.fault(0xF033), Some(Fault::MemoryBounds));
    assert_eq!(cpu.fault(0xF255), Some(Fault::MemoryBounds));
    assert_eq!(cpu.fault(0xF265), Some(Fault::MemoryBounds));
    assert_eq!(cpu.fault(0xF155), None);
    assert_eq!(cpu.fault(0xF165), None);
    cpu.v[2] = 16;
    assert_eq!(cpu.fault(0xE29E), Some(Fault::KeyOutOfRange));
    assert_eq!(cpu.fault(0xE2A1), Some(Fault::KeyOutOfRange));
    assert_eq!(cpu.fault(0xE200), None);
    cpu.i = 0xFFFF;
    cpu.v[1] = 1;
    assert_eq!(cpu.fault(0xF11E), Some(Fault::IndexOverflow));
    assert_eq!(cpu.fault(0x6000), None);
}

#[test]
fn step_runs_loaded_program() {
    let mut cpu = machine();
    cpu.load_program(&[0x60, 0x05, 0x70, 0x03, 0x12, 0x00]);
    let mut rng = rand::thread_rng();
    assert_eq!(cpu.step(&mut rng), Step::Done);
    assert_eq!(cpu.v[0], 5);
    assert_eq!(cpu.pc, 0x202);
    assert_eq!(cpu.step(&mut rng), Step::Done);
    assert_eq!(cpu.v[0], 8);
    assert_eq!(cpu.step(&mut rng), Step::Done);
    assert_eq!(cpu.pc, 0x200);
}

#[test]
fn step_fault_moves_past_opcode_only() {
    let mut cpu = machine();
    cpu.load_program(&[0x00, 0xEE]);
    let mut rng = rand::thread_rng();
    assert_eq!(cpu.step(&mut rng), Step::Fault(Fault::StackUnderflow));
    assert_eq!(cpu.pc, 0x202);
    assert_eq!(cpu.sp, 0);
    cpu.pc = 4095;
    assert_eq!(cpu.step(&mut rng), Step::Fault(Fault::ProgramCounter));
    assert_eq!(cpu.pc, 4095);
}

#[test]
fn step_random_is_masked() {
    let mut cpu = machine();
    let mut rng = rand::thread_rng();
    for _ in 0..64 {
        cpu.pc = 0x200;
        cpu.load_program(&[0xC3, 0x0F]);
        assert_eq!(cpu.step(&mut rng), Step::Done);
        assert_eq!(cpu.v[3] & 0xF0, 0);
        assert_eq!(cpu.pc, 0x202);
    }
}

#[test]
fn step_key_wait_advances_past_opcode() {
    let mut cpu = machine();
    cpu.load_program(&[0xF2, 0x0A]);
    let mut rng = rand::thread_rng();
    assert_eq!(cpu.step(&mut rng), Step::AwaitKey(2));
    assert_eq!(cpu.pc, 0x202);
}

#[test]
fn step_stops_at_unimplemented_opcode_after_drawing() {
    let mut cpu = Cpu::new();
    cpu.load_program(&[0xA3, 0x00, 0xD0, 0x11, 0x80, 0x08]);
    cpu.mem[0x300] = 0x80;
    let mut rng = rand::thread_rng();
    assert_eq!(cpu.step(&mut rng), Step::Done);
    assert_eq!(cpu.step(&mut rng), Step::Done);
    assert_eq!(cpu.step(&mut rng), Step::Fault(Fault::Unimplemented(0x8008)));
    assert_eq!(cpu.pc, 0x206);
    assert_eq!(cpu.i, 0x300);
    assert_eq!(cpu.v[0xF], 0);
    assert!(cpu.display[0][0]);
    assert!(!cpu.display[7][0]);
    let lit = cpu.display.iter().map(|c| c.iter().filter(|p| **p).count()).sum::<usize>();
    assert_eq!(lit, 1);
}

#[test]
fn delay_timer_writers() {
    assert!(Cpu::writes_delay_timer(0xF315));
    assert!(Cpu::writes_delay_timer(0xF018));
    assert!(!Cpu::writes_delay_timer(0xF307));
    assert!(!Cpu::writes_delay_timer(0xE315));
    assert!(!Cpu::writes_delay_timer(0x6015));
}
