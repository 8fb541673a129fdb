//! End-to-end tests of the machine: reset, program load, every instruction
//! family, the draw blit, the stack and timer policies, and the scenarios
//! the design fixes exactly.

use chip8::dispatch::StepEvent;
use chip8::machine::Cpu;

fn fresh() -> Cpu {
    let mut cpu = Cpu::new();
    cpu.initialize();
    cpu
}

fn run(cpu: &mut Cpu, steps: usize) {
    for _ in 0..steps {
        assert!(cpu.can_step());
        cpu.emulate_cycle();
    }
}

#[test]
fn reset_installs_glyphs() {
    let cpu = fresh();
    assert_eq!(cpu.pc, 0x200);
    assert_eq!(cpu.i, 0);
    assert_eq!(cpu.sp, 0);
    assert_eq!(cpu.dt, 0);
    assert_eq!(cpu.st, 0);
    assert_eq!(&cpu.memory[0..5], &[0xF0, 0x90, 0x90, 0x90, 0xF0]);
    assert_eq!(&cpu.memory[25..30], &[0xF0, 0x80, 0xF0, 0x10, 0xF0]);
    assert_eq!(&cpu.memory[75..80], &[0xF0, 0x80, 0xF0, 0x80, 0x80]);
    assert_eq!(cpu.memory[80], 0);
    assert!(cpu.display.iter().all(|p| !p));
    assert!(cpu.v.iter().all(|r| *r == 0));
    assert!(cpu.stack.iter().all(|r| *r == 0));
}

#[test]
fn load_rom_places_bytes() {
    let mut cpu = fresh();
    cpu.load_rom(&vec![1, 2, 3]);
    assert_eq!(&cpu.memory[0x200..0x203], &[1, 2, 3]);
    assert_eq!(cpu.memory[0x1FF], 0);
    assert_eq!(cpu.memory[0x203], 0);
    assert_eq!(cpu.pc, 0x200);
}

#[test]
fn add_scenario_three_steps() {
    // LD V0,10; LD V1,5; ADD V0+=V1; CLS
    let mut cpu = fresh();
    cpu.load_rom(&vec![0x60, 0x0A, 0x61, 0x05, 0x80, 0x14, 0x00, 0x00]);
    run(&mut cpu, 3);
    assert_eq!(cpu.v[0], 15);
    assert_eq!(cpu.v[0xF], 0);
    assert_eq!(cpu.pc, 0x206);
}

#[test]
fn glyph_index_scenario() {
    // LD I,0; LD V0,5; glyph address of character 5
    let mut cpu = fresh();
    cpu.load_rom(&vec![0xA0, 0x00, 0x60, 0x05, 0xF0, 0x29]);
    run(&mut cpu, 1);
    assert_eq!(cpu.i, 0);
    run(&mut cpu, 2);
    assert_eq!(cpu.i, 25);
}

#[test]
fn bcd_decomposes_255() {
    let mut cpu = fresh();
    cpu.v[0] = 255;
    cpu.i = 0x300;
    cpu.load_rom(&vec![0xF0, 0x33]);
    run(&mut cpu, 1);
    assert_eq!(cpu.memory[0x300], 2);
    assert_eq!(cpu.memory[0x301], 5);
    assert_eq!(cpu.memory[0x302], 5);
}

#[test]
fn bcd_decomposes_7() {
    let mut cpu = fresh();
    cpu.v[3] = 7;
    cpu.i = 0x300;
    cpu.load_rom(&vec![0xF3, 0x33]);
    run(&mut cpu, 1);
    assert_eq!(&cpu.memory[0x300..0x303], &[0, 0, 7]);
}

#[test]
fn delay_timer_cadence() {
    // 16 steps over a stream of unknown (no-op compatible) instructions
    // decrement the delay timer exactly once.
    let mut cpu = fresh();
    cpu.dt = 5;
    run(&mut cpu, 14);
    assert_eq!(cpu.dt, 5);
    run(&mut cpu, 2);
    assert_eq!(cpu.dt, 4);
    run(&mut cpu, 16);
    assert_eq!(cpu.dt, 3);
}

#[test]
fn sound_timer_is_stored_not_decremented() {
    let mut cpu = fresh();
    cpu.v[0] = 9;
    cpu.load_rom(&vec![0xF0, 0x18]);
    run(&mut cpu, 1);
    assert_eq!(cpu.st, 9);
    cpu.pc = 0x210;
    run(&mut cpu, 16);
    assert_eq!(cpu.st, 9);
}

#[test]
fn delay_timer_set_and_read() {
    let mut cpu = fresh();
    cpu.load_rom(&vec![0x60, 0x07, 0xF0, 0x15, 0xF1, 0x07]);
    run(&mut cpu, 3);
    assert_eq!(cpu.dt, 7);
    assert_eq!(cpu.v[1], 7);
}

#[test]
fn stack_wraps_17_calls_16_returns() {
    let mut cpu = fresh();
    // CALL 0x300 at 0x200, RET at 0x300
    cpu.memory[0x200] = 0x23;
    cpu.memory[0x201] = 0x00;
    cpu.memory[0x300] = 0x00;
    cpu.memory[0x301] = 0xEE;
    for _ in 0..17 {
        cpu.pc = 0x200;
        assert!(cpu.can_step());
        cpu.emulate_cycle();
    }
    assert_eq!(cpu.sp, 1);
    assert!(cpu.stack.iter().all(|r| *r == 0x202));
    for _ in 0..16 {
        cpu.pc = 0x300;
        assert!(cpu.can_step());
        cpu.emulate_cycle();
        assert_eq!(cpu.pc, 0x202);
    }
    assert_eq!(cpu.sp, 1);
}

#[test]
fn call_and_return() {
    let mut cpu = fresh();
    cpu.memory[0x200] = 0x23;
    cpu.memory[0x201] = 0x00;
    cpu.memory[0x300] = 0x00;
    cpu.memory[0x301] = 0xEE;
    run(&mut cpu, 1);
    assert_eq!(cpu.pc, 0x300);
    assert_eq!(cpu.sp, 1);
    assert_eq!(cpu.stack[1], 0x202);
    run(&mut cpu, 1);
    assert_eq!(cpu.pc, 0x202);
    assert_eq!(cpu.sp, 0);
}

#[test]
fn draw_wraps_at_edges() {
    // A two-row sprite with all cells set, drawn at (63, 63), lands in rows
    // {63, 0} and columns {63, 0..=6}; nothing faults.
    let mut cpu = fresh();
    cpu.i = 0x300;
    cpu.memory[0x300] = 0xFF;
    cpu.memory[0x301] = 0xFF;
    cpu.draw(2, 63, 63);
    assert_eq!(cpu.v[0xF], 0);
    let lit: Vec<usize> = (0..4096).filter(|p| cpu.display[*p]).collect();
    assert_eq!(lit.len(), 16);
    for row in [63usize, 0] {
        assert!(cpu.display[row * 64 + 63]);
        for col in 0..=6usize {
            assert!(cpu.display[row * 64 + col]);
        }
        assert!(!cpu.display[row * 64 + 7]);
        assert!(!cpu.display[row * 64 + 62]);
    }
}

#[test]
fn draw_twice_restores() {
    let mut cpu = fresh();
    cpu.i = 0x300;
    cpu.memory[0x300] = 0b1010_0001;
    cpu.memory[0x301] = 0b0111_1110;
    cpu.draw(2, 10, 20);
    assert_eq!(cpu.v[0xF], 0);
    assert!(cpu.display[20 * 64 + 10]);
    cpu.draw(2, 10, 20);
    // the second identical draw toggles everything back and collides
    // exactly where the first draw lit a pixel
    assert_eq!(cpu.v[0xF], 1);
    assert!(cpu.display.iter().all(|p| !p));
}

#[test]
fn draw_zero_height_resets_flag() {
    let mut cpu = fresh();
    cpu.v[0xF] = 1;
    cpu.draw(0, 0, 0);
    assert_eq!(cpu.v[0xF], 0);
    assert!(cpu.display.iter().all(|p| !p));
}

#[test]
fn draw_through_instruction_and_clear() {
    let mut cpu = fresh();
    // sprite at the glyph table: character 0 occupies five rows from 0
    cpu.load_rom(&vec![0xA0, 0x00, 0x60, 0x02, 0x61, 0x03, 0xD0, 0x15, 0x00, 0xE0]);
    run(&mut cpu, 4);
    // 0xF0 top row of glyph 0: four lit pixels from x=2 at y=3
    assert!(cpu.display[3 * 64 + 2]);
    assert!(cpu.display[3 * 64 + 5]);
    assert!(!cpu.display[3 * 64 + 6]);
    assert_eq!(cpu.v[0xF], 0);
    run(&mut cpu, 1);
    assert!(cpu.display.iter().all(|p| !p));
}

#[test]
fn add_sets_carry() {
    let mut cpu = fresh();
    cpu.load_rom(&vec![0x60, 0xC8, 0x61, 0x64, 0x80, 0x14]);
    run(&mut cpu, 3);
    assert_eq!(cpu.v[0], 44);
    assert_eq!(cpu.v[0xF], 1);
}

#[test]
fn sub_flags_both_orders() {
    let mut cpu = fresh();
    cpu.v[0] = 5;
    cpu.v[1] = 10;
    cpu.load_rom(&vec![0x80, 0x15]);
    run(&mut cpu, 1);
    assert_eq!(cpu.v[0], 251);
    assert_eq!(cpu.v[0xF], 0);

    let mut cpu = fresh();
    cpu.v[0] = 10;
    cpu.v[1] = 5;
    cpu.load_rom(&vec![0x80, 0x15]);
    run(&mut cpu, 1);
    assert_eq!(cpu.v[0], 5);
    assert_eq!(cpu.v[0xF], 1);

    let mut cpu = fresh();
    cpu.v[0] = 5;
    cpu.v[1] = 10;
    cpu.load_rom(&vec![0x80, 0x17]);
    run(&mut cpu, 1);
    assert_eq!(cpu.v[0], 5);
    assert_eq!(cpu.v[0xF], 1);

    let mut cpu = fresh();
    cpu.v[0] = 10;
    cpu.v[1] = 5;
    cpu.load_rom(&vec![0x80, 0x17]);
    run(&mut cpu, 1);
    assert_eq!(cpu.v[0], 251);
    assert_eq!(cpu.v[0xF], 0);
}

#[test]
fn shift_flags() {
    let mut cpu = fresh();
    cpu.v[2] = 0x85;
    cpu.load_rom(&vec![0x82, 0x06]);
    run(&mut cpu, 1);
    assert_eq!(cpu.v[0xF], 1);
    assert_eq!(cpu.v[2], 0x42);

    let mut cpu = fresh();
    cpu.v[2] = 0x85;
    cpu.load_rom(&vec![0x82, 0x0E]);
    run(&mut cpu, 1);
    assert_eq!(cpu.v[0xF], 1);
    assert_eq!(cpu.v[2], 0x0A);

    let mut cpu = fresh();
    cpu.v[2] = 0x42;
    cpu.load_rom(&vec![0x82, 0x06]);
    run(&mut cpu, 1);
    assert_eq!(cpu.v[0xF], 0);
    assert_eq!(cpu.v[2], 0x21);
}

#[test]
fn shift_on_flag_register_itself() {
    // when x is the flag register, the shift reads the freshly written flag
    let mut cpu = fresh();
    cpu.v[0xF] = 3;
    cpu.load_rom(&vec![0x8F, 0x06]);
    run(&mut cpu, 1);
    assert_eq!(cpu.v[0xF], 0);
}

#[test]
fn alu_bitwise_and_load() {
    let mut cpu = fresh();
    cpu.v[0] = 0b1100;
    cpu.v[1] = 0b1010;
    cpu.load_rom(&vec![0x82, 0x10, 0x80, 0x11]);
    run(&mut cpu, 2);
    assert_eq!(cpu.v[2], 0b1010);
    assert_eq!(cpu.v[0], 0b1110);

    let mut cpu = fresh();
    cpu.v[0] = 0b1100;
    cpu.v[1] = 0b1010;
    cpu.load_rom(&vec![0x80, 0x12]);
    run(&mut cpu, 1);
    assert_eq!(cpu.v[0], 0b1000);

    let mut cpu = fresh();
    cpu.v[0] = 0b1100;
    cpu.v[1] = 0b1010;
    cpu.load_rom(&vec![0x80, 0x13]);
    run(&mut cpu, 1);
    assert_eq!(cpu.v[0], 0b0110);
}

#[test]
fn add_immediate_wraps_without_flag() {
    let mut cpu = fresh();
    cpu.v[0] = 250;
    cpu.v[0xF] = 0;
    cpu.load_rom(&vec![0x70, 0x0A]);
    run(&mut cpu, 1);
    assert_eq!(cpu.v[0], 4);
    assert_eq!(cpu.v[0xF], 0);
}

#[test]
fn jumps_and_skips() {
    let mut cpu = fresh();
    cpu.load_rom(&vec![0x12, 0x34]);
    run(&mut cpu, 1);
    assert_eq!(cpu.pc, 0x234);

    let mut cpu = fresh();
    cpu.v[0] = 0x10;
    cpu.load_rom(&vec![0xB2, 0x34]);
    run(&mut cpu, 1);
    assert_eq!(cpu.pc, 0x244);

    let mut cpu = fresh();
    cpu.v[0] = 7;
    cpu.load_rom(&vec![0x30, 0x07]);
    run(&mut cpu, 1);
    assert_eq!(cpu.pc, 0x204);

    let mut cpu = fresh();
    cpu.v[0] = 8;
    cpu.load_rom(&vec![0x30, 0x07]);
    run(&mut cpu, 1);
    assert_eq!(cpu.pc, 0x202);

    let mut cpu = fresh();
    cpu.v[0] = 8;
    cpu.load_rom(&vec![0x40, 0x07]);
    run(&mut cpu, 1);
    assert_eq!(cpu.pc, 0x204);

    let mut cpu = fresh();
    cpu.v[0] = 9;
    cpu.v[1] = 9;
    cpu.load_rom(&vec![0x50, 0x10]);
    run(&mut cpu, 1);
    assert_eq!(cpu.pc, 0x204);

    let mut cpu = fresh();
    cpu.v[0] = 9;
    cpu.v[1] = 8;
    cpu.load_rom(&vec![0x90, 0x10]);
    run(&mut cpu, 1);
    assert_eq!(cpu.pc, 0x204);

    let mut cpu = fresh();
    cpu.v[0] = 9;
    cpu.v[1] = 9;
    cpu.load_rom(&vec![0x90, 0x10]);
    run(&mut cpu, 1);
    assert_eq!(cpu.pc, 0x202);
}

#[test]
fn index_register_ops() {
    let mut cpu = fresh();
    cpu.load_rom(&vec![0xA1, 0x23, 0x60, 0x10, 0xF0, 0x1E]);
    run(&mut cpu, 3);
    assert_eq!(cpu.i, 0x133);
}

#[test]
fn index_register_remasked_each_step() {
    let mut cpu = fresh();
    cpu.i = 5000;
    run(&mut cpu, 1);
    assert_eq!(cpu.i, 5000 % 4096);
}

#[test]
fn glyph_address_large_register() {
    // the glyph offset is computed in 16 bits: 200 * 5 = 1000
    let mut cpu = fresh();
    cpu.v[0] = 200;
    cpu.load_rom(&vec![0xF0, 0x29]);
    run(&mut cpu, 1);
    assert_eq!(cpu.i, 1000);
}

#[test]
fn block_store_and_load() {
    let mut cpu = fresh();
    cpu.v[0] = 11;
    cpu.v[1] = 22;
    cpu.v[2] = 33;
    cpu.i = 0x300;
    cpu.load_rom(&vec![0xF2, 0x55]);
    run(&mut cpu, 1);
    assert_eq!(&cpu.memory[0x300..0x303], &[11, 22, 33]);
    assert_eq!(cpu.memory[0x303], 0);
    assert_eq!(cpu.i, 0x300);

    let mut cpu = fresh();
    cpu.memory[0x310] = 7;
    cpu.memory[0x311] = 8;
    cpu.i = 0x310;
    cpu.v[2] = 99;
    cpu.load_rom(&vec![0xF1, 0x65]);
    run(&mut cpu, 1);
    assert_eq!(cpu.v[0], 7);
    assert_eq!(cpu.v[1], 8);
    assert_eq!(cpu.v[2], 99);
}

#[test]
fn block_store_wraps_addresses() {
    let mut cpu = fresh();
    cpu.v[0] = 0xAA;
    cpu.v[1] = 0xBB;
    cpu.i = 4095;
    cpu.load_rom(&vec![0xF1, 0x55]);
    run(&mut cpu, 1);
    assert_eq!(cpu.memory[4095], 0xAA);
    assert_eq!(cpu.memory[0], 0xBB);
}

#[test]
fn key_skip_uses_same_condition_for_both_patterns() {
    // pressed: both patterns skip
    for op in [[0xE0u8, 0x9E], [0xE0, 0xA1]] {
        let mut cpu = fresh();
        cpu.keypad[5] = true;
        cpu.v[0] = 5;
        cpu.load_rom(&vec![op[0], op[1]]);
        run(&mut cpu, 1);
        assert_eq!(cpu.pc, 0x204);
    }
    // not pressed: neither pattern skips
    for op in [[0xE0u8, 0x9E], [0xE0, 0xA1]] {
        let mut cpu = fresh();
        cpu.v[0] = 5;
        cpu.load_rom(&vec![op[0], op[1]]);
        run(&mut cpu, 1);
        assert_eq!(cpu.pc, 0x202);
    }
}

#[test]
fn wait_key_is_noop() {
    let mut cpu = fresh();
    cpu.load_rom(&vec![0xF0, 0x0A]);
    assert!(cpu.can_step());
    let ev = cpu.emulate_cycle();
    assert_eq!(ev, StepEvent::Executed);
    assert_eq!(cpu.pc, 0x202);
    assert_eq!(cpu.v[0], 0);
}

#[test]
fn unknown_opcode_reported_and_harmless() {
    let mut cpu = fresh();
    cpu.load_rom(&vec![0x01, 0x23]);
    assert!(cpu.can_step());
    let ev = cpu.emulate_cycle();
    assert_eq!(ev, StepEvent::Unknown(0x0123));
    assert_eq!(cpu.pc, 0x202);
    assert!(cpu.v.iter().all(|r| *r == 0));

    let mut cpu = fresh();
    cpu.load_rom(&vec![0x60, 0x01]);
    let ev = cpu.emulate_cycle();
    assert_eq!(ev, StepEvent::Executed);
}

#[test]
fn random_byte_is_masked() {
    let mut cpu = fresh();
    cpu.load_rom(&vec![0xC0, 0x0F]);
    run(&mut cpu, 1);
    assert_eq!(cpu.v[0] & 0xF0, 0);
}

#[test]
fn step_with_random_is_exact() {
    let mut cpu = fresh();
    cpu.load_rom(&vec![0xC0, 0xFF]);
    assert!(cpu.can_step());
    cpu.step_with_random(0xAB);
    assert_eq!(cpu.v[0], 0xAB);

    let mut cpu = fresh();
    cpu.load_rom(&vec![0xC0, 0x0F]);
    cpu.step_with_random(0xAB);
    assert_eq!(cpu.v[0], 0x0B);
}

#[test]
fn can_step_rejects_bad_states() {
    let mut cpu = fresh();
    cpu.pc = 4095;
    assert!(!cpu.can_step());
    cpu.pc = 4094;
    assert!(cpu.can_step());

    // block load whose unwrapped addresses would overrun memory
    let mut cpu = fresh();
    cpu.load_rom(&vec![0xFF, 0x65]);
    cpu.i = 4090;
    assert!(!cpu.can_step());
    cpu.i = 4080;
    assert!(cpu.can_step());

    // key skip naming a key outside the keypad
    let mut cpu = fresh();
    cpu.load_rom(&vec![0xE0, 0x9E]);
    cpu.v[0] = 20;
    assert!(!cpu.can_step());
    cpu.v[0] = 15;
    assert!(cpu.can_step());
}

#[test]
fn bcd_wraps_addresses() {
    let mut cpu = fresh();
    cpu.v[0] = 123;
    cpu.i = 4095;
    cpu.load_rom(&vec![0xF0, 0x33]);
    run(&mut cpu, 1);
    assert_eq!(cpu.memory[4095], 1);
    assert_eq!(cpu.memory[0], 2);
    assert_eq!(cpu.memory[1], 3);
}

#[test]
fn draw_sprite_read_wraps_memory() {
    let mut cpu = fresh();
    cpu.i = 4095;
    cpu.memory[4095] = 0x80;
    cpu.memory[0] = 0x80;
    cpu.draw(2, 0, 0);
    assert!(cpu.display[0]);
    assert!(cpu.display[64]);
    assert_eq!(cpu.v[0xF], 0);
}
