use chip8_vm::decode::{get_address, get_constant, get_op_code, get_x, get_y, lsfr};
use chip8_vm::input::Input;
use chip8_vm::memory::Memory;
use chip8_vm::screen::Screen;
use chip8_vm::vm::Vm;

/// A machine with `program` loaded at 0x200.
fn machine_with(program: &[u16]) -> Vm {
    let mut bytes = Vec::new();
    for op in program {
        bytes.push((op >> 8) as u8);
        bytes.push((op & 0xFF) as u8);
    }
    let mut vm = Vm::new();
    vm.load(&bytes);
    vm
}

fn run(vm: &mut Vm, cycles: usize) {
    for _ in 0..cycles {
        assert!(vm.can_step());
        vm.step();
    }
}

#[test]
fn decode_fields_of_one_instruction() {
    let op = 0xD12F;
    assert_eq!(get_op_code(op), 0xD);
    assert_eq!(get_x(op), 1);
    assert_eq!(get_y(op), 2);
    assert_eq!(get_constant(op), 0x2F);
    assert_eq!(get_address(op), 0x12F);
}

#[test]
fn lsfr_shifts_in_the_feedback_bit() {
    assert_eq!(lsfr(0x00), 0x00);
    assert_eq!(lsfr(0x80), 0x01);
    assert_eq!(lsfr(0x01), 0x02);
    assert_eq!(lsfr(0xB8), 0x70);
    assert_eq!(lsfr(0xFF), 0xFE);
    assert_eq!(lsfr(0x18), 0x30);
}

#[test]
fn new_machine_starts_at_0x200_with_zeroed_state() {
    let vm = Vm::new();
    assert_eq!(vm.program_counter(), 0x200);
    assert_eq!(vm.address_register(), 0);
    for i in 0..16 {
        assert_eq!(vm.register(i), 0);
    }
    assert_eq!(vm.delay_timer(), 0);
    assert_eq!(vm.sound_timer(), 0);
    assert_eq!(vm.cycle_count(), 0);
    assert_eq!(vm.memory().get(0), 0);
    assert_eq!(vm.memory().get(4095), 0);
    assert!(!vm.display().pixel(0, 0));
}

#[test]
fn load_writes_program_at_program_counter() {
    let mut vm = Vm::new();
    vm.load(&[0x12, 0x34, 0x56]);
    assert_eq!(vm.memory().get(0x1FF), 0);
    assert_eq!(vm.memory().get(0x200), 0x12);
    assert_eq!(vm.memory().get(0x201), 0x34);
    assert_eq!(vm.memory().get(0x202), 0x56);
    assert_eq!(vm.memory().get(0x203), 0);
    assert_eq!(vm.get_op(0x200), 0x1234);
}

#[test]
fn get_block_reads_consecutive_bytes() {
    let mut mem = Memory::new();
    mem.set(10, 1);
    mem.set(11, 2);
    mem.set(12, 3);
    assert_eq!(mem.get_block(10, 3), vec![1, 2, 3]);
    assert_eq!(mem.get_block(4095, 1), vec![0]);
    assert_eq!(mem.get_block(4096, 0), Vec::<u8>::new());
}

#[test]
fn dump_memory_prints_hex_sixteen_to_a_line() {
    let mut mem = Memory::new();
    mem.set(0, 0xAB);
    mem.set(15, 0x0F);
    mem.set(16, 0xE0);
    let dump = mem.dump_memory();
    assert!(dump.starts_with("ab 00 00 00 00 00 00 00 00 00 00 00 00 00 00 0f \ne0 00 "));
    assert_eq!(dump.len(), 4096 * 3 + 256);
    assert_eq!(dump.lines().count(), 256);
}

#[test]
fn jump_sets_program_counter() {
    let mut vm = machine_with(&[0x1ABC]);
    run(&mut vm, 1);
    assert_eq!(vm.program_counter(), 0xABC);
}

#[test]
fn load_constant_then_skip_if_equal() {
    let mut vm = machine_with(&[0x6A05, 0x3A05, 0x0000, 0x4A05]);
    run(&mut vm, 2);
    assert_eq!(vm.register(0xA), 5);
    assert_eq!(vm.program_counter(), 0x206);
    run(&mut vm, 1);
    assert_eq!(vm.program_counter(), 0x208);
}

#[test]
fn skip_if_not_equal_and_register_compares() {
    let mut vm = machine_with(&[0x6103, 0x4104, 0x0000, 0x6203, 0x5120, 0x0000, 0x9120]);
    run(&mut vm, 2);
    assert_eq!(vm.program_counter(), 0x206);
    run(&mut vm, 2);
    assert_eq!(vm.program_counter(), 0x20C);
    run(&mut vm, 1);
    assert_eq!(vm.program_counter(), 0x20E);
}

#[test]
fn add_constant() {
    let mut vm = machine_with(&[0x6A05, 0x7A03]);
    run(&mut vm, 2);
    assert_eq!(vm.register(0xA), 8);
}

#[test]
fn arithmetic_and_logic_with_flag() {
    let mut vm = machine_with(&[0x61F0, 0x620F, 0x8121]);
    run(&mut vm, 3);
    assert_eq!(vm.register(1), 0xFF);

    let mut vm = machine_with(&[0x61F0, 0x623C, 0x8122]);
    run(&mut vm, 3);
    assert_eq!(vm.register(1), 0x30);

    let mut vm = machine_with(&[0x61F0, 0x623C, 0x8123]);
    run(&mut vm, 3);
    assert_eq!(vm.register(1), 0xCC);

    let mut vm = machine_with(&[0x61FF, 0x6202, 0x8124]);
    run(&mut vm, 3);
    assert_eq!(vm.register(1), 0x01);
    assert_eq!(vm.register(15), 1);

    let mut vm = machine_with(&[0x6110, 0x6202, 0x8124]);
    run(&mut vm, 3);
    assert_eq!(vm.register(1), 0x12);
    assert_eq!(vm.register(15), 0);

    let mut vm = machine_with(&[0x6101, 0x6202, 0x8125]);
    run(&mut vm, 3);
    assert_eq!(vm.register(1), 0xFF);
    assert_eq!(vm.register(15), 0);

    let mut vm = machine_with(&[0x6105, 0x6202, 0x8125]);
    run(&mut vm, 3);
    assert_eq!(vm.register(1), 0x03);
    assert_eq!(vm.register(15), 1);

    let mut vm = machine_with(&[0x6105, 0x8106]);
    run(&mut vm, 2);
    assert_eq!(vm.register(1), 0x02);
    assert_eq!(vm.register(15), 1);

    let mut vm = machine_with(&[0x6105, 0x6207, 0x8127]);
    run(&mut vm, 3);
    assert_eq!(vm.register(2), 0x02);
    assert_eq!(vm.register(1), 0x05);
    assert_eq!(vm.register(15), 1);

    let mut vm = machine_with(&[0x6181, 0x8108]);
    run(&mut vm, 2);
    assert_eq!(vm.register(1), 0x02);
    assert_eq!(vm.register(15), 0x80);

    let mut vm = machine_with(&[0x6133, 0x6244, 0x8120]);
    run(&mut vm, 3);
    assert_eq!(vm.register(1), 0x44);
}

#[test]
fn index_register_and_indexed_jump() {
    let mut vm = machine_with(&[0xA300, 0x6010, 0xB000]);
    run(&mut vm, 3);
    assert_eq!(vm.address_register(), 0x300);
    assert_eq!(vm.program_counter(), 0x310);
}

#[test]
fn random_uses_the_cycle_count() {
    // At the fourth cycle the cycle count is 3: lsfr(3) = 6.
    let mut vm = machine_with(&[0x0000, 0x0000, 0x0000, 0xC1FF]);
    let notice = vm.step();
    assert_eq!(notice, Some(0x0000));
    run(&mut vm, 3);
    assert_eq!(vm.register(1), lsfr(3));
    assert_eq!(vm.register(1), 6);
    assert_eq!(vm.cycle_count(), 4);
}

#[test]
fn unknown_system_instructions_are_reported() {
    let mut vm = machine_with(&[0x0123, 0x00EE, 0x2456, 0x20EE]);
    assert_eq!(vm.step(), Some(0x0123));
    assert_eq!(vm.step(), None);
    assert_eq!(vm.step(), Some(0x0456));
    assert_eq!(vm.step(), None);
    assert_eq!(vm.program_counter(), 0x208);
}

#[test]
fn draw_sprite_sets_pixels_and_flag() {
    // Sprite 0xF0 at (0, 0): bit i goes to column 8 - i, so columns 1..=4 light up.
    let mut mem = Memory::new();
    mem.set(0x300, 0xF0);
    mem.set(0x301, 0xFF);
    let program: [u16; 6] = [0xA300, 0x6000, 0x6100, 0xD011, 0xA301, 0xD011];
    for (i, op) in program.iter().enumerate() {
        mem.set(0x200 + 2 * i, (op >> 8) as u8);
        mem.set(0x201 + 2 * i, (op & 0xFF) as u8);
    }
    let mut vm = Vm::new_with_memory(mem);
    run(&mut vm, 4);
    assert!(!vm.display().pixel(0, 0));
    for x in 1..=4 {
        assert!(vm.display().pixel(x, 0));
    }
    for x in 5..=8 {
        assert!(!vm.display().pixel(x, 0));
    }
    assert_eq!(vm.register(15), 0);
    run(&mut vm, 2);
    for x in 1..=8 {
        assert!(vm.display().pixel(x, 0));
    }
    // Columns 1..=4 were already on, so not every pixel changed.
    assert_eq!(vm.register(15), 0);
}

#[test]
fn draw_reports_when_every_pixel_changes() {
    let mut screen = Screen::new();
    assert!(screen.draw(vec![0xFF, 0xFF], 10, 5));
    assert!(screen.pixel(11, 5));
    assert!(screen.pixel(18, 6));
    assert!(!screen.pixel(10, 5));
    assert!(!screen.pixel(11, 7));
    // A row of zeros on dark pixels changes none of them.
    assert!(!screen.draw(vec![0x00], 10, 9));
    // Drawing the same sprite again changes nothing.
    assert!(!screen.draw(vec![0xFF, 0xFF], 10, 5));
    assert!(screen.pixel(11, 5));
    assert!(screen.draw(vec![], 0, 0));
}

#[test]
fn screen_set_reports_change() {
    let mut screen = Screen::new();
    assert!(screen.set(true, 63, 31));
    assert!(!screen.set(true, 63, 31));
    assert!(screen.pixel(63, 31));
    assert!(screen.set(false, 63, 31));
    assert!(!screen.draw_line(0x00, 0, 0));
    assert!(!screen.draw_line(0x81, 0, 0));
    assert!(screen.pixel(1, 0));
    assert!(screen.pixel(8, 0));
    assert!(screen.draw_line(0x7E, 0, 0));
    assert!(!screen.pixel(1, 0));
    assert!(screen.pixel(2, 0));
    assert!(screen.pixel(7, 0));
    assert!(!screen.pixel(8, 0));
}

#[test]
fn clear_turns_every_pixel_off() {
    let mut vm = machine_with(&[0x6000, 0xA200, 0xD001, 0x00E0]);
    run(&mut vm, 3);
    // The sprite is the first program byte, 0x60: bits 6 and 5, columns 2 and 3.
    assert!(vm.display().pixel(2, 0));
    assert!(vm.display().pixel(3, 0));
    run(&mut vm, 1);
    for y in 0..32 {
        for x in 0..64 {
            assert!(!vm.display().pixel(x, y));
        }
    }
    let mut screen = Screen::new();
    screen.set(true, 3, 3);
    screen.clear();
    assert!(!screen.pixel(3, 3));
}

#[test]
fn call_of_0e0_clears_the_display() {
    let mut vm = machine_with(&[0xA200, 0x6000, 0xD001, 0x20E0]);
    run(&mut vm, 3);
    // The sprite is the first program byte, 0xA2: bits 7, 5 and 1.
    assert!(vm.display().pixel(1, 0));
    assert!(vm.display().pixel(3, 0));
    assert!(vm.display().pixel(7, 0));
    run(&mut vm, 1);
    assert!(!vm.display().pixel(1, 0));
    assert!(!vm.display().pixel(7, 0));
    assert_eq!(vm.program_counter(), 0x208);
}

#[test]
fn render_shows_blocks_and_spaces() {
    let mut screen = Screen::new();
    screen.set(true, 0, 0);
    screen.set(true, 63, 1);
    let text = screen.render();
    let lines: Vec<&str> = text.lines().collect();
    assert_eq!(lines.len(), 32);
    assert_eq!(lines[0].chars().count(), 64);
    assert_eq!(lines[0].chars().next(), Some('█'));
    assert_eq!(lines[1].chars().nth(63), Some('█'));
    assert_eq!(lines[1].chars().nth(0), Some(' '));
    assert!(text.ends_with('\n'));
}

#[test]
fn timers_and_sprite_address() {
    let mut vm = machine_with(&[0xF315, 0xF418, 0xF507, 0x610C, 0xF129, 0xA010, 0xF21E]);
    run(&mut vm, 3);
    // FX15 and FX18 take the index X itself.
    assert_eq!(vm.delay_timer(), 3);
    assert_eq!(vm.sound_timer(), 4);
    assert_eq!(vm.register(5), 3);
    run(&mut vm, 2);
    assert_eq!(vm.address_register(), 0x0C);
    run(&mut vm, 2);
    assert_eq!(vm.address_register(), 0x12);
}

#[test]
fn decimal_digits_store() {
    let mut vm = machine_with(&[0x60FE, 0xA300, 0xF033]);
    run(&mut vm, 3);
    assert_eq!(vm.memory().get(0x300), 2);
    assert_eq!(vm.memory().get(0x301), 5);
    assert_eq!(vm.memory().get(0x302), 4);
    assert_eq!(vm.memory().get(0x303), 0);
}

#[test]
fn store_then_load_registers() {
    let mut vm = machine_with(&[0x6011, 0x6F22, 0xA400, 0xFF55, 0x6000, 0x6F00, 0xF065]);
    run(&mut vm, 4);
    assert_eq!(vm.memory().get(0x400), 0x11);
    assert_eq!(vm.memory().get(0x40F), 0x22);
    run(&mut vm, 2);
    assert_eq!(vm.register(0), 0);
    run(&mut vm, 1);
    assert_eq!(vm.register(0), 0x11);
    assert_eq!(vm.register(15), 0x22);
}

#[test]
fn wait_for_key_repeats_until_a_key_is_pressed() {
    let mut vm = machine_with(&[0xF30A]);
    run(&mut vm, 2);
    assert_eq!(vm.program_counter(), 0x200);
    vm.press_key(9);
    vm.press_key(12);
    run(&mut vm, 1);
    assert_eq!(vm.program_counter(), 0x202);
    assert_eq!(vm.register(3), 9);
}

#[test]
fn key_skips() {
    let mut vm = machine_with(&[0x6107, 0xE19E, 0x0000, 0xE1A1, 0x0000]);
    run(&mut vm, 2);
    assert_eq!(vm.program_counter(), 0x204);
    run(&mut vm, 2);
    assert_eq!(vm.program_counter(), 0x20A);
    let mut vm = machine_with(&[0x6107, 0xE19E]);
    vm.press_key(7);
    run(&mut vm, 2);
    assert_eq!(vm.program_counter(), 0x206);
}

#[test]
fn keypad_scan() {
    let mut input = Input::new();
    assert!(!input.any_pressed());
    assert_eq!(input.get_key_pressed(), 0);
    input.set(11);
    input.set(4);
    assert!(input.any_pressed());
    assert!(input.is_set(4));
    assert!(!input.is_set(5));
    assert_eq!(input.get_key_pressed(), 4);
}

#[test]
fn cycle_count_wraps() {
    let mut vm = machine_with(&[0x1200]);
    run(&mut vm, 256);
    assert_eq!(vm.cycle_count(), 0);
    assert_eq!(vm.program_counter(), 0x200);
    run(&mut vm, 3);
    assert_eq!(vm.cycle_count(), 3);
}

#[test]
fn preconditions_are_checked() {
    let mut vm = machine_with(&[0x61FF, 0x71FF]);
    run(&mut vm, 1);
    assert!(!vm.can_step());
    assert!(!vm.can_execute(0x71FF));
    assert!(vm.can_execute(0x7100));
    let mut vm = machine_with(&[0x1FFF]);
    run(&mut vm, 1);
    assert!(!vm.can_step());
    let mut vm = Vm::new();
    assert!(vm.can_execute(0xD01F));
    assert!(vm.can_execute(0xF855));
    vm.execute(0x6039);
    // A sprite at column 57 would run past the right edge.
    assert!(!vm.can_execute(0xD011));
    assert!(vm.can_execute(0xD010));
    vm.execute(0xAFFF);
    assert!(!vm.can_execute(0xF855));
    assert!(!vm.can_execute(0xF033));
    assert!(!vm.can_execute(0xD112));
    assert!(vm.can_execute(0xD111));
    vm.execute(0x6110);
    assert!(!vm.can_execute(0xE19E));
}

#[test]
fn decoded_fields_recompose_the_instruction() {
    for op in [0x0000u16, 0x1234, 0xABCD, 0xFFFF, 0x8A5E] {
        assert_eq!((get_op_code(op) as u16) * 4096 + get_address(op), op);
        assert_eq!(get_address(op), (get_x(op) as u16) * 256 + get_constant(op) as u16);
        assert_eq!(
            get_constant(op),
            get_y(op) * 16 + chip8_vm::decode::get_4_bit_constant(op)
        );
    }
}

#[test]
fn execute_reports_jumps_and_notices() {
    let mut vm = Vm::new();
    assert_eq!(vm.execute(0x1456), (Some(0x456), None));
    assert_eq!(vm.execute(0x00EE), (None, None));
    assert_eq!(vm.execute(0x0FFF), (None, Some(0x0FFF)));
    assert_eq!(vm.execute(0x2FFF), (None, Some(0x0FFF)));
    assert_eq!(vm.execute(0x3000), (Some(0x204), None));
    assert_eq!(vm.execute(0x3001), (None, None));
    assert_eq!(vm.execute(0xF00A), (Some(0x200), None));
    assert_eq!(vm.execute(0xE09E), (None, None));
    assert_eq!(vm.execute(0xE0A1), (Some(0x204), None));
    // Execution leaves the program counter to the cycle.
    assert_eq!(vm.program_counter(), 0x200);
}

#[test]
fn update_program_counter_moves_on_or_jumps() {
    let mut vm = Vm::new();
    vm.update_program_counter(None);
    assert_eq!(vm.program_counter(), 0x202);
    vm.update_program_counter(Some(0x300));
    assert_eq!(vm.program_counter(), 0x300);
}
