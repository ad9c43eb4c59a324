use chip8::display::DisplayInstruction;
use chip8::fault::Fault;
use chip8::instruction::Instruction;
use chip8::interpreter::{Chip8, TIMER_DECREMENT_NANOS};
use chip8::keypad::{Event, Key};
use chip8::operation::Operation;
use chip8::settings::Settings;
use crossbeam_channel::{unbounded, Receiver, Sender};

fn machine_with(
    settings: Settings,
    program: &[u8],
) -> (Chip8, Receiver<DisplayInstruction>, Sender<Event>) {
    let (display_sender, display_receiver) = unbounded();
    let (event_sender, event_receiver) = unbounded();
    let chip8 = Chip8::new(settings, program, display_sender, event_receiver);
    (chip8, display_receiver, event_sender)
}

fn machine(program: &[u8]) -> (Chip8, Receiver<DisplayInstruction>, Sender<Event>) {
    machine_with(Settings::default(), program)
}

fn run(chip8: &mut Chip8, word: u16) {
    assert_eq!(chip8.execute(Instruction::new(word)), Ok(()), "word {:#06x}", word);
}

fn registers(chip8: &Chip8) -> Vec<u8> {
    (0..16).map(|register| chip8.register(register)).collect()
}

#[test]
fn fresh_machine() {
    let (chip8, display, _events) = machine(&[0x60, 0x01]);
    assert_eq!(chip8.program_counter(), 0x200);
    assert_eq!(chip8.index_register(), 0);
    assert_eq!(registers(&chip8), vec![0; 16]);
    assert_eq!(chip8.delay_timer(), 0);
    assert_eq!(chip8.sound_timer(), 0);
    assert_eq!(chip8.memory_byte(0x200), 0x60);
    assert_eq!(chip8.memory_byte(0x201), 0x01);
    assert_eq!(chip8.memory_byte(0x202), 0x00);
    assert!(!chip8.pixel(0, 0));
    assert!(!chip8.has_stopped());
    assert!(chip8.display_is_open());
    assert!(display.try_recv().is_err());
}

#[test]
fn scenario_6a05_sets_register_a_to_5() {
    let (mut chip8, _display, _events) = machine(&[]);
    run(&mut chip8, 0x6A05);
    assert_eq!(chip8.register(0xA), 5);
    for register in (0..16).filter(|&register| register != 0xA) {
        assert_eq!(chip8.register(register), 0);
    }
    assert_eq!(chip8.program_counter(), 0x200);
}

#[test]
fn scenario_a300_then_d010_leaves_vf_zero() {
    let mut program = vec![0u8; 0x101];
    program[0x100] = 0b1000_0001;
    let (mut chip8, display, _events) = machine(&program);
    assert_eq!(chip8.memory_byte(0x300), 0b1000_0001);
    chip8.set_value(0xF, 1);
    run(&mut chip8, 0xA300);
    assert_eq!(chip8.index_register(), 0x300);
    run(&mut chip8, 0xD010);
    assert_eq!(chip8.register(0xF), 0);
    assert_eq!(chip8.register(0), 0);
    assert_eq!(chip8.register(1), 0);
    assert_eq!(chip8.index_register(), 0x300);
    // The word asks for a sprite of height 0: no row is drawn.
    assert!(display.try_recv().is_err());
}

#[test]
fn scenario_one_row_sprite_at_the_origin() {
    let mut program = vec![0u8; 0x101];
    program[0x100] = 0b1000_0001;
    let (mut chip8, display, _events) = machine(&program);
    run(&mut chip8, 0xA300);
    run(&mut chip8, 0xD011);
    assert_eq!(chip8.register(0xF), 0);
    assert!(chip8.pixel(0, 0));
    assert!(chip8.pixel(7, 0));
    for x in 1..7 {
        assert!(!chip8.pixel(x, 0));
    }
    assert!(!chip8.pixel(0, 1));
    let changes: Vec<DisplayInstruction> = display.try_iter().collect();
    assert_eq!(
        changes,
        vec![
            DisplayInstruction::SetPixel { value: true, index: 0 },
            DisplayInstruction::SetPixel { value: true, index: 7 },
        ]
    );
}

#[test]
fn scenario_return_with_empty_stack_fails() {
    let (mut chip8, _display, _events) = machine(&[]);
    run(&mut chip8, 0x6105);
    let before = (chip8.program_counter(), chip8.index_register(), registers(&chip8));
    assert_eq!(chip8.execute(Instruction::new(0x00EE)), Err(Fault::StackUnderflow));
    let after = (chip8.program_counter(), chip8.index_register(), registers(&chip8));
    assert_eq!(before, after);
}

#[test]
fn unknown_instruction_names_word_and_program_counter() {
    let (mut chip8, _display, _events) = machine(&[0xFF, 0xFF]);
    assert_eq!(
        chip8.execute(Instruction::new(0x8AB8)),
        Err(Fault::UnknownInstruction { instruction: 0x8AB8, program_counter: 0x200 })
    );
    assert_eq!(
        chip8.step(),
        Err(Fault::UnknownInstruction { instruction: 0xFFFF, program_counter: 0x202 })
    );
    assert_eq!(chip8.program_counter(), 0x202);
}

#[test]
fn perform_reports_stack_underflow_only_for_return() {
    let (mut chip8, _display, _events) = machine(&[]);
    assert_eq!(chip8.perform(Operation::Return, 0), Err(Fault::StackUnderflow));
    assert_eq!(chip8.perform(Operation::Call { address: 0x400 }, 0), Ok(()));
    assert_eq!(chip8.perform(Operation::Return, 0), Ok(()));
    assert_eq!(chip8.program_counter(), 0x200);
}

#[test]
fn add_sets_carry_exactly_when_the_sum_passes_255() {
    let (mut chip8, _display, _events) = machine(&[]);
    for (a, b, sum, carry) in [
        (0u8, 0u8, 0u8, 0u8),
        (1, 2, 3, 0),
        (255, 0, 255, 0),
        (254, 1, 255, 0),
        (255, 1, 0, 1),
        (128, 128, 0, 1),
        (200, 100, 44, 1),
        (255, 255, 254, 1),
    ] {
        chip8.set_value(1, a);
        chip8.set_value(2, b);
        run(&mut chip8, 0x8124);
        assert_eq!(chip8.register(1), sum, "{} + {}", a, b);
        assert_eq!(chip8.register(2), b);
        assert_eq!(chip8.register(0xF), carry, "{} + {}", a, b);
    }
}

#[test]
fn add_carry_for_all_pairs() {
    let (mut chip8, _display, _events) = machine(&[]);
    for a in 0..=255u8 {
        for b in 0..=255u8 {
            chip8.set_value(3, a);
            chip8.set_value(4, b);
            chip8.add_register(3, 4);
            let wide = a as u16 + b as u16;
            assert_eq!(chip8.register(3), (wide % 256) as u8);
            assert_eq!(chip8.register(0xF), if wide > 255 { 1 } else { 0 });
        }
    }
}

#[test]
fn subtract_sets_flag_exactly_when_nothing_is_borrowed() {
    let (mut chip8, _display, _events) = machine(&[]);
    for (a, b, difference, flag) in [
        (5u8, 3u8, 2u8, 1u8),
        (3, 5, 254, 0),
        (7, 7, 0, 1),
        (0, 1, 255, 0),
        (0, 0, 0, 1),
        (255, 0, 255, 1),
        (0, 255, 1, 0),
    ] {
        chip8.set_value(1, a);
        chip8.set_value(2, b);
        run(&mut chip8, 0x8125);
        assert_eq!(chip8.register(1), difference, "{} - {}", a, b);
        assert_eq!(chip8.register(0xF), flag, "{} - {}", a, b);
    }
}

#[test]
fn subtract_flag_for_all_pairs() {
    let (mut chip8, _display, _events) = machine(&[]);
    for a in 0..=255u8 {
        for b in 0..=255u8 {
            chip8.set_value(3, a);
            chip8.set_value(4, b);
            chip8.sub_register_xy(3, 4);
            assert_eq!(chip8.register(3), a.wrapping_sub(b));
            assert_eq!(chip8.register(0xF), if a >= b { 1 } else { 0 });
        }
    }
}

#[test]
fn reverse_subtract() {
    let (mut chip8, _display, _events) = machine(&[]);
    for (a, b, difference, flag) in
        [(3u8, 5u8, 2u8, 1u8), (5, 3, 254, 0), (7, 7, 0, 1), (1, 0, 255, 0)]
    {
        chip8.set_value(1, a);
        chip8.set_value(2, b);
        run(&mut chip8, 0x8127);
        assert_eq!(chip8.register(1), difference, "{} - {}", b, a);
        assert_eq!(chip8.register(0xF), flag, "{} - {}", b, a);
    }
}

#[test]
fn arithmetic_into_vf_keeps_the_flag() {
    let (mut chip8, _display, _events) = machine(&[]);
    chip8.set_value(0xF, 200);
    chip8.set_value(1, 100);
    run(&mut chip8, 0x8F14);
    assert_eq!(chip8.register(0xF), 1);
    chip8.set_value(0xF, 10);
    chip8.set_value(1, 20);
    run(&mut chip8, 0x8F15);
    assert_eq!(chip8.register(0xF), 0);
    chip8.set_value(0xF, 0b0000_0110);
    run(&mut chip8, 0x8FF6);
    assert_eq!(chip8.register(0xF), 0);
    chip8.set_value(0xF, 0b1000_0001);
    run(&mut chip8, 0x8FFE);
    assert_eq!(chip8.register(0xF), 1);
}

#[test]
fn add_value_wraps_and_leaves_vf_alone() {
    let (mut chip8, _display, _events) = machine(&[]);
    chip8.set_value(0xF, 7);
    run(&mut chip8, 0x63FF);
    run(&mut chip8, 0x7302);
    assert_eq!(chip8.register(3), 1);
    assert_eq!(chip8.register(0xF), 7);
    run(&mut chip8, 0x7310);
    assert_eq!(chip8.register(3), 0x11);
}

#[test]
fn register_copy_and_bitwise_operations() {
    let (mut chip8, _display, _events) = machine(&[]);
    chip8.set_value(1, 0b1100_1010);
    chip8.set_value(2, 0b1010_0110);
    run(&mut chip8, 0x8320);
    assert_eq!(chip8.register(3), 0b1010_0110);
    chip8.set_value(4, 0b1100_1010);
    run(&mut chip8, 0x8421);
    assert_eq!(chip8.register(4), 0b1110_1110);
    chip8.set_value(5, 0b1100_1010);
    run(&mut chip8, 0x8522);
    assert_eq!(chip8.register(5), 0b1000_0010);
    chip8.set_value(6, 0b1100_1010);
    run(&mut chip8, 0x8623);
    assert_eq!(chip8.register(6), 0b0110_1100);
    assert_eq!(chip8.register(1), 0b1100_1010);
    assert_eq!(chip8.register(2), 0b1010_0110);
    assert_eq!(chip8.register(0xF), 0);
}

#[test]
fn shift_right_without_assignment() {
    let (mut chip8, _display, _events) = machine(&[]);
    chip8.set_value(1, 0b0000_0101);
    chip8.set_value(2, 0b1111_0000);
    run(&mut chip8, 0x8126);
    assert_eq!(chip8.register(1), 0b0000_0010);
    assert_eq!(chip8.register(2), 0b1111_0000);
    assert_eq!(chip8.register(0xF), 1);
    run(&mut chip8, 0x8126);
    assert_eq!(chip8.register(1), 0b0000_0001);
    assert_eq!(chip8.register(0xF), 0);
}

#[test]
fn shift_right_with_assignment() {
    let settings = Settings { assign_shift: true, ..Settings::default() };
    let (mut chip8, _display, _events) = machine_with(settings, &[]);
    chip8.set_value(1, 0b0000_0101);
    chip8.set_value(2, 0b1111_0000);
    run(&mut chip8, 0x8126);
    assert_eq!(chip8.register(1), 0b0111_1000);
    assert_eq!(chip8.register(2), 0b1111_0000);
    assert_eq!(chip8.register(0xF), 0);
    chip8.set_value(2, 0b0000_0011);
    chip8.shift_right(1, 2);
    assert_eq!(chip8.register(1), 0b0000_0001);
    assert_eq!(chip8.register(0xF), 1);
}

#[test]
fn shift_left_without_assignment() {
    let (mut chip8, _display, _events) = machine(&[]);
    chip8.set_value(1, 0b1100_0001);
    chip8.set_value(2, 0b0000_1111);
    run(&mut chip8, 0x812E);
    assert_eq!(chip8.register(1), 0b1000_0010);
    assert_eq!(chip8.register(2), 0b0000_1111);
    assert_eq!(chip8.register(0xF), 1);
    chip8.set_value(1, 0b0100_0001);
    run(&mut chip8, 0x812E);
    assert_eq!(chip8.register(1), 0b1000_0010);
    assert_eq!(chip8.register(0xF), 0);
}

#[test]
fn shift_left_with_assignment() {
    let settings = Settings { assign_shift: true, ..Settings::default() };
    let (mut chip8, _display, _events) = machine_with(settings, &[]);
    chip8.set_value(1, 0b1100_0001);
    chip8.set_value(2, 0b0000_1111);
    run(&mut chip8, 0x812E);
    assert_eq!(chip8.register(1), 0b0001_1110);
    assert_eq!(chip8.register(0xF), 0);
    chip8.set_value(2, 0b1000_0000);
    chip8.shift_left(1, 2);
    assert_eq!(chip8.register(1), 0);
    assert_eq!(chip8.register(0xF), 1);
}

#[test]
fn jump_call_and_return() {
    let (mut chip8, _display, _events) = machine(&[]);
    run(&mut chip8, 0x1ABC);
    assert_eq!(chip8.program_counter(), 0xABC);
    run(&mut chip8, 0x2300);
    assert_eq!(chip8.program_counter(), 0x300);
    run(&mut chip8, 0x2400);
    assert_eq!(chip8.program_counter(), 0x400);
    run(&mut chip8, 0x00EE);
    assert_eq!(chip8.program_counter(), 0x300);
    run(&mut chip8, 0x00EE);
    assert_eq!(chip8.program_counter(), 0xABC);
    assert_eq!(chip8.execute(Instruction::new(0x00EE)), Err(Fault::StackUnderflow));
    assert_eq!(chip8.program_counter(), 0xABC);
}

#[test]
fn skips() {
    let (mut chip8, _display, _events) = machine(&[]);
    chip8.set_value(1, 0x42);
    chip8.set_value(2, 0x42);
    chip8.set_value(3, 0x43);
    run(&mut chip8, 0x3142);
    assert_eq!(chip8.program_counter(), 0x202);
    run(&mut chip8, 0x3143);
    assert_eq!(chip8.program_counter(), 0x202);
    run(&mut chip8, 0x4143);
    assert_eq!(chip8.program_counter(), 0x204);
    run(&mut chip8, 0x4142);
    assert_eq!(chip8.program_counter(), 0x204);
    run(&mut chip8, 0x5120);
    assert_eq!(chip8.program_counter(), 0x206);
    run(&mut chip8, 0x5130);
    assert_eq!(chip8.program_counter(), 0x206);
    run(&mut chip8, 0x9130);
    assert_eq!(chip8.program_counter(), 0x208);
    run(&mut chip8, 0x9120);
    assert_eq!(chip8.program_counter(), 0x208);
}

#[test]
fn program_counter_wraps_at_the_end_of_the_address_space() {
    let (mut chip8, _display, _events) = machine(&[]);
    chip8.jump(0xFFFE);
    chip8.skip_if_equals_value(0, 0);
    assert_eq!(chip8.program_counter(), 0x0000);
    chip8.jump(0x0000);
    chip8.get_key(0);
    assert_eq!(chip8.program_counter(), 0xFFFE);
}

#[test]
fn jump_with_offset_uses_v0_by_default() {
    let (mut chip8, _display, _events) = machine(&[]);
    chip8.set_value(0, 0x10);
    chip8.set_value(3, 0x20);
    run(&mut chip8, 0xB345);
    assert_eq!(chip8.program_counter(), 0x355);
    chip8.set_value(0, 0xFF);
    run(&mut chip8, 0xBFFF);
    assert_eq!(chip8.program_counter(), 0x10FE);
}

#[test]
fn jump_with_offset_uses_vx_where_asked() {
    let settings = Settings { jump_with_offset_add: true, ..Settings::default() };
    let (mut chip8, _display, _events) = machine_with(settings, &[]);
    chip8.set_value(0, 0x10);
    chip8.set_value(3, 0x20);
    run(&mut chip8, 0xB345);
    assert_eq!(chip8.program_counter(), 0x365);
}

#[test]
fn index_register_and_add_to_index() {
    let (mut chip8, _display, _events) = machine(&[]);
    run(&mut chip8, 0xAFFE);
    assert_eq!(chip8.index_register(), 0xFFE);
    chip8.set_value(1, 1);
    chip8.set_value(0xF, 9);
    run(&mut chip8, 0xF11E);
    assert_eq!(chip8.index_register(), 0xFFF);
    assert_eq!(chip8.register(0xF), 0);
    run(&mut chip8, 0xF11E);
    assert_eq!(chip8.index_register(), 0x1000);
    assert_eq!(chip8.register(0xF), 1);
    run(&mut chip8, 0xA123);
    chip8.set_value(1, 0xFF);
    run(&mut chip8, 0xF11E);
    assert_eq!(chip8.index_register(), 0x222);
    assert_eq!(chip8.register(0xF), 0);
}

#[test]
fn add_to_index_without_the_overflow_flag() {
    let settings = Settings { add_to_index_overflow: false, ..Settings::default() };
    let (mut chip8, _display, _events) = machine_with(settings, &[]);
    run(&mut chip8, 0xAFFF);
    chip8.set_value(1, 1);
    chip8.set_value(0xF, 9);
    run(&mut chip8, 0xF11E);
    assert_eq!(chip8.index_register(), 0x1000);
    assert_eq!(chip8.register(0xF), 9);
}

#[test]
fn add_to_index_wraps_at_sixteen_bits() {
    let (mut chip8, _display, _events) = machine(&[]);
    chip8.set_index(0xFFFF);
    chip8.set_value(1, 2);
    chip8.add_to_index(1);
    assert_eq!(chip8.index_register(), 0x0001);
    assert_eq!(chip8.register(0xF), 0);
}

#[test]
fn binary_coded_decimal() {
    let (mut chip8, _display, _events) = machine(&[]);
    run(&mut chip8, 0xA300);
    for (value, digits) in
        [(0u8, [0u8, 0, 0]), (7, [0, 0, 7]), (42, [0, 4, 2]), (199, [1, 9, 9]), (255, [2, 5, 5])]
    {
        chip8.set_value(4, value);
        run(&mut chip8, 0xF433);
        assert_eq!(
            [chip8.memory_byte(0x300), chip8.memory_byte(0x301), chip8.memory_byte(0x302)],
            digits
        );
    }
    assert_eq!(chip8.memory_byte(0x2FF), 0);
    assert_eq!(chip8.memory_byte(0x303), 0);
    assert_eq!(chip8.index_register(), 0x300);
}

#[test]
fn binary_coded_decimal_wraps_around_memory() {
    let (mut chip8, _display, _events) = machine(&[]);
    run(&mut chip8, 0xAFFF);
    chip8.set_value(0, 123);
    run(&mut chip8, 0xF033);
    assert_eq!(chip8.memory_byte(0xFFF), 1);
    assert_eq!(chip8.memory_byte(0x000), 2);
    assert_eq!(chip8.memory_byte(0x001), 3);
}

#[test]
fn store_registers_copies_v0_to_vx() {
    let (mut chip8, _display, _events) = machine(&[]);
    for register in 0..16u8 {
        chip8.set_value(register, 0x10 + register);
    }
    run(&mut chip8, 0xA400);
    run(&mut chip8, 0xF355);
    for offset in 0..4u16 {
        assert_eq!(chip8.memory_byte(0x400 + offset), 0x10 + offset as u8);
    }
    assert_eq!(chip8.memory_byte(0x404), 0);
    assert_eq!(chip8.memory_byte(0x3FF), 0);
    assert_eq!(chip8.index_register(), 0x400);
}

#[test]
fn load_registers_fills_v0_to_vx() {
    let mut program = vec![0u8; 0x210];
    for offset in 0..16 {
        program[0x200 + offset] = 0xA0 + offset as u8;
    }
    let (mut chip8, _display, _events) = machine(&program);
    chip8.set_value(3, 0x33);
    run(&mut chip8, 0xA400);
    run(&mut chip8, 0xF265);
    assert_eq!(chip8.register(0), 0xA0);
    assert_eq!(chip8.register(1), 0xA1);
    assert_eq!(chip8.register(2), 0xA2);
    assert_eq!(chip8.register(3), 0x33);
    assert_eq!(chip8.index_register(), 0x400);
    run(&mut chip8, 0xFF65);
    assert_eq!(registers(&chip8), (0..16).map(|offset| 0xA0 + offset).collect::<Vec<u8>>());
}

#[test]
fn block_transfers_advance_the_index_where_asked() {
    let settings = Settings { load_store_increment: true, ..Settings::default() };
    let (mut chip8, _display, _events) = machine_with(settings, &[]);
    run(&mut chip8, 0xA400);
    run(&mut chip8, 0xF355);
    assert_eq!(chip8.index_register(), 0x404);
    run(&mut chip8, 0xF065);
    assert_eq!(chip8.index_register(), 0x405);
    run(&mut chip8, 0xFF55);
    assert_eq!(chip8.index_register(), 0x415);
}

#[test]
fn store_then_load_restores_the_registers() {
    for x in 0..16u8 {
        for index in [0x000u16, 0x200, 0x300, 0xABC, 0xFF0, 0xFF8, 0xFFF] {
            let (mut chip8, _display, _events) = machine(&[]);
            for register in 0..16u8 {
                chip8.set_value(register, register.wrapping_mul(17).wrapping_add(3));
            }
            let saved = registers(&chip8);
            chip8.set_index(index);
            chip8.store_registers(x);
            for register in 0..=x {
                chip8.set_value(register, 0);
            }
            chip8.set_index(index);
            chip8.load_registers(x);
            assert_eq!(registers(&chip8), saved, "x {} index {:#05x}", x, index);
        }
    }
}

#[test]
fn store_then_load_with_index_increment() {
    let settings = Settings { load_store_increment: true, ..Settings::default() };
    let (mut chip8, _display, _events) = machine_with(settings, &[]);
    for register in 0..16u8 {
        chip8.set_value(register, 0xF0 - register);
    }
    let saved = registers(&chip8);
    chip8.set_index(0x500);
    chip8.store_registers(0xF);
    for register in 0..16u8 {
        chip8.set_value(register, 0);
    }
    chip8.set_index(0x500);
    chip8.load_registers(0xF);
    assert_eq!(registers(&chip8), saved);
    assert_eq!(chip8.index_register(), 0x510);
}

#[test]
fn timers_through_instructions() {
    let (mut chip8, _display, _events) = machine(&[]);
    chip8.set_value(1, 60);
    chip8.set_value(2, 30);
    run(&mut chip8, 0xF115);
    run(&mut chip8, 0xF218);
    assert_eq!(chip8.delay_timer(), 60);
    assert_eq!(chip8.sound_timer(), 30);
    run(&mut chip8, 0xF307);
    assert_eq!(chip8.register(3), 60);
}

#[test]
fn tick_needs_a_whole_period() {
    assert_eq!(TIMER_DECREMENT_NANOS, 16_666_667);
    let (mut chip8, _display, _events) = machine(&[]);
    chip8.set_value(1, 2);
    chip8.set_delay_timer_value(1);
    chip8.set_sound_timer_value(1);
    assert!(!chip8.tick(0));
    assert!(!chip8.tick(16_666_666));
    assert_eq!((chip8.delay_timer(), chip8.sound_timer()), (2, 2));
    assert!(chip8.tick(16_666_667));
    assert_eq!((chip8.delay_timer(), chip8.sound_timer()), (1, 1));
}

#[test]
fn tick_never_takes_more_than_one_step() {
    let (mut chip8, _display, _events) = machine(&[]);
    chip8.set_value(1, 10);
    chip8.set_delay_timer_value(1);
    chip8.set_value(1, 1);
    chip8.set_sound_timer_value(1);
    assert!(chip8.tick(10 * 16_666_667));
    assert_eq!((chip8.delay_timer(), chip8.sound_timer()), (9, 0));
    assert!(chip8.tick(u128::MAX));
    assert_eq!((chip8.delay_timer(), chip8.sound_timer()), (8, 0));
}

#[test]
fn random_keeps_only_the_masked_bits() {
    let (mut chip8, _display, _events) = machine(&[]);
    for _ in 0..200 {
        chip8.set_value(1, 0xFF);
        run(&mut chip8, 0xC10F);
        assert_eq!(chip8.register(1) & 0xF0, 0);
        chip8.set_value(2, 0xFF);
        run(&mut chip8, 0xC200);
        assert_eq!(chip8.register(2), 0);
        chip8.random(3, 0b1000_0001);
        assert_eq!(chip8.register(3) & 0b0111_1110, 0);
    }
}

#[test]
fn random_does_give_different_bytes() {
    let (mut chip8, _display, _events) = machine(&[]);
    let mut seen = [false; 256];
    for _ in 0..2000 {
        run(&mut chip8, 0xC1FF);
        seen[chip8.register(1) as usize] = true;
    }
    assert!(seen.iter().filter(|&&s| s).count() > 100);
}

#[test]
fn store_random_masks_the_given_byte() {
    let (mut chip8, _display, _events) = machine(&[]);
    chip8.store_random(5, 0b0011_1100, 0b1010_1010);
    assert_eq!(chip8.register(5), 0b0010_1000);
    assert_eq!(chip8.perform(Operation::Random { x: 6, mask: 0xF0 }, 0xAB), Ok(()));
    assert_eq!(chip8.register(6), 0xA0);
}

#[test]
fn key_skips() {
    let (mut chip8, _display, events) = machine(&[0x60, 0x00]);
    events.send(Event::KeyDown(Key::KeyW)).unwrap();
    assert_eq!(chip8.step(), Ok(()));
    assert_eq!(chip8.program_counter(), 0x202);
    chip8.set_value(1, 0x5);
    chip8.set_value(2, 0x6);
    run(&mut chip8, 0xE19E);
    assert_eq!(chip8.program_counter(), 0x204);
    run(&mut chip8, 0xE29E);
    assert_eq!(chip8.program_counter(), 0x204);
    run(&mut chip8, 0xE2A1);
    assert_eq!(chip8.program_counter(), 0x206);
    run(&mut chip8, 0xE1A1);
    assert_eq!(chip8.program_counter(), 0x206);
}

#[test]
fn key_skips_with_a_code_that_names_no_key() {
    let (mut chip8, _display, events) = machine(&[0x60, 0x00]);
    events.send(Event::KeyDown(Key::KeyX)).unwrap();
    assert_eq!(chip8.step(), Ok(()));
    chip8.set_value(1, 0x10);
    run(&mut chip8, 0xE19E);
    assert_eq!(chip8.program_counter(), 0x202);
    run(&mut chip8, 0xE1A1);
    assert_eq!(chip8.program_counter(), 0x204);
}

#[test]
fn key_wait_holds_the_program_counter_until_a_release() {
    let (mut chip8, _display, events) = machine(&[0xF3, 0x0A, 0x63, 0x01]);
    for _ in 0..10 {
        assert_eq!(chip8.step(), Ok(()));
        assert_eq!(chip8.program_counter(), 0x200);
        assert_eq!(chip8.register(3), 0);
    }
    events.send(Event::KeyDown(Key::KeyR)).unwrap();
    assert_eq!(chip8.step(), Ok(()));
    assert_eq!(chip8.program_counter(), 0x200);
    events.send(Event::KeyUp(Key::KeyR)).unwrap();
    assert_eq!(chip8.step(), Ok(()));
    assert_eq!(chip8.register(3), 0xD);
    assert_eq!(chip8.program_counter(), 0x202);
    assert_eq!(chip8.step(), Ok(()));
    assert_eq!(chip8.register(3), 1);
    assert_eq!(chip8.program_counter(), 0x204);
}

#[test]
fn key_wait_uses_a_release_only_once() {
    let (mut chip8, _display, events) = machine(&[0xF3, 0x0A, 0xF4, 0x0A]);
    events.send(Event::KeyUp(Key::Key1)).unwrap();
    assert_eq!(chip8.step(), Ok(()));
    assert_eq!(chip8.register(3), 1);
    assert_eq!(chip8.program_counter(), 0x202);
    for _ in 0..5 {
        assert_eq!(chip8.step(), Ok(()));
        assert_eq!(chip8.program_counter(), 0x202);
        assert_eq!(chip8.register(4), 0);
    }
}

#[test]
fn stop_is_latched_and_does_not_halt() {
    let (mut chip8, _display, events) = machine(&[0x61, 0x07, 0x62, 0x08]);
    events.send(Event::Stop).unwrap();
    assert!(!chip8.has_stopped());
    assert_eq!(chip8.step(), Ok(()));
    assert!(chip8.has_stopped());
    assert_eq!(chip8.step(), Ok(()));
    assert_eq!(chip8.register(2), 8);
    assert!(chip8.has_stopped());
}

#[test]
fn fetch_reads_big_endian_and_advances() {
    let (mut chip8, _display, _events) = machine(&[0xA3, 0x00, 0xD0, 0x10]);
    assert_eq!(chip8.fetch().value(), 0xA300);
    assert_eq!(chip8.program_counter(), 0x202);
    assert_eq!(chip8.fetch().value(), 0xD010);
    assert_eq!(chip8.program_counter(), 0x204);
    assert_eq!(chip8.fetch().value(), 0x0000);
}

#[test]
fn step_runs_a_small_program() {
    // V1 = 3; loop: V2 += 5; V1 -= 1 (by adding 255); skip the jump back once V1 is 0.
    let program = [0x61, 0x03, 0x72, 0x05, 0x71, 0xFF, 0x31, 0x00, 0x12, 0x02, 0x6E, 0x99];
    let (mut chip8, _display, _events) = machine(&program);
    for _ in 0..13 {
        assert_eq!(chip8.step(), Ok(()));
    }
    assert_eq!(chip8.register(1), 0);
    assert_eq!(chip8.register(2), 15);
    assert_eq!(chip8.register(0xE), 0x99);
    assert_eq!(chip8.program_counter(), 0x20C);
}

#[test]
fn clear_display_through_an_instruction() {
    let mut program = vec![0u8; 0x101];
    program[0x100] = 0xFF;
    let (mut chip8, display, _events) = machine(&program);
    run(&mut chip8, 0xA300);
    run(&mut chip8, 0xD011);
    assert_eq!(display.try_iter().count(), 8);
    run(&mut chip8, 0x00E0);
    for y in 0..32 {
        for x in 0..64 {
            assert!(!chip8.pixel(x, y));
        }
    }
    assert_eq!(display.try_iter().collect::<Vec<_>>(), vec![DisplayInstruction::Clear]);
    run(&mut chip8, 0x00E0);
    assert_eq!(display.try_iter().collect::<Vec<_>>(), vec![DisplayInstruction::Clear]);
}

#[test]
fn draw_twice_restores_the_frame() {
    let sprite = [0b1111_0000u8, 0b1001_0000, 0b1001_0000, 0b1001_0000, 0b1111_0000];
    let mut program = vec![0u8; 0x100];
    program.extend_from_slice(&sprite);
    let (mut chip8, display, _events) = machine(&program);
    chip8.set_value(1, 10);
    chip8.set_value(2, 5);
    chip8.set_index(0x300);
    // Something on the frame beforehand, partly under the sprite.
    chip8.set_value(3, 12);
    chip8.set_value(4, 5);
    run(&mut chip8, 0xD341);
    assert_eq!(chip8.register(0xF), 0);
    let before: Vec<bool> =
        (0..2048).map(|index| chip8.pixel(index % 64, index / 64)).collect();
    let _ = display.try_iter().count();

    run(&mut chip8, 0xD125);
    assert_eq!(chip8.register(0xF), 1);
    assert!(chip8.pixel(10, 5));
    assert!(!chip8.pixel(12, 5));
    assert!(chip8.pixel(10, 9));
    let first: Vec<DisplayInstruction> = display.try_iter().collect();
    assert_eq!(first.len(), 14);

    run(&mut chip8, 0xD125);
    assert_eq!(chip8.register(0xF), 1);
    let after: Vec<bool> = (0..2048).map(|index| chip8.pixel(index % 64, index / 64)).collect();
    assert_eq!(before, after);
    let second: Vec<DisplayInstruction> = display.try_iter().collect();
    assert_eq!(second.len(), 14);
    for (one, two) in first.iter().zip(second.iter()) {
        match (one, two) {
            (
                DisplayInstruction::SetPixel { value: v1, index: i1 },
                DisplayInstruction::SetPixel { value: v2, index: i2 },
            ) => {
                assert_eq!(i1, i2);
                assert_eq!(*v1, !*v2);
            }
            _ => panic!("a draw reports only cells"),
        }
    }
}

#[test]
fn draw_on_a_blank_frame_then_again_collides() {
    let mut program = vec![0u8; 0x101];
    program[0x100] = 0b0110_0000;
    let (mut chip8, _display, _events) = machine(&program);
    chip8.set_index(0x300);
    run(&mut chip8, 0xD011);
    assert_eq!(chip8.register(0xF), 0);
    assert!(chip8.pixel(1, 0) && chip8.pixel(2, 0));
    run(&mut chip8, 0xD011);
    assert_eq!(chip8.register(0xF), 1);
    assert!(!chip8.pixel(1, 0) && !chip8.pixel(2, 0));
}

#[test]
fn draw_reports_cells_in_drawing_order() {
    let mut program = vec![0u8; 0x102];
    program[0x100] = 0b1010_0000;
    program[0x101] = 0b0100_0001;
    let (mut chip8, display, _events) = machine(&program);
    chip8.set_index(0x300);
    chip8.set_value(1, 4);
    chip8.set_value(2, 3);
    run(&mut chip8, 0xD122);
    let changes: Vec<DisplayInstruction> = display.try_iter().collect();
    assert_eq!(
        changes,
        vec![
            DisplayInstruction::SetPixel { value: true, index: 4 + 3 * 64 },
            DisplayInstruction::SetPixel { value: true, index: 6 + 3 * 64 },
            DisplayInstruction::SetPixel { value: true, index: 5 + 4 * 64 },
            DisplayInstruction::SetPixel { value: true, index: 11 + 4 * 64 },
        ]
    );
}

#[test]
fn draw_wraps_the_start_position() {
    let mut program = vec![0u8; 0x101];
    program[0x100] = 0b1000_0000;
    let (mut chip8, _display, _events) = machine(&program);
    chip8.set_index(0x300);
    chip8.set_value(1, 64 + 3);
    chip8.set_value(2, 32 * 3 + 2);
    run(&mut chip8, 0xD121);
    assert!(chip8.pixel(3, 2));
    assert_eq!(chip8.register(1), 67);
    assert_eq!(chip8.register(2), 98);
}

#[test]
fn draw_clips_at_the_right_edge() {
    let mut program = vec![0u8; 0x101];
    program[0x100] = 0xFF;
    let (mut chip8, display, _events) = machine(&program);
    chip8.set_index(0x300);
    chip8.set_value(1, 60);
    chip8.set_value(2, 0);
    run(&mut chip8, 0xD121);
    for x in 60..64 {
        assert!(chip8.pixel(x, 0));
    }
    for x in 0..60 {
        assert!(!chip8.pixel(x, 0));
    }
    for x in 0..64 {
        assert!(!chip8.pixel(x, 1));
    }
    assert_eq!(display.try_iter().count(), 4);
    assert_eq!(chip8.register(0xF), 0);
}

#[test]
fn draw_clips_at_the_lower_edge() {
    let mut program = vec![0u8; 0x104];
    for row in 0..4 {
        program[0x100 + row] = 0b1000_0000;
    }
    let (mut chip8, display, _events) = machine(&program);
    chip8.set_index(0x300);
    chip8.set_value(1, 0);
    chip8.set_value(2, 30);
    run(&mut chip8, 0xD124);
    assert!(chip8.pixel(0, 30));
    assert!(chip8.pixel(0, 31));
    assert!(!chip8.pixel(0, 0));
    assert!(!chip8.pixel(0, 1));
    assert_eq!(
        display.try_iter().collect::<Vec<_>>(),
        vec![
            DisplayInstruction::SetPixel { value: true, index: 30 * 64 },
            DisplayInstruction::SetPixel { value: true, index: 31 * 64 },
        ]
    );
}

#[test]
fn draw_reads_the_sprite_across_the_end_of_memory() {
    let (mut chip8, _display, _events) = machine(&[]);
    chip8.set_index(0xFFF);
    chip8.set_value(0, 0b1000_0000);
    chip8.set_value(1, 0b0100_0000);
    chip8.store_registers(1);
    assert_eq!(chip8.memory_byte(0xFFF), 0b1000_0000);
    assert_eq!(chip8.memory_byte(0x000), 0b0100_0000);
    chip8.set_value(0, 0);
    chip8.set_value(1, 0);
    run(&mut chip8, 0xD012);
    assert!(chip8.pixel(0, 0));
    assert!(chip8.pixel(1, 1));
    assert!(!chip8.pixel(1, 0));
    assert!(!chip8.pixel(0, 1));
}

#[test]
fn draw_of_full_height() {
    let mut program = vec![0u8; 0x10F];
    for row in 0..15 {
        program[0x100 + row] = 0b0000_0001;
    }
    let (mut chip8, display, _events) = machine(&program);
    chip8.set_index(0x300);
    run(&mut chip8, 0xD01F);
    for y in 0..15 {
        assert!(chip8.pixel(7, y));
    }
    assert!(!chip8.pixel(7, 15));
    assert_eq!(display.try_iter().count(), 15);
}

#[test]
fn a_closed_display_feed_is_noticed_but_is_no_fault() {
    let mut program = vec![0u8; 0x101];
    program[0x100] = 0xFF;
    let (mut chip8, display, _events) = machine(&program);
    chip8.set_index(0x300);
    drop(display);
    assert!(chip8.display_is_open());
    run(&mut chip8, 0xD011);
    assert!(!chip8.display_is_open());
    assert!(chip8.pixel(0, 0));
    run(&mut chip8, 0x6105);
    assert!(!chip8.display_is_open());
}

#[test]
fn replaying_the_feed_rebuilds_the_frame() {
    let sprite = [0xF0u8, 0x90, 0x90, 0x90, 0xF0, 0x20, 0x60, 0x20, 0x20, 0x70];
    let mut program = vec![0u8; 0x100];
    program.extend_from_slice(&sprite);
    let (mut chip8, display, _events) = machine(&program);
    let mut replica = vec![false; 2048];
    let words = [
        0xA300u16, 0x6105, 0x6203, 0xD125, 0xA305, 0x6107, 0xD125, 0x613E, 0x621E, 0xD125, 0x00E0,
        0xA300, 0x6100, 0x6200, 0xD12A, 0xD125, 0x6101, 0xD125,
    ];
    for word in words {
        run(&mut chip8, word);
        for change in display.try_iter() {
            match change {
                DisplayInstruction::SetPixel { value, index } => replica[index] = value,
                DisplayInstruction::Clear => replica.fill(false),
            }
        }
        let frame: Vec<bool> =
            (0..2048).map(|index| chip8.pixel(index % 64, index / 64)).collect();
        assert_eq!(frame, replica, "after {:#06x}", word);
    }
    assert!(replica.iter().any(|&cell| cell));
}
