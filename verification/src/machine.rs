use crate::display::{blank_grid, DisplayInstruction, DisplayView};
use crate::fault::Fault;
use crate::keypad::{after_events, Event, KeypadView};
use crate::memory::{cell_of, loaded_image, word_at};
use crate::operation::{decode, Operation};
use crate::settings::Settings;
use crate::sprite::{collides, draw_events, drawn, lemma_draw_twice_restores, lights, sprite_at};
use vstd::prelude::*;

verus! {

/// Everything that the interpreter holds, as plain mathematical values.
pub struct Machine {
    pub settings: Settings,
    /// 4096 cells.
    pub memory: Seq<u8>,
    /// V0..VF.
    pub registers: Seq<u8>,
    /// Return addresses, most recent last.
    pub stack: Seq<u16>,
    pub program_counter: u16,
    pub index_register: u16,
    pub delay_timer: u8,
    pub sound_timer: u8,
    pub display: DisplayView,
    pub keypad: KeypadView,
}

impl Machine {
    /// The collections have the sizes that the hardware fixes.
    pub open spec fn well_formed(self) -> bool {
        &&& self.memory.len() == 4096
        &&& self.registers.len() == 16
        &&& self.display.grid.len() == 2048
        &&& self.keypad.keys.len() == 16
    }
}

/// An integer brought into 8 bits.
pub open spec fn wrap8(value: int) -> u8 {
    (value % 256) as u8
}

/// An integer brought into 16 bits.
pub open spec fn wrap16(value: int) -> u16 {
    (value % 65536) as u16
}

/// A condition as VF reports it.
pub open spec fn flag(condition: bool) -> u8 {
    if condition {
        1
    } else {
        0
    }
}

/// The machine with VX written first and VF, the flag, written last: where X
/// is F the flag is what stays.
pub open spec fn with_result_and_flag(machine: Machine, x: u8, value: u8, raised: bool) -> Machine {
    Machine {
        registers: machine.registers.update(x as int, value).update(0xF, flag(raised)),
        ..machine
    }
}

/// The machine with the program counter moved past the next instruction
/// when `condition` holds.
pub open spec fn skip_if(machine: Machine, condition: bool) -> Machine {
    if condition {
        Machine { program_counter: wrap16(machine.program_counter + 2), ..machine }
    } else {
        machine
    }
}

/// `00E0`: the frame is blank and the feed has been told so, once.
pub open spec fn after_clear_display(machine: Machine) -> Machine {
    Machine {
        display: DisplayView {
            grid: blank_grid(),
            emitted: machine.display.emitted.push(DisplayInstruction::Clear),
        },
        ..machine
    }
}

/// `00EE`, on a stack that is not empty.
pub open spec fn after_return(machine: Machine) -> Machine {
    Machine {
        program_counter: machine.stack.last(),
        stack: machine.stack.drop_last(),
        ..machine
    }
}

/// `2NNN`
pub open spec fn after_call(machine: Machine, address: u16) -> Machine {
    Machine {
        stack: machine.stack.push(machine.program_counter),
        program_counter: address,
        ..machine
    }
}

/// The machine with VX holding `value`.
pub open spec fn with_register(machine: Machine, x: u8, value: u8) -> Machine {
    Machine { registers: machine.registers.update(x as int, value), ..machine }
}

/// `8XY4`: VX becomes the sum modulo 256, VF tells whether it passed 255.
pub open spec fn after_add_register(machine: Machine, x: u8, y: u8) -> Machine {
    let a = machine.registers[x as int];
    let b = machine.registers[y as int];
    with_result_and_flag(machine, x, wrap8(a + b), a + b > 255)
}

/// `8XY5`: VX becomes VX - VY modulo 256, VF is 1 when nothing was borrowed.
pub open spec fn after_sub_register_xy(machine: Machine, x: u8, y: u8) -> Machine {
    let a = machine.registers[x as int];
    let b = machine.registers[y as int];
    with_result_and_flag(machine, x, wrap8(a - b), a >= b)
}

/// `8XY7`: VX becomes VY - VX modulo 256, VF is 1 when nothing was borrowed.
pub open spec fn after_sub_register_yx(machine: Machine, x: u8, y: u8) -> Machine {
    let a = machine.registers[x as int];
    let b = machine.registers[y as int];
    with_result_and_flag(machine, x, wrap8(b - a), b >= a)
}

/// What a shift works on: VY where shifts assign first, else VX.
pub open spec fn shift_operand(machine: Machine, x: u8, y: u8) -> u8 {
    if machine.settings.assign_shift {
        machine.registers[y as int]
    } else {
        machine.registers[x as int]
    }
}

/// `8XY6`: VX becomes the operand halved, VF the bit that fell off.
pub open spec fn after_shift_right(machine: Machine, x: u8, y: u8) -> Machine {
    let operand = shift_operand(machine, x, y);
    with_result_and_flag(machine, x, operand / 2, operand % 2 == 1)
}

/// `8XYE`: VX becomes the operand doubled modulo 256, VF the bit that fell
/// off.
pub open spec fn after_shift_left(machine: Machine, x: u8, y: u8) -> Machine {
    let operand = shift_operand(machine, x, y);
    with_result_and_flag(machine, x, wrap8(operand * 2), operand >= 128)
}

/// Where the index register stands after a block transfer of V0..=VX.
pub open spec fn index_after_block(machine: Machine, x: u8) -> u16 {
    if machine.settings.load_store_increment {
        wrap16(machine.index_register + x + 1)
    } else {
        machine.index_register
    }
}

/// Memory with the first `count` registers copied to the cells from
/// `address` on.
pub open spec fn stored(memory: Seq<u8>, registers: Seq<u8>, address: u16, count: int) -> Seq<u8> {
    Seq::new(
        4096,
        |cell: int|
            if (cell - address) % 4096 < count {
                registers[(cell - address) % 4096]
            } else {
                memory[cell]
            },
    )
}

/// The registers with the first `count` of them read from the cells from
/// `address` on.
pub open spec fn loaded(memory: Seq<u8>, registers: Seq<u8>, address: u16, count: int) -> Seq<u8> {
    Seq::new(
        16,
        |register: int|
            if register < count {
                memory[cell_of(address + register)]
            } else {
                registers[register]
            },
    )
}

/// `FX55`
pub open spec fn after_store_registers(machine: Machine, x: u8) -> Machine {
    Machine {
        memory: stored(machine.memory, machine.registers, machine.index_register, x + 1),
        index_register: index_after_block(machine, x),
        ..machine
    }
}

/// `FX65`
pub open spec fn after_load_registers(machine: Machine, x: u8) -> Machine {
    Machine {
        registers: loaded(machine.memory, machine.registers, machine.index_register, x + 1),
        index_register: index_after_block(machine, x),
        ..machine
    }
}

/// `FX33`: the hundreds, tens and units of VX, in the three cells from the
/// index register on.
pub open spec fn after_binary_coded_decimal(machine: Machine, x: u8) -> Machine {
    let value = machine.registers[x as int];
    let address = machine.index_register;
    Machine {
        memory: machine.memory.update(cell_of(address as int), value / 100).update(
            cell_of(address + 1),
            value / 10 % 10,
        ).update(cell_of(address + 2), value % 10),
        ..machine
    }
}

/// `FX1E`: the index register moves on by VX. Where the setting asks for it,
/// VF tells whether the new index lies past `0x0FFF`.
pub open spec fn after_add_to_index(machine: Machine, x: u8) -> Machine {
    let index = wrap16(machine.index_register + machine.registers[x as int]);
    Machine {
        index_register: index,
        registers: if machine.settings.add_to_index_overflow {
            machine.registers.update(0xF, flag(index > 0x0FFF))
        } else {
            machine.registers
        },
        ..machine
    }
}

/// `CXNN`, for the byte that chance gave.
pub open spec fn after_random(machine: Machine, x: u8, mask: u8, random: u8) -> Machine {
    with_register(machine, x, random & mask)
}

/// `FX0A`: a pending release goes into VX and is used up; with none
/// pending the program counter steps back onto this instruction.
pub open spec fn after_get_key(machine: Machine, x: u8) -> Machine {
    match machine.keypad.released {
        Some(key) => Machine {
            registers: machine.registers.update(x as int, key),
            keypad: KeypadView { released: None, ..machine.keypad },
            ..machine
        },
        None => Machine { program_counter: wrap16(machine.program_counter - 2), ..machine },
    }
}

/// Whether the key that VX names is down.
pub open spec fn key_down(machine: Machine, x: u8) -> bool {
    let key = machine.registers[x as int];
    key < 16 && machine.keypad.keys[key as int]
}

/// `BNNN`: the offset is V0, or VX where the setting asks for it.
pub open spec fn after_jump_with_offset(machine: Machine, address: u16, x: u8) -> Machine {
    let offset = if machine.settings.jump_with_offset_add {
        machine.registers[x as int]
    } else {
        machine.registers[0]
    };
    Machine { program_counter: wrap16(address + offset), ..machine }
}

/// `DXYN`: the sprite of `height` rows at the index register is drawn with
/// its corner at column VX mod 64 of row VY mod 32. VF tells whether a cell
/// was unset.
pub open spec fn after_display(machine: Machine, x: u8, y: u8, height: u8) -> Machine {
    let x0 = machine.registers[x as int] % 64;
    let y0 = machine.registers[y as int] % 32;
    let sprite = sprite_at(machine.memory, machine.index_register, height);
    let grid = machine.display.grid;
    Machine {
        display: DisplayView {
            grid: drawn(grid, sprite, x0 as int, y0 as int),
            emitted: machine.display.emitted + draw_events(
                grid,
                sprite,
                x0 as int,
                y0 as int,
                8 * height,
            ),
        },
        registers: machine.registers.update(
            0xF,
            flag(collides(grid, sprite, x0 as int, y0 as int)),
        ),
        ..machine
    }
}

/// Whether the operation can be carried out. The one that cannot is a
/// return with nothing to return to.
pub open spec fn can_execute(machine: Machine, operation: Operation) -> bool {
    operation is Return ==> machine.stack.len() > 0
}

/// The machine after an operation that can be carried out. `random` is the
/// byte that chance gives; only `Random` looks at it.
pub open spec fn after(machine: Machine, operation: Operation, random: u8) -> Machine {
    let registers = machine.registers;
    match operation {
        Operation::ClearDisplay => after_clear_display(machine),
        Operation::Return => after_return(machine),
        Operation::Jump { address } => Machine { program_counter: address, ..machine },
        Operation::Call { address } => after_call(machine, address),
        Operation::SkipIfEqualsValue { x, value } => skip_if(machine, registers[x as int] == value),
        Operation::SkipIfNotEqualsValue { x, value } => skip_if(
            machine,
            registers[x as int] != value,
        ),
        Operation::SkipIfEqualsRegister { x, y } => skip_if(
            machine,
            registers[x as int] == registers[y as int],
        ),
        Operation::SetValue { x, value } => with_register(machine, x, value),
        Operation::AddValue { x, value } => with_register(
            machine,
            x,
            wrap8(registers[x as int] + value),
        ),
        Operation::SetRegister { x, y } => with_register(machine, x, registers[y as int]),
        Operation::Or { x, y } => with_register(
            machine,
            x,
            registers[x as int] | registers[y as int],
        ),
        Operation::And { x, y } => with_register(
            machine,
            x,
            registers[x as int] & registers[y as int],
        ),
        Operation::Xor { x, y } => with_register(
            machine,
            x,
            registers[x as int] ^ registers[y as int],
        ),
        Operation::AddRegister { x, y } => after_add_register(machine, x, y),
        Operation::SubtractXY { x, y } => after_sub_register_xy(machine, x, y),
        Operation::ShiftRight { x, y } => after_shift_right(machine, x, y),
        Operation::SubtractYX { x, y } => after_sub_register_yx(machine, x, y),
        Operation::ShiftLeft { x, y } => after_shift_left(machine, x, y),
        Operation::SkipIfNotEqualsRegister { x, y } => skip_if(
            machine,
            registers[x as int] != registers[y as int],
        ),
        Operation::SetIndex { address } => Machine { index_register: address, ..machine },
        Operation::JumpWithOffset { address, x } => after_jump_with_offset(machine, address, x),
        Operation::Random { x, mask } => after_random(machine, x, mask, random),
        Operation::Draw { x, y, height } => after_display(machine, x, y, height),
        Operation::SkipIfKeyPressed { x } => skip_if(machine, key_down(machine, x)),
        Operation::SkipIfKeyNotPressed { x } => skip_if(machine, !key_down(machine, x)),
        Operation::GetDelayTimer { x } => with_register(machine, x, machine.delay_timer),
        Operation::GetKey { x } => after_get_key(machine, x),
        Operation::SetDelayTimer { x } => Machine { delay_timer: registers[x as int], ..machine },
        Operation::SetSoundTimer { x } => Machine { sound_timer: registers[x as int], ..machine },
        Operation::AddToIndex { x } => after_add_to_index(machine, x),
        Operation::BinaryCodedDecimal { x } => after_binary_coded_decimal(machine, x),
        Operation::StoreRegisters { x } => after_store_registers(machine, x),
        Operation::LoadRegisters { x } => after_load_registers(machine, x),
    }
}

/// A machine that has just been given `program`: the image in memory, the
/// program counter at its first instruction, everything else at rest.
pub open spec fn fresh(settings: Settings, program: Seq<u8>) -> Machine {
    Machine {
        settings,
        memory: loaded_image(program),
        registers: Seq::new(16, |i: int| 0u8),
        stack: Seq::empty(),
        program_counter: 0x200,
        index_register: 0,
        delay_timer: 0,
        sound_timer: 0,
        display: DisplayView { grid: blank_grid(), emitted: Seq::empty() },
        keypad: crate::keypad::idle_keypad(),
    }
}

/// A timer value one tick later.
pub open spec fn ticked(value: u8) -> u8 {
    if value == 0 {
        0
    } else {
        (value - 1) as u8
    }
}

/// The machine after `elapsed_nanos` nanoseconds without a tick: both
/// timers go down by one if a whole period has passed, and by no more than
/// one however many periods have passed.
pub open spec fn after_tick(machine: Machine, elapsed_nanos: u128) -> Machine {
    if elapsed_nanos >= 16_666_667 {
        Machine {
            delay_timer: ticked(machine.delay_timer),
            sound_timer: ticked(machine.sound_timer),
            ..machine
        }
    } else {
        machine
    }
}

/// The machine and the outcome after carrying out an instruction word.
/// A word that encodes nothing, and a return with nothing to return to, are
/// faults and change nothing.
pub open spec fn after_word(machine: Machine, word: u16, random: u8) -> (
    Machine,
    Result<(), Fault>,
) {
    match decode(word) {
        None => (
            machine,
            Err(
                Fault::UnknownInstruction {
                    instruction: word,
                    program_counter: machine.program_counter,
                },
            ),
        ),
        Some(operation) => if can_execute(machine, operation) {
            (after(machine, operation, random), Ok(()))
        } else {
            (machine, Err(Fault::StackUnderflow))
        },
    }
}

/// The machine with the program counter moved past the instruction it
/// points at.
pub open spec fn fetched(machine: Machine) -> Machine {
    Machine { program_counter: wrap16(machine.program_counter + 2), ..machine }
}

/// One cycle: the key events that have come in are taken in, the
/// instruction at the program counter is fetched, and it is carried out.
pub open spec fn after_cycle(machine: Machine, events: Seq<Event>, random: u8) -> (
    Machine,
    Result<(), Fault>,
) {
    let listened = Machine { keypad: after_events(machine.keypad, events), ..machine };
    after_word(fetched(listened), word_at(listened.memory, listened.program_counter), random)
}

/// The registers with the first `count` of them set to zero.
pub open spec fn zeroed(registers: Seq<u8>, count: int) -> Seq<u8> {
    Seq::new(16, |register: int| if register < count { 0u8 } else { registers[register] })
}

/// Storing V0..=VX at the index register, zeroing them, and loading them
/// from the same address gives back the registers as they were. This holds
/// for every X and every address, under either setting of the index
/// increment.
pub proof fn lemma_store_load_round_trip(machine: Machine, x: u8)
    requires
        machine.well_formed(),
        x < 16,
    ensures
        ({
            let saved = after_store_registers(machine, x);
            let cleared = Machine {
                registers: zeroed(saved.registers, x + 1),
                index_register: machine.index_register,
                ..saved
            };
            after_load_registers(cleared, x).registers == machine.registers
        }),
{
    let saved = after_store_registers(machine, x);
    let cleared = Machine {
        registers: zeroed(saved.registers, x + 1),
        index_register: machine.index_register,
        ..saved
    };
    let restored = after_load_registers(cleared, x).registers;
    assert forall|register: int| 0 <= register < 16 implies restored[register]
        == machine.registers[register] by {
        if register < x + 1 {
            let cell = cell_of(machine.index_register + register);
            assert((cell - machine.index_register) % 4096 == register);
        }
    }
    assert(restored =~= machine.registers);
}

/// After a clear no cell is set, whatever the frame held, and the feed has
/// been told exactly one thing more: `Clear`.
pub proof fn lemma_clear_leaves_nothing_set(machine: Machine)
    ensures
        forall|cell: int|
            0 <= cell < 2048 ==> !(#[trigger] after_clear_display(machine).display.grid[cell]),
        after_clear_display(machine).display.grid.len() == 2048,
        after_clear_display(machine).display.emitted == machine.display.emitted.push(
            DisplayInstruction::Clear,
        ),
{
}

/// The word `FX0A`, which waits for a key and puts it into VX.
pub open spec fn key_wait_word(x: u8) -> u16 {
    (0xF00A + 256 * x) as u16
}

/// A machine that waits for a key, with no release pending and none coming
/// in, stands still: after the cycle it is as it was before, so the same
/// instruction is up again.
pub proof fn lemma_key_wait_stands_still(machine: Machine, x: u8, random: u8)
    requires
        machine.well_formed(),
        x < 16,
        word_at(machine.memory, machine.program_counter) == key_wait_word(x),
        machine.keypad.released is None,
    ensures
        after_cycle(machine, Seq::empty(), random) == (machine, Ok::<(), Fault>(())),
{
    lemma_decode_key_wait(x);
    let listened = Machine { keypad: after_events(machine.keypad, Seq::empty()), ..machine };
    assert(listened == machine);
    let next = after_get_key(fetched(machine), x);
    assert(next.program_counter == machine.program_counter);
    assert(next == machine);
}

/// Once the release of a key has come in, the waiting machine takes it:
/// VX holds the key's code, the release is used up, and the program counter
/// has moved on to the next instruction.
pub proof fn lemma_key_wait_takes_release(
    machine: Machine,
    x: u8,
    key: crate::keypad::Key,
    random: u8,
)
    requires
        machine.well_formed(),
        x < 16,
        word_at(machine.memory, machine.program_counter) == key_wait_word(x),
    ensures
        ({
            let (next, result) = after_cycle(machine, seq![Event::KeyUp(key)], random);
            &&& result == Ok::<(), Fault>(())
            &&& next.registers == machine.registers.update(x as int, key.code_spec())
            &&& next.program_counter == wrap16(machine.program_counter + 2)
            &&& next.keypad.released is None
            &&& next.keypad.keys == machine.keypad.keys.update(key.code_spec() as int, false)
        }),
{
    lemma_decode_key_wait(x);
    let events = seq![Event::KeyUp(key)];
    assert(events.drop_last() =~= Seq::<Event>::empty());
    assert(events.last() == Event::KeyUp(key));
    assert(after_events(machine.keypad, events.drop_last()) == machine.keypad);
    assert(after_events(machine.keypad, events) == crate::keypad::after_event(
        machine.keypad,
        Event::KeyUp(key),
    ));
}

/// `FX0A` decodes to the key wait on VX.
proof fn lemma_decode_key_wait(x: u8)
    requires
        x < 16,
    ensures
        decode(key_wait_word(x)) == Some(Operation::GetKey { x }),
{
    let word = key_wait_word(x);
    assert(crate::instruction::first_of(word) == 0xF);
    assert(crate::instruction::x_of(word) == x);
    assert(crate::instruction::nn_of(word) == 0x0A);
}

/// Drawing the same sprite twice in a row, through registers other than VF,
/// gives back the frame as it was; and the second drawing reports a
/// collision exactly when the first one set a cell. (Drawing writes VF, so a
/// position read from VF would not be the same the second time.)
pub proof fn lemma_display_twice_restores(machine: Machine, x: u8, y: u8, height: u8)
    requires
        machine.well_formed(),
        x < 0xF,
        y < 0xF,
    ensures
        ({
            let once = after_display(machine, x, y, height);
            let twice = after_display(once, x, y, height);
            let sprite = sprite_at(machine.memory, machine.index_register, height);
            let x0 = (machine.registers[x as int] % 64) as int;
            let y0 = (machine.registers[y as int] % 32) as int;
            &&& twice.display.grid == machine.display.grid
            &&& twice.registers[0xF] == flag(lights(machine.display.grid, sprite, x0, y0))
        }),
{
    let sprite = sprite_at(machine.memory, machine.index_register, height);
    let x0 = (machine.registers[x as int] % 64) as int;
    let y0 = (machine.registers[y as int] % 32) as int;
    lemma_draw_twice_restores(machine.display.grid, sprite, x0, y0);
}

} // verus!
