use crate::display::{cell_index, Chip8Display, DisplayInstruction, DisplayView};
use crate::fault::Fault;
use crate::instruction::Instruction;
use crate::keypad::{after_events, Event, Keypad};
use crate::machine::{
    after, after_add_register, after_add_to_index, after_binary_coded_decimal, after_call,
    after_clear_display, after_cycle, after_display, after_get_key, after_jump_with_offset,
    after_load_registers, after_random, after_return, after_shift_left, after_shift_right,
    after_store_registers, after_sub_register_xy, after_sub_register_yx, after_tick, after_word,
    can_execute, fetched, fresh, index_after_block, key_down, loaded, skip_if, stored,
    with_register, wrap16, wrap8, Machine,
};
use crate::memory::{cell_of, word_at, Memory, PROGRAM_START};
use crate::operation::{decode, Operation};
use crate::random::{random_byte, thread_rng};
use crate::registers::Registers;
use crate::settings::Settings;
use crate::sprite::{
    clipped, collides_within, draw_events, drawn_within, lemma_next_pixel, lemma_no_bits,
    lemma_silent_pixels, lemma_within_all, silent, sprite_at, sprite_bit, BitIterator,
};
use crate::stack::Stack;
use crate::timer::Timer;
use crossbeam_channel::{Receiver, Sender};
use rand::rngs::ThreadRng;
use vstd::prelude::*;

verus! {

/// The interpreter: memory, registers, stack, timers, keypad and display,
/// and the rules by which an instruction changes them.
pub struct Chip8 {
    settings: Settings,
    memory: Memory,
    display: Chip8Display,
    stack: Stack,
    registers: Registers,
    program_counter: u16,
    index_register: u16,
    rng: ThreadRng,
    keypad: Keypad,
    delay_timer: Timer,
    sound_timer: Timer,
}

impl View for Chip8 {
    type V = Machine;

    closed spec fn view(&self) -> Machine {
        Machine {
            settings: self.settings,
            memory: self.memory@,
            registers: self.registers@,
            stack: self.stack@,
            program_counter: self.program_counter,
            index_register: self.index_register,
            delay_timer: self.delay_timer@,
            sound_timer: self.sound_timer@,
            display: self.display@,
            keypad: self.keypad@,
        }
    }
}

impl Chip8 {
    /// Whether the display feed has taken every change so far.
    pub closed spec fn feed_open(&self) -> bool {
        self.display.feed_open()
    }

    /// A machine with `program` loaded, about to run its first instruction.
    /// Changes of the frame will go to `sender`; key events are taken from
    /// `receiver`.
    pub fn new(
        settings: Settings,
        program: &[u8],
        sender: Sender<DisplayInstruction>,
        receiver: Receiver<Event>,
    ) -> (chip8: Self)
        ensures
            chip8@ == fresh(settings, program@),
            chip8.feed_open(),
    {
        let memory = Memory::new(program);
        let display = Chip8Display::new(sender);
        let stack = Stack::new();
        let registers = Registers::new();
        let rng = thread_rng();
        let keypad = Keypad::new(receiver);
        let delay_timer = Timer::new();
        let sound_timer = Timer::new();

        Self {
            settings,
            memory,
            display,
            stack,
            registers,
            program_counter: PROGRAM_START,
            index_register: 0,
            rng,
            keypad,
            delay_timer,
            sound_timer,
        }
    }

    /// What VX holds.
    pub fn register(&self, register_number: u8) -> (value: u8)
        requires
            register_number < 16,
        ensures
            value == self@.registers[register_number as int],
    {
        self.registers.get_value(register_number)
    }

    pub fn program_counter(&self) -> (address: u16)
        ensures
            address == self@.program_counter,
    {
        self.program_counter
    }

    pub fn index_register(&self) -> (address: u16)
        ensures
            address == self@.index_register,
    {
        self.index_register
    }

    /// The byte in the cell that `address` names.
    pub fn memory_byte(&self, address: u16) -> (value: u8)
        ensures
            value == self@.memory[cell_of(address as int)],
    {
        self.memory.get_u8(address)
    }

    /// Whether the cell in column `x` of row `y` of the frame is set.
    pub fn pixel(&self, x: usize, y: usize) -> (value: bool)
        requires
            x < 64,
            y < 32,
        ensures
            value == self@.display.grid[cell_index(x as int, y as int)],
    {
        self.display.get(x, y)
    }

    pub fn delay_timer(&self) -> (value: u8)
        ensures
            value == self@.delay_timer,
    {
        self.delay_timer.get_value()
    }

    pub fn sound_timer(&self) -> (value: u8)
        ensures
            value == self@.sound_timer,
    {
        self.sound_timer.get_value()
    }

    /// Whether a `Stop` has come in from the keyboard feed. The machine
    /// itself goes on regardless: it is for the caller to stop.
    pub fn has_stopped(&self) -> (stopped: bool)
        ensures
            stopped == self@.keypad.stopped,
    {
        self.keypad.has_stopped()
    }

    /// False once the display feed has refused a change, which it does when
    /// nobody listens to it any more.
    pub fn display_is_open(&self) -> (open: bool)
        ensures
            open == self.feed_open(),
    {
        self.display.is_open()
    }

    /// The sizes that the hardware fixes hold of every machine.
    pub proof fn lemma_well_formed(&self)
        ensures
            self@.well_formed(),
    {
        self.memory.lemma_len();
        self.registers.lemma_len();
        self.display.lemma_len();
        self.keypad.lemma_len();
    }

    /// Reads the instruction at the program counter and moves the program
    /// counter past it.
    pub fn fetch(&mut self) -> (instruction: Instruction)
        ensures
            instruction@ == word_at(old(self)@.memory, old(self)@.program_counter),
            final(self)@ == (Machine {
                program_counter: wrap16(old(self)@.program_counter + 2),
                ..old(self)@
            }),
            final(self).feed_open() == old(self).feed_open(),
    {
        let instruction = self.memory.get_u16(self.program_counter);
        self.program_counter = self.program_counter.wrapping_add(2);
        Instruction::new(instruction)
    }

    /// Draws one sprite row: the eight pixels of `sprite_data`, leftmost
    /// first, from column `x_start` of row `y` on, up to the right edge.
    /// `grid` is the frame and `emitted` the feed as they were before the
    /// sprite's first row; `y0` is the row of the sprite's top.
    fn draw_row(
        &mut self,
        x_start: u8,
        y: u8,
        sprite_data: u8,
        Ghost(grid): Ghost<Seq<bool>>,
        Ghost(emitted): Ghost<Seq<DisplayInstruction>>,
        Ghost(sprite): Ghost<Seq<u8>>,
        Ghost(y0): Ghost<int>,
    ) -> (collided: bool)
        requires
            x_start < 64,
            y < 32,
            0 <= y0 <= y,
            y - y0 < sprite.len(),
            sprite[y - y0] == sprite_data,
            grid.len() == 2048,
            old(self)@.display.grid == drawn_within(grid, sprite, x_start as int, y0, 8 * (y - y0)),
            old(self)@.display.emitted == emitted + draw_events(
                grid,
                sprite,
                x_start as int,
                y0,
                8 * (y - y0),
            ),
        ensures
            final(self)@ == (Machine {
                display: DisplayView {
                    grid: drawn_within(grid, sprite, x_start as int, y0, 8 * (y - y0) + 8),
                    emitted: emitted + draw_events(
                        grid,
                        sprite,
                        x_start as int,
                        y0,
                        8 * (y - y0) + 8,
                    ),
                },
                ..old(self)@
            }),
            collides_within(grid, sprite, x_start as int, y0, 8 * (y - y0) + 8) == (collided
                || collides_within(grid, sprite, x_start as int, y0, 8 * (y - y0))),
            final(self).feed_open() ==> old(self).feed_open(),
    {
        let ghost x0 = x_start as int;
        let ghost row = y - y0;
        let ghost mut done: int = 0;
        let mut collided = false;
        let mut bits = BitIterator::new(sprite_data);
        let mut next = bits.next();
        proof {
            lemma_no_bits(sprite_data);
        }
        while next.is_some() && x_start + next.unwrap() < 64
            invariant
                0 <= done <= 8,
                x_start < 64,
                y < 32,
                x0 == x_start,
                row == y - y0,
                0 <= row < sprite.len(),
                0 <= y0 < 32,
                grid.len() == 2048,
                sprite_data == sprite[row],
                match next {
                    Some(p) => {
                        &&& done <= p < 8
                        &&& sprite_bit(sprite_data, p)
                        &&& forall|b: u8| done <= b < p ==> !sprite_bit(sprite_data, b)
                        &&& forall|b: u8|
                            b < 8 ==> sprite_bit(bits@, b) == (sprite_bit(sprite_data, b) && b > p)
                    },
                    None => forall|b: u8| done <= b < 8 ==> !sprite_bit(sprite_data, b),
                },
                self@ == (Machine {
                    display: DisplayView {
                        grid: drawn_within(grid, sprite, x0, y0, 8 * row + done),
                        emitted: emitted + draw_events(grid, sprite, x0, y0, 8 * row + done),
                    },
                    ..old(self)@
                }),
                collides_within(grid, sprite, x0, y0, 8 * row + done) == (collided
                    || collides_within(grid, sprite, x0, y0, 8 * row)),
                self.feed_open() ==> old(self).feed_open(),
            decreases 8 - done,
        {
            let x_offset = next.unwrap();
            let x = x_start + x_offset;
            let ghost count = 8 * row + x_offset;
            let ghost index = x0 + x_offset + y * 64;
            proof {
                assert forall|k: int| 8 * row + done <= k < count implies silent(
                    sprite,
                    x0,
                    y0,
                    k,
                ) by {
                    assert(k / 8 == row && done <= k % 8 < x_offset);
                    assert(!sprite_bit(sprite_data, (k % 8) as u8));
                }
                lemma_silent_pixels(grid, sprite, x0, y0, 8 * row + done, count);
                lemma_next_pixel(grid, sprite, x0, y0, count);
                assert(count / 8 == row && count % 8 == x_offset);
                assert(cell_index(x0 + x_offset, y0 + row) == index);
                assert(draw_events(grid, sprite, x0, y0, count + 1) == draw_events(
                    grid,
                    sprite,
                    x0,
                    y0,
                    count,
                ).push(
                    DisplayInstruction::SetPixel { value: !grid[index], index: index as usize },
                ));
            }
            let existing = self.display.set(x as usize, y as usize);
            collided = collided || existing;
            assert(self@.display.emitted =~= emitted + draw_events(
                grid,
                sprite,
                x0,
                y0,
                count + 1,
            ));
            proof {
                done = x_offset + 1;
                lemma_no_bits(bits@);
            }
            next = bits.next();
        }
        proof {
            let from = 8 * row + done;
            let to = 8 * row + 8;
            assert forall|k: int| from <= k < to implies silent(sprite, x0, y0, k) by {
                assert(k / 8 == row && done <= k % 8 < 8);
                let b = (k % 8) as u8;
                match next {
                    Some(p) => {
                        if b < p {
                            assert(!sprite_bit(sprite_data, b));
                        } else {
                            assert(clipped(x0, y0, k));
                        }
                    },
                    None => {
                        assert(!sprite_bit(sprite_data, b));
                    },
                }
            }
            lemma_silent_pixels(grid, sprite, x0, y0, from, to);
        }
        collided
    }

    /// `DXYN`: draws the sprite of `sprite_height` rows that lies at the
    /// index register, with its corner at column VX mod 64 of row VY mod 32.
    /// Each lit pixel flips its cell; pixels past the right or lower edge are
    /// cut off. VF becomes 1 if a cell was unset, else 0.
    pub fn display(&mut self, x_register: u8, y_register: u8, sprite_height: u8)
        requires
            x_register < 16,
            y_register < 16,
        ensures
            final(self)@ == after_display(old(self)@, x_register, y_register, sprite_height),
            final(self).feed_open() ==> old(self).feed_open(),
    {
        let x_start = self.registers.get_value(x_register) % 64;
        let y_start = self.registers.get_value(y_register) % 32;
        let ghost start = self@;
        let ghost grid = start.display.grid;
        let ghost emitted = start.display.emitted;
        let ghost sprite = sprite_at(start.memory, start.index_register, sprite_height);
        let ghost x0 = x_start as int;
        let ghost y0 = y_start as int;
        proof {
            self.lemma_well_formed();
            assert(emitted + draw_events(grid, sprite, x0, y0, 0) =~= emitted);
            assert(drawn_within(grid, sprite, x0, y0, 0) =~= grid);
            assert(!collides_within(grid, sprite, x0, y0, 0));
        }

        let mut flags_value = false;
        let mut row: u8 = 0;
        while row < sprite_height && row < 32 - y_start
            invariant
                row <= sprite_height,
                x_start < 64,
                y_start < 32,
                x0 == x_start,
                y0 == y_start,
                grid.len() == 2048,
                start.memory.len() == 4096,
                sprite == sprite_at(start.memory, start.index_register, sprite_height),
                self@ == (Machine {
                    display: DisplayView {
                        grid: drawn_within(grid, sprite, x0, y0, 8 * row),
                        emitted: emitted + draw_events(grid, sprite, x0, y0, 8 * row),
                    },
                    ..start
                }),
                flags_value == collides_within(grid, sprite, x0, y0, 8 * row),
                self.feed_open() ==> old(self).feed_open(),
            decreases sprite_height - row,
        {
            let y = y_start + row;
            let sprite_data = self.memory.get_u8(self.index_register.wrapping_add(row as u16));
            assert(sprite_data == sprite[row as int]) by {
                assert(cell_of(wrap16(start.index_register + row) as int) == cell_of(
                    start.index_register + row,
                ));
            }
            let collided = self.draw_row(
                x_start,
                y,
                sprite_data,
                Ghost(grid),
                Ghost(emitted),
                Ghost(sprite),
                Ghost(y0),
            );
            flags_value = flags_value || collided;
            row += 1;
        }
        proof {
            let from = 8 * row;
            let to = 8 * sprite_height;
            assert forall|k: int| from <= k < to implies clipped(x0, y0, k) by {
                assert(k / 8 >= row);
            }
            lemma_silent_pixels(grid, sprite, x0, y0, from, to);
            lemma_within_all(grid, sprite, x0, y0);
        }
        self.registers.set_value(0xF, if flags_value { 1 } else { 0 });
    }

    /// `00E0`
    pub fn clear_display(&mut self)
        ensures
            final(self)@ == after_clear_display(old(self)@),
            final(self).feed_open() ==> old(self).feed_open(),
    {
        self.display.clear();
    }

    /// `6XNN`
    pub fn set_value(&mut self, register_number: u8, value: u8)
        requires
            register_number < 16,
        ensures
            final(self)@ == with_register(old(self)@, register_number, value),
            final(self).feed_open() == old(self).feed_open(),
    {
        self.registers.set_value(register_number, value);
    }

    /// `ANNN`
    pub fn set_index(&mut self, value: u16)
        ensures
            final(self)@ == (Machine { index_register: value, ..old(self)@ }),
            final(self).feed_open() == old(self).feed_open(),
    {
        self.index_register = value;
    }

    /// `1NNN`
    pub fn jump(&mut self, address: u16)
        ensures
            final(self)@ == (Machine { program_counter: address, ..old(self)@ }),
            final(self).feed_open() == old(self).feed_open(),
    {
        self.program_counter = address;
    }

    /// `7XNN`: VX grows by `value`, modulo 256. VF is left alone.
    pub fn add_value(&mut self, register_number: u8, value: u8)
        requires
            register_number < 16,
        ensures
            final(self)@ == with_register(
                old(self)@,
                register_number,
                wrap8(old(self)@.registers[register_number as int] + value),
            ),
            final(self).feed_open() == old(self).feed_open(),
    {
        let existing = self.registers.get_value(register_number);
        let new = existing.wrapping_add(value);
        self.registers.set_value(register_number, new);
    }

    /// Moves the program counter past the next instruction.
    fn skip(&mut self)
        ensures
            final(self)@ == skip_if(old(self)@, true),
            final(self).feed_open() == old(self).feed_open(),
    {
        self.program_counter = self.program_counter.wrapping_add(2);
    }

    /// `3XNN`
    pub fn skip_if_equals_value(&mut self, register_number: u8, value: u8)
        requires
            register_number < 16,
        ensures
            final(self)@ == skip_if(
                old(self)@,
                old(self)@.registers[register_number as int] == value,
            ),
            final(self).feed_open() == old(self).feed_open(),
    {
        let x_value = self.registers.get_value(register_number);
        if x_value == value {
            self.skip();
        }
    }

    /// `4XNN`
    pub fn skip_if_not_equals_value(&mut self, register_number: u8, value: u8)
        requires
            register_number < 16,
        ensures
            final(self)@ == skip_if(
                old(self)@,
                old(self)@.registers[register_number as int] != value,
            ),
            final(self).feed_open() == old(self).feed_open(),
    {
        let x_value = self.registers.get_value(register_number);
        if x_value != value {
            self.skip();
        }
    }

    /// `5XY_`
    pub fn skip_if_equals_register(&mut self, register_number_x: u8, register_number_y: u8)
        requires
            register_number_x < 16,
            register_number_y < 16,
        ensures
            final(self)@ == skip_if(
                old(self)@,
                old(self)@.registers[register_number_x as int]
                    == old(self)@.registers[register_number_y as int],
            ),
            final(self).feed_open() == old(self).feed_open(),
    {
        let x_value = self.registers.get_value(register_number_x);
        let y_value = self.registers.get_value(register_number_y);
        if x_value == y_value {
            self.skip();
        }
    }

    /// `9XY_`
    pub fn skip_if_not_equals_register(&mut self, register_number_x: u8, register_number_y: u8)
        requires
            register_number_x < 16,
            register_number_y < 16,
        ensures
            final(self)@ == skip_if(
                old(self)@,
                old(self)@.registers[register_number_x as int]
                    != old(self)@.registers[register_number_y as int],
            ),
            final(self).feed_open() == old(self).feed_open(),
    {
        let x_value = self.registers.get_value(register_number_x);
        let y_value = self.registers.get_value(register_number_y);
        if x_value != y_value {
            self.skip();
        }
    }

    /// `2NNN`: the program counter is saved on the stack and moves to
    /// `address`.
    pub fn call_subroutine(&mut self, address: u16)
        ensures
            final(self)@ == after_call(old(self)@, address),
            final(self).feed_open() == old(self).feed_open(),
    {
        self.stack.push(self.program_counter);
        self.program_counter = address;
    }

    /// `00EE`: the program counter goes back to the address saved last.
    /// With nothing saved this is a fault, and nothing changes.
    pub fn return_subroutine(&mut self) -> (result: Result<(), Fault>)
        ensures
            old(self)@.stack.len() > 0 ==> result == Ok::<(), Fault>(()) && final(self)@
                == after_return(old(self)@),
            old(self)@.stack.len() == 0 ==> result == Err::<(), Fault>(Fault::StackUnderflow)
                && final(self)@ == old(self)@,
            final(self).feed_open() == old(self).feed_open(),
    {
        match self.stack.pop() {
            Some(address) => {
                self.program_counter = address;
                Ok(())
            },
            None => Err(Fault::StackUnderflow),
        }
    }

    /// `8XY0`
    pub fn set_register(&mut self, register_number_x: u8, register_number_y: u8)
        requires
            register_number_x < 16,
            register_number_y < 16,
        ensures
            final(self)@ == with_register(
                old(self)@,
                register_number_x,
                old(self)@.registers[register_number_y as int],
            ),
            final(self).feed_open() == old(self).feed_open(),
    {
        let y_value = self.registers.get_value(register_number_y);
        self.registers.set_value(register_number_x, y_value);
    }

    /// `8XY1`
    pub fn or_register(&mut self, register_number_x: u8, register_number_y: u8)
        requires
            register_number_x < 16,
            register_number_y < 16,
        ensures
            final(self)@ == with_register(
                old(self)@,
                register_number_x,
                old(self)@.registers[register_number_x as int]
                    | old(self)@.registers[register_number_y as int],
            ),
            final(self).feed_open() == old(self).feed_open(),
    {
        let x_value = self.registers.get_value(register_number_x);
        let y_value = self.registers.get_value(register_number_y);
        let value = x_value | y_value;
        self.registers.set_value(register_number_x, value);
    }

    /// `8XY2`
    pub fn and_register(&mut self, register_number_x: u8, register_number_y: u8)
        requires
            register_number_x < 16,
            register_number_y < 16,
        ensures
            final(self)@ == with_register(
                old(self)@,
                register_number_x,
                old(self)@.registers[register_number_x as int]
                    & old(self)@.registers[register_number_y as int],
            ),
            final(self).feed_open() == old(self).feed_open(),
    {
        let x_value = self.registers.get_value(register_number_x);
        let y_value = self.registers.get_value(register_number_y);
        let value = x_value & y_value;
        self.registers.set_value(register_number_x, value);
    }

    /// `8XY3`
    pub fn xor_register(&mut self, register_number_x: u8, register_number_y: u8)
        requires
            register_number_x < 16,
            register_number_y < 16,
        ensures
            final(self)@ == with_register(
                old(self)@,
                register_number_x,
                old(self)@.registers[register_number_x as int]
                    ^ old(self)@.registers[register_number_y as int],
            ),
            final(self).feed_open() == old(self).feed_open(),
    {
        let x_value = self.registers.get_value(register_number_x);
        let y_value = self.registers.get_value(register_number_y);
        let value = x_value ^ y_value;
        self.registers.set_value(register_number_x, value);
    }

    /// `8XY4`: VX becomes VX + VY modulo 256, and then VF becomes 1 if the
    /// sum passed 255, else 0.
    pub fn add_register(&mut self, register_number_x: u8, register_number_y: u8)
        requires
            register_number_x < 16,
            register_number_y < 16,
        ensures
            final(self)@ == after_add_register(old(self)@, register_number_x, register_number_y),
            final(self)@.registers[0xF] == 1 <==> old(self)@.registers[register_number_x as int]
                + old(self)@.registers[register_number_y as int] > 255,
            final(self)@.registers[0xF] == 0 || final(self)@.registers[0xF] == 1,
            final(self).feed_open() == old(self).feed_open(),
    {
        proof {
            self.lemma_well_formed();
        }
        let x_value = self.registers.get_value(register_number_x);
        let y_value = self.registers.get_value(register_number_y);
        let value = x_value.wrapping_add(y_value);
        let overflowed = y_value > 255 - x_value;
        self.registers.set_value(register_number_x, value);
        self.registers.set_value(0xF, if overflowed { 1 } else { 0 });
    }

    /// `8XY5`: VX becomes VX - VY modulo 256, and then VF becomes 1 if
    /// nothing was borrowed (VX >= VY), else 0.
    pub fn sub_register_xy(&mut self, register_number_x: u8, register_number_y: u8)
        requires
            register_number_x < 16,
            register_number_y < 16,
        ensures
            final(self)@ == after_sub_register_xy(
                old(self)@,
                register_number_x,
                register_number_y,
            ),
            final(self)@.registers[0xF] == 1 <==> old(self)@.registers[register_number_x as int]
                >= old(self)@.registers[register_number_y as int],
            final(self)@.registers[0xF] == 0 || final(self)@.registers[0xF] == 1,
            final(self).feed_open() == old(self).feed_open(),
    {
        proof {
            self.lemma_well_formed();
        }
        let x_value = self.registers.get_value(register_number_x);
        let y_value = self.registers.get_value(register_number_y);
        let value = x_value.wrapping_sub(y_value);
        let overflowed = x_value < y_value;
        self.registers.set_value(register_number_x, value);
        self.registers.set_value(0xF, if overflowed { 0 } else { 1 });
    }

    /// `8XY7`: VX becomes VY - VX modulo 256, and then VF becomes 1 if
    /// nothing was borrowed (VY >= VX), else 0.
    pub fn sub_register_yx(&mut self, register_number_x: u8, register_number_y: u8)
        requires
            register_number_x < 16,
            register_number_y < 16,
        ensures
            final(self)@ == after_sub_register_yx(
                old(self)@,
                register_number_x,
                register_number_y,
            ),
            final(self)@.registers[0xF] == 1 <==> old(self)@.registers[register_number_y as int]
                >= old(self)@.registers[register_number_x as int],
            final(self)@.registers[0xF] == 0 || final(self)@.registers[0xF] == 1,
            final(self).feed_open() == old(self).feed_open(),
    {
        proof {
            self.lemma_well_formed();
        }
        let x_value = self.registers.get_value(register_number_x);
        let y_value = self.registers.get_value(register_number_y);
        let value = y_value.wrapping_sub(x_value);
        let overflowed = y_value < x_value;
        self.registers.set_value(register_number_x, value);
        self.registers.set_value(0xF, if overflowed { 0 } else { 1 });
    }

    /// `8XY6`: where shifts assign first, VX takes VY. Then VX is halved,
    /// and VF becomes the bit that fell off.
    pub fn shift_right(&mut self, register_number_x: u8, register_number_y: u8)
        requires
            register_number_x < 16,
            register_number_y < 16,
        ensures
            final(self)@ == after_shift_right(old(self)@, register_number_x, register_number_y),
            final(self).feed_open() == old(self).feed_open(),
    {
        proof {
            self.lemma_well_formed();
        }
        if self.settings.assign_shift {
            let y_value = self.registers.get_value(register_number_y);
            self.registers.set_value(register_number_x, y_value);
        }
        let x_value = self.registers.get_value(register_number_x);
        let flags_value = x_value & 0x1 != 0;
        let shifted = x_value >> 1;
        assert(x_value >> 1 == x_value / 2 && ((x_value & 0x1 != 0) <==> x_value % 2 == 1))
            by (bit_vector);
        self.registers.set_value(register_number_x, shifted);
        self.registers.set_value(0xF, if flags_value { 1 } else { 0 });
        assert(self.registers@ =~= after_shift_right(
            old(self)@,
            register_number_x,
            register_number_y,
        ).registers);
    }

    /// `8XYE`: where shifts assign first, VX takes VY. Then VX is doubled
    /// modulo 256, and VF becomes the bit that fell off.
    pub fn shift_left(&mut self, register_number_x: u8, register_number_y: u8)
        requires
            register_number_x < 16,
            register_number_y < 16,
        ensures
            final(self)@ == after_shift_left(old(self)@, register_number_x, register_number_y),
            final(self).feed_open() == old(self).feed_open(),
    {
        proof {
            self.lemma_well_formed();
        }
        if self.settings.assign_shift {
            let y_value = self.registers.get_value(register_number_y);
            self.registers.set_value(register_number_x, y_value);
        }
        let x_value = self.registers.get_value(register_number_x);
        let flags_value = x_value & 0x80 != 0;
        let shifted = x_value << 1;
        assert(x_value << 1 == (x_value * 2) % 256 && ((x_value & 0x80 != 0) <==> x_value >= 128))
            by (bit_vector);
        self.registers.set_value(register_number_x, shifted);
        self.registers.set_value(0xF, if flags_value { 1 } else { 0 });
        assert(self.registers@ =~= after_shift_left(
            old(self)@,
            register_number_x,
            register_number_y,
        ).registers);
    }

    /// Moves the index register past a block of V0..=VX, where the setting
    /// asks for it.
    fn advance_index_past_block(&mut self, register_number: u8)
        requires
            register_number < 16,
        ensures
            final(self)@ == (Machine {
                index_register: index_after_block(old(self)@, register_number),
                ..old(self)@
            }),
            final(self).feed_open() == old(self).feed_open(),
    {
        if self.settings.load_store_increment {
            self.index_register = self.index_register.wrapping_add(register_number as u16 + 1);
        }
    }

    /// `FX55`: V0..=VX go to the cells from the index register on.
    pub fn store_registers(&mut self, register_number: u8)
        requires
            register_number < 16,
        ensures
            final(self)@ == after_store_registers(old(self)@, register_number),
            final(self).feed_open() == old(self).feed_open(),
    {
        let ghost start = self@;
        proof {
            self.lemma_well_formed();
            assert(start.memory =~= stored(start.memory, start.registers, start.index_register, 0));
        }
        let mut register: u8 = 0;
        while register <= register_number
            invariant
                register <= register_number + 1,
                register_number < 16,
                start.well_formed(),
                self.feed_open() == old(self).feed_open(),
                self@ == (Machine {
                    memory: stored(
                        start.memory,
                        start.registers,
                        start.index_register,
                        register as int,
                    ),
                    ..start
                }),
            decreases register_number + 1 - register,
        {
            let address = self.index_register.wrapping_add(register as u16);
            let x_value = self.registers.get_value(register);
            self.memory.set_u8(address, x_value);
            assert(self.memory@ =~= stored(
                start.memory,
                start.registers,
                start.index_register,
                register + 1,
            ));
            register += 1;
        }
        self.advance_index_past_block(register_number);
    }

    /// `FX65`: V0..=VX are read from the cells from the index register on.
    pub fn load_registers(&mut self, register_number: u8)
        requires
            register_number < 16,
        ensures
            final(self)@ == after_load_registers(old(self)@, register_number),
            final(self).feed_open() == old(self).feed_open(),
    {
        let ghost start = self@;
        proof {
            self.lemma_well_formed();
            assert(start.registers =~= loaded(
                start.memory,
                start.registers,
                start.index_register,
                0,
            ));
        }
        let mut register: u8 = 0;
        while register <= register_number
            invariant
                register <= register_number + 1,
                register_number < 16,
                start.well_formed(),
                self.feed_open() == old(self).feed_open(),
                self@ == (Machine {
                    registers: loaded(
                        start.memory,
                        start.registers,
                        start.index_register,
                        register as int,
                    ),
                    ..start
                }),
            decreases register_number + 1 - register,
        {
            let address = self.index_register.wrapping_add(register as u16);
            let memory_value = self.memory.get_u8(address);
            self.registers.set_value(register, memory_value);
            assert(cell_of(address as int) == cell_of(start.index_register + register));
            assert(self.registers@ =~= loaded(
                start.memory,
                start.registers,
                start.index_register,
                register + 1,
            ));
            register += 1;
        }
        self.advance_index_past_block(register_number);
    }

    /// `FX33`: the hundreds, tens and units of VX go to the three cells
    /// from the index register on.
    pub fn binary_coded_decimal(&mut self, register_number: u8)
        requires
            register_number < 16,
        ensures
            final(self)@ == after_binary_coded_decimal(old(self)@, register_number),
            final(self).feed_open() == old(self).feed_open(),
    {
        let x_value = self.registers.get_value(register_number);
        let first = x_value / 100;
        let second = (x_value / 10) % 10;
        let third = x_value % 10;
        self.memory.set_u8(self.index_register, first);
        self.memory.set_u8(self.index_register.wrapping_add(1), second);
        self.memory.set_u8(self.index_register.wrapping_add(2), third);
        assert(cell_of(wrap16(self.index_register + 1) as int) == cell_of(
            self.index_register + 1,
        ));
        assert(cell_of(wrap16(self.index_register + 2) as int) == cell_of(
            self.index_register + 2,
        ));
    }

    /// `FX1E`: the index register grows by VX, modulo 65536. Where the
    /// setting asks for it, VF then becomes 1 if the new index lies past
    /// `0x0FFF`, else 0.
    pub fn add_to_index(&mut self, register_number: u8)
        requires
            register_number < 16,
        ensures
            final(self)@ == after_add_to_index(old(self)@, register_number),
            final(self).feed_open() == old(self).feed_open(),
    {
        let x_value = self.registers.get_value(register_number);
        self.index_register = self.index_register.wrapping_add(x_value as u16);
        if self.settings.add_to_index_overflow {
            let overflowed = self.index_register > 0x0FFF;
            self.registers.set_value(0xF, if overflowed { 1 } else { 0 });
        }
    }

    /// `CXNN`: VX becomes a random byte with only the bits of `mask` kept.
    pub fn random(&mut self, register_number: u8, mask: u8)
        requires
            register_number < 16,
        ensures
            exists|byte: u8| final(self)@ == after_random(old(self)@, register_number, mask, byte),
            final(self).feed_open() == old(self).feed_open(),
    {
        let random_number: u8 = random_byte(&mut self.rng);
        assert(self@ == old(self)@);
        self.store_random(register_number, mask, random_number);
        assert(self@ == after_random(old(self)@, register_number, mask, random_number));
    }

    /// What `CXNN` does once the random byte is there.
    pub fn store_random(&mut self, register_number: u8, mask: u8, random_number: u8)
        requires
            register_number < 16,
        ensures
            final(self)@ == after_random(old(self)@, register_number, mask, random_number),
            final(self).feed_open() == old(self).feed_open(),
    {
        let result = random_number & mask;
        self.registers.set_value(register_number, result);
    }

    /// `FX07`
    pub fn get_delay_timer_value(&mut self, register_number: u8)
        requires
            register_number < 16,
        ensures
            final(self)@ == with_register(old(self)@, register_number, old(self)@.delay_timer),
            final(self).feed_open() == old(self).feed_open(),
    {
        let value = self.delay_timer.get_value();
        self.registers.set_value(register_number, value);
    }

    /// `FX15`
    pub fn set_delay_timer_value(&mut self, register_number: u8)
        requires
            register_number < 16,
        ensures
            final(self)@ == (Machine {
                delay_timer: old(self)@.registers[register_number as int],
                ..old(self)@
            }),
            final(self).feed_open() == old(self).feed_open(),
    {
        let value = self.registers.get_value(register_number);
        self.delay_timer.set_value(value);
    }

    /// `FX18`
    pub fn set_sound_timer_value(&mut self, register_number: u8)
        requires
            register_number < 16,
        ensures
            final(self)@ == (Machine {
                sound_timer: old(self)@.registers[register_number as int],
                ..old(self)@
            }),
            final(self).feed_open() == old(self).feed_open(),
    {
        let value = self.registers.get_value(register_number);
        self.sound_timer.set_value(value);
    }

    /// `EX9E`: skips if the key that VX names is down.
    pub fn skip_if_key_pressed(&mut self, register_number: u8)
        requires
            register_number < 16,
        ensures
            final(self)@ == skip_if(old(self)@, key_down(old(self)@, register_number)),
            final(self).feed_open() == old(self).feed_open(),
    {
        let key_number = self.registers.get_value(register_number);
        if self.keypad.is_key_pressed(key_number) {
            self.skip();
        }
    }

    /// `EXA1`: skips unless the key that VX names is down.
    pub fn skip_if_key_not_pressed(&mut self, register_number: u8)
        requires
            register_number < 16,
        ensures
            final(self)@ == skip_if(old(self)@, !key_down(old(self)@, register_number)),
            final(self).feed_open() == old(self).feed_open(),
    {
        let key_number = self.registers.get_value(register_number);
        if !self.keypad.is_key_pressed(key_number) {
            self.skip();
        }
    }

    /// `FX0A`: waits for a key without blocking. A pending release goes
    /// into VX and is used up; with none pending the program counter steps
    /// back by 2, so that this instruction is fetched again.
    pub fn get_key(&mut self, register_number: u8)
        requires
            register_number < 16,
        ensures
            final(self)@ == after_get_key(old(self)@, register_number),
            final(self).feed_open() == old(self).feed_open(),
    {
        if let Some(key) = self.keypad.last_pressed() {
            self.registers.set_value(register_number, key)
        } else {
            self.program_counter = self.program_counter.wrapping_sub(2);
        }
    }

    /// `BNNN`: jumps to `address` plus V0, or plus VX where the setting asks
    /// for it.
    pub fn jump_with_offset(&mut self, address: u16, register_number: u8)
        requires
            register_number < 16,
        ensures
            final(self)@ == after_jump_with_offset(old(self)@, address, register_number),
            final(self).feed_open() == old(self).feed_open(),
    {
        let address = if self.settings.jump_with_offset_add {
            let value_x = self.registers.get_value(register_number);
            address.wrapping_add(value_x as u16)
        } else {
            let value_0 = self.registers.get_value(0);
            address.wrapping_add(value_0 as u16)
        };
        self.program_counter = address
    }

    /// Carries out one operation. `random` is the byte that `Random` uses;
    /// no other operation looks at it. The one operation that can fail is a
    /// return with an empty stack, and then nothing changes.
    pub fn perform(&mut self, operation: Operation, random: u8) -> (result: Result<(), Fault>)
        requires
            operation.well_formed(),
        ensures
            can_execute(old(self)@, operation) ==> result == Ok::<(), Fault>(()) && final(self)@
                == after(old(self)@, operation, random),
            !can_execute(old(self)@, operation) ==> result == Err::<(), Fault>(
                Fault::StackUnderflow,
            ) && final(self)@ == old(self)@,
            final(self).feed_open() ==> old(self).feed_open(),
    {
        match operation {
            Operation::ClearDisplay => self.clear_display(),
            Operation::Return => {
                return self.return_subroutine();
            },
            Operation::Jump { address } => self.jump(address),
            Operation::Call { address } => self.call_subroutine(address),
            Operation::SkipIfEqualsValue { x, value } => self.skip_if_equals_value(x, value),
            Operation::SkipIfNotEqualsValue { x, value } => self.skip_if_not_equals_value(x, value),
            Operation::SkipIfEqualsRegister { x, y } => self.skip_if_equals_register(x, y),
            Operation::SetValue { x, value } => self.set_value(x, value),
            Operation::AddValue { x, value } => self.add_value(x, value),
            Operation::SetRegister { x, y } => self.set_register(x, y),
            Operation::Or { x, y } => self.or_register(x, y),
            Operation::And { x, y } => self.and_register(x, y),
            Operation::Xor { x, y } => self.xor_register(x, y),
            Operation::AddRegister { x, y } => self.add_register(x, y),
            Operation::SubtractXY { x, y } => self.sub_register_xy(x, y),
            Operation::ShiftRight { x, y } => self.shift_right(x, y),
            Operation::SubtractYX { x, y } => self.sub_register_yx(x, y),
            Operation::ShiftLeft { x, y } => self.shift_left(x, y),
            Operation::SkipIfNotEqualsRegister { x, y } => self.skip_if_not_equals_register(x, y),
            Operation::SetIndex { address } => self.set_index(address),
            Operation::JumpWithOffset { address, x } => self.jump_with_offset(address, x),
            Operation::Random { x, mask } => self.store_random(x, mask, random),
            Operation::Draw { x, y, height } => self.display(x, y, height),
            Operation::SkipIfKeyPressed { x } => self.skip_if_key_pressed(x),
            Operation::SkipIfKeyNotPressed { x } => self.skip_if_key_not_pressed(x),
            Operation::GetDelayTimer { x } => self.get_delay_timer_value(x),
            Operation::GetKey { x } => self.get_key(x),
            Operation::SetDelayTimer { x } => self.set_delay_timer_value(x),
            Operation::SetSoundTimer { x } => self.set_sound_timer_value(x),
            Operation::AddToIndex { x } => self.add_to_index(x),
            Operation::BinaryCodedDecimal { x } => self.binary_coded_decimal(x),
            Operation::StoreRegisters { x } => self.store_registers(x),
            Operation::LoadRegisters { x } => self.load_registers(x),
        }
        Ok(())
    }

    /// Decodes an instruction and carries it out. A word that encodes
    /// nothing is a fault, as is a return with an empty stack; on a fault
    /// nothing changes. Which byte `CXNN` gets is chance; everything else
    /// is fixed by the machine and the word.
    pub fn execute(&mut self, instruction: Instruction) -> (result: Result<(), Fault>)
        ensures
            exists|random: u8|
                (final(self)@, result) == after_word(old(self)@, instruction@, random),
            !(decode(instruction@) matches Some(Operation::Random { .. })) ==> (
                final(self)@,
                result,
            ) == after_word(old(self)@, instruction@, 0),
            final(self).feed_open() ==> old(self).feed_open(),
    {
        match instruction.decode() {
            None => {
                let fault = Fault::UnknownInstruction {
                    instruction: instruction.value(),
                    program_counter: self.program_counter,
                };
                assert((self@, Err::<(), Fault>(fault)) == after_word(
                    old(self)@,
                    instruction@,
                    0,
                ));
                Err(fault)
            },
            Some(Operation::Random { x, mask }) => {
                self.random(x, mask);
                proof {
                    let byte = choose|byte: u8|
                        self@ == after_random(old(self)@, x, mask, byte);
                    assert((self@, Ok::<(), Fault>(())) == after_word(
                        old(self)@,
                        instruction@,
                        byte,
                    ));
                }
                Ok(())
            },
            Some(operation) => {
                let result = self.perform(operation, 0);
                assert((self@, result) == after_word(old(self)@, instruction@, 0));
                result
            },
        }
    }

    /// Lets `elapsed_nanos` nanoseconds pass since the last tick. If that
    /// is a whole period of the 60 Hz clock, both timers go down by one,
    /// and the caller starts counting anew; they never go down by more than
    /// one at a time.
    pub fn tick(&mut self, elapsed_nanos: u128) -> (ticked: bool)
        ensures
            ticked == (elapsed_nanos >= TIMER_DECREMENT_NANOS),
            final(self)@ == after_tick(old(self)@, elapsed_nanos),
            final(self).feed_open() == old(self).feed_open(),
    {
        if elapsed_nanos >= TIMER_DECREMENT_NANOS {
            self.delay_timer.decrement();
            self.sound_timer.decrement();
            true
        } else {
            false
        }
    }

    /// One cycle: takes in the key events that wait in the feed, fetches
    /// the instruction at the program counter, and carries it out. Which
    /// events wait and which byte `CXNN` gets is for the outside to say;
    /// the rest is fixed.
    pub fn step(&mut self) -> (result: Result<(), Fault>)
        ensures
            exists|events: Seq<Event>, random: u8|
                (final(self)@, result) == after_cycle(old(self)@, events, random),
            final(self).feed_open() ==> old(self).feed_open(),
    {
        self.keypad.process();
        let ghost events = choose|events: Seq<Event>|
            self.keypad@ == after_events(old(self).keypad@, events);
        let ghost listened = self@;
        let instruction = self.fetch();
        let result = self.execute(instruction);
        proof {
            let random = choose|random: u8|
                (self@, result) == after_word(
                    fetched(listened),
                    instruction@,
                    random,
                );
            assert((self@, result) == after_cycle(old(self)@, events, random));
        }
        result
    }
}

/// The period of the timers' 60 Hz clock, in nanoseconds.
pub const TIMER_DECREMENT_NANOS: u128 = 16_666_667;

} // verus!
