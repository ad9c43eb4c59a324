use vstd::prelude::*;

verus! {

/// Address at which a program image is placed and execution begins.
pub const PROGRAM_START: u16 = 0x200;

/// The cell that an address names. Addresses wrap: only the low twelve
/// bits of an address select a cell.
pub open spec fn cell_of(address: int) -> int {
    address % 4096
}

/// Memory as it is right after loading `program`: the image sits at
/// `PROGRAM_START`, cut off where memory ends, and every other cell is zero.
pub open spec fn loaded_image(program: Seq<u8>) -> Seq<u8> {
    Seq::new(
        4096,
        |a: int|
            if 0x200 <= a < 0x200 + program.len() {
                program[a - 0x200]
            } else {
                0u8
            },
    )
}

/// The big-endian word at `address`: the byte there is the high byte, the
/// byte in the following cell the low byte.
pub open spec fn word_at(cells: Seq<u8>, address: u16) -> u16 {
    (cells[cell_of(address as int)] * 256 + cells[cell_of(address + 1)]) as u16
}

/// 4096 bytes of RAM.
pub struct Memory {
    cells: [u8; 4096],
}

impl View for Memory {
    type V = Seq<u8>;

    closed spec fn view(&self) -> Seq<u8> {
        self.cells@
    }
}

impl Memory {
    /// Memory holding `program` at `PROGRAM_START` and zero elsewhere. The
    /// part of an image that would lie past the last cell is left out.
    pub fn new(program: &[u8]) -> (memory: Self)
        ensures
            memory@ == loaded_image(program@),
    {
        let mut memory = Self { cells: [0; 4096] };
        let mut i: usize = 0;
        while i < program.len() && i < 3584
            invariant
                i <= 3584,
                i <= program.len(),
                memory.cells@.len() == 4096,
                forall|a: int|
                    0 <= a < 4096 ==> #[trigger] memory.cells@[a] == if 0x200 <= a < 0x200 + i {
                        program@[a - 0x200]
                    } else {
                        0u8
                    },
            decreases program.len() - i,
        {
            memory.cells[i + 0x200] = program[i];
            i += 1;
        }
        assert(memory.cells@ =~= loaded_image(program@));
        memory
    }

    /// Memory always has 4096 cells.
    pub proof fn lemma_len(&self)
        ensures
            self@.len() == 4096,
    {
    }

    pub fn get_u8(&self, address: u16) -> (value: u8)
        ensures
            value == self@[cell_of(address as int)],
    {
        self.cells[(address % 4096) as usize]
    }

    pub fn get_u16(&self, address: u16) -> (value: u16)
        ensures
            value == word_at(self@, address),
    {
        let high = self.cells[(address % 4096) as usize];
        let low = self.cells[((address as usize) + 1) % 4096];
        (high as u16) * 256 + (low as u16)
    }

    pub fn set_u8(&mut self, address: u16, value: u8)
        ensures
            final(self)@ == old(self)@.update(cell_of(address as int), value),
    {
        self.cells[(address % 4096) as usize] = value;
    }
}

} // verus!
