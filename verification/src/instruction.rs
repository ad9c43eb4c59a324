use vstd::prelude::*;

verus! {

/// One 16-bit instruction word, read as four nibbles `F X Y N`; `NN` is the
/// low byte and `NNN` the low twelve bits.
#[derive(Clone, Copy, Debug)]
pub struct Instruction {
    value: u16,
}

impl View for Instruction {
    type V = u16;

    closed spec fn view(&self) -> u16 {
        self.value
    }
}

pub open spec fn first_of(word: u16) -> u8 {
    (word / 4096) as u8
}

pub open spec fn x_of(word: u16) -> u8 {
    (word / 256 % 16) as u8
}

pub open spec fn y_of(word: u16) -> u8 {
    (word / 16 % 16) as u8
}

pub open spec fn n_of(word: u16) -> u8 {
    (word % 16) as u8
}

pub open spec fn nn_of(word: u16) -> u8 {
    (word % 256) as u8
}

pub open spec fn nnn_of(word: u16) -> u16 {
    word % 4096
}

impl Instruction {
    pub fn new(value: u16) -> (instruction: Self)
        ensures
            instruction@ == value,
    {
        Self { value }
    }

    /// The raw word.
    pub fn value(&self) -> (word: u16)
        ensures
            word == self@,
    {
        self.value
    }

    /// The family nibble.
    pub fn first(&self) -> (nibble: u8)
        ensures
            nibble == first_of(self@),
            nibble < 16,
    {
        let word = self.value;
        assert((word >> 12) & 0xf == word / 4096 && word / 4096 < 16) by (bit_vector);
        ((word >> 12) & 0b0000_0000_0000_1111) as u8
    }

    pub fn x(&self) -> (nibble: u8)
        ensures
            nibble == x_of(self@),
            nibble < 16,
    {
        let word = self.value;
        assert((word >> 8) & 0xf == word / 256 % 16 && word / 256 % 16 < 16) by (bit_vector);
        ((word >> 8) & 0b0000_0000_0000_1111) as u8
    }

    pub fn y(&self) -> (nibble: u8)
        ensures
            nibble == y_of(self@),
            nibble < 16,
    {
        let word = self.value;
        assert((word >> 4) & 0xf == word / 16 % 16 && word / 16 % 16 < 16) by (bit_vector);
        ((word >> 4) & 0b0000_0000_0000_1111) as u8
    }

    pub fn n(&self) -> (nibble: u8)
        ensures
            nibble == n_of(self@),
            nibble < 16,
    {
        let word = self.value;
        assert(word & 0xf == word % 16 && word % 16 < 16) by (bit_vector);
        (word & 0b0000_0000_0000_1111) as u8
    }

    pub fn nn(&self) -> (byte: u8)
        ensures
            byte == nn_of(self@),
    {
        let word = self.value;
        assert(word & 0xff == word % 256 && word % 256 < 256) by (bit_vector);
        (word & 0b0000_0000_1111_1111) as u8
    }

    pub fn nnn(&self) -> (address: u16)
        ensures
            address == nnn_of(self@),
            address < 4096,
    {
        let word = self.value;
        assert(word & 0xfff == word % 4096 && word % 4096 < 4096) by (bit_vector);
        word & 0b0000_1111_1111_1111
    }
}

} // verus!
