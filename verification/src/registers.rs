use vstd::prelude::*;

verus! {

/// The sixteen general-purpose 8-bit registers V0..VF.
pub struct Registers {
    registers: [u8; 16],
}

impl View for Registers {
    type V = Seq<u8>;

    closed spec fn view(&self) -> Seq<u8> {
        self.registers@
    }
}

impl Registers {
    /// Sixteen registers, all zero.
    pub fn new() -> (bank: Self)
        ensures
            bank@ == Seq::new(16, |i: int| 0u8),
    {
        let bank = Self { registers: [0; 16] };
        assert(bank.registers@ =~= Seq::new(16, |i: int| 0u8));
        bank
    }

    /// The view of a register bank always has sixteen cells.
    pub proof fn lemma_len(&self)
        ensures
            self@.len() == 16,
    {
    }

    pub fn set_value(&mut self, register: u8, value: u8)
        requires
            register < 16,
        ensures
            final(self)@ == old(self)@.update(register as int, value),
    {
        self.registers[register as usize] = value;
    }

    pub fn get_value(&self, register: u8) -> (value: u8)
        requires
            register < 16,
        ensures
            value == self@[register as int],
    {
        self.registers[register as usize]
    }
}

} // verus!
