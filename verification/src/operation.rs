use crate::instruction::{first_of, n_of, nn_of, nnn_of, x_of, y_of, Instruction};
use vstd::prelude::*;

verus! {

/// What an instruction word asks for. `x` and `y` name registers.
#[derive(Clone, Copy, Debug, PartialEq, Eq)]
pub enum Operation {
    /// `00E0`
    ClearDisplay,
    /// `00EE`
    Return,
    /// `1NNN`
    Jump { address: u16 },
    /// `2NNN`
    Call { address: u16 },
    /// `3XNN`
    SkipIfEqualsValue { x: u8, value: u8 },
    /// `4XNN`
    SkipIfNotEqualsValue { x: u8, value: u8 },
    /// `5XY_`
    SkipIfEqualsRegister { x: u8, y: u8 },
    /// `6XNN`
    SetValue { x: u8, value: u8 },
    /// `7XNN`
    AddValue { x: u8, value: u8 },
    /// `8XY0`
    SetRegister { x: u8, y: u8 },
    /// `8XY1`
    Or { x: u8, y: u8 },
    /// `8XY2`
    And { x: u8, y: u8 },
    /// `8XY3`
    Xor { x: u8, y: u8 },
    /// `8XY4`
    AddRegister { x: u8, y: u8 },
    /// `8XY5`
    SubtractXY { x: u8, y: u8 },
    /// `8XY6`
    ShiftRight { x: u8, y: u8 },
    /// `8XY7`
    SubtractYX { x: u8, y: u8 },
    /// `8XYE`
    ShiftLeft { x: u8, y: u8 },
    /// `9XY_`
    SkipIfNotEqualsRegister { x: u8, y: u8 },
    /// `ANNN`
    SetIndex { address: u16 },
    /// `BNNN`; `x` is the top nibble of `NNN`
    JumpWithOffset { address: u16, x: u8 },
    /// `CXNN`
    Random { x: u8, mask: u8 },
    /// `DXYN`
    Draw { x: u8, y: u8, height: u8 },
    /// `EX9E`
    SkipIfKeyPressed { x: u8 },
    /// `EXA1`
    SkipIfKeyNotPressed { x: u8 },
    /// `FX07`
    GetDelayTimer { x: u8 },
    /// `FX0A`
    GetKey { x: u8 },
    /// `FX15`
    SetDelayTimer { x: u8 },
    /// `FX18`
    SetSoundTimer { x: u8 },
    /// `FX1E`
    AddToIndex { x: u8 },
    /// `FX33`
    BinaryCodedDecimal { x: u8 },
    /// `FX55`
    StoreRegisters { x: u8 },
    /// `FX65`
    LoadRegisters { x: u8 },
}

/// The operation that a word encodes, if it encodes one. The top nibble
/// picks the family; families `8`, `E` and `F` go on by the low nibble or low
/// byte, family `0` by all of the low twelve bits.
pub open spec fn decode(word: u16) -> Option<Operation> {
    let x = x_of(word);
    let y = y_of(word);
    let n = n_of(word);
    let nn = nn_of(word);
    let nnn = nnn_of(word);
    match first_of(word) {
        0x0 => if nnn == 0x0E0 {
            Some(Operation::ClearDisplay)
        } else if nnn == 0x0EE {
            Some(Operation::Return)
        } else {
            None
        },
        0x1 => Some(Operation::Jump { address: nnn }),
        0x2 => Some(Operation::Call { address: nnn }),
        0x3 => Some(Operation::SkipIfEqualsValue { x, value: nn }),
        0x4 => Some(Operation::SkipIfNotEqualsValue { x, value: nn }),
        0x5 => Some(Operation::SkipIfEqualsRegister { x, y }),
        0x6 => Some(Operation::SetValue { x, value: nn }),
        0x7 => Some(Operation::AddValue { x, value: nn }),
        0x8 => match n {
            0x0 => Some(Operation::SetRegister { x, y }),
            0x1 => Some(Operation::Or { x, y }),
            0x2 => Some(Operation::And { x, y }),
            0x3 => Some(Operation::Xor { x, y }),
            0x4 => Some(Operation::AddRegister { x, y }),
            0x5 => Some(Operation::SubtractXY { x, y }),
            0x6 => Some(Operation::ShiftRight { x, y }),
            0x7 => Some(Operation::SubtractYX { x, y }),
            0xE => Some(Operation::ShiftLeft { x, y }),
            _ => None,
        },
        0x9 => Some(Operation::SkipIfNotEqualsRegister { x, y }),
        0xA => Some(Operation::SetIndex { address: nnn }),
        0xB => Some(Operation::JumpWithOffset { address: nnn, x }),
        0xC => Some(Operation::Random { x, mask: nn }),
        0xD => Some(Operation::Draw { x, y, height: n }),
        0xE => match nn {
            0x9E => Some(Operation::SkipIfKeyPressed { x }),
            0xA1 => Some(Operation::SkipIfKeyNotPressed { x }),
            _ => None,
        },
        0xF => match nn {
            0x07 => Some(Operation::GetDelayTimer { x }),
            0x0A => Some(Operation::GetKey { x }),
            0x15 => Some(Operation::SetDelayTimer { x }),
            0x18 => Some(Operation::SetSoundTimer { x }),
            0x1E => Some(Operation::AddToIndex { x }),
            0x33 => Some(Operation::BinaryCodedDecimal { x }),
            0x55 => Some(Operation::StoreRegisters { x }),
            0x65 => Some(Operation::LoadRegisters { x }),
            _ => None,
        },
        _ => None,
    }
}

impl Operation {
    /// Every register that the operation names exists.
    pub open spec fn well_formed(self) -> bool {
        match self {
            Operation::ClearDisplay
            | Operation::Return
            | Operation::Jump { .. }
            | Operation::Call { .. }
            | Operation::SetIndex { .. } => true,
            Operation::JumpWithOffset { x, .. }
            | Operation::SkipIfEqualsValue { x, .. }
            | Operation::SkipIfNotEqualsValue { x, .. }
            | Operation::SetValue { x, .. }
            | Operation::AddValue { x, .. }
            | Operation::Random { x, .. }
            | Operation::SkipIfKeyPressed { x }
            | Operation::SkipIfKeyNotPressed { x }
            | Operation::GetDelayTimer { x }
            | Operation::GetKey { x }
            | Operation::SetDelayTimer { x }
            | Operation::SetSoundTimer { x }
            | Operation::AddToIndex { x }
            | Operation::BinaryCodedDecimal { x }
            | Operation::StoreRegisters { x }
            | Operation::LoadRegisters { x } => x < 16,
            Operation::SkipIfEqualsRegister { x, y }
            | Operation::SetRegister { x, y }
            | Operation::Or { x, y }
            | Operation::And { x, y }
            | Operation::Xor { x, y }
            | Operation::AddRegister { x, y }
            | Operation::SubtractXY { x, y }
            | Operation::ShiftRight { x, y }
            | Operation::SubtractYX { x, y }
            | Operation::ShiftLeft { x, y }
            | Operation::SkipIfNotEqualsRegister { x, y }
            | Operation::Draw { x, y, .. } => x < 16 && y < 16,
        }
    }
}

impl Instruction {
    /// Reads the word; `None` when it encodes nothing.
    pub fn decode(&self) -> (operation: Option<Operation>)
        ensures
            operation == decode(self@),
            operation matches Some(op) ==> op.well_formed(),
    {
        let x = self.x();
        let y = self.y();
        let n = self.n();
        let nn = self.nn();
        let nnn = self.nnn();
        match self.first() {
            0x0 => if nnn == 0x0E0 {
                Some(Operation::ClearDisplay)
            } else if nnn == 0x0EE {
                Some(Operation::Return)
            } else {
                None
            },
            0x1 => Some(Operation::Jump { address: nnn }),
            0x2 => Some(Operation::Call { address: nnn }),
            0x3 => Some(Operation::SkipIfEqualsValue { x, value: nn }),
            0x4 => Some(Operation::SkipIfNotEqualsValue { x, value: nn }),
            0x5 => Some(Operation::SkipIfEqualsRegister { x, y }),
            0x6 => Some(Operation::SetValue { x, value: nn }),
            0x7 => Some(Operation::AddValue { x, value: nn }),
            0x8 => match n {
                0x0 => Some(Operation::SetRegister { x, y }),
                0x1 => Some(Operation::Or { x, y }),
                0x2 => Some(Operation::And { x, y }),
                0x3 => Some(Operation::Xor { x, y }),
                0x4 => Some(Operation::AddRegister { x, y }),
                0x5 => Some(Operation::SubtractXY { x, y }),
                0x6 => Some(Operation::ShiftRight { x, y }),
                0x7 => Some(Operation::SubtractYX { x, y }),
                0xE => Some(Operation::ShiftLeft { x, y }),
                _ => None,
            },
            0x9 => Some(Operation::SkipIfNotEqualsRegister { x, y }),
            0xA => Some(Operation::SetIndex { address: nnn }),
            0xB => Some(Operation::JumpWithOffset { address: nnn, x }),
            0xC => Some(Operation::Random { x, mask: nn }),
            0xD => Some(Operation::Draw { x, y, height: n }),
            0xE => match nn {
                0x9E => Some(Operation::SkipIfKeyPressed { x }),
                0xA1 => Some(Operation::SkipIfKeyNotPressed { x }),
                _ => None,
            },
            0xF => match nn {
                0x07 => Some(Operation::GetDelayTimer { x }),
                0x0A => Some(Operation::GetKey { x }),
                0x15 => Some(Operation::SetDelayTimer { x }),
                0x18 => Some(Operation::SetSoundTimer { x }),
                0x1E => Some(Operation::AddToIndex { x }),
                0x33 => Some(Operation::BinaryCodedDecimal { x }),
                0x55 => Some(Operation::StoreRegisters { x }),
                0x65 => Some(Operation::LoadRegisters { x }),
                _ => None,
            },
            _ => None,
        }
    }
}

} // verus!
