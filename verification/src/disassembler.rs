//! Decoding of 16-bit instruction words into opcodes.
use vstd::prelude::*;

verus! {

/// A decoded instruction. `x` and `y` name registers, `n` is a 4-bit
/// immediate, `nn` an 8-bit immediate and `nnn` a 12-bit address.
#[derive(Clone, Copy, Debug, PartialEq, Eq, Structural)]
pub enum Opcode {
    /// `00E0`: clear the framebuffer.
    ClearScreen,
    /// `00EE`: return from a subroutine.
    Return,
    /// `0nnn`: call into native code; executes as a no-op.
    System { nnn: u16 },
    /// `1nnn`: jump to `nnn`.
    Jump { nnn: u16 },
    /// `2nnn`: call the subroutine at `nnn`.
    Call { nnn: u16 },
    /// `3xnn`: skip the next instruction if `Vx == nn`.
    SkipEqImm { x: u8, nn: u8 },
    /// `4xnn`: skip the next instruction if `Vx != nn`.
    SkipNeImm { x: u8, nn: u8 },
    /// `5xy0`: skip the next instruction if `Vx == Vy`.
    SkipEqReg { x: u8, y: u8 },
    /// `6xnn`: `Vx = nn`.
    LoadImm { x: u8, nn: u8 },
    /// `7xnn`: `Vx = Vx + nn` modulo 256; the flag register is not written.
    AddImm { x: u8, nn: u8 },
    /// `8xy0`: `Vx = Vy`.
    Move { x: u8, y: u8 },
    /// `8xy1`: `Vx = Vx | Vy`.
    Or { x: u8, y: u8 },
    /// `8xy2`: `Vx = Vx & Vy`.
    And { x: u8, y: u8 },
    /// `8xy3`: `Vx = Vx ^ Vy`.
    Xor { x: u8, y: u8 },
    /// `8xy4`: `Vx = Vx + Vy` modulo 256, `VF` = carry.
    Add { x: u8, y: u8 },
    /// `8xy5`: `Vx = Vx - Vy` modulo 256, `VF` = no borrow.
    Sub { x: u8, y: u8 },
    /// `8xy6`: `Vx = Vx >> 1`, `VF` = the bit shifted out.
    ShiftRight { x: u8 },
    /// `8xy7`: `Vx = Vy - Vx` modulo 256, `VF` = no borrow.
    SubReverse { x: u8, y: u8 },
    /// `8xyE`: `Vx = Vx << 1` modulo 256, `VF` = the bit shifted out.
    ShiftLeft { x: u8 },
    /// `9xy0`: skip the next instruction if `Vx != Vy`.
    SkipNeReg { x: u8, y: u8 },
    /// `Annn`: `I = nnn`.
    LoadIndex { nnn: u16 },
    /// `Bnnn`: jump to `V0 + nnn`.
    JumpOffset { nnn: u16 },
    /// `Cxnn`: `Vx` = a random byte masked with `nn`.
    Random { x: u8, nn: u8 },
    /// `Dxyn`: draw the `n`-row sprite at `I` to `(Vx, Vy)`, `VF` = collision.
    Draw { x: u8, y: u8, n: u8 },
    /// `Ex9E`: skip the next instruction if key `Vx` is held.
    SkipKey { x: u8 },
    /// `ExA1`: skip the next instruction if key `Vx` is not held.
    SkipNoKey { x: u8 },
    /// `Fx07`: `Vx` = delay timer.
    ReadDelay { x: u8 },
    /// `Fx0A`: wait for a key and store its index in `Vx`.
    WaitKey { x: u8 },
    /// `Fx15`: delay timer = `Vx`.
    SetDelay { x: u8 },
    /// `Fx18`: sound timer = `Vx`.
    SetSound { x: u8 },
    /// `Fx1E`: `I = I + Vx` modulo 4096, `VF` = overflow past `0xFFF`.
    AddIndex { x: u8 },
    /// `Fx29`: `I` = address of the glyph for `Vx`.
    FontAddress { x: u8 },
    /// `Fx33`: store the three decimal digits of `Vx` at `I`, `I+1`, `I+2`.
    StoreBcd { x: u8 },
    /// `Fx55`: store `V0..=Vx` to memory starting at `I`.
    StoreRegisters { x: u8 },
    /// `Fx65`: load `V0..=Vx` from memory starting at `I`.
    LoadRegisters { x: u8 },
}

impl Opcode {
    /// Every operand lies within the width of its field.
    pub open spec fn wf(self) -> bool {
        match self {
            Opcode::ClearScreen | Opcode::Return => true,
            Opcode::System { nnn }
            | Opcode::Jump { nnn }
            | Opcode::Call { nnn }
            | Opcode::LoadIndex { nnn }
            | Opcode::JumpOffset { nnn } => nnn < 0x1000,
            Opcode::SkipEqImm { x, .. }
            | Opcode::SkipNeImm { x, .. }
            | Opcode::LoadImm { x, .. }
            | Opcode::AddImm { x, .. }
            | Opcode::Random { x, .. }
            | Opcode::ShiftRight { x }
            | Opcode::ShiftLeft { x }
            | Opcode::SkipKey { x }
            | Opcode::SkipNoKey { x }
            | Opcode::ReadDelay { x }
            | Opcode::WaitKey { x }
            | Opcode::SetDelay { x }
            | Opcode::SetSound { x }
            | Opcode::AddIndex { x }
            | Opcode::FontAddress { x }
            | Opcode::StoreBcd { x }
            | Opcode::StoreRegisters { x }
            | Opcode::LoadRegisters { x } => x < 16,
            Opcode::SkipEqReg { x, y }
            | Opcode::Move { x, y }
            | Opcode::Or { x, y }
            | Opcode::And { x, y }
            | Opcode::Xor { x, y }
            | Opcode::Add { x, y }
            | Opcode::Sub { x, y }
            | Opcode::SubReverse { x, y }
            | Opcode::SkipNeReg { x, y } => x < 16 && y < 16,
            Opcode::Draw { x, y, n } => x < 16 && y < 16 && n < 16,
        }
    }
}

impl Opcode {
    /// Tells whether every operand lies within the width of its field.
    pub fn operands_fit(&self) -> (b: bool)
        ensures
            b == self.wf(),
    {
        match *self {
            Opcode::ClearScreen | Opcode::Return => true,
            Opcode::System { nnn }
            | Opcode::Jump { nnn }
            | Opcode::Call { nnn }
            | Opcode::LoadIndex { nnn }
            | Opcode::JumpOffset { nnn } => nnn < 0x1000,
            Opcode::SkipEqImm { x, .. }
            | Opcode::SkipNeImm { x, .. }
            | Opcode::LoadImm { x, .. }
            | Opcode::AddImm { x, .. }
            | Opcode::Random { x, .. }
            | Opcode::ShiftRight { x }
            | Opcode::ShiftLeft { x }
            | Opcode::SkipKey { x }
            | Opcode::SkipNoKey { x }
            | Opcode::ReadDelay { x }
            | Opcode::WaitKey { x }
            | Opcode::SetDelay { x }
            | Opcode::SetSound { x }
            | Opcode::AddIndex { x }
            | Opcode::FontAddress { x }
            | Opcode::StoreBcd { x }
            | Opcode::StoreRegisters { x }
            | Opcode::LoadRegisters { x } => x < 16,
            Opcode::SkipEqReg { x, y }
            | Opcode::Move { x, y }
            | Opcode::Or { x, y }
            | Opcode::And { x, y }
            | Opcode::Xor { x, y }
            | Opcode::Add { x, y }
            | Opcode::Sub { x, y }
            | Opcode::SubReverse { x, y }
            | Opcode::SkipNeReg { x, y } => x < 16 && y < 16,
            Opcode::Draw { x, y, n } => x < 16 && y < 16 && n < 16,
        }
    }

    /// The assembler name of the opcode, as a listing shows it.
    pub open spec fn mnemonic_text(self) -> Seq<char> {
        match self {
            Opcode::ClearScreen => "CLS"@,
            Opcode::Return => "RTS"@,
            Opcode::System { .. } => "NOP"@,
            Opcode::Jump { .. } => "JUMP"@,
            Opcode::Call { .. } => "CALL"@,
            Opcode::SkipEqImm { .. } | Opcode::SkipEqReg { .. } => "SKIP.EQ"@,
            Opcode::SkipNeImm { .. } | Opcode::SkipNeReg { .. } => "SKIP.NE"@,
            Opcode::LoadImm { .. } => "SETR"@,
            Opcode::AddImm { .. } => "ADDR"@,
            Opcode::Move { .. }
            | Opcode::ReadDelay { .. }
            | Opcode::SetDelay { .. }
            | Opcode::SetSound { .. } => "MOV"@,
            Opcode::Or { .. } => "OR"@,
            Opcode::And { .. } => "AND"@,
            Opcode::Xor { .. } => "XOR"@,
            Opcode::Add { .. } => "ADD."@,
            Opcode::Sub { .. } => "SUB."@,
            Opcode::ShiftRight { .. } => "SHR."@,
            Opcode::SubReverse { .. } => "SUBB."@,
            Opcode::ShiftLeft { .. } => "SHL."@,
            Opcode::LoadIndex { .. } => "SETI"@,
            Opcode::JumpOffset { .. } => "JUMP0"@,
            Opcode::Random { .. } => "RAND"@,
            Opcode::Draw { .. } => "SPRITE"@,
            Opcode::SkipKey { .. } => "SKIP.KEY"@,
            Opcode::SkipNoKey { .. } => "SKIP.NOKEY"@,
            Opcode::WaitKey { .. } => "WAITKEY"@,
            Opcode::AddIndex { .. } => "ADD"@,
            Opcode::FontAddress { .. } => "SPRITECHAR"@,
            Opcode::StoreBcd { .. } => "MOVBCD"@,
            Opcode::StoreRegisters { .. } | Opcode::LoadRegisters { .. } => "MOVM"@,
        }
    }

    /// The assembler name of the opcode.
    pub fn mnemonic(&self) -> (name: &'static str)
        ensures
            name@ == self.mnemonic_text(),
    {
        match self {
            Opcode::ClearScreen => "CLS",
            Opcode::Return => "RTS",
            Opcode::System { .. } => "NOP",
            Opcode::Jump { .. } => "JUMP",
            Opcode::Call { .. } => "CALL",
            Opcode::SkipEqImm { .. } | Opcode::SkipEqReg { .. } => "SKIP.EQ",
            Opcode::SkipNeImm { .. } | Opcode::SkipNeReg { .. } => "SKIP.NE",
            Opcode::LoadImm { .. } => "SETR",
            Opcode::AddImm { .. } => "ADDR",
            Opcode::Move { .. }
            | Opcode::ReadDelay { .. }
            | Opcode::SetDelay { .. }
            | Opcode::SetSound { .. } => "MOV",
            Opcode::Or { .. } => "OR",
            Opcode::And { .. } => "AND",
            Opcode::Xor { .. } => "XOR",
            Opcode::Add { .. } => "ADD.",
            Opcode::Sub { .. } => "SUB.",
            Opcode::ShiftRight { .. } => "SHR.",
            Opcode::SubReverse { .. } => "SUBB.",
            Opcode::ShiftLeft { .. } => "SHL.",
            Opcode::LoadIndex { .. } => "SETI",
            Opcode::JumpOffset { .. } => "JUMP0",
            Opcode::Random { .. } => "RAND",
            Opcode::Draw { .. } => "SPRITE",
            Opcode::SkipKey { .. } => "SKIP.KEY",
            Opcode::SkipNoKey { .. } => "SKIP.NOKEY",
            Opcode::WaitKey { .. } => "WAITKEY",
            Opcode::AddIndex { .. } => "ADD",
            Opcode::FontAddress { .. } => "SPRITECHAR",
            Opcode::StoreBcd { .. } => "MOVBCD",
            Opcode::StoreRegisters { .. } | Opcode::LoadRegisters { .. } => "MOVM",
        }
    }
}

/// A raw 16-bit instruction word.
#[derive(Clone, Copy, Debug, PartialEq, Eq, Structural)]
pub struct Instruction(pub u16);

impl Instruction {
    /// The leading nibble, which selects the opcode family.
    pub open spec fn family(self) -> u8 {
        (self.0 / 0x1000) as u8
    }

    /// The second nibble: a register index.
    pub open spec fn x(self) -> u8 {
        (self.0 / 0x100 % 0x10) as u8
    }

    /// The third nibble: a register index.
    pub open spec fn y(self) -> u8 {
        (self.0 / 0x10 % 0x10) as u8
    }

    /// The last nibble.
    pub open spec fn n(self) -> u8 {
        (self.0 % 0x10) as u8
    }

    /// The low byte.
    pub open spec fn nn(self) -> u8 {
        (self.0 % 0x100) as u8
    }

    /// The low twelve bits.
    pub open spec fn nnn(self) -> u16 {
        self.0 % 0x1000
    }

    /// The opcode this word stands for, or `None` if it stands for none.
    pub open spec fn decoded(self) -> Option<Opcode> {
        let (x, y, n, nn, nnn) = (self.x(), self.y(), self.n(), self.nn(), self.nnn());
        match self.family() {
            0x0 => Some(
                if self.0 == 0x00E0 {
                    Opcode::ClearScreen
                } else if self.0 == 0x00EE {
                    Opcode::Return
                } else {
                    Opcode::System { nnn }
                },
            ),
            0x1 => Some(Opcode::Jump { nnn }),
            0x2 => Some(Opcode::Call { nnn }),
            0x3 => Some(Opcode::SkipEqImm { x, nn }),
            0x4 => Some(Opcode::SkipNeImm { x, nn }),
            0x5 => if n == 0 {
                Some(Opcode::SkipEqReg { x, y })
            } else {
                None
            },
            0x6 => Some(Opcode::LoadImm { x, nn }),
            0x7 => Some(Opcode::AddImm { x, nn }),
            0x8 => match n {
                0x0 => Some(Opcode::Move { x, y }),
                0x1 => Some(Opcode::Or { x, y }),
                0x2 => Some(Opcode::And { x, y }),
                0x3 => Some(Opcode::Xor { x, y }),
                0x4 => Some(Opcode::Add { x, y }),
                0x5 => Some(Opcode::Sub { x, y }),
                0x6 => Some(Opcode::ShiftRight { x }),
                0x7 => Some(Opcode::SubReverse { x, y }),
                0xE => Some(Opcode::ShiftLeft { x }),
                _ => None,
            },
            0x9 => if n == 0 {
                Some(Opcode::SkipNeReg { x, y })
            } else {
                None
            },
            0xA => Some(Opcode::LoadIndex { nnn }),
            0xB => Some(Opcode::JumpOffset { nnn }),
            0xC => Some(Opcode::Random { x, nn }),
            0xD => Some(Opcode::Draw { x, y, n }),
            0xE => match nn {
                0x9E => Some(Opcode::SkipKey { x }),
                0xA1 => Some(Opcode::SkipNoKey { x }),
                _ => None,
            },
            _ => match nn {
                0x07 => Some(Opcode::ReadDelay { x }),
                0x0A => Some(Opcode::WaitKey { x }),
                0x15 => Some(Opcode::SetDelay { x }),
                0x18 => Some(Opcode::SetSound { x }),
                0x1E => Some(Opcode::AddIndex { x }),
                0x29 => Some(Opcode::FontAddress { x }),
                0x33 => Some(Opcode::StoreBcd { x }),
                0x55 => Some(Opcode::StoreRegisters { x }),
                0x65 => Some(Opcode::LoadRegisters { x }),
                _ => None,
            },
        }
    }

    /// Splits the word into its four nibbles, most significant first.
    pub fn nibbles(&self) -> (r: (u8, u8, u8, u8))
        ensures
            r == (self.family(), self.x(), self.y(), self.n()),
    {
        let w: u16 = self.0;
        assert((w >> 12) == w / 0x1000 && (w >> 12) < 16) by (bit_vector);
        assert(((w >> 8) & 0xF) == w / 0x100 % 0x10 && ((w >> 8) & 0xF) < 16) by (bit_vector);
        assert(((w >> 4) & 0xF) == w / 0x10 % 0x10 && ((w >> 4) & 0xF) < 16) by (bit_vector);
        assert((w & 0xF) == w % 0x10 && (w & 0xF) < 16) by (bit_vector);
        ((w >> 12) as u8, ((w >> 8) & 0xF) as u8, ((w >> 4) & 0xF) as u8, (w & 0xF) as u8)
    }

    /// The low byte of the word.
    pub fn low_byte(&self) -> (r: u8)
        ensures
            r == self.nn(),
    {
        let w: u16 = self.0;
        assert((w & 0xFF) == w % 0x100 && (w & 0xFF) < 0x100) by (bit_vector);
        (w & 0xFF) as u8
    }

    /// The low twelve bits of the word.
    pub fn address(&self) -> (r: u16)
        ensures
            r == self.nnn(),
    {
        let w: u16 = self.0;
        assert((w & 0xFFF) == w % 0x1000) by (bit_vector);
        w & 0xFFF
    }

    /// Decodes the word.
    pub fn decode(&self) -> (r: Option<Opcode>)
        ensures
            r == self.decoded(),
            r matches Some(op) ==> op.wf(),
    {
        let (family, x, y, n) = self.nibbles();
        let nn: u8 = self.low_byte();
        let nnn: u16 = self.address();
        match (family, n, nn) {
            (0x0, _, _) => Some(
                if self.0 == 0x00E0 {
                    Opcode::ClearScreen
                } else if self.0 == 0x00EE {
                    Opcode::Return
                } else {
                    Opcode::System { nnn }
                },
            ),
            (0x1, _, _) => Some(Opcode::Jump { nnn }),
            (0x2, _, _) => Some(Opcode::Call { nnn }),
            (0x3, _, _) => Some(Opcode::SkipEqImm { x, nn }),
            (0x4, _, _) => Some(Opcode::SkipNeImm { x, nn }),
            (0x5, 0x0, _) => Some(Opcode::SkipEqReg { x, y }),
            (0x6, _, _) => Some(Opcode::LoadImm { x, nn }),
            (0x7, _, _) => Some(Opcode::AddImm { x, nn }),
            (0x8, 0x0, _) => Some(Opcode::Move { x, y }),
            (0x8, 0x1, _) => Some(Opcode::Or { x, y }),
            (0x8, 0x2, _) => Some(Opcode::And { x, y }),
            (0x8, 0x3, _) => Some(Opcode::Xor { x, y }),
            (0x8, 0x4, _) => Some(Opcode::Add { x, y }),
            (0x8, 0x5, _) => Some(Opcode::Sub { x, y }),
            (0x8, 0x6, _) => Some(Opcode::ShiftRight { x }),
            (0x8, 0x7, _) => Some(Opcode::SubReverse { x, y }),
            (0x8, 0xE, _) => Some(Opcode::ShiftLeft { x }),
            (0x9, 0x0, _) => Some(Opcode::SkipNeReg { x, y }),
            (0xA, _, _) => Some(Opcode::LoadIndex { nnn }),
            (0xB, _, _) => Some(Opcode::JumpOffset { nnn }),
            (0xC, _, _) => Some(Opcode::Random { x, nn }),
            (0xD, _, _) => Some(Opcode::Draw { x, y, n }),
            (0xE, _, 0x9E) => Some(Opcode::SkipKey { x }),
            (0xE, _, 0xA1) => Some(Opcode::SkipNoKey { x }),
            (0xF, _, 0x07) => Some(Opcode::ReadDelay { x }),
            (0xF, _, 0x0A) => Some(Opcode::WaitKey { x }),
            (0xF, _, 0x15) => Some(Opcode::SetDelay { x }),
            (0xF, _, 0x18) => Some(Opcode::SetSound { x }),
            (0xF, _, 0x1E) => Some(Opcode::AddIndex { x }),
            (0xF, _, 0x29) => Some(Opcode::FontAddress { x }),
            (0xF, _, 0x33) => Some(Opcode::StoreBcd { x }),
            (0xF, _, 0x55) => Some(Opcode::StoreRegisters { x }),
            (0xF, _, 0x65) => Some(Opcode::LoadRegisters { x }),
            _ => None,
        }
    }
}

} // verus!
