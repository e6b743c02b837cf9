//! The mathematical model of the virtual machine.
//!
//! A [`Machine`] is the abstract value of an interpreter: registers, memory
//! and framebuffer as sequences, the call stack as the sequence of pending
//! return addresses. Its transition functions say what every opcode and every
//! tick does; the executable interpreter is proved to follow them.
use vstd::prelude::*;

use crate::alu::{
    carry, doubled, halved, high_bit, low_bit, no_borrow, wrapped_difference, wrapped_sum,
};
use crate::disassembler::{Instruction, Opcode};
use crate::error::Error;
use crate::interpreter::FONTS;

verus! {

/// Address at which programs are loaded and execution starts.
pub const PROGRAM_START: usize = 0x200;

/// The byte of the built-in glyph table at offset `k`: glyph `k / 5`, row `k % 5`.
pub open spec fn font_byte(k: int) -> u8 {
    FONTS[k / 5][k % 5]
}

/// Bit `col` of a sprite row, counting from the most significant bit.
pub open spec fn sprite_row_bit(byte: u8, col: int) -> u8 {
    (byte >> ((7 - col) as u8)) & 1
}

/// A framebuffer with every cell off.
pub open spec fn blank_screen() -> Seq<Seq<u8>> {
    Seq::new(32, |row: int| Seq::new(64, |col: int| 0u8))
}

/// `k` is the index of a held key and no key below `k` is held.
pub open spec fn is_first_pressed(keys: Seq<bool>, k: int) -> bool {
    &&& 0 <= k < keys.len()
    &&& keys[k]
    &&& forall|j: int| 0 <= j < k ==> !keys[j]
}

/// The lowest index of a held key, if any key is held.
pub open spec fn first_pressed(keys: Seq<bool>) -> Option<int> {
    if exists|k: int| is_first_pressed(keys, k) {
        Some(choose|k: int| is_first_pressed(keys, k))
    } else {
        None
    }
}

/// The lowest held key is unique: whichever index qualifies is the one
/// that `first_pressed` names.
pub proof fn lemma_first_pressed_is(keys: Seq<bool>, k: int)
    requires
        is_first_pressed(keys, k),
    ensures
        first_pressed(keys) == Some(k),
{
    let chosen = choose|c: int| is_first_pressed(keys, c);
    assert(is_first_pressed(keys, chosen));
    if chosen < k {
        assert(!keys[chosen]);
    } else if k < chosen {
        assert(!keys[k]);
    }
}

/// With no key held, `first_pressed` names none.
pub proof fn lemma_first_pressed_none(keys: Seq<bool>)
    requires
        forall|j: int| 0 <= j < keys.len() ==> !keys[j],
    ensures
        first_pressed(keys) is None,
{
}

/// The abstract state of the virtual machine.
#[verifier::ext_equal]
pub struct Machine {
    /// The general-purpose registers `V0..=VF`.
    pub vx: Seq<u8>,
    /// The index register `I`.
    pub i: nat,
    /// The program counter.
    pub pc: nat,
    /// The pending return addresses, oldest first.
    pub stack: Seq<nat>,
    /// The delay timer.
    pub dt: u8,
    /// The sound timer.
    pub st: u8,
    /// The address space.
    pub memory: Seq<u8>,
    /// The framebuffer, row by row; every cell is 0 or 1.
    pub vram: Seq<Seq<u8>>,
    /// Whether a draw or clear ran during the last tick.
    pub vram_changed: bool,
    /// The keys held at the last tick.
    pub keyboard: Seq<bool>,
    /// The register that awaits a key press, while the machine is blocked on one.
    pub waiting: Option<u8>,
}

impl Machine {
    /// The shape that every reachable state has.
    pub open spec fn wf(self) -> bool {
        &&& self.vx.len() == 16
        &&& self.i <= 0xFFF
        &&& self.stack.len() <= 16
        &&& self.memory.len() == 4096
        &&& self.vram.len() == 32
        &&& forall|row: int| 0 <= row < 32 ==> (#[trigger] self.vram[row]).len() == 64
        &&& forall|row: int, col: int|
            0 <= row < 32 && 0 <= col < 64 ==> (#[trigger] self.vram[row][col]) <= 1
        &&& self.keyboard.len() == 16
        &&& (self.waiting matches Some(x) ==> x < 16)
    }

    /// The state of a freshly built machine: everything zero, the glyph table
    /// at the bottom of memory, the program counter at the load address.
    pub open spec fn initial() -> Machine {
        Machine {
            vx: Seq::new(16, |k: int| 0u8),
            i: 0,
            pc: PROGRAM_START as nat,
            stack: Seq::empty(),
            dt: 0,
            st: 0,
            memory: Seq::new(4096, |a: int| if a < 80 { font_byte(a) } else { 0u8 }),
            vram: blank_screen(),
            vram_changed: false,
            keyboard: Seq::new(16, |k: int| false),
            waiting: None,
        }
    }

    /// The state after copying `program` to the load address.
    pub open spec fn load(self, program: Seq<u8>) -> Machine {
        Machine {
            memory: Seq::new(
                4096,
                |a: int|
                    if PROGRAM_START <= a < PROGRAM_START + program.len() {
                        program[a - PROGRAM_START]
                    } else {
                        self.memory[a]
                    },
            ),
            ..self
        }
    }

    /// The big-endian instruction word at the program counter.
    pub open spec fn opcode(self) -> u16 {
        (self.memory[self.pc as int] as int * 256 + self.memory[self.pc as int + 1] as int) as u16
    }

    /// Whether the instruction word at the program counter lies inside memory.
    pub open spec fn can_fetch(self) -> bool {
        self.pc + 1 < 4096
    }

    /// The bit that the sprite of `rows` rows at `I`, drawn with its top left
    /// corner at `(left, top)`, puts on the cell `(row, col)`. Coordinates wrap
    /// around both edges of the screen.
    pub open spec fn sprite_bit(self, left: u8, top: u8, rows: u8, row: int, col: int) -> u8 {
        let dr = (row - top) % 32;
        let dc = (col - left) % 64;
        if dr < rows && dc < 8 {
            sprite_row_bit(self.memory[self.i + dr], dc)
        } else {
            0
        }
    }

    /// Whether the sprite hits a cell that is already on.
    pub open spec fn collides(self, left: u8, top: u8, rows: u8) -> bool {
        exists|row: int, col: int|
            0 <= row < 32 && 0 <= col < 64 && self.vram[row][col] == 1
                && #[trigger] self.sprite_bit(left, top, rows, row, col) == 1
    }

    /// The framebuffer after XOR-ing the sprite onto it.
    pub open spec fn drawn(self, left: u8, top: u8, rows: u8) -> Seq<Seq<u8>> {
        Seq::new(
            32,
            |row: int|
                Seq::new(
                    64,
                    |col: int| self.vram[row][col] ^ self.sprite_bit(left, top, rows, row, col),
                ),
        )
    }

    /// The state with the program counter on the next instruction.
    pub open spec fn advance(self) -> Machine {
        Machine { pc: self.pc + 2, ..self }
    }

    /// The state with the program counter past the next instruction if
    /// `skip` holds, on the next instruction otherwise.
    pub open spec fn skip_if(self, skip: bool) -> Machine {
        Machine { pc: if skip { self.pc + 4 } else { self.pc + 2 }, ..self }
    }

    /// The state after writing `value` to register `x`.
    pub open spec fn set_reg(self, x: u8, value: u8) -> Machine {
        Machine { vx: self.vx.update(x as int, value), ..self }
    }

    /// The state after an arithmetic opcode: `value` goes to register `x`,
    /// then `flag` to `VF`. Where `x` is `VF` itself, the flag is what stays.
    pub open spec fn set_reg_and_flag(self, x: u8, value: u8, flag: u8) -> Machine {
        Machine { vx: self.vx.update(x as int, value).update(0xF, flag), ..self }
    }

    /// Whether every memory cell and key that `op` touches exists.
    pub open spec fn in_range(self, op: Opcode) -> bool {
        match op {
            Opcode::Draw { n, .. } => self.i + n <= 4096,
            Opcode::SkipKey { x } | Opcode::SkipNoKey { x } => self.vx[x as int] < 16,
            Opcode::StoreBcd { .. } => self.i + 2 < 4096,
            Opcode::StoreRegisters { x } | Opcode::LoadRegisters { x } => self.i + x < 4096,
            _ => true,
        }
    }

    /// The state after `op` has run to completion. `random` is the byte that
    /// the random-number opcode draws; no other opcode looks at it.
    pub open spec fn apply(self, op: Opcode, random: u8) -> Machine {
        let vx = self.vx;
        match op {
            Opcode::ClearScreen => Machine {
                vram: blank_screen(),
                vram_changed: true,
                ..self
            }.advance(),
            Opcode::Return => Machine {
                pc: self.stack.last(),
                stack: self.stack.drop_last(),
                ..self
            },
            Opcode::System { .. } => self.advance(),
            Opcode::Jump { nnn } => Machine { pc: nnn as nat, ..self },
            Opcode::Call { nnn } => Machine {
                pc: nnn as nat,
                stack: self.stack.push(self.pc + 2),
                ..self
            },
            Opcode::SkipEqImm { x, nn } => self.skip_if(vx[x as int] == nn),
            Opcode::SkipNeImm { x, nn } => self.skip_if(vx[x as int] != nn),
            Opcode::SkipEqReg { x, y } => self.skip_if(vx[x as int] == vx[y as int]),
            Opcode::LoadImm { x, nn } => self.set_reg(x, nn).advance(),
            Opcode::AddImm { x, nn } => self.set_reg(x, wrapped_sum(vx[x as int], nn)).advance(),
            Opcode::Move { x, y } => self.set_reg(x, vx[y as int]).advance(),
            Opcode::Or { x, y } => self.set_reg(x, vx[x as int] | vx[y as int]).advance(),
            Opcode::And { x, y } => self.set_reg(x, vx[x as int] & vx[y as int]).advance(),
            Opcode::Xor { x, y } => self.set_reg(x, vx[x as int] ^ vx[y as int]).advance(),
            Opcode::Add { x, y } => self.set_reg_and_flag(
                x,
                wrapped_sum(vx[x as int], vx[y as int]),
                carry(vx[x as int], vx[y as int]),
            ).advance(),
            Opcode::Sub { x, y } => self.set_reg_and_flag(
                x,
                wrapped_difference(vx[x as int], vx[y as int]),
                no_borrow(vx[x as int], vx[y as int]),
            ).advance(),
            Opcode::ShiftRight { x } => self.set_reg_and_flag(
                x,
                halved(vx[x as int]),
                low_bit(vx[x as int]),
            ).advance(),
            Opcode::SubReverse { x, y } => self.set_reg_and_flag(
                x,
                wrapped_difference(vx[y as int], vx[x as int]),
                no_borrow(vx[y as int], vx[x as int]),
            ).advance(),
            Opcode::ShiftLeft { x } => self.set_reg_and_flag(
                x,
                doubled(vx[x as int]),
                high_bit(vx[x as int]),
            ).advance(),
            Opcode::SkipNeReg { x, y } => self.skip_if(vx[x as int] != vx[y as int]),
            Opcode::LoadIndex { nnn } => Machine { i: nnn as nat, ..self }.advance(),
            Opcode::JumpOffset { nnn } => Machine { pc: vx[0] as nat + nnn as nat, ..self },
            Opcode::Random { x, nn } => self.set_reg(x, random & nn).advance(),
            Opcode::Draw { x, y, n } => Machine {
                vx: vx.update(
                    0xF,
                    if self.collides(vx[x as int], vx[y as int], n) {
                        1
                    } else {
                        0
                    },
                ),
                vram: self.drawn(vx[x as int], vx[y as int], n),
                vram_changed: true,
                ..self
            }.advance(),
            Opcode::SkipKey { x } => self.skip_if(self.keyboard[vx[x as int] as int]),
            Opcode::SkipNoKey { x } => self.skip_if(!self.keyboard[vx[x as int] as int]),
            Opcode::ReadDelay { x } => self.set_reg(x, self.dt).advance(),
            Opcode::WaitKey { x } => Machine { waiting: Some(x), ..self }.advance(),
            Opcode::SetDelay { x } => Machine { dt: vx[x as int], ..self }.advance(),
            Opcode::SetSound { x } => Machine { st: vx[x as int], ..self }.advance(),
            Opcode::AddIndex { x } => Machine {
                i: ((self.i + vx[x as int]) % 0x1000) as nat,
                vx: vx.update(
                    0xF,
                    if self.i + vx[x as int] > 0xFFF {
                        1
                    } else {
                        0
                    },
                ),
                ..self
            }.advance(),
            Opcode::FontAddress { x } => Machine { i: vx[x as int] as nat * 5, ..self }.advance(),
            Opcode::StoreBcd { x } => Machine {
                memory: self.memory.update(self.i as int, vx[x as int] / 100).update(
                    self.i as int + 1,
                    vx[x as int] / 10 % 10,
                ).update(self.i as int + 2, vx[x as int] % 10),
                ..self
            }.advance(),
            Opcode::StoreRegisters { x } => Machine {
                memory: Seq::new(
                    4096,
                    |a: int|
                        if self.i <= a <= self.i + x {
                            vx[a - self.i]
                        } else {
                            self.memory[a]
                        },
                ),
                ..self
            }.advance(),
            Opcode::LoadRegisters { x } => Machine {
                vx: Seq::new(
                    16,
                    |k: int|
                        if k <= x {
                            self.memory[self.i + k]
                        } else {
                            vx[k]
                        },
                ),
                ..self
            }.advance(),
        }
    }

    /// The outcome of executing `op`: a fault where the call stack cannot
    /// take the call or give the return, the state after `op` otherwise.
    pub open spec fn execute(self, op: Opcode, random: u8) -> Result<Machine, Error> {
        match op {
            Opcode::Call { .. } if self.stack.len() >= 16 => Err(Error::StackOverflow),
            Opcode::Return if self.stack.len() == 0 => Err(Error::StackUnderflow),
            _ => Ok(self.apply(op, random)),
        }
    }

    /// The outcome of decoding and executing the instruction word `instr`.
    pub open spec fn run(self, instr: u16, random: u8) -> Result<Machine, Error> {
        match Instruction(instr).decoded() {
            None => Err(Error::UnsupportedOpcode { instr, pc: self.pc as usize }),
            Some(op) => self.execute(op, random),
        }
    }

    /// Whether `instr` can run: every memory cell and key it touches exists.
    /// A word that decodes to nothing touches nothing.
    pub open spec fn can_run(self, instr: u16) -> bool {
        Instruction(instr).decoded() matches Some(op) ==> self.in_range(op)
    }

    /// The state with both timers one step closer to zero.
    pub open spec fn count_down(self) -> Machine {
        Machine {
            dt: if self.dt > 0 { (self.dt - 1) as u8 } else { 0 },
            st: if self.st > 0 { (self.st - 1) as u8 } else { 0 },
            ..self
        }
    }

    /// The state after a tick spent waiting for a key: the lowest held key
    /// goes to register `x` and the wait ends; with no key held, nothing moves.
    pub open spec fn poll_key(self, x: u8) -> Machine {
        match first_pressed(self.keyboard) {
            Some(k) => Machine { vx: self.vx.update(x as int, k as u8), waiting: None, ..self },
            None => self,
        }
    }

    /// Whether a tick can run: the machine is waiting for a key, or the
    /// instruction at the program counter can be fetched and run.
    pub open spec fn can_tick(self) -> bool {
        self.waiting is None ==> self.can_fetch() && self.can_run(self.opcode())
    }

    /// Whether the coming tick consumes a random byte: the machine is not
    /// waiting for a key and the instruction at the program counter is the
    /// random-number opcode.
    pub open spec fn draws_random(self) -> bool {
        self.waiting is None && Instruction(self.opcode()).decoded() matches Some(
            Opcode::Random { .. },
        )
    }

    /// The outcome of one tick with the keys `keys` held.
    pub open spec fn tick(self, keys: Seq<bool>, random: u8) -> Result<Machine, Error> {
        let polled = Machine { keyboard: keys, vram_changed: false, ..self };
        match self.waiting {
            Some(x) => Ok(polled.poll_key(x)),
            None => polled.count_down().run(self.opcode(), random),
        }
    }

    /// Whether the tone sounds.
    pub open spec fn beep(self) -> bool {
        self.st > 0
    }
}

} // verus!
