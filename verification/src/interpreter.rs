//! The executable interpreter.
//!
//! Every operation is specified against the model in [`crate::machine`]: the
//! view of an [`Interpreter`] is a [`Machine`], and each method says which
//! transition of the model it performs.
use byteorder::{BigEndian, ByteOrder};
use rand::{thread_rng, Rng};
use vstd::prelude::*;

use crate::alu::{add_with_carry, add_wrapping, shift_left, shift_right, sub_with_borrow};
use crate::disassembler::{Instruction, Opcode};
use crate::error::Error;
use crate::machine::{
    blank_screen, first_pressed, font_byte, lemma_first_pressed_is, lemma_first_pressed_none,
    sprite_row_bit, Machine, PROGRAM_START,
};
use crate::{CHIP8_HEIGHT, CHIP8_RAM, CHIP8_WIDTH};

verus! {

/// The built-in glyphs for the hexadecimal digits, five rows each.
pub const FONTS: [[u8; 5]; 16] = [
    [0xF0, 0x90, 0x90, 0x90, 0xF0],
    [0x20, 0x60, 0x20, 0x20, 0x70],
    [0xF0, 0x10, 0xF0, 0x80, 0xF0],
    [0xF0, 0x10, 0xF0, 0x10, 0xF0],
    [0x90, 0x90, 0xF0, 0x10, 0x10],
    [0xF0, 0x80, 0xF0, 0x10, 0xF0],
    [0xF0, 0x80, 0xF0, 0x90, 0xF0],
    [0xF0, 0x10, 0x20, 0x40, 0x40],
    [0xF0, 0x90, 0xF0, 0x90, 0xF0],
    [0xF0, 0x90, 0xF0, 0x10, 0xF0],
    [0xF0, 0x90, 0xF0, 0x90, 0x90],
    [0xE0, 0x90, 0xE0, 0x90, 0xE0],
    [0xF0, 0x80, 0x80, 0x80, 0xF0],
    [0xE0, 0x90, 0x90, 0x90, 0xE0],
    [0xF0, 0x80, 0xF0, 0x80, 0xF0],
    [0xF0, 0x80, 0xF0, 0x80, 0x80],
];

/// Size of one instruction, in bytes.
const INSTR_SIZE: usize = 2;

/// Reads the first two bytes of `buf` as a big-endian word, by
/// `byteorder::BigEndian::read_u16`. The outside function is trusted to
/// return the first byte times 256 plus the second; it panics on a buffer
/// of fewer than two bytes, which the precondition rules out.
#[verifier::external_body]
fn read_u16_be(buf: &[u8]) -> (word: u16)
    requires
        buf@.len() >= 2,
    ensures
        word == buf@[0] as int * 256 + buf@[1] as int,
{
    BigEndian::read_u16(buf)
}

/// Draws a byte from the thread-local generator of the `rand` crate, by
/// `rand::thread_rng` and `Rng::gen`. Nothing is claimed of the byte. The
/// generator takes no input; it gives up only where the operating system
/// has no entropy to seed it with.
#[verifier::external_body]
fn random_byte() -> u8 {
    thread_rng().gen::<u8>()
}

/// Whether the cell `(row, col)` lies under the part of a sprite drawn so
/// far: its first `rows` rows and the first `cols` bits of the row after them.
#[verifier::opaque]
spec fn covered(left: u8, top: u8, rows: int, cols: int, row: int, col: int) -> bool {
    let dr = (row - top) % 32;
    let dc = (col - left) % 64;
    dc < 8 && (dr < rows || (dr == rows && dc < cols))
}

/// The sprite bit that falls on the cell `(row, col)`, where one does.
spec fn bit_at(m: Machine, left: u8, top: u8, row: int, col: int) -> u8 {
    sprite_row_bit(m.memory[m.i + (row - top) % 32], (col - left) % 64)
}

/// The cell `(row, col)` once the part of the sprite drawn so far is on it.
spec fn cell_after(
    m: Machine,
    left: u8,
    top: u8,
    rows: int,
    cols: int,
    row: int,
    col: int,
) -> u8 {
    if covered(left, top, rows, cols, row, col) {
        m.vram[row][col] ^ bit_at(m, left, top, row, col)
    } else {
        m.vram[row][col]
    }
}

/// The part of the sprite drawn so far hits the cell `(row, col)`, which was on.
spec fn partial_hit(
    m: Machine,
    left: u8,
    top: u8,
    rows: int,
    cols: int,
    row: int,
    col: int,
) -> bool {
    &&& 0 <= row < 32
    &&& 0 <= col < 64
    &&& covered(left, top, rows, cols, row, col)
    &&& m.vram[row][col] == 1
    &&& bit_at(m, left, top, row, col) == 1
}

/// Drawing bit `j` of sprite row `k` covers exactly one more cell, the one
/// at `(row, col)`.
proof fn lemma_cover_bit(left: u8, top: u8, k: int, j: int, j1: int, row: int, col: int)
    requires
        0 <= k < 16,
        0 <= j < 8,
        j1 == j + 1,
        row == (top + k) % 32,
        col == (left + j) % 64,
    ensures
        (row - top) % 32 == k,
        (col - left) % 64 == j,
        !covered(left, top, k, j, row, col),
        forall|r: int, c: int|
            0 <= r < 32 && 0 <= c < 64 ==> (#[trigger] covered(left, top, k, j1, r, c) <==> covered(
                left,
                top,
                k,
                j,
                r,
                c,
            ) || (r == row && c == col)),
{
    reveal(covered);
}

/// A finished row adds nothing to the next one before its first bit.
proof fn lemma_cover_row(left: u8, top: u8, k: int, k1: int)
    requires
        0 <= k < 16,
        k1 == k + 1,
    ensures
        forall|r: int, c: int|
            0 <= r < 32 && 0 <= c < 64 ==> (#[trigger] covered(left, top, k1, 0, r, c) <==> covered(
                left,
                top,
                k,
                8,
                r,
                c,
            )),
        forall|r: int, c: int|
            0 <= r < 32 && 0 <= c < 64 ==> !#[trigger] covered(left, top, 0, 0, r, c),
{
    reveal(covered);
}

/// With all `n` rows drawn, the covered cells are those that the sprite reaches.
proof fn lemma_cover_all(m: Machine, left: u8, top: u8, n: u8)
    requires
        n < 16,
    ensures
        forall|r: int, c: int|
            0 <= r < 32 && 0 <= c < 64 ==> #[trigger] m.sprite_bit(left, top, n, r, c) == (if covered(
                left,
                top,
                n as int,
                0,
                r,
                c,
            ) {
                bit_at(m, left, top, r, c)
            } else {
                0
            }),
{
    reveal(covered);
}

/// XOR-ing two bits gives a bit.
proof fn lemma_xor_bit(cell: u8, pixel: u8)
    requires
        cell <= 1,
        pixel <= 1,
    ensures
        cell ^ pixel <= 1,
{
    assert(cell ^ pixel <= 1) by (bit_vector)
        requires
            cell <= 1,
            pixel <= 1,
    ;
}

/// XOR-ing with 0 changes nothing.
proof fn lemma_xor_zero()
    ensures
        forall|cell: u8| #[trigger] (cell ^ 0) == cell,
{
    assert forall|cell: u8| #[trigger] (cell ^ 0) == cell by {
        assert(cell ^ 0 == cell) by (bit_vector);
    }
}

/// The rows of a framebuffer as sequences.
pub open spec fn grid_view(grid: &[[u8; CHIP8_WIDTH]; CHIP8_HEIGHT]) -> Seq<Seq<u8>> {
    Seq::new(32, |row: int| grid[row]@)
}

/// The result `r` and the state `after` are what `outcome` prescribes for a
/// machine that was in the state `before`: on success the new state, on a
/// fault the error and the old state, untouched.
pub open spec fn follows(
    before: Machine,
    outcome: Result<Machine, Error>,
    after: Machine,
    r: Result<(), Error>,
) -> bool {
    match outcome {
        Ok(m) => r is Ok && after == m,
        Err(e) => r == Err::<(), Error>(e) && after == before,
    }
}

/// The result `r` of a tick and the state `after` are what `outcome`
/// prescribes for a machine that was in the state `before`: on success the new
/// state and a snapshot of it, on a fault the error and the old state,
/// untouched.
pub open spec fn tick_follows(
    before: Machine,
    outcome: Result<Machine, Error>,
    after: Machine,
    r: Result<State<'_>, Error>,
) -> bool {
    match outcome {
        Ok(m) => after == m && (r matches Ok(s) && s.shows(m)),
        Err(e) => after == before && (r matches Err(f) && f == e),
    }
}

/// What a tick hands to the outside: the picture, whether it was redrawn,
/// and whether the tone sounds.
pub struct State<'a> {
    pub vram: &'a [[u8; CHIP8_WIDTH]; CHIP8_HEIGHT],
    pub vram_changed: bool,
    pub beep: bool,
}

impl<'a> State<'a> {
    /// This snapshot shows the machine `m`.
    pub open spec fn shows(self, m: Machine) -> bool {
        &&& grid_view(self.vram) == m.vram
        &&& self.vram_changed == m.vram_changed
        &&& self.beep == m.beep()
    }
}

/// The virtual machine.
pub struct Interpreter {
    vx: [u8; 16],
    stack: [usize; 16],
    i: usize,
    pc: usize,
    dt: u8,
    sp: usize,
    st: u8,
    memory: [u8; CHIP8_RAM],
    vram: [[u8; CHIP8_WIDTH]; CHIP8_HEIGHT],
    vram_changed: bool,
    keyboard: [bool; 16],
    keyboard_waiting: bool,
    keyboard_register: usize,
}

impl View for Interpreter {
    type V = Machine;

    closed spec fn view(&self) -> Machine {
        self.model()
    }
}

impl Interpreter {
    /// The abstract state that the fields stand for. The slots of the stack
    /// above the stack pointer and the register of a wait that is over are
    /// dead, and the model leaves them out.
    #[verifier::opaque]
    spec fn model(&self) -> Machine {
        Machine {
            vx: self.vx@,
            i: self.i as nat,
            pc: self.pc as nat,
            stack: Seq::new(self.sp as nat, |k: int| self.stack[k] as nat),
            dt: self.dt,
            st: self.st,
            memory: self.memory@,
            vram: grid_view(&self.vram),
            vram_changed: self.vram_changed,
            keyboard: self.keyboard@,
            waiting: if self.keyboard_waiting {
                Some(self.keyboard_register as u8)
            } else {
                None
            },
        }
    }

    /// What holds of the fields of every interpreter: the stack pointer
    /// stays within the stack, the index register within twelve bits, the
    /// waiting register within the register file, and every cell is 0 or 1.
    #[verifier::type_invariant]
    spec fn inv(self) -> bool {
        &&& self.sp <= 16
        &&& self.i <= 0xFFF
        &&& self.keyboard_register < 16
        &&& forall|row: int, col: int|
            0 <= row < 32 && 0 <= col < 64 ==> (#[trigger] self.vram[row][col]) <= 1
    }

    /// The model of an interpreter is well formed.
    proof fn lemma_inv_wf(self)
        requires
            self.inv(),
        ensures
            self@.wf(),
    {
        reveal(Interpreter::model);
    }

    /// Builds a machine in its initial state.
    pub fn new() -> (s: Interpreter)
        ensures
            s@ == Machine::initial(),
            s@.wf(),
    {
        let mut raw_memory = [0u8; CHIP8_RAM];
        Interpreter::init_fonts(&mut raw_memory);
        let s = Interpreter {
            vx: [0u8; 16],
            stack: [0usize; 16],
            i: 0,
            pc: PROGRAM_START,
            dt: 0,
            sp: 0,
            st: 0,
            memory: raw_memory,
            vram: [[0u8; CHIP8_WIDTH]; CHIP8_HEIGHT],
            vram_changed: false,
            keyboard: [false; 16],
            keyboard_waiting: false,
            keyboard_register: 0,
        };
        proof {
            reveal(Interpreter::model);
        }
        assert(s@.vram =~~= blank_screen());
        assert(s@ =~~= Machine::initial());
        s
    }

    /// Writes the glyph table to the first 80 bytes of `memory` and leaves
    /// the rest as it is.
    pub fn init_fonts(memory: &mut [u8])
        requires
            old(memory)@.len() >= 80,
        ensures
            final(memory)@.len() == old(memory)@.len(),
            forall|a: int| 0 <= a < 80 ==> final(memory)@[a] == font_byte(a),
            forall|a: int| 80 <= a < old(memory)@.len() ==> final(memory)@[a] == old(memory)@[a],
    {
        let mut idx: usize = 0;
        while idx < 80
            invariant
                idx <= 80,
                memory@.len() == old(memory)@.len(),
                memory@.len() >= 80,
                forall|a: int| 0 <= a < idx ==> memory@[a] == font_byte(a),
                forall|a: int| 80 <= a < memory@.len() ==> memory@[a] == old(memory)@[a],
            decreases 80 - idx,
        {
            memory[idx] = FONTS[idx / 5][idx % 5];
            idx += 1;
        }
    }

    /// Copies `program` into memory at the load address. A program that
    /// does not fit is refused and leaves the machine untouched.
    pub fn load(&mut self, program: &[u8]) -> (r: Result<(), Error>)
        ensures
            PROGRAM_START + program@.len() <= CHIP8_RAM ==> r is Ok
                && final(self)@ == old(self)@.load(program@),
            PROGRAM_START + program@.len() > CHIP8_RAM ==> r == Err::<(), Error>(
                Error::LoadTooLarge,
            ) && final(self)@ == old(self)@,
            final(self)@.wf(),
    {
        proof {
            use_type_invariant(&*self);
            self.lemma_inv_wf();
            reveal(Interpreter::model);
        }
        let len: usize = program.len();
        if len > CHIP8_RAM - PROGRAM_START {
            return Err(Error::LoadTooLarge);
        }
        let mut idx: usize = 0;
        assert(self@ =~= old(self)@.load(program@.take(0)));
        while idx < len
            invariant
                idx <= len,
                len == program@.len(),
                PROGRAM_START + len <= CHIP8_RAM,
                self.inv(),
                self@ == old(self)@.load(program@.take(idx as int)),
            decreases len - idx,
        {
            proof {
                reveal(Interpreter::model);
            }
            self.memory[PROGRAM_START + idx] = program[idx];
            idx += 1;
            assert(self@ =~= old(self)@.load(program@.take(idx as int)));
        }
        assert(program@.take(len as int) =~= program@);
        proof {
            self.lemma_inv_wf();
        }
        Ok(())
    }

    /// The instruction word at the program counter.
    fn get_opcode(&self) -> (word: u16)
        requires
            self@.can_fetch(),
        ensures
            word == self@.opcode(),
    {
        proof {
            reveal(Interpreter::model);
        }
        let tail = vstd::slice::slice_subrange(self.memory.as_slice(), self.pc, CHIP8_RAM);
        read_u16_be(tail)
    }

    /// Expands a sprite row into its eight bits, most significant first.
    fn byte_to_bits(byte: u8) -> (bits: [u8; 8])
        ensures
            forall|j: int| 0 <= j < 8 ==> bits[j] == sprite_row_bit(byte, j),
            forall|j: int| 0 <= j < 8 ==> bits[j] <= 1,
    {
        let mut bits = [0u8; 8];
        let mut j: usize = 0;
        while j < 8
            invariant
                j <= 8,
                forall|c: int| 0 <= c < j ==> bits[c] == sprite_row_bit(byte, c),
                forall|c: int| 0 <= c < j ==> bits[c] <= 1,
            decreases 8 - j,
        {
            let shift: u8 = 7 - j as u8;
            assert((byte >> shift) & 1 <= 1) by (bit_vector);
            bits[j] = (byte >> shift) & 1;
            j += 1;
        }
        bits
    }

    /// XORs the sprite of `n` rows at `I` onto the framebuffer at
    /// `(Vx, Vy)` and sets `VF` to 1 if a lit cell was hit, else to 0.
    fn draw(&mut self, x: u8, y: u8, n: u8)
        requires
            x < 16,
            y < 16,
            n < 16,
            old(self)@.i + n <= 4096,
        ensures
            final(self)@ == (Machine {
                vx: old(self)@.vx.update(
                    0xF,
                    if old(self)@.collides(old(self)@.vx[x as int], old(self)@.vx[y as int], n) {
                        1u8
                    } else {
                        0u8
                    },
                ),
                vram: old(self)@.drawn(old(self)@.vx[x as int], old(self)@.vx[y as int], n),
                vram_changed: true,
                ..old(self)@
            }),
    {
        proof {
            use_type_invariant(&*self);
            reveal(Interpreter::model);
        }
        let ghost before = self@;
        let left: u8 = self.vx[x as usize];
        let top: u8 = self.vx[y as usize];
        let mut collision: u8 = 0;
        let mut k: usize = 0;
        proof {
            lemma_cover_row(left, top, 0, 1);
        }
        while k < n as usize
            invariant
                k <= n < 16,
                before.i + n <= 4096,
                self.inv(),
                before.wf(),
                collision <= 1,
                self@ == (Machine { vram: self@.vram, ..before }),
                forall|r: int, c: int|
                    0 <= r < 32 && 0 <= c < 64 ==> #[trigger] self.vram[r][c] == cell_after(
                        before,
                        left,
                        top,
                        k as int,
                        0,
                        r,
                        c,
                    ),
                collision == 1 <==> exists|r: int, c: int|
                    partial_hit(before, left, top, k as int, 0, r, c),
            decreases n - k,
        {
            proof {
                reveal(Interpreter::model);
            }
            let bits = Interpreter::byte_to_bits(self.memory[self.i + k]);
            let row: usize = (top as usize + k) % CHIP8_HEIGHT;
            let mut j: usize = 0;
            while j < 8
                invariant
                    j <= 8,
                    k < n < 16,
                    row == (top + k) % 32,
                    self.inv(),
                    before.wf(),
                    collision <= 1,
                    self@ == (Machine { vram: self@.vram, ..before }),
                    forall|c: int|
                        0 <= c < 8 ==> #[trigger] bits[c] == sprite_row_bit(
                            before.memory[before.i + k],
                            c,
                        ),
                    forall|c: int| 0 <= c < 8 ==> #[trigger] bits[c] <= 1,
                    forall|r: int, c: int|
                        0 <= r < 32 && 0 <= c < 64 ==> #[trigger] self.vram[r][c] == cell_after(
                            before,
                            left,
                            top,
                            k as int,
                            j as int,
                            r,
                            c,
                        ),
                    collision == 1 <==> exists|r: int, c: int|
                        partial_hit(before, left, top, k as int, j as int, r, c),
                decreases 8 - j,
            {
                proof {
                    reveal(Interpreter::model);
                }
                let col: usize = (left as usize + j) % CHIP8_WIDTH;
                let pixel: u8 = bits[j];
                let cell: u8 = self.vram[row][col];
                let ghost was: u8 = collision;
                let ghost j1: int = j + 1;
                proof {
                    lemma_cover_bit(left, top, k as int, j as int, j1, row as int, col as int);
                    lemma_xor_bit(cell, pixel);
                    assert(cell == before.vram[row as int][col as int]);
                    assert(pixel == bit_at(before, left, top, row as int, col as int));
                }
                if cell == 1 && pixel == 1 {
                    collision = 1;
                }
                self.vram[row][col] = cell ^ pixel;
                proof {
                    assert forall|r: int, c: int| 0 <= r < 32 && 0 <= c < 64 implies #[trigger] self.vram[r][c]
                        == cell_after(before, left, top, k as int, j1, r, c) by {
                        assert(covered(left, top, k as int, j1, r, c) <==> covered(
                            left,
                            top,
                            k as int,
                            j as int,
                            r,
                            c,
                        ) || (r == row && c == col));
                    }
                    if was == 1 {
                        let (r, c) = choose|r: int, c: int|
                            partial_hit(before, left, top, k as int, j as int, r, c);
                        assert(covered(left, top, k as int, j1, r, c));
                        assert(partial_hit(before, left, top, k as int, j1, r, c));
                    }
                    if cell == 1 && pixel == 1 {
                        assert(covered(left, top, k as int, j1, row as int, col as int));
                        assert(partial_hit(before, left, top, k as int, j1, row as int, col as int));
                    }
                    if exists|r: int, c: int| partial_hit(before, left, top, k as int, j1, r, c) {
                        let (r, c) = choose|r: int, c: int|
                            partial_hit(before, left, top, k as int, j1, r, c);
                        if r == row && c == col {
                        } else {
                            assert(covered(left, top, k as int, j as int, r, c));
                            assert(partial_hit(before, left, top, k as int, j as int, r, c));
                        }
                    }
                    assert(self@ =~= (Machine { vram: self@.vram, ..before }));
                }
                j += 1;
            }
            let ghost k1: int = k + 1;
            proof {
                lemma_cover_row(left, top, k as int, k1);
                assert forall|r: int, c: int| 0 <= r < 32 && 0 <= c < 64 implies #[trigger] self.vram[r][c]
                    == cell_after(before, left, top, k1, 0, r, c) by {
                    assert(covered(left, top, k1, 0, r, c) <==> covered(left, top, k as int, 8, r, c));
                }
                if collision == 1 {
                    let (r, c) = choose|r: int, c: int|
                        partial_hit(before, left, top, k as int, 8, r, c);
                    assert(covered(left, top, k1, 0, r, c));
                    assert(partial_hit(before, left, top, k1, 0, r, c));
                }
                if exists|r: int, c: int| partial_hit(before, left, top, k1, 0, r, c) {
                    let (r, c) = choose|r: int, c: int| partial_hit(before, left, top, k1, 0, r, c);
                    assert(covered(left, top, k as int, 8, r, c));
                    assert(partial_hit(before, left, top, k as int, 8, r, c));
                }
            }
            k += 1;
        }
        self.vx[0xF] = collision;
        self.vram_changed = true;
        proof {
            lemma_cover_all(before, left, top, n);
            lemma_xor_zero();
            assert forall|r: int, c: int| 0 <= r < 32 && 0 <= c < 64 implies #[trigger] self.vram[r][c]
                == before.vram[r][c] ^ before.sprite_bit(left, top, n, r, c) by {
                assert(self.vram[r][c] == cell_after(before, left, top, n as int, 0, r, c));
            }
            assert(self@.vram =~~= before.drawn(left, top, n));
            if collision == 1 {
                let (r, c) = choose|r: int, c: int|
                    partial_hit(before, left, top, n as int, 0, r, c);
                assert(before.sprite_bit(left, top, n, r, c) == 1);
            }
            if before.collides(left, top, n) {
                let (r, c) = choose|r: int, c: int|
                    0 <= r < 32 && 0 <= c < 64 && before.vram[r][c] == 1
                        && #[trigger] before.sprite_bit(left, top, n, r, c) == 1;
                assert(partial_hit(before, left, top, n as int, 0, r, c));
            }
        }
    }

    /// Moves the program counter to the next instruction.
    fn advance(&mut self)
        requires
            old(self)@.pc + 4 <= usize::MAX,
        ensures
            final(self)@ == old(self)@.advance(),
    {
        proof {
            use_type_invariant(&*self);
            reveal(Interpreter::model);
        }
        self.pc += INSTR_SIZE;
        assert(self@ =~= old(self)@.advance());
    }

    /// Moves the program counter past the next instruction if `skip`
    /// holds, to the next instruction otherwise.
    fn skip_if(&mut self, skip: bool)
        requires
            old(self)@.pc + 4 <= usize::MAX,
        ensures
            final(self)@ == old(self)@.skip_if(skip),
    {
        proof {
            use_type_invariant(&*self);
            reveal(Interpreter::model);
        }
        if skip {
            self.pc += 2 * INSTR_SIZE;
        } else {
            self.pc += INSTR_SIZE;
        }
        assert(self@ =~= old(self)@.skip_if(skip));
    }

    /// Writes `value` to register `x`.
    fn set_reg(&mut self, x: u8, value: u8)
        requires
            x < 16,
        ensures
            final(self)@ == old(self)@.set_reg(x, value),
    {
        proof {
            use_type_invariant(&*self);
            reveal(Interpreter::model);
        }
        self.vx[x as usize] = value;
        assert(self@ =~= old(self)@.set_reg(x, value));
    }

    /// Writes `value` to register `x`, then `flag` to `VF`.
    fn set_reg_and_flag(&mut self, x: u8, value: u8, flag: u8)
        requires
            x < 16,
        ensures
            final(self)@ == old(self)@.set_reg_and_flag(x, value, flag),
    {
        proof {
            use_type_invariant(&*self);
            reveal(Interpreter::model);
        }
        self.vx[x as usize] = value;
        self.vx[0xF] = flag;
        assert(self@ =~= old(self)@.set_reg_and_flag(x, value, flag));
    }

    /// Turns every cell of the framebuffer off.
    fn clear_screen(&mut self)
        ensures
            final(self)@ == (Machine { vram: blank_screen(), vram_changed: true, ..old(self)@ }),
    {
        proof {
            use_type_invariant(&*self);
            reveal(Interpreter::model);
        }
        self.vram = [[0u8; CHIP8_WIDTH]; CHIP8_HEIGHT];
        self.vram_changed = true;
        assert(self@.vram =~~= blank_screen());
        assert(self@ =~= (Machine { vram: blank_screen(), vram_changed: true, ..old(self)@ }));
    }

    /// Pushes the address of the next instruction and jumps to `nnn`.
    fn call(&mut self, nnn: u16)
        requires
            old(self)@.stack.len() < 16,
            old(self)@.pc + 4 <= usize::MAX,
        ensures
            final(self)@ == old(self)@.apply(Opcode::Call { nnn }, 0),
    {
        proof {
            use_type_invariant(&*self);
            reveal(Interpreter::model);
        }
        self.stack[self.sp] = self.pc + INSTR_SIZE;
        self.sp += 1;
        self.pc = nnn as usize;
        assert(self@.stack =~= old(self)@.stack.push(old(self)@.pc + 2));
        assert(self@ =~= old(self)@.apply(Opcode::Call { nnn }, 0));
    }

    /// Pops the latest return address into the program counter.
    fn ret(&mut self)
        requires
            old(self)@.stack.len() > 0,
        ensures
            final(self)@ == old(self)@.apply(Opcode::Return, 0),
    {
        proof {
            use_type_invariant(&*self);
            reveal(Interpreter::model);
        }
        self.sp -= 1;
        self.pc = self.stack[self.sp];
        assert(self@.stack =~= old(self)@.stack.drop_last());
        assert(self@ =~= old(self)@.apply(Opcode::Return, 0));
    }

    /// Writes the hundreds, tens and units digit of `Vx` to `I`, `I + 1`
    /// and `I + 2`.
    fn store_bcd(&mut self, x: u8)
        requires
            x < 16,
            old(self)@.i + 2 < 4096,
        ensures
            final(self)@ == (Machine {
                memory: old(self)@.memory.update(
                    old(self)@.i as int,
                    old(self)@.vx[x as int] / 100,
                ).update(old(self)@.i as int + 1, old(self)@.vx[x as int] / 10 % 10).update(
                    old(self)@.i as int + 2,
                    old(self)@.vx[x as int] % 10,
                ),
                ..old(self)@
            }),
    {
        proof {
            use_type_invariant(&*self);
            reveal(Interpreter::model);
        }
        let mut value: u8 = self.vx[x as usize];
        self.memory[self.i] = value / 100;
        value %= 100;
        self.memory[self.i + 1] = value / 10;
        value %= 10;
        self.memory[self.i + 2] = value;
        assert(self@ =~= (Machine {
            memory: old(self)@.memory.update(
                old(self)@.i as int,
                old(self)@.vx[x as int] / 100,
            ).update(old(self)@.i as int + 1, old(self)@.vx[x as int] / 10 % 10).update(
                old(self)@.i as int + 2,
                old(self)@.vx[x as int] % 10,
            ),
            ..old(self)@
        }));
    }

    /// Copies the registers `V0..=Vx` to memory starting at `I`.
    fn store_registers(&mut self, x: u8)
        requires
            x < 16,
            old(self)@.i + x < 4096,
        ensures
            final(self)@ == (Machine {
                memory: Seq::new(
                    4096,
                    |a: int|
                        if old(self)@.i <= a <= old(self)@.i + x {
                            old(self)@.vx[a - old(self)@.i]
                        } else {
                            old(self)@.memory[a]
                        },
                ),
                ..old(self)@
            }),
    {
        proof {
            use_type_invariant(&*self);
            reveal(Interpreter::model);
        }
        let ghost before = self@;
        let mut idx: usize = 0;
        while idx <= x as usize
            invariant
                idx <= x + 1,
                x < 16,
                before.i + x < 4096,
                before.wf(),
                self.inv(),
                self@ == (Machine { memory: self@.memory, ..before }),
                forall|a: int|
                    0 <= a < 4096 ==> #[trigger] self@.memory[a] == (if before.i <= a < before.i
                        + idx {
                        before.vx[a - before.i]
                    } else {
                        before.memory[a]
                    }),
            decreases x + 1 - idx,
        {
            proof {
                reveal(Interpreter::model);
            }
            self.memory[self.i + idx] = self.vx[idx];
            idx += 1;
            assert(self@ =~= (Machine { memory: self@.memory, ..before }));
        }
        assert(self@ =~= (Machine {
            memory: Seq::new(
                4096,
                |a: int|
                    if before.i <= a <= before.i + x {
                        before.vx[a - before.i]
                    } else {
                        before.memory[a]
                    },
            ),
            ..before
        }));
    }

    /// Fills the registers `V0..=Vx` from memory starting at `I`.
    fn load_registers(&mut self, x: u8)
        requires
            x < 16,
            old(self)@.i + x < 4096,
        ensures
            final(self)@ == (Machine {
                vx: Seq::new(
                    16,
                    |k: int|
                        if k <= x {
                            old(self)@.memory[old(self)@.i + k]
                        } else {
                            old(self)@.vx[k]
                        },
                ),
                ..old(self)@
            }),
    {
        proof {
            use_type_invariant(&*self);
            reveal(Interpreter::model);
        }
        let ghost before = self@;
        let mut idx: usize = 0;
        while idx <= x as usize
            invariant
                idx <= x + 1,
                x < 16,
                before.i + x < 4096,
                before.wf(),
                self.inv(),
                self@ == (Machine { vx: self@.vx, ..before }),
                forall|k: int|
                    0 <= k < 16 ==> #[trigger] self@.vx[k] == (if k < idx {
                        before.memory[before.i + k]
                    } else {
                        before.vx[k]
                    }),
            decreases x + 1 - idx,
        {
            proof {
                reveal(Interpreter::model);
            }
            self.vx[idx] = self.memory[self.i + idx];
            idx += 1;
            assert(self@ =~= (Machine { vx: self@.vx, ..before }));
        }
        assert(self@ =~= (Machine {
            vx: Seq::new(
                16,
                |k: int|
                    if k <= x {
                        before.memory[before.i + k]
                    } else {
                        before.vx[k]
                    },
            ),
            ..before
        }));
    }

    /// Adds `Vx` to `I` modulo 4096 and sets `VF` to 1 if the sum passed
    /// `0xFFF`, else to 0.
    fn add_index(&mut self, x: u8)
        requires
            x < 16,
        ensures
            final(self)@ == (Machine {
                i: ((old(self)@.i + old(self)@.vx[x as int]) % 0x1000) as nat,
                vx: old(self)@.vx.update(
                    0xF,
                    if old(self)@.i + old(self)@.vx[x as int] > 0xFFF {
                        1u8
                    } else {
                        0u8
                    },
                ),
                ..old(self)@
            }),
    {
        proof {
            use_type_invariant(&*self);
            reveal(Interpreter::model);
        }
        let sum: usize = self.i + self.vx[x as usize] as usize;
        if sum > 0xFFF {
            self.vx[0xF] = 1;
        } else {
            self.vx[0xF] = 0;
        }
        assert(sum & 0xFFF == sum % 0x1000) by (bit_vector);
        self.i = sum & 0xFFF;
        assert(self@ =~= (Machine {
            i: ((old(self)@.i + old(self)@.vx[x as int]) % 0x1000) as nat,
            vx: old(self)@.vx.update(
                0xF,
                if old(self)@.i + old(self)@.vx[x as int] > 0xFFF {
                    1u8
                } else {
                    0u8
                },
            ),
            ..old(self)@
        }));
    }

    /// Moves the program counter to `target`.
    fn jump(&mut self, target: usize)
        ensures
            final(self)@ == (Machine { pc: target as nat, ..old(self)@ }),
    {
        proof {
            use_type_invariant(&*self);
            reveal(Interpreter::model);
        }
        self.pc = target;
        assert(self@ =~= (Machine { pc: target as nat, ..old(self)@ }));
    }

    /// Sets the index register to `value`.
    fn set_index(&mut self, value: usize)
        requires
            value <= 0xFFF,
        ensures
            final(self)@ == (Machine { i: value as nat, ..old(self)@ }),
    {
        proof {
            use_type_invariant(&*self);
            reveal(Interpreter::model);
        }
        self.i = value;
        assert(self@ =~= (Machine { i: value as nat, ..old(self)@ }));
    }

    /// Blocks the machine until a key arrives for register `x`.
    fn wait_key(&mut self, x: u8)
        requires
            x < 16,
        ensures
            final(self)@ == (Machine { waiting: Some(x), ..old(self)@ }),
    {
        proof {
            use_type_invariant(&*self);
            reveal(Interpreter::model);
        }
        self.keyboard_waiting = true;
        self.keyboard_register = x as usize;
        assert(self@ =~= (Machine { waiting: Some(x), ..old(self)@ }));
    }

    /// Sets the delay timer to `value`.
    fn set_delay(&mut self, value: u8)
        ensures
            final(self)@ == (Machine { dt: value, ..old(self)@ }),
    {
        proof {
            use_type_invariant(&*self);
            reveal(Interpreter::model);
        }
        self.dt = value;
        assert(self@ =~= (Machine { dt: value, ..old(self)@ }));
    }

    /// Sets the sound timer to `value`.
    fn set_sound(&mut self, value: u8)
        ensures
            final(self)@ == (Machine { st: value, ..old(self)@ }),
    {
        proof {
            use_type_invariant(&*self);
            reveal(Interpreter::model);
        }
        self.st = value;
        assert(self@ =~= (Machine { st: value, ..old(self)@ }));
    }

    /// The number of pending return addresses.
    pub fn stack_depth(&self) -> (d: usize)
        ensures
            d == self@.stack.len(),
            d <= 16,
    {
        proof {
            use_type_invariant(self);
            reveal(Interpreter::model);
        }
        self.sp
    }

    /// The delay timer.
    pub fn delay_timer(&self) -> (value: u8)
        ensures
            value == self@.dt,
    {
        proof {
            reveal(Interpreter::model);
        }
        self.dt
    }

    /// The sound timer.
    pub fn sound_timer(&self) -> (value: u8)
        ensures
            value == self@.st,
    {
        proof {
            reveal(Interpreter::model);
        }
        self.st
    }

    /// The index register.
    pub fn index(&self) -> (value: usize)
        ensures
            value == self@.i,
            value <= 0xFFF,
    {
        proof {
            use_type_invariant(self);
            reveal(Interpreter::model);
        }
        self.i
    }

    /// The program counter.
    pub fn program_counter(&self) -> (value: usize)
        ensures
            value == self@.pc,
    {
        proof {
            reveal(Interpreter::model);
        }
        self.pc
    }

    /// The register that awaits a key, while the machine is blocked on one.
    pub fn waiting_register(&self) -> (x: Option<u8>)
        ensures
            x == self@.waiting,
            x matches Some(r) ==> r < 16,
    {
        proof {
            use_type_invariant(self);
            reveal(Interpreter::model);
        }
        if self.keyboard_waiting {
            Some(self.keyboard_register as u8)
        } else {
            None
        }
    }

    /// Whether a draw or clear ran during the last tick.
    pub fn vram_changed(&self) -> (changed: bool)
        ensures
            changed == self@.vram_changed,
    {
        proof {
            reveal(Interpreter::model);
        }
        self.vram_changed
    }

    /// The address space.
    pub fn memory(&self) -> (bytes: &[u8; CHIP8_RAM])
        ensures
            bytes@ == self@.memory,
    {
        proof {
            reveal(Interpreter::model);
        }
        &self.memory
    }

    /// The framebuffer.
    pub fn vram(&self) -> (grid: &[[u8; CHIP8_WIDTH]; CHIP8_HEIGHT])
        ensures
            grid_view(grid) == self@.vram,
    {
        proof {
            reveal(Interpreter::model);
        }
        &self.vram
    }

    /// The value of register `x`.
    pub fn register(&self, x: u8) -> (value: u8)
        requires
            x < 16,
        ensures
            value == self@.vx[x as int],
    {
        proof {
            reveal(Interpreter::model);
        }
        self.vx[x as usize]
    }

    /// Whether key `k` was held at the last tick.
    pub fn key_held(&self, k: u8) -> (held: bool)
        requires
            k < 16,
        ensures
            held == self@.keyboard[k as int],
    {
        proof {
            reveal(Interpreter::model);
        }
        self.keyboard[k as usize]
    }

    /// Executes `op`. `random` is the byte that the random-number opcode
    /// uses; every other opcode ignores it. A call on a full stack and a
    /// return on an empty one fail and change nothing.
    pub fn execute(&mut self, op: Opcode, random: u8) -> (r: Result<(), Error>)
        requires
            op.wf(),
            old(self)@.in_range(op),
            old(self)@.pc + 4 <= usize::MAX,
        ensures
            follows(old(self)@, old(self)@.execute(op, random), final(self)@, r),
            final(self)@.wf(),
    {
        proof {
            use_type_invariant(&*self);
            self.lemma_inv_wf();
        }
        match op {
            Opcode::ClearScreen => {
                self.clear_screen();
                self.advance();
            },
            Opcode::Return => {
                if self.stack_depth() == 0 {
                    return Err(Error::StackUnderflow);
                }
                self.ret();
            },
            Opcode::System { .. } => {
                self.advance();
            },
            Opcode::Jump { nnn } => {
                self.jump(nnn as usize);
            },
            Opcode::Call { nnn } => {
                if self.stack_depth() >= 16 {
                    return Err(Error::StackOverflow);
                }
                self.call(nnn);
            },
            Opcode::SkipEqImm { x, nn } => {
                self.skip_if(self.register(x) == nn);
            },
            Opcode::SkipNeImm { x, nn } => {
                self.skip_if(self.register(x) != nn);
            },
            Opcode::SkipEqReg { x, y } => {
                self.skip_if(self.register(x) == self.register(y));
            },
            Opcode::LoadImm { x, nn } => {
                self.set_reg(x, nn);
                self.advance();
            },
            Opcode::AddImm { x, nn } => {
                self.set_reg(x, add_wrapping(self.register(x), nn));
                self.advance();
            },
            Opcode::Move { x, y } => {
                self.set_reg(x, self.register(y));
                self.advance();
            },
            Opcode::Or { x, y } => {
                self.set_reg(x, self.register(x) | self.register(y));
                self.advance();
            },
            Opcode::And { x, y } => {
                self.set_reg(x, self.register(x) & self.register(y));
                self.advance();
            },
            Opcode::Xor { x, y } => {
                self.set_reg(x, self.register(x) ^ self.register(y));
                self.advance();
            },
            Opcode::Add { x, y } => {
                let (value, flag) = add_with_carry(self.register(x), self.register(y));
                self.set_reg_and_flag(x, value, flag);
                self.advance();
            },
            Opcode::Sub { x, y } => {
                let (value, flag) = sub_with_borrow(self.register(x), self.register(y));
                self.set_reg_and_flag(x, value, flag);
                self.advance();
            },
            Opcode::ShiftRight { x } => {
                let (value, flag) = shift_right(self.register(x));
                self.set_reg_and_flag(x, value, flag);
                self.advance();
            },
            Opcode::SubReverse { x, y } => {
                let (value, flag) = sub_with_borrow(self.register(y), self.register(x));
                self.set_reg_and_flag(x, value, flag);
                self.advance();
            },
            Opcode::ShiftLeft { x } => {
                let (value, flag) = shift_left(self.register(x));
                self.set_reg_and_flag(x, value, flag);
                self.advance();
            },
            Opcode::SkipNeReg { x, y } => {
                self.skip_if(self.register(x) != self.register(y));
            },
            Opcode::LoadIndex { nnn } => {
                self.set_index(nnn as usize);
                self.advance();
            },
            Opcode::JumpOffset { nnn } => {
                self.jump(self.register(0) as usize + nnn as usize);
            },
            Opcode::Random { x, nn } => {
                self.set_reg(x, random & nn);
                self.advance();
            },
            Opcode::Draw { x, y, n } => {
                self.draw(x, y, n);
                self.advance();
            },
            Opcode::SkipKey { x } => {
                self.skip_if(self.key_held(self.register(x)));
            },
            Opcode::SkipNoKey { x } => {
                self.skip_if(!self.key_held(self.register(x)));
            },
            Opcode::ReadDelay { x } => {
                self.set_reg(x, self.delay_timer());
                self.advance();
            },
            Opcode::WaitKey { x } => {
                self.wait_key(x);
                self.advance();
            },
            Opcode::SetDelay { x } => {
                self.set_delay(self.register(x));
                self.advance();
            },
            Opcode::SetSound { x } => {
                self.set_sound(self.register(x));
                self.advance();
            },
            Opcode::AddIndex { x } => {
                self.add_index(x);
                self.advance();
            },
            Opcode::FontAddress { x } => {
                // Each glyph takes five bytes, and the table starts at address 0.
                self.set_index(self.register(x) as usize * 5);
                self.advance();
            },
            Opcode::StoreBcd { x } => {
                self.store_bcd(x);
                self.advance();
            },
            Opcode::StoreRegisters { x } => {
                self.store_registers(x);
                self.advance();
            },
            Opcode::LoadRegisters { x } => {
                self.load_registers(x);
                self.advance();
            },
        }
        proof {
            use_type_invariant(&*self);
            self.lemma_inv_wf();
        }
        Ok(())
    }

    /// Decodes and executes the instruction word `instr`, with `random` as
    /// the byte that the random-number opcode uses. A word that stands for
    /// no opcode, a call on a full stack and a return on an empty one fail
    /// and change nothing.
    pub fn run_with(&mut self, instr: u16, random: u8) -> (r: Result<(), Error>)
        requires
            old(self)@.can_run(instr),
            old(self)@.pc + 4 <= usize::MAX,
        ensures
            follows(old(self)@, old(self)@.run(instr, random), final(self)@, r),
            final(self)@.wf(),
    {
        proof {
            use_type_invariant(&*self);
            self.lemma_inv_wf();
        }
        match Instruction(instr).decode() {
            None => Err(Error::UnsupportedOpcode { instr, pc: self.program_counter() }),
            Some(op) => self.execute(op, random),
        }
    }

    /// Decodes and executes the instruction word `instr`. The
    /// random-number opcode draws its byte from the thread's generator, so
    /// of its outcome only this is known: it is the model's outcome for some
    /// byte. Every other word has the one outcome that the model gives it.
    pub fn run(&mut self, instr: u16) -> (r: Result<(), Error>)
        requires
            old(self)@.can_run(instr),
            old(self)@.pc + 4 <= usize::MAX,
        ensures
            exists|random: u8| follows(old(self)@, old(self)@.run(instr, random), final(self)@, r),
            !(Instruction(instr).decoded() matches Some(Opcode::Random { .. })) ==> follows(
                old(self)@,
                old(self)@.run(instr, 0),
                final(self)@,
                r,
            ),
            final(self)@.wf(),
    {
        proof {
            use_type_invariant(&*self);
            self.lemma_inv_wf();
        }
        match Instruction(instr).decode() {
            None => {
                Err(Error::UnsupportedOpcode { instr, pc: self.program_counter() })
            },
            Some(op) => {
                let random: u8 = match op {
                    Opcode::Random { .. } => random_byte(),
                    _ => 0,
                };
                let r = self.execute(op, random);
                assert(follows(old(self)@, old(self)@.run(instr, random), self@, r));
                r
            },
        }
    }

    /// The lowest index of a held key, if any key is held.
    pub fn first_pressed_key(keys: &[bool; 16]) -> (found: Option<u8>)
        ensures
            match found {
                Some(k) => first_pressed(keys@) == Some(k as int),
                None => first_pressed(keys@) is None,
            },
            found matches Some(k) ==> k < 16,
    {
        let mut k: u8 = 0;
        while k < 16
            invariant
                k <= 16,
                forall|j: int| 0 <= j < k ==> !keys@[j],
            decreases 16 - k,
        {
            if keys[k as usize] {
                proof {
                    lemma_first_pressed_is(keys@, k as int);
                }
                return Some(k);
            }
            k += 1;
        }
        proof {
            lemma_first_pressed_none(keys@);
        }
        None
    }

    /// Whether every memory cell and key that `op` touches exists.
    fn in_range(&self, op: Opcode) -> (b: bool)
        requires
            op.wf(),
        ensures
            b == self@.in_range(op),
    {
        match op {
            Opcode::Draw { n, .. } => self.index() + (n as usize) <= CHIP8_RAM,
            Opcode::SkipKey { x } | Opcode::SkipNoKey { x } => self.register(x) < 16,
            Opcode::StoreBcd { .. } => self.index() + 2 < CHIP8_RAM,
            Opcode::StoreRegisters { x } | Opcode::LoadRegisters { x } => {
                self.index() + (x as usize) < CHIP8_RAM
            },
            _ => true,
        }
    }

    /// Tells whether `execute` may be called on `op`: its operands lie
    /// within their fields, every memory cell and key that it touches exists,
    /// and the program counter has room to move on.
    pub fn can_execute(&self, op: Opcode) -> (b: bool)
        ensures
            b == (op.wf() && self@.in_range(op) && self@.pc + 4 <= usize::MAX),
    {
        op.operands_fit() && self.program_counter() <= usize::MAX - 4 && self.in_range(op)
    }

    /// Tells whether `run` and `run_with` may be called on `instr`: every
    /// memory cell and key that the instruction touches exists, and the
    /// program counter has room to move on.
    pub fn can_run(&self, instr: u16) -> (b: bool)
        ensures
            b == (self@.can_run(instr) && self@.pc + 4 <= usize::MAX),
    {
        if self.program_counter() > usize::MAX - 4 {
            return false;
        }
        match Instruction(instr).decode() {
            None => true,
            Some(op) => self.in_range(op),
        }
    }

    /// Tells whether `tick` and `tick_with` may be called: the machine is
    /// waiting for a key, or the instruction at the program counter lies
    /// inside memory and so does everything that it touches.
    pub fn can_tick(&self) -> (b: bool)
        ensures
            b == self@.can_tick(),
    {
        if self.waiting_register().is_some() {
            return true;
        }
        if self.program_counter() >= CHIP8_RAM - 1 {
            return false;
        }
        match Instruction(self.get_opcode()).decode() {
            None => true,
            Some(op) => self.in_range(op),
        }
    }

    /// Stores the key snapshot, lowers the changed flag and, unless the
    /// machine waits for a key, steps both timers towards zero.
    fn begin_tick(&mut self, keyboard: [bool; 16])
        ensures
            old(self)@.waiting is Some ==> final(self)@ == (Machine {
                keyboard: keyboard@,
                vram_changed: false,
                ..old(self)@
            }),
            old(self)@.waiting is None ==> final(self)@ == (Machine {
                keyboard: keyboard@,
                vram_changed: false,
                ..old(self)@
            }).count_down(),
    {
        proof {
            use_type_invariant(&*self);
            reveal(Interpreter::model);
        }
        self.keyboard = keyboard;
        self.vram_changed = false;
        if !self.keyboard_waiting {
            if self.dt > 0 {
                self.dt -= 1;
            }
            if self.st > 0 {
                self.st -= 1;
            }
        }
        assert(old(self)@.waiting is Some ==> self@ =~= (Machine {
            keyboard: keyboard@,
            vram_changed: false,
            ..old(self)@
        }));
        assert(old(self)@.waiting is None ==> self@ =~= (Machine {
            keyboard: keyboard@,
            vram_changed: false,
            ..old(self)@
        }).count_down());
    }

    /// Ends the wait for a key: `key` goes to the register that waited.
    fn resolve_wait(&mut self, key: u8)
        requires
            old(self)@.waiting is Some,
        ensures
            final(self)@ == (Machine {
                vx: old(self)@.vx.update(old(self)@.waiting->0 as int, key),
                waiting: None,
                ..old(self)@
            }),
    {
        proof {
            use_type_invariant(&*self);
            reveal(Interpreter::model);
        }
        self.vx[self.keyboard_register] = key;
        self.keyboard_waiting = false;
        assert(self@ =~= (Machine {
            vx: old(self)@.vx.update(old(self)@.waiting->0 as int, key),
            waiting: None,
            ..old(self)@
        }));
    }

    /// The picture, the changed flag and the beep flag of the machine as it is.
    fn snapshot(&self) -> (s: State<'_>)
        ensures
            s.shows(self@),
    {
        proof {
            reveal(Interpreter::model);
        }
        State { vram: &self.vram, vram_changed: self.vram_changed, beep: self.st > 0 }
    }

    /// Performs one tick with the keys `keyboard` held and `random` as the
    /// byte that the random-number opcode uses.
    ///
    /// A machine that waits for a key takes the lowest held key, if there
    /// is one, and does nothing else. Otherwise both timers step towards
    /// zero and the instruction at the program counter runs. A fault leaves
    /// the machine exactly as it was.
    pub fn tick_with(&mut self, keyboard: [bool; 16], random: u8) -> (r: Result<State<'_>, Error>)
        requires
            old(self)@.can_tick(),
        ensures
            tick_follows(old(self)@, old(self)@.tick(keyboard@, random), final(self)@, r),
            final(self)@.wf(),
    {
        proof {
            use_type_invariant(&*self);
            self.lemma_inv_wf();
        }
        if self.waiting_register().is_some() {
            self.begin_tick(keyboard);
            match Interpreter::first_pressed_key(&keyboard) {
                Some(k) => self.resolve_wait(k),
                None => {},
            }
        } else {
            let instr: u16 = self.get_opcode();
            let op = match Instruction(instr).decode() {
                None => {
                    return Err(Error::UnsupportedOpcode { instr, pc: self.program_counter() });
                },
                Some(op) => op,
            };
            match op {
                Opcode::Call { .. } => {
                    if self.stack_depth() >= 16 {
                        return Err(Error::StackOverflow);
                    }
                },
                Opcode::Return => {
                    if self.stack_depth() == 0 {
                        return Err(Error::StackUnderflow);
                    }
                },
                _ => {},
            }
            self.begin_tick(keyboard);
            let ran = self.execute(op, random);
            assert(ran is Ok);
        }
        proof {
            use_type_invariant(&*self);
            self.lemma_inv_wf();
        }
        Ok(self.snapshot())
    }

    /// Performs one tick with the keys `keyboard` held.
    ///
    /// The random-number opcode draws its byte from the thread's generator,
    /// so of a tick that runs it only this is known: its outcome is the
    /// model's outcome for some byte. Every other tick has the one outcome
    /// that the model gives it.
    pub fn tick(&mut self, keyboard: [bool; 16]) -> (r: Result<State<'_>, Error>)
        requires
            old(self)@.can_tick(),
        ensures
            exists|random: u8|
                tick_follows(old(self)@, old(self)@.tick(keyboard@, random), final(self)@, r),
            !old(self)@.draws_random() ==> tick_follows(
                old(self)@,
                old(self)@.tick(keyboard@, 0),
                final(self)@,
                r,
            ),
            final(self)@.wf(),
    {
        let random: u8 = if self.next_draws_random() {
            random_byte()
        } else {
            0
        };
        self.tick_with(keyboard, random)
    }

    /// Whether the coming tick consumes a random byte.
    fn next_draws_random(&self) -> (b: bool)
        requires
            self@.can_tick(),
        ensures
            b == self@.draws_random(),
    {
        if self.waiting_register().is_some() {
            return false;
        }
        match Instruction(self.get_opcode()).decode() {
            Some(Opcode::Random { .. }) => true,
            _ => false,
        }
    }
}

impl Default for Interpreter {
    fn default() -> (s: Interpreter)
        ensures
            s@ == Machine::initial(),
    {
        Interpreter::new()
    }
}

} // verus!
