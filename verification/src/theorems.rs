//! Laws of the machine model.
//!
//! Each proof function states a law of the transition functions in
//! [`crate::machine`]. Since the interpreter is proved to follow the model,
//! the same holds of every run of the executable.
use vstd::prelude::*;

use crate::alu::{carry, high_bit, low_bit, no_borrow};
use crate::disassembler::{Instruction, Opcode};
use crate::error::Error;
use crate::machine::{blank_screen, first_pressed, is_first_pressed, sprite_row_bit, Machine};

verus! {

/// Every opcode but the random-number opcode has the same effect whatever
/// the random byte is.
pub proof fn lemma_random_byte_ignored(m: Machine, op: Opcode, r1: u8, r2: u8)
    requires
        !(op is Random),
    ensures
        m.apply(op, r1) == m.apply(op, r2),
        m.execute(op, r1) == m.execute(op, r2),
{
}

/// Adding an immediate to a register leaves the sum modulo 256 in that
/// register and writes no other register. In particular the flag register
/// keeps its value, unless it is the target itself.
pub proof fn lemma_add_immediate_wraps(m: Machine, x: u8, nn: u8, random: u8)
    requires
        m.wf(),
        x < 16,
    ensures
        m.apply(Opcode::AddImm { x, nn }, random).vx[x as int] == (m.vx[x as int] + nn) % 256,
        forall|k: int|
            0 <= k < 16 && k != x ==> m.apply(Opcode::AddImm { x, nn }, random).vx[k] == m.vx[k],
        x != 0xF ==> m.apply(Opcode::AddImm { x, nn }, random).vx[0xF] == m.vx[0xF],
        m.apply(Opcode::AddImm { x, nn }, random).pc == m.pc + 2,
{
}

/// A tick that runs the clear-screen opcode ends with every cell of the
/// framebuffer off and the changed flag raised.
pub proof fn lemma_clear_screen_tick(m: Machine, keys: Seq<bool>, random: u8)
    requires
        m.wf(),
        m.waiting is None,
        m.opcode() == 0x00E0,
    ensures
        m.tick(keys, random) matches Ok(after) && after.vram_changed && after.vram
            == blank_screen() && (forall|row: int, col: int|
            0 <= row < 32 && 0 <= col < 64 ==> after.vram[row][col] == 0),
{
    assert(Instruction(0x00E0u16).decoded() == Some(Opcode::ClearScreen));
}

/// Storing the registers `V0..=Vx` at `I` and loading them back from there
/// restores every register to what it was.
pub proof fn lemma_store_load_round_trip(m: Machine, x: u8, r1: u8, r2: u8)
    requires
        m.wf(),
        x < 16,
        m.i + x < 4096,
    ensures
        m.apply(Opcode::StoreRegisters { x }, r1).apply(Opcode::LoadRegisters { x }, r2).vx
            == m.vx,
{
    let stored = m.apply(Opcode::StoreRegisters { x }, r1);
    let loaded = stored.apply(Opcode::LoadRegisters { x }, r2);
    assert(loaded.vx =~= m.vx);
}

/// The three bytes that the decimal-digits opcode writes are the digits
/// of the register, hundreds first, and it writes nothing else.
pub proof fn lemma_bcd_digits(m: Machine, x: u8, random: u8)
    requires
        m.wf(),
        x < 16,
        m.i + 2 < 4096,
    ensures
        ({
            let after = m.apply(Opcode::StoreBcd { x }, random);
            let (h, t, u) = (
                after.memory[m.i as int],
                after.memory[m.i as int + 1],
                after.memory[m.i as int + 2],
            );
            &&& h < 10 && t < 10 && u < 10
            &&& 100 * h + 10 * t + u == m.vx[x as int]
            &&& after.memory.len() == 4096
            &&& forall|a: int|
                0 <= a < 4096 && !(m.i <= a <= m.i + 2) ==> after.memory[a] == m.memory[a]
            &&& after.vx == m.vx
            &&& after.i == m.i
        }),
{
}

/// A call followed at once by a return comes back to the instruction after
/// the call, with the stack as it was before: nothing but the program
/// counter has moved.
pub proof fn lemma_call_then_return(m: Machine, nnn: u16, r1: u8, r2: u8)
    requires
        m.wf(),
        m.stack.len() < 16,
    ensures
        m.execute(Opcode::Call { nnn }, r1) is Ok,
        m.execute(Opcode::Call { nnn }, r1)->Ok_0.pc == nnn,
        m.execute(Opcode::Call { nnn }, r1)->Ok_0.execute(Opcode::Return, r2)
            == Ok::<Machine, Error>(Machine { pc: m.pc + 2, ..m }),
{
    let called = m.apply(Opcode::Call { nnn }, r1);
    let back = called.apply(Opcode::Return, r2);
    assert(called.stack.len() == m.stack.len() + 1);
    assert(called.stack.drop_last() =~= m.stack);
    assert(back =~= (Machine { pc: m.pc + 2, ..m }));
}

/// A call fails exactly on a full stack and a return exactly on an empty
/// one; no other opcode fails.
pub proof fn lemma_stack_faults(m: Machine, op: Opcode, random: u8)
    ensures
        m.execute(op, random) == Err::<Machine, Error>(Error::StackOverflow) <==> op is Call
            && m.stack.len() >= 16,
        m.execute(op, random) == Err::<Machine, Error>(Error::StackUnderflow) <==> op is Return
            && m.stack.len() == 0,
        m.execute(op, random) is Err <==> (op is Call && m.stack.len() >= 16) || (op is Return
            && m.stack.len() == 0),
{
}

/// The wait for a key starts when the wait-key opcode runs: the machine
/// then waits on the register that the opcode names.
pub proof fn lemma_wait_key_latches(m: Machine, x: u8, random: u8)
    ensures
        m.apply(Opcode::WaitKey { x }, random) == (Machine {
            waiting: Some(x),
            pc: m.pc + 2,
            ..m
        }),
{
}

/// While the machine waits for a key, a tick runs no instruction. With no
/// key held it only takes in the key snapshot and lowers the changed flag;
/// the machine goes on waiting. With a key held, the lowest held key goes to
/// the waiting register and the wait ends. In both cases the program counter,
/// the timers, memory, the stack and the framebuffer stay as they are.
pub proof fn lemma_key_wait_tick(m: Machine, keys: Seq<bool>, random: u8)
    requires
        m.wf(),
        m.waiting is Some,
    ensures
        m.tick(keys, random) is Ok,
        first_pressed(keys) is None ==> m.tick(keys, random) == Ok::<Machine, Error>(
            Machine { keyboard: keys, vram_changed: false, ..m },
        ),
        forall|k: int| #[trigger]
            is_first_pressed(keys, k) ==> m.tick(keys, random) == Ok::<Machine, Error>(
                Machine {
                    vx: m.vx.update(m.waiting->0 as int, k as u8),
                    waiting: None,
                    keyboard: keys,
                    vram_changed: false,
                    ..m
                },
            ),
        ({
            let after = m.tick(keys, random)->Ok_0;
            &&& after.pc == m.pc
            &&& after.i == m.i
            &&& after.dt == m.dt
            &&& after.st == m.st
            &&& after.memory == m.memory
            &&& after.stack == m.stack
            &&& after.vram == m.vram
        }),
{
    assert forall|k: int| #[trigger] is_first_pressed(keys, k) implies m.tick(keys, random)
        == Ok::<Machine, Error>(
        Machine {
            vx: m.vx.update(m.waiting->0 as int, k as u8),
            waiting: None,
            keyboard: keys,
            vram_changed: false,
            ..m
        },
    ) by {
        crate::machine::lemma_first_pressed_is(keys, k);
    }
}

/// The instruction words that stand for no opcode, family by family.
pub open spec fn is_unknown_word(instr: u16) -> bool {
    let w = Instruction(instr);
    match w.family() {
        0x5 | 0x9 => w.n() != 0,
        0x8 => 0x8 <= w.n() <= 0xD || w.n() == 0xF,
        0xE => w.nn() != 0x9E && w.nn() != 0xA1,
        0xF => !(w.nn() == 0x07 || w.nn() == 0x0A || w.nn() == 0x15 || w.nn() == 0x18 || w.nn()
            == 0x1E || w.nn() == 0x29 || w.nn() == 0x33 || w.nn() == 0x55 || w.nn() == 0x65),
        _ => false,
    }
}

/// A word that stands for no opcode never runs: it yields the
/// unsupported-opcode fault, which names the word and the program counter.
/// A tick that fetches such a word yields the same fault. Every other word
/// decodes to an opcode with operands inside their fields.
pub proof fn lemma_unknown_opcode_faults(m: Machine, instr: u16, keys: Seq<bool>, random: u8)
    ensures
        Instruction(instr).decoded() is None <==> is_unknown_word(instr),
        Instruction(instr).decoded() matches Some(op) ==> op.wf(),
        is_unknown_word(instr) ==> m.run(instr, random) == Err::<Machine, Error>(
            Error::UnsupportedOpcode { instr, pc: m.pc as usize },
        ),
        is_unknown_word(instr) && m.waiting is None && m.opcode() == instr ==> m.tick(keys, random)
            == Err::<Machine, Error>(Error::UnsupportedOpcode { instr, pc: m.pc as usize }),
        !is_unknown_word(instr) ==> !(m.run(instr, random) matches Err(
            Error::UnsupportedOpcode { .. },
        )),
{
    let w = Instruction(instr);
    assert(w.family() < 16 && w.x() < 16 && w.y() < 16 && w.n() < 16 && w.nnn() < 0x1000) by {
        assert(instr / 0x1000 < 16 && instr / 0x100 % 0x10 < 16 && instr / 0x10 % 0x10 < 16
            && instr % 0x10 < 16 && instr % 0x1000 < 0x1000) by (bit_vector);
    }
}

/// Memory is written by two opcodes only: the decimal-digits opcode
/// writes the three bytes from `I` on, the register-store opcode the bytes
/// `I..=I + x`. Every other byte, and with any other opcode every byte,
/// stays as it is. So the glyph table at the bottom of memory is safe from
/// every program that keeps `I` at or above 80 when it stores.
pub proof fn lemma_memory_frame(m: Machine, op: Opcode, random: u8, a: int)
    requires
        m.wf(),
        op.wf(),
        m.in_range(op),
        0 <= a < 4096,
    ensures
        m.apply(op, random).memory.len() == 4096,
        m.apply(op, random).memory[a] != m.memory[a] ==> (op matches Opcode::StoreBcd { .. }
            && m.i <= a <= m.i + 2) || (op matches Opcode::StoreRegisters { x } && m.i <= a <= m.i
            + x),
{
}

/// The framebuffer is written by two opcodes only, the screen clear and
/// the sprite draw, and exactly these raise the changed flag.
pub proof fn lemma_framebuffer_frame(m: Machine, op: Opcode, random: u8)
    ensures
        !(op is ClearScreen || op is Draw) ==> m.apply(op, random).vram == m.vram && m.apply(
            op,
            random,
        ).vram_changed == m.vram_changed,
        op is ClearScreen || op is Draw ==> m.apply(op, random).vram_changed,
{
}

/// The call stack moves by calls and returns only: a call pushes the
/// address of the instruction after it, a return pops the address it goes to.
pub proof fn lemma_stack_frame(m: Machine, op: Opcode, random: u8)
    requires
        m.execute(op, random) is Ok,
    ensures
        op matches Opcode::Call { nnn } ==> m.apply(op, random).stack == m.stack.push(m.pc + 2),
        op is Return ==> m.stack == m.apply(op, random).stack.push(m.apply(op, random).pc),
        !(op is Call || op is Return) ==> m.apply(op, random).stack == m.stack,
{
    if op is Return {
        let after = m.apply(op, random);
        assert(after.stack.push(after.pc) =~= m.stack);
    }
}

/// Where the program counter goes: a jump, a call and a return set it,
/// a skip moves it on by two or by four, every other opcode by two. The
/// timers are written only by the two opcodes that set them.
pub proof fn lemma_program_counter(m: Machine, op: Opcode, random: u8)
    ensures
        match op {
            Opcode::Jump { nnn } | Opcode::Call { nnn } => m.apply(op, random).pc == nnn,
            Opcode::JumpOffset { nnn } => m.apply(op, random).pc == m.vx[0] + nnn,
            Opcode::Return => m.apply(op, random).pc == m.stack.last(),
            Opcode::SkipEqImm { .. }
            | Opcode::SkipNeImm { .. }
            | Opcode::SkipEqReg { .. }
            | Opcode::SkipNeReg { .. }
            | Opcode::SkipKey { .. }
            | Opcode::SkipNoKey { .. } => m.apply(op, random).pc == m.pc + 2 || m.apply(
                op,
                random,
            ).pc == m.pc + 4,
            _ => m.apply(op, random).pc == m.pc + 2,
        },
        !(op is SetDelay) ==> m.apply(op, random).dt == m.dt,
        !(op is SetSound) ==> m.apply(op, random).st == m.st,
{
}

/// Every opcode with a flag output leaves the flag in `VF`, also where
/// `VF` is the register that the opcode computes: the flag is written last.
/// No other opcode writes `VF`, unless it names `VF` as its target.
pub proof fn lemma_flag_register(m: Machine, op: Opcode, random: u8)
    requires
        m.wf(),
        op.wf(),
    ensures
        match op {
            Opcode::Add { x, y } => m.apply(op, random).vx[0xF] == carry(
                m.vx[x as int],
                m.vx[y as int],
            ),
            Opcode::Sub { x, y } => m.apply(op, random).vx[0xF] == no_borrow(
                m.vx[x as int],
                m.vx[y as int],
            ),
            Opcode::SubReverse { x, y } => m.apply(op, random).vx[0xF] == no_borrow(
                m.vx[y as int],
                m.vx[x as int],
            ),
            Opcode::ShiftRight { x } => m.apply(op, random).vx[0xF] == low_bit(m.vx[x as int]),
            Opcode::ShiftLeft { x } => m.apply(op, random).vx[0xF] == high_bit(m.vx[x as int]),
            Opcode::Draw { x, y, n } => m.apply(op, random).vx[0xF] == (if m.collides(
                m.vx[x as int],
                m.vx[y as int],
                n,
            ) {
                1u8
            } else {
                0u8
            }),
            Opcode::AddIndex { x } => m.apply(op, random).vx[0xF] == (if m.i + m.vx[x as int]
                > 0xFFF {
                1u8
            } else {
                0u8
            }),
            Opcode::LoadImm { x, .. }
            | Opcode::AddImm { x, .. }
            | Opcode::Move { x, .. }
            | Opcode::Or { x, .. }
            | Opcode::And { x, .. }
            | Opcode::Xor { x, .. }
            | Opcode::Random { x, .. }
            | Opcode::ReadDelay { x }
            | Opcode::LoadRegisters { x } => x != 0xF ==> m.apply(op, random).vx[0xF]
                == m.vx[0xF],
            _ => m.apply(op, random).vx[0xF] == m.vx[0xF],
        },
{
}

/// A sprite bit is 0 or 1, and so is a cell after a sprite bit is XOR-ed
/// onto it.
proof fn lemma_sprite_bits(byte: u8, col: int, cell: u8)
    requires
        0 <= col < 8,
        cell <= 1,
    ensures
        sprite_row_bit(byte, col) <= 1,
        cell ^ sprite_row_bit(byte, col) <= 1,
        cell ^ 0 == cell,
{
    let shift = (7 - col) as u8;
    let bit = (byte >> shift) & 1;
    assert(bit <= 1) by (bit_vector)
        requires
            bit == (byte >> shift) & 1,
    ;
    assert(cell ^ bit <= 1) by (bit_vector)
        requires
            cell <= 1,
            bit <= 1,
    ;
    assert(cell ^ 0 == cell) by (bit_vector);
}

/// Drawing a sprite twice at the same place puts the framebuffer back as
/// it was. The registers that hold the coordinates must not be the flag
/// register, which the first draw overwrites. The second draw reports a
/// collision exactly if the first one left a cell on under a set sprite bit.
pub proof fn lemma_draw_twice_restores(m: Machine, x: u8, y: u8, n: u8, r1: u8, r2: u8)
    requires
        m.wf(),
        x < 0xF,
        y < 0xF,
        n < 16,
    ensures
        ({
            let op = Opcode::Draw { x, y, n };
            let once = m.apply(op, r1);
            let twice = once.apply(op, r2);
            &&& twice.vram == m.vram
            &&& twice.vx[0xF] == 1 <==> once.collides(m.vx[x as int], m.vx[y as int], n)
            &&& twice.vx[0xF] == 0 <==> !once.collides(m.vx[x as int], m.vx[y as int], n)
        }),
{
    let op = Opcode::Draw { x, y, n };
    let once = m.apply(op, r1);
    let twice = once.apply(op, r2);
    let left = m.vx[x as int];
    let top = m.vx[y as int];
    assert(once.vx[x as int] == left && once.vx[y as int] == top);
    assert forall|row: int, col: int| 0 <= row < 32 && 0 <= col < 64 implies twice.vram[row][col]
        == m.vram[row][col] by {
        let bit = m.sprite_bit(left, top, n, row, col);
        let cell = m.vram[row][col];
        assert(once.sprite_bit(left, top, n, row, col) == bit);
        assert((cell ^ bit) ^ bit == cell) by (bit_vector);
    }
    assert(twice.vram =~~= m.vram);
}

/// On a blank screen a sprite lights exactly the cells under its set bits
/// and reports no collision. Drawn a second time from coordinate registers
/// other than the flag register, it turns them off again, and reports a
/// collision if it has a set bit on the screen at all.
pub proof fn lemma_draw_on_blank_screen(m: Machine, x: u8, y: u8, n: u8, r1: u8, r2: u8)
    requires
        m.wf(),
        x < 16,
        y < 16,
        n < 16,
        m.vram == blank_screen(),
    ensures
        ({
            let op = Opcode::Draw { x, y, n };
            let (left, top) = (m.vx[x as int], m.vx[y as int]);
            let once = m.apply(op, r1);
            let twice = once.apply(op, r2);
            &&& once.vx[0xF] == 0
            &&& once.vram_changed
            &&& forall|row: int, col: int|
                0 <= row < 32 && 0 <= col < 64 ==> #[trigger] once.vram[row][col] == m.sprite_bit(
                    left,
                    top,
                    n,
                    row,
                    col,
                )
            &&& x < 0xF && y < 0xF ==> twice.vram == blank_screen() && (twice.vx[0xF] == 1
                <==> exists|row: int, col: int|
                0 <= row < 32 && 0 <= col < 64 && #[trigger] m.sprite_bit(left, top, n, row, col)
                    == 1)
        }),
{
    let op = Opcode::Draw { x, y, n };
    let (left, top) = (m.vx[x as int], m.vx[y as int]);
    let once = m.apply(op, r1);
    let twice = once.apply(op, r2);
    assert forall|row: int, col: int| 0 <= row < 32 && 0 <= col < 64 implies #[trigger] once.vram[row][col]
        == m.sprite_bit(left, top, n, row, col) by {
        let bit = m.sprite_bit(left, top, n, row, col);
        assert(0u8 ^ bit == bit) by (bit_vector);
    }
    if x < 0xF && y < 0xF {
        lemma_draw_twice_restores(m, x, y, n, r1, r2);
        assert forall|row: int, col: int|
            0 <= row < 32 && 0 <= col < 64 implies once.sprite_bit(left, top, n, row, col)
            == m.sprite_bit(left, top, n, row, col) by {}
        if once.collides(left, top, n) {
            let (row, col) = choose|row: int, col: int|
                0 <= row < 32 && 0 <= col < 64 && once.vram[row][col] == 1
                    && #[trigger] once.sprite_bit(left, top, n, row, col) == 1;
            assert(m.sprite_bit(left, top, n, row, col) == 1);
        }
        if exists|row: int, col: int|
            0 <= row < 32 && 0 <= col < 64 && #[trigger] m.sprite_bit(left, top, n, row, col)
                == 1 {
            let (row, col) = choose|row: int, col: int|
                0 <= row < 32 && 0 <= col < 64 && #[trigger] m.sprite_bit(left, top, n, row, col)
                    == 1;
            assert(once.vram[row][col] == 1);
            assert(once.sprite_bit(left, top, n, row, col) == 1);
        }
    }
}

/// Every opcode that runs to completion takes a well-formed machine to a
/// well-formed machine.
pub proof fn lemma_apply_preserves_wf(m: Machine, op: Opcode, random: u8)
    requires
        m.wf(),
        op.wf(),
        m.in_range(op),
        m.execute(op, random) is Ok,
    ensures
        m.apply(op, random).wf(),
{
    let after = m.apply(op, random);
    match op {
        Opcode::Draw { x, y, n } => {
            let left = m.vx[x as int];
            let top = m.vx[y as int];
            assert forall|row: int, col: int| 0 <= row < 32 && 0 <= col < 64 implies (
            #[trigger] after.vram[row][col]) <= 1 by {
                let dr = (row - top) % 32;
                let dc = (col - left) % 64;
                if dr < n && dc < 8 {
                    lemma_sprite_bits(m.memory[m.i + dr], dc, m.vram[row][col]);
                } else {
                    lemma_sprite_bits(0, 0, m.vram[row][col]);
                }
            }
        },
        _ => {},
    }
}

/// A tick takes a well-formed machine to a well-formed machine, whether it
/// succeeds or not: the sizes of memory, registers and framebuffer never
/// change, the index register stays within twelve bits, the stack within its
/// sixteen slots.
pub proof fn lemma_tick_preserves_wf(m: Machine, keys: Seq<bool>, random: u8)
    requires
        m.wf(),
        keys.len() == 16,
        m.can_tick(),
    ensures
        m.tick(keys, random) matches Ok(after) ==> after.wf(),
{
    let polled = Machine { keyboard: keys, vram_changed: false, ..m };
    match m.waiting {
        Some(x) => {
            if first_pressed(keys) is Some {
                let k = first_pressed(keys)->0;
                assert(is_first_pressed(keys, k));
            }
        },
        None => {
            let ready = polled.count_down();
            if let Some(op) = Instruction(m.opcode()).decoded() {
                lemma_unknown_opcode_faults(m, m.opcode(), keys, random);
                if ready.execute(op, random) is Ok {
                    lemma_apply_preserves_wf(ready, op, random);
                }
            }
        },
    }
}

/// Each timer goes down by exactly one per instruction tick, stops at
/// zero, and is never reloaded by the countdown.
pub proof fn lemma_timers_count_down(m: Machine)
    ensures
        m.count_down().dt == if m.dt > 0 { m.dt - 1 } else { 0 },
        m.count_down().st == if m.st > 0 { m.st - 1 } else { 0 },
        m.count_down().beep() <==> m.st > 1,
{
}

} // verus!
