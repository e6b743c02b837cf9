use chip8::disassembler::Opcode;
use chip8::error::Error;
use chip8::interpreter::Interpreter;

fn booted(program: &[u8]) -> Interpreter {
    let mut vm = Interpreter::new();
    vm.load(program).unwrap();
    vm
}

fn ticks(vm: &mut Interpreter, count: usize) {
    for _ in 0..count {
        assert!(vm.can_tick());
        vm.tick([false; 16]).unwrap();
    }
}

#[test]
fn instruction_words_are_big_endian() {
    // 0x60FA is "V0 = 0xFA"; read the other way round, 0xFA60 stands for no opcode
    let mut vm = booted(&[0x60, 0xFA]);
    ticks(&mut vm, 1);
    assert_eq!(vm.register(0), 0xFA);
    // 0x1234 jumps to 0x234, not to 0x412
    let mut vm = booted(&[0x12, 0x34]);
    ticks(&mut vm, 1);
    assert_eq!(vm.program_counter(), 0x234);
}

#[test]
fn call_then_return_comes_back_after_the_call() {
    // 0x200: call 0x206; 0x206: return
    let mut vm = booted(&[0x22, 0x06, 0x00, 0x00, 0x00, 0x00, 0x00, 0xEE]);
    ticks(&mut vm, 1);
    assert_eq!(vm.program_counter(), 0x206);
    assert_eq!(vm.stack_depth(), 1);
    ticks(&mut vm, 1);
    assert_eq!(vm.program_counter(), 0x202);
    assert_eq!(vm.stack_depth(), 0);
}

#[test]
fn nested_calls_return_in_reverse_order() {
    // 0x200: call 0x204; 0x202: jump 0x202; 0x204: call 0x208; 0x206: return; 0x208: return
    let mut vm = booted(&[0x22, 0x04, 0x12, 0x02, 0x22, 0x08, 0x00, 0xEE, 0x00, 0xEE]);
    ticks(&mut vm, 2);
    assert_eq!(vm.program_counter(), 0x208);
    assert_eq!(vm.stack_depth(), 2);
    ticks(&mut vm, 1);
    assert_eq!(vm.program_counter(), 0x206);
    ticks(&mut vm, 1);
    assert_eq!(vm.program_counter(), 0x202);
    assert_eq!(vm.stack_depth(), 0);
}

#[test]
fn return_without_call_underflows() {
    let mut vm = booted(&[0x61, 5, 0x00, 0xEE]);
    ticks(&mut vm, 1);
    assert!(vm.can_tick());
    let r = vm.tick([true; 16]).map(|_| ());
    assert_eq!(r, Err(Error::StackUnderflow));
    assert_eq!(vm.program_counter(), 0x202);
    assert_eq!(vm.stack_depth(), 0);
    assert!(!vm.key_held(0));
    assert_eq!(vm.execute(Opcode::Return, 0), Err(Error::StackUnderflow));
}

#[test]
fn seventeenth_call_overflows() {
    // 0x200: call 0x200, for ever
    let mut vm = booted(&[0x22, 0x00]);
    ticks(&mut vm, 16);
    assert_eq!(vm.stack_depth(), 16);
    assert!(vm.can_tick());
    let r = vm.tick([false; 16]).map(|_| ());
    assert_eq!(r, Err(Error::StackOverflow));
    assert_eq!(vm.stack_depth(), 16);
    assert_eq!(vm.program_counter(), 0x200);
    assert_eq!(vm.run(0x2300), Err(Error::StackOverflow));
}

#[test]
fn unknown_opcode_is_a_fault_and_not_a_step() {
    let mut vm = booted(&[0x50, 0x01]);
    assert!(vm.can_tick());
    let r = vm.tick([false; 16]).map(|_| ());
    assert_eq!(r, Err(Error::UnsupportedOpcode { instr: 0x5001, pc: 0x200 }));
    assert_eq!(vm.program_counter(), 0x200);

    let mut vm = Interpreter::new();
    assert!(vm.can_run(0x5001));
    assert_eq!(vm.run(0x5001), Err(Error::UnsupportedOpcode { instr: 0x5001, pc: 0x200 }));
    assert_eq!(vm.run_with(0x5001, 9), Err(Error::UnsupportedOpcode { instr: 0x5001, pc: 0x200 }));
    assert_eq!(vm.program_counter(), 0x200);
}

#[test]
fn unknown_opcode_reports_where_it_was_met() {
    let mut vm = booted(&[0x12, 0x04, 0x00, 0x00, 0xE0, 0x00]);
    ticks(&mut vm, 1);
    let r = vm.tick([false; 16]).map(|_| ());
    assert_eq!(r, Err(Error::UnsupportedOpcode { instr: 0xE000, pc: 0x204 }));
}

#[test]
fn unknown_opcode_leaves_timers_and_keys_alone() {
    // V0 = 9, delay = V0, then a word that stands for nothing
    let mut vm = booted(&[0x60, 9, 0xF0, 0x15, 0x8A, 0xB9]);
    ticks(&mut vm, 2);
    assert_eq!(vm.delay_timer(), 9);
    let r = vm.tick([true; 16]).map(|_| ());
    assert_eq!(r, Err(Error::UnsupportedOpcode { instr: 0x8AB9, pc: 0x204 }));
    assert_eq!(vm.delay_timer(), 9);
    assert!(!vm.key_held(3));
}

#[test]
fn native_call_is_a_no_op_that_moves_on() {
    let mut vm = booted(&[0x01, 0x23, 0x00, 0x00, 0x0F, 0xFF]);
    ticks(&mut vm, 3);
    assert_eq!(vm.program_counter(), 0x206);
    for x in 0u8..16 {
        assert_eq!(vm.register(x), 0);
    }
    assert_eq!(vm.index(), 0);
    assert_eq!(vm.stack_depth(), 0);
}

#[test]
fn jump_sets_the_program_counter() {
    let mut vm = booted(&[0x1A, 0xBC]);
    ticks(&mut vm, 1);
    assert_eq!(vm.program_counter(), 0xABC);
}

#[test]
fn jump_with_offset_adds_v0() {
    let mut vm = booted(&[0x60, 0x10, 0xB3, 0x00]);
    ticks(&mut vm, 2);
    assert_eq!(vm.program_counter(), 0x310);
    let mut vm = booted(&[0x60, 0xFF, 0xBF, 0xFF]);
    ticks(&mut vm, 2);
    assert_eq!(vm.program_counter(), 0xFFF + 0xFF);
}

#[test]
fn skip_if_equal_immediate() {
    let mut vm = booted(&[0x60, 7, 0x30, 7]);
    ticks(&mut vm, 2);
    assert_eq!(vm.program_counter(), 0x206);
    let mut vm = booted(&[0x60, 7, 0x30, 8]);
    ticks(&mut vm, 2);
    assert_eq!(vm.program_counter(), 0x204);
}

#[test]
fn skip_if_not_equal_immediate() {
    let mut vm = booted(&[0x60, 7, 0x40, 8]);
    ticks(&mut vm, 2);
    assert_eq!(vm.program_counter(), 0x206);
    let mut vm = booted(&[0x60, 7, 0x40, 7]);
    ticks(&mut vm, 2);
    assert_eq!(vm.program_counter(), 0x204);
}

#[test]
fn skip_if_registers_equal() {
    let mut vm = booted(&[0x60, 7, 0x61, 7, 0x50, 0x10]);
    ticks(&mut vm, 3);
    assert_eq!(vm.program_counter(), 0x208);
    let mut vm = booted(&[0x60, 7, 0x61, 8, 0x50, 0x10]);
    ticks(&mut vm, 3);
    assert_eq!(vm.program_counter(), 0x206);
}

#[test]
fn skip_if_registers_differ() {
    let mut vm = booted(&[0x60, 7, 0x61, 8, 0x90, 0x10]);
    ticks(&mut vm, 3);
    assert_eq!(vm.program_counter(), 0x208);
    let mut vm = booted(&[0x60, 7, 0x61, 7, 0x90, 0x10]);
    ticks(&mut vm, 3);
    assert_eq!(vm.program_counter(), 0x206);
}

#[test]
fn load_index_takes_twelve_bits() {
    let mut vm = booted(&[0xAF, 0xFF]);
    ticks(&mut vm, 1);
    assert_eq!(vm.index(), 0xFFF);
    assert_eq!(vm.program_counter(), 0x202);
}
