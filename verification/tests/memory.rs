use chip8::disassembler::Opcode;
use chip8::error::Error;
use chip8::interpreter::{Interpreter, FONTS};

fn loaded(program: &[u8]) -> Interpreter {
    let mut vm = Interpreter::new();
    vm.load(program).unwrap();
    vm
}

fn run_ticks(vm: &mut Interpreter, ticks: usize) {
    for _ in 0..ticks {
        assert!(vm.can_tick());
        vm.tick([false; 16]).unwrap();
    }
}

#[test]
fn new_machine_is_zeroed_with_fonts() {
    let vm = Interpreter::new();
    for x in 0u8..16 {
        assert_eq!(vm.register(x), 0);
        assert!(!vm.key_held(x));
    }
    assert_eq!(vm.index(), 0);
    assert_eq!(vm.program_counter(), 0x200);
    assert_eq!(vm.stack_depth(), 0);
    assert_eq!(vm.delay_timer(), 0);
    assert_eq!(vm.sound_timer(), 0);
    assert_eq!(vm.waiting_register(), None);
    assert!(!vm.vram_changed());
    for (k, byte) in vm.memory().iter().enumerate() {
        if k < 80 {
            assert_eq!(*byte, FONTS[k / 5][k % 5]);
        } else {
            assert_eq!(*byte, 0);
        }
    }
    assert!(vm.vram().iter().all(|row| row.iter().all(|cell| *cell == 0)));
}

#[test]
fn default_machine_equals_new_machine() {
    let a = Interpreter::default();
    let b = Interpreter::new();
    assert_eq!(a.memory(), b.memory());
    assert_eq!(a.program_counter(), b.program_counter());
    assert_eq!(a.vram(), b.vram());
}

#[test]
fn init_fonts_writes_the_table_and_nothing_else() {
    let mut memory = [0xEEu8; 100];
    Interpreter::init_fonts(&mut memory);
    assert_eq!(&memory[0..5], &[0xF0, 0x90, 0x90, 0x90, 0xF0]);
    assert_eq!(&memory[5..10], &[0x20, 0x60, 0x20, 0x20, 0x70]);
    assert_eq!(&memory[75..80], &[0xF0, 0x80, 0xF0, 0x80, 0x80]);
    assert!(memory[80..].iter().all(|b| *b == 0xEE));
}

#[test]
fn init_fonts_is_idempotent() {
    let mut once = [0u8; 80];
    Interpreter::init_fonts(&mut once);
    let mut twice = once;
    Interpreter::init_fonts(&mut twice);
    assert_eq!(once, twice);
}

#[test]
fn load_copies_the_program_to_the_load_address() {
    let vm = loaded(&[1, 2, 3]);
    assert_eq!(&vm.memory()[0x200..0x204], &[1, 2, 3, 0]);
    assert_eq!(vm.memory()[0x1FF], 0);
    assert_eq!(&vm.memory()[0..5], &[0xF0, 0x90, 0x90, 0x90, 0xF0]);
}

#[test]
fn load_takes_a_program_that_fills_memory() {
    let program = vec![0xABu8; 4096 - 0x200];
    let mut vm = Interpreter::new();
    assert_eq!(vm.load(&program), Ok(()));
    assert_eq!(vm.memory()[0x200], 0xAB);
    assert_eq!(vm.memory()[4095], 0xAB);
}

#[test]
fn load_refuses_a_program_that_is_too_large() {
    let program = vec![0xABu8; 4096 - 0x200 + 1];
    let mut vm = Interpreter::new();
    assert_eq!(vm.load(&program), Err(Error::LoadTooLarge));
    assert!(vm.memory()[0x200..].iter().all(|b| *b == 0));
}

#[test]
fn load_takes_an_empty_program() {
    let mut vm = Interpreter::new();
    assert_eq!(vm.load(&[]), Ok(()));
    assert!(vm.memory()[0x200..].iter().all(|b| *b == 0));
}

#[test]
fn bcd_stores_three_digits() {
    // V0 = 234, I = 0x300, F033
    let mut vm = loaded(&[0x60, 234, 0xA3, 0x00, 0xF0, 0x33]);
    run_ticks(&mut vm, 3);
    assert_eq!(&vm.memory()[0x300..0x303], &[2, 3, 4]);
    assert_eq!(vm.index(), 0x300);
    // V0 = 7
    let mut vm = loaded(&[0x60, 7, 0xA3, 0x00, 0xF0, 0x33]);
    run_ticks(&mut vm, 3);
    assert_eq!(&vm.memory()[0x300..0x303], &[0, 0, 7]);
    // V0 = 255
    let mut vm = loaded(&[0x60, 255, 0xA3, 0x00, 0xF0, 0x33]);
    run_ticks(&mut vm, 3);
    assert_eq!(&vm.memory()[0x300..0x303], &[2, 5, 5]);
}

#[test]
fn register_dump_and_load_round_trip() {
    let program = [
        0x60, 11, 0x61, 22, 0x62, 33, 0x63, 44, 0x64, 55, // V0..V4
        0xA3, 0x00, // I = 0x300
        0xF3, 0x55, // dump V0..=V3
        0x60, 0, 0x61, 0, 0x62, 0, 0x63, 0, 0x64, 99, // overwrite
        0xF3, 0x65, // load V0..=V3
    ];
    let mut vm = loaded(&program);
    run_ticks(&mut vm, 7);
    assert_eq!(&vm.memory()[0x300..0x305], &[11, 22, 33, 44, 0]);
    assert_eq!(vm.index(), 0x300);
    run_ticks(&mut vm, 6);
    assert_eq!(vm.register(0), 11);
    assert_eq!(vm.register(1), 22);
    assert_eq!(vm.register(2), 33);
    assert_eq!(vm.register(3), 44);
    assert_eq!(vm.register(4), 99);
    assert_eq!(vm.index(), 0x300);
}

#[test]
fn register_dump_of_one_register_touches_one_byte() {
    let mut vm = loaded(&[0x60, 0x5A, 0x61, 0x77, 0xA3, 0x00, 0xF0, 0x55]);
    run_ticks(&mut vm, 4);
    assert_eq!(&vm.memory()[0x2FF..0x302], &[0, 0x5A, 0]);
}

#[test]
fn access_past_the_end_of_memory_is_not_ready() {
    // I = 0xFFE, then BCD would write 0xFFE..=0x1000
    let mut vm = loaded(&[0xAF, 0xFE, 0xF0, 0x33]);
    run_ticks(&mut vm, 1);
    assert!(!vm.can_tick());
    // I = 0xFFD is the last address that works
    let mut vm = loaded(&[0xAF, 0xFD, 0xF0, 0x33]);
    run_ticks(&mut vm, 1);
    assert!(vm.can_tick());
    // I = 0xFFF, dump V0..=V1 would write 0xFFF..=0x1000
    let mut vm = loaded(&[0xAF, 0xFF, 0xF1, 0x55]);
    run_ticks(&mut vm, 1);
    assert!(!vm.can_tick());
    assert!(!vm.can_run(0xF165));
    assert!(vm.can_run(0xF055));
    // a key that does not exist
    let mut vm = loaded(&[0x60, 16, 0xE0, 0x9E]);
    run_ticks(&mut vm, 1);
    assert!(!vm.can_tick());
}

#[test]
fn fetch_past_the_end_of_memory_is_not_ready() {
    // jump to 0xFFF: the word there would end outside memory
    let mut vm = loaded(&[0x1F, 0xFF]);
    run_ticks(&mut vm, 1);
    assert_eq!(vm.program_counter(), 0xFFF);
    assert!(!vm.can_tick());
    // 0xFFE is the last address that holds a whole word
    let mut vm = loaded(&[0x1F, 0xFE]);
    run_ticks(&mut vm, 1);
    assert!(vm.can_tick());
}

#[test]
fn execute_is_guarded_by_can_execute() {
    let mut vm = Interpreter::new();
    assert!(vm.can_execute(Opcode::LoadIndex { nnn: 0xFFF }));
    vm.execute(Opcode::LoadIndex { nnn: 0xFFF }, 0).unwrap();
    assert!(vm.can_execute(Opcode::StoreRegisters { x: 0 }));
    assert!(!vm.can_execute(Opcode::StoreRegisters { x: 1 }));
    assert!(!vm.can_execute(Opcode::StoreBcd { x: 0 }));
    assert!(vm.can_execute(Opcode::Draw { x: 0, y: 0, n: 1 }));
    assert!(!vm.can_execute(Opcode::Draw { x: 0, y: 0, n: 2 }));
    assert!(!vm.can_execute(Opcode::LoadImm { x: 16, nn: 0 }));
    vm.execute(Opcode::StoreRegisters { x: 0 }, 0).unwrap();
    assert_eq!(vm.program_counter(), 0x204);
}
