use chip8::disassembler::Opcode;
use chip8::interpreter::Interpreter;

fn with_program(program: &[u8]) -> Interpreter {
    let mut vm = Interpreter::new();
    vm.load(program).unwrap();
    vm
}

fn advance(vm: &mut Interpreter, count: usize) {
    for _ in 0..count {
        assert!(vm.can_tick());
        vm.tick([false; 16]).unwrap();
    }
}

fn lit_cells(vm: &Interpreter) -> Vec<(usize, usize)> {
    let mut cells = Vec::new();
    for (row, line) in vm.vram().iter().enumerate() {
        for (col, cell) in line.iter().enumerate() {
            assert!(*cell <= 1);
            if *cell == 1 {
                cells.push((row, col));
            }
        }
    }
    cells
}

#[test]
fn byte_sprite_lights_eight_cells_and_clears_them_again() {
    // I = 0x20A, V0 = 0, V1 = 0, draw one row twice; the sprite byte follows
    let program = [0xA2, 0x0A, 0x60, 0x00, 0x61, 0x00, 0xD0, 0x11, 0xD0, 0x11, 0xFF];
    let mut vm = with_program(&program);
    advance(&mut vm, 3);
    assert!(vm.can_tick());
    {
        let state = vm.tick([false; 16]).unwrap();
        assert!(state.vram_changed);
        for col in 0..64 {
            assert_eq!(state.vram[0][col], if col < 8 { 1 } else { 0 });
        }
        assert!(state.vram[1..].iter().all(|row| row.iter().all(|cell| *cell == 0)));
    }
    assert_eq!(vm.register(0xF), 0);
    assert!(vm.can_tick());
    {
        let state = vm.tick([false; 16]).unwrap();
        assert!(state.vram_changed);
        assert!(state.vram.iter().all(|row| row.iter().all(|cell| *cell == 0)));
    }
    assert_eq!(vm.register(0xF), 1);
    assert_eq!(vm.program_counter(), 0x20A);
}

#[test]
fn sprite_bits_go_most_significant_first() {
    // sprite rows 0b1010_0000 and 0b0000_0001 at (2, 3)
    let program = [0xA2, 0x08, 0x60, 2, 0x61, 3, 0xD0, 0x12, 0xA0, 0x01];
    let mut vm = with_program(&program);
    advance(&mut vm, 4);
    assert_eq!(lit_cells(&vm), vec![(3, 2), (3, 4), (4, 9)]);
    assert_eq!(vm.register(0xF), 0);
}

#[test]
fn sprite_wraps_around_both_edges() {
    // a 2-row sprite of 0xFF at (60, 31)
    let program = [0xA2, 0x08, 0x60, 60, 0x61, 31, 0xD0, 0x12, 0xFF, 0xFF];
    let mut vm = with_program(&program);
    advance(&mut vm, 4);
    let mut expected = Vec::new();
    for col in [0usize, 1, 2, 3, 60, 61, 62, 63] {
        expected.push((0usize, col));
    }
    for col in [0usize, 1, 2, 3, 60, 61, 62, 63] {
        expected.push((31usize, col));
    }
    assert_eq!(lit_cells(&vm), expected);
}

#[test]
fn sprite_coordinates_wrap_modulo_the_screen() {
    // (Vx, Vy) = (64 + 5, 32 + 2) is the cell (5, 2)
    let program = [0xA2, 0x08, 0x60, 69, 0x61, 34, 0xD0, 0x11, 0x80];
    let mut vm = with_program(&program);
    advance(&mut vm, 4);
    assert_eq!(lit_cells(&vm), vec![(2, 5)]);
    // (255, 255) is the cell (63, 31)
    let program = [0xA2, 0x08, 0x60, 255, 0x61, 255, 0xD0, 0x11, 0x80];
    let mut vm = with_program(&program);
    advance(&mut vm, 4);
    assert_eq!(lit_cells(&vm), vec![(31, 63)]);
}

#[test]
fn partial_overlap_collides_and_flips() {
    // 0xF0 at (0, 0), then 0x3C at (0, 0): cells 2 and 3 collide
    let program = [
        0xA2, 0x0C, 0xD0, 0x01, 0xA2, 0x0D, 0xD0, 0x01, 0x00, 0x00, 0x00, 0x00, 0xF0, 0x3C,
    ];
    let mut vm = with_program(&program);
    advance(&mut vm, 2);
    assert_eq!(lit_cells(&vm), vec![(0, 0), (0, 1), (0, 2), (0, 3)]);
    assert_eq!(vm.register(0xF), 0);
    advance(&mut vm, 2);
    assert_eq!(lit_cells(&vm), vec![(0, 0), (0, 1), (0, 4), (0, 5)]);
    assert_eq!(vm.register(0xF), 1);
}

#[test]
fn disjoint_sprites_do_not_collide() {
    // the flag of an earlier collision is cleared by a draw that hits nothing
    let program = [
        0xA2, 0x0E, 0xD0, 0x01, 0xD0, 0x01, 0x61, 8, 0xD1, 0x01, 0x00, 0x00, 0x00, 0x00, 0xFF,
    ];
    let mut vm = with_program(&program);
    advance(&mut vm, 3);
    assert_eq!(vm.register(0xF), 1);
    advance(&mut vm, 2);
    assert_eq!(vm.register(0xF), 0);
    assert_eq!(lit_cells(&vm).len(), 8);
    assert_eq!(lit_cells(&vm)[0], (0, 8));
}

#[test]
fn empty_sprite_draws_nothing_but_marks_the_screen_changed() {
    let program = [0x6F, 1, 0xD0, 0x00];
    let mut vm = with_program(&program);
    advance(&mut vm, 1);
    assert!(vm.can_tick());
    {
        let state = vm.tick([false; 16]).unwrap();
        assert!(state.vram_changed);
    }
    assert!(lit_cells(&vm).is_empty());
    assert_eq!(vm.register(0xF), 0);
}

#[test]
fn glyph_sprite_draws_the_digit() {
    // V0 = 1, I = glyph of V0, draw 5 rows at (V1, V1) = (0, 0)
    let program = [0x60, 1, 0xF0, 0x29, 0xD1, 0x15];
    let mut vm = with_program(&program);
    advance(&mut vm, 3);
    // glyph "1": 0x20 0x60 0x20 0x20 0x70
    assert_eq!(
        lit_cells(&vm),
        vec![(0, 2), (1, 1), (1, 2), (2, 2), (3, 2), (4, 1), (4, 2), (4, 3)]
    );
}

#[test]
fn clear_screen_turns_every_cell_off_and_marks_the_screen_changed() {
    let program = [0xA2, 0x06, 0xD0, 0x01, 0x00, 0xE0, 0xFF];
    let mut vm = with_program(&program);
    advance(&mut vm, 2);
    assert_eq!(lit_cells(&vm).len(), 8);
    assert!(vm.can_tick());
    {
        let state = vm.tick([false; 16]).unwrap();
        assert!(state.vram_changed);
        assert!(state.vram.iter().all(|row| row.iter().all(|cell| *cell == 0)));
    }
    assert_eq!(vm.program_counter(), 0x206);
    assert!(vm.vram_changed());
}

#[test]
fn changed_flag_is_lowered_by_a_tick_that_does_not_draw() {
    let program = [0x00, 0xE0, 0x60, 1];
    let mut vm = with_program(&program);
    assert!(vm.can_tick());
    assert!(vm.tick([false; 16]).unwrap().vram_changed);
    assert!(vm.can_tick());
    assert!(!vm.tick([false; 16]).unwrap().vram_changed);
    assert!(!vm.vram_changed());
}

#[test]
fn draw_uses_the_coordinates_from_before_the_flag_is_written() {
    // VF = 3 is the x coordinate; the draw itself resets VF
    let mut vm = with_program(&[0x00, 0x00, 0x00, 0x00, 0x80]);
    vm.execute(Opcode::LoadImm { x: 0xF, nn: 3 }, 0).unwrap();
    vm.execute(Opcode::LoadIndex { nnn: 0x204 }, 0).unwrap();
    vm.execute(Opcode::Draw { x: 0xF, y: 0, n: 1 }, 0).unwrap();
    assert_eq!(lit_cells(&vm), vec![(0, 3)]);
    assert_eq!(vm.register(0xF), 0);
}
