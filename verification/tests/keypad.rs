use chip8::interpreter::Interpreter;
use chip8::keyboard::{KeyEvent, Keyboard};

#[test]
fn new_keyboard_has_every_key_up() {
    let context = 42u32;
    let mut keyboard = Keyboard::with_context(&context);
    assert_eq!(*keyboard.context(), 42);
    assert_eq!(keyboard.keys(&[]), &[0u8; 16]);
    assert_eq!(keyboard.pressed(), [false; 16]);
}

#[test]
fn key_codes_map_to_hex_digits() {
    for (digit, cap) in "0123456789".chars().enumerate() {
        assert_eq!(Keyboard::<()>::key_index(cap as i32), Some(digit as u8));
    }
    for (offset, cap) in "abcdef".chars().enumerate() {
        assert_eq!(Keyboard::<()>::key_index(cap as i32), Some(10 + offset as u8));
    }
    for code in [0, 47, 58, 96, 103, 'A' as i32, 'g' as i32, -1, i32::MAX, i32::MIN] {
        assert_eq!(Keyboard::<()>::key_index(code), None);
    }
}

#[test]
fn key_down_sets_and_key_up_clears() {
    let mut keyboard = Keyboard::with_context(&());
    keyboard.apply(KeyEvent::Down('7' as i32));
    keyboard.apply(KeyEvent::Down('c' as i32));
    let mut expected = [0u8; 16];
    expected[7] = 1;
    expected[0xC] = 1;
    assert_eq!(keyboard.keys(&[]), &expected);
    keyboard.apply(KeyEvent::Up('7' as i32));
    expected[7] = 0;
    assert_eq!(keyboard.keys(&[]), &expected);
    keyboard.apply(KeyEvent::Up('7' as i32));
    keyboard.apply(KeyEvent::Down('c' as i32));
    assert_eq!(keyboard.keys(&[]), &expected);
}

#[test]
fn other_events_and_unknown_keys_change_nothing() {
    let mut keyboard = Keyboard::with_context(&());
    keyboard.apply(KeyEvent::Down('1' as i32));
    keyboard.apply(KeyEvent::Other);
    keyboard.apply(KeyEvent::Down('z' as i32));
    keyboard.apply(KeyEvent::Up(' ' as i32));
    let mut expected = [0u8; 16];
    expected[1] = 1;
    assert_eq!(keyboard.keys(&[]), &expected);
}

#[test]
fn events_are_taken_in_order() {
    let mut keyboard = Keyboard::with_context(&());
    let events = [
        KeyEvent::Down('a' as i32),
        KeyEvent::Down('2' as i32),
        KeyEvent::Up('a' as i32),
        KeyEvent::Other,
        KeyEvent::Up('f' as i32),
        KeyEvent::Down('f' as i32),
    ];
    let mut expected = [0u8; 16];
    expected[2] = 1;
    expected[0xF] = 1;
    assert_eq!(keyboard.keys(&events), &expected);
    let held = keyboard.pressed();
    for k in 0..16 {
        assert_eq!(held[k], k == 2 || k == 0xF);
    }
}

#[test]
fn keys_persist_between_polls() {
    let mut keyboard = Keyboard::with_context(&());
    keyboard.keys(&[KeyEvent::Down('5' as i32)]);
    let states = keyboard.keys(&[KeyEvent::Down('6' as i32)]);
    assert_eq!(states[5], 1);
    assert_eq!(states[6], 1);
    assert_eq!(states.len(), 16);
}

#[test]
fn keyboard_feeds_the_interpreter() {
    // V0 = 0xE, skip if key V0 held
    let mut vm = Interpreter::new();
    vm.load(&[0x60, 0x0E, 0xE0, 0x9E]).unwrap();
    let mut keyboard = Keyboard::with_context(&());
    keyboard.keys(&[KeyEvent::Down('e' as i32)]);
    assert!(vm.can_tick());
    vm.tick(keyboard.pressed()).unwrap();
    assert!(vm.can_tick());
    vm.tick(keyboard.pressed()).unwrap();
    assert_eq!(vm.program_counter(), 0x206);
}
