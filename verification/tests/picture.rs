use chip8::screen::{colour, tile, Rgb, Tile, SCALE, SCREEN_HEIGHT, SCREEN_WIDTH};
use chip8::{CHIP8_HEIGHT, CHIP8_RAM, CHIP8_WIDTH};

#[test]
fn machine_dimensions() {
    assert_eq!(CHIP8_WIDTH, 64);
    assert_eq!(CHIP8_HEIGHT, 32);
    assert_eq!(CHIP8_RAM, 4096);
}

#[test]
fn window_is_the_framebuffer_scaled() {
    assert_eq!(SCALE, 20);
    assert_eq!(SCREEN_WIDTH, 64 * 20);
    assert_eq!(SCREEN_HEIGHT, 32 * 20);
}

#[test]
fn tile_of_a_cell_is_its_scaled_square() {
    assert_eq!(tile(0, 0), Tile { x: 0, y: 0, width: 20, height: 20 });
    assert_eq!(tile(3, 5), Tile { x: 100, y: 60, width: 20, height: 20 });
    assert_eq!(tile(31, 63), Tile { x: 1260, y: 620, width: 20, height: 20 });
}

#[test]
fn tiles_cover_the_window_without_overlap() {
    let mut painted = vec![false; (SCREEN_WIDTH / SCALE * (SCREEN_HEIGHT / SCALE)) as usize];
    for row in 0..CHIP8_HEIGHT {
        for col in 0..CHIP8_WIDTH {
            let t = tile(row, col);
            assert!(t.x >= 0 && t.y >= 0);
            assert!(t.x as u32 + t.width <= SCREEN_WIDTH);
            assert!(t.y as u32 + t.height <= SCREEN_HEIGHT);
            let slot = (t.y as u32 / SCALE * (SCREEN_WIDTH / SCALE) + t.x as u32 / SCALE) as usize;
            assert!(!painted[slot]);
            painted[slot] = true;
        }
    }
    assert!(painted.iter().all(|p| *p));
}

#[test]
fn cells_are_black_or_green() {
    assert_eq!(colour(0), Rgb { red: 0, green: 0, blue: 0 });
    assert_eq!(colour(1), Rgb { red: 0, green: 250, blue: 0 });
}
