use sdl_game_of_life::universe::PITCH;
use sdl_game_of_life::universe::SCALE_FLOOR_MILLI;
use sdl_game_of_life::universe::SCALE_START_MILLI;
use sdl_game_of_life::Cell;
use sdl_game_of_life::Universe;

#[test]
fn pixel_to_cell_resolves_and_rejects() {
    let u = Universe::new(16, 16);
    assert_eq!(PITCH, 12);
    // One pixel past the first stride lands in the second row and column.
    assert_eq!(u.pixel_to_cell(13, 13), Some((1, 1)));
    assert_eq!(u.pixel_to_cell(0, 0), Some((0, 0)));
    assert_eq!(u.pixel_to_cell(11, 11), Some((0, 0)));
    assert_eq!(u.pixel_to_cell(12, 0), Some((0, 1)));
    // Negative pixel coordinates have no mapping.
    assert_eq!(u.pixel_to_cell(-1, 5), None);
    assert_eq!(u.pixel_to_cell(5, -1), None);
    assert_eq!(u.pixel_to_cell(i32::MIN, i32::MIN), None);
    // Pixels past the last cell have no mapping.
    assert_eq!(u.pixel_to_cell(16 * 12, 0), None);
    assert_eq!(u.pixel_to_cell(0, 16 * 12), None);
    assert_eq!(u.pixel_to_cell(i32::MAX, i32::MAX), None);
    // The last pixel of the last cell still maps.
    assert_eq!(u.pixel_to_cell(16 * 12 - 1, 16 * 12 - 1), Some((15, 15)));
}

#[test]
fn pan_then_resolve() {
    let mut u = Universe::new(16, 16);
    u.shift(12, 12);
    assert_eq!(u.x_offset, 12);
    assert_eq!(u.y_offset, 12);
    // The same screen point now maps one cell earlier.
    assert_eq!(u.pixel_to_cell(13, 13), Some((0, 0)));
    // A point left of the shifted origin has no mapping.
    assert_eq!(u.pixel_to_cell(11, 11), None);
    // Shifts accumulate.
    u.shift(-12, 0);
    u.shift(5, -7);
    assert_eq!(u.x_offset, 5);
    assert_eq!(u.y_offset, 5);
}

#[test]
fn shift_wraps_at_offset_range() {
    let mut u = Universe::new(2, 2);
    u.shift(i32::MAX, i32::MIN);
    assert_eq!(u.x_offset, i32::MAX);
    assert_eq!(u.y_offset, i32::MIN);
    u.shift(1, -1);
    assert_eq!(u.x_offset, i32::MIN);
    assert_eq!(u.y_offset, i32::MAX);
}

#[test]
fn scale_clamps_at_floor() {
    let mut u = Universe::new(4, 4);
    assert_eq!(u.scale_milli, SCALE_START_MILLI);
    u.increment_scale(100);
    assert_eq!(u.scale_milli, 1100);
    u.increment_scale(-100);
    assert_eq!(u.scale_milli, 1000);
    // Repeated large decrements stop exactly at the positive floor.
    for _ in 0..5 {
        u.increment_scale(-1_000_000);
        assert!(u.scale_milli >= SCALE_FLOOR_MILLI);
    }
    assert_eq!(u.scale_milli, SCALE_FLOOR_MILLI);
    u.increment_scale(i32::MIN);
    assert_eq!(u.scale_milli, SCALE_FLOOR_MILLI);
    // And the ceiling saturates instead of overflowing.
    u.increment_scale(i32::MAX);
    u.increment_scale(i32::MAX);
    u.increment_scale(i32::MAX);
    assert_eq!(u.scale_milli, u32::MAX);
}

#[test]
fn revive_and_kill_through_pixels() {
    let mut u = Universe::new(8, 8);
    for row in 0..u.height {
        for col in 0..u.width {
            u.set_cell(row, col, false);
        }
    }
    // Pixel (25, 13) lies in column 2, row 1.
    u.revive(25, 13);
    assert_eq!(u.get_cell(1, 2), Cell::Alive);
    // Out-of-grid pixels are absorbed.
    u.revive(-3, 0);
    u.kill(0, -3);
    u.revive(8 * 12, 0);
    assert_eq!(
        u.snapshot().iter().filter(|c| **c == Cell::Alive).count(),
        1
    );
    u.kill(25, 13);
    assert_eq!(u.get_cell(1, 2), Cell::Dead);
    assert!(u.snapshot().iter().all(|c| *c == Cell::Dead));
}

#[test]
fn revive_follows_pan() {
    let mut u = Universe::new(8, 8);
    for row in 0..u.height {
        for col in 0..u.width {
            u.set_cell(row, col, false);
        }
    }
    u.shift(12, 12);
    u.revive(13, 13);
    assert_eq!(u.get_cell(0, 0), Cell::Alive);
    assert_eq!(
        u.snapshot().iter().filter(|c| **c == Cell::Alive).count(),
        1
    );
}

#[test]
fn render_cells_positions() {
    let mut u = Universe::new(3, 2);
    let rects = u.render_cells();
    assert_eq!(rects.len(), 6);
    let cells = u.snapshot();
    for (i, (x, y, c)) in rects.iter().enumerate() {
        let row = (i as i64) / 2;
        let col = (i as i64) % 2;
        assert_eq!(*x, 12 * col);
        assert_eq!(*y, 12 * row);
        assert_eq!(*c, cells[i]);
    }
    u.shift(-5, 7);
    let shifted = u.render_cells();
    for (i, (x, y, _)) in shifted.iter().enumerate() {
        let row = (i as i64) / 2;
        let col = (i as i64) % 2;
        assert_eq!(*x, -5 + 12 * col);
        assert_eq!(*y, 7 + 12 * row);
    }
}
