use board_editor::board::Position;
use board_editor::cursor::{CursorPos, PointerMove};

#[test]
fn no_event_keeps_previous_sample() {
    let mut c = CursorPos::start();
    c.observe(&vec![], 768, 768);
    assert_eq!(c, CursorPos::start());
}

#[test]
fn only_the_last_event_of_a_tick_is_sampled() {
    let mut c = CursorPos::start();
    let moves = vec![
        PointerMove { x: 10, y: 10 },
        PointerMove { x: 700, y: 700 },
        PointerMove { x: 432, y: 144 },
    ];
    c.observe(&moves, 768, 768);
    assert_eq!(c.grid, Position { x: 4, y: 1 });
    assert_eq!(c.cursor_x, 432 - 384);
    assert_eq!(c.cursor_y, 144 - 384);
}

#[test]
fn grid_conversion_floors_per_axis() {
    let mut c = CursorPos::start();
    // One tile is 96 x 64 pixels under a 768 x 512 window.
    c.observe(&vec![PointerMove { x: 95, y: 64 }], 768, 512);
    assert_eq!(c.grid, Position { x: 0, y: 1 });
    c.observe(&vec![PointerMove { x: 96, y: 63 }], 768, 512);
    assert_eq!(c.grid, Position { x: 1, y: 0 });
}

#[test]
fn conversion_never_clamps() {
    let mut c = CursorPos::start();
    // The window's far edge converts to 8, one past the last cell: off-board.
    c.observe(&vec![PointerMove { x: 768, y: 767 }], 768, 768);
    assert_eq!(c.grid, Position { x: 8, y: 7 });
}
