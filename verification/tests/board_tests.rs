use board_editor::board::{board_squares, shade_of, Position, Shade};

#[test]
fn sentinel_is_minus_one_minus_one() {
    let s = Position::sentinel();
    assert_eq!(s, Position { x: -1, y: -1 });
}

#[test]
fn shades_alternate() {
    // (x + y + 1) even => light; the corner cell is dark.
    assert_eq!(shade_of(0, 0), Shade::Dark);
    assert_eq!(shade_of(1, 0), Shade::Light);
    assert_eq!(shade_of(0, 1), Shade::Light);
    assert_eq!(shade_of(1, 1), Shade::Dark);
    assert_eq!(shade_of(7, 7), Shade::Dark);
    assert_eq!(shade_of(7, 0), Shade::Light);
}

#[test]
fn board_has_sixty_four_squares_in_setup_order() {
    let v = board_squares();
    assert_eq!(v.len(), 64);
    for x in 0..8i32 {
        for y in 0..8i32 {
            let sq = v[(x * 8 + y) as usize];
            assert_eq!(sq.pos, Position { x, y });
            assert_eq!(sq.shade, shade_of(x, y));
        }
    }
}
