use board_editor::board::Position;
use board_editor::grid::GridModel;
use board_editor::pieces::{Army, PieceColor, PieceType};

#[test]
fn spawn_and_lookup() {
    let mut g = GridModel::new();
    assert_eq!(g.count(), 0);
    assert_eq!(g.occupant_at(Position { x: 3, y: 3 }), None);
    let id = g.spawn(
        Position { x: 3, y: 3 },
        PieceType::Queen,
        Army::Classic,
        PieceColor::White,
    );
    assert_eq!(id, 0);
    assert_eq!(g.count(), 1);
    assert_eq!(g.occupant_at(Position { x: 3, y: 3 }), Some(id));
    let p = g.get(0);
    assert_eq!(p.pos, Position { x: 3, y: 3 });
    assert_eq!(p.kind, PieceType::Queen);
}

#[test]
fn place_overwrites_occupied_cell() {
    let mut g = GridModel::new();
    let c = Position { x: 2, y: 5 };
    let first = g.spawn(c, PieceType::Rook, Army::Classic, PieceColor::White);
    let out = g.place(c, PieceType::Knight, Army::Nemesis, PieceColor::Black);
    assert_eq!(out.removed, vec![first]);
    assert_eq!(g.count(), 1);
    assert_eq!(g.occupant_at(c), Some(out.piece));
    let p = g.get(0);
    assert_eq!(p.kind, PieceType::Knight);
    assert_eq!(p.army, Army::Nemesis);
    assert_eq!(p.color, PieceColor::Black);
}

#[test]
fn place_on_empty_cell_removes_nothing() {
    let mut g = GridModel::new();
    let out = g.place(
        Position { x: 0, y: 0 },
        PieceType::Pawn,
        Army::Classic,
        PieceColor::White,
    );
    assert!(out.removed.is_empty());
    assert_eq!(g.count(), 1);
}

#[test]
fn delete_is_idempotent_on_absent_handles() {
    let mut g = GridModel::new();
    let c = Position { x: 1, y: 1 };
    let id = g.spawn(c, PieceType::Pawn, Army::Classic, PieceColor::White);
    g.delete(id);
    assert_eq!(g.count(), 0);
    g.delete(id);
    assert_eq!(g.count(), 0);
    assert_eq!(g.occupant_at(c), None);
}

#[test]
fn move_piece_updates_position_in_place() {
    let mut g = GridModel::new();
    let id = g.spawn(
        Position { x: 0, y: 0 },
        PieceType::King,
        Army::Classic,
        PieceColor::White,
    );
    g.move_piece(id, Position { x: 6, y: 6 });
    assert_eq!(g.occupant_at(Position { x: 0, y: 0 }), None);
    assert_eq!(g.occupant_at(Position { x: 6, y: 6 }), Some(id));
}

#[test]
fn detach_excludes_piece_from_occupancy() {
    let mut g = GridModel::new();
    let c = Position { x: 4, y: 4 };
    let id = g.spawn(c, PieceType::Bishop, Army::Classic, PieceColor::White);
    g.detach(id);
    assert_eq!(g.occupant_at(c), None);
    assert_eq!(g.get(0).pos, Position { x: -1, y: -1 });
    assert_eq!(g.count(), 1);
}

#[test]
fn remove_at_clears_exactly_the_cell() {
    let mut g = GridModel::new();
    let a = g.spawn(
        Position { x: 0, y: 0 },
        PieceType::Pawn,
        Army::Classic,
        PieceColor::White,
    );
    let b = g.spawn(
        Position { x: 1, y: 0 },
        PieceType::Pawn,
        Army::Classic,
        PieceColor::White,
    );
    let removed = g.remove_at(Position { x: 1, y: 0 });
    assert_eq!(removed, vec![b]);
    assert_eq!(g.count(), 1);
    assert_eq!(g.occupant_at(Position { x: 0, y: 0 }), Some(a));
    let removed_again = g.remove_at(Position { x: 1, y: 0 });
    assert!(removed_again.is_empty());
}

#[test]
fn starting_position_has_two_pawn_ranks() {
    let g = GridModel::starting_position();
    assert_eq!(g.count(), 16);
    for x in 0..8i32 {
        let dark = g.get((2 * x) as usize);
        assert_eq!(dark.pos, Position { x, y: 6 });
        assert_eq!(dark.kind, PieceType::Pawn);
        assert_eq!(dark.army, Army::Nemesis);
        assert_eq!(dark.color, PieceColor::Black);
        let light = g.get((2 * x + 1) as usize);
        assert_eq!(light.pos, Position { x, y: 1 });
        assert_eq!(light.kind, PieceType::Pawn);
        assert_eq!(light.army, Army::Classic);
        assert_eq!(light.color, PieceColor::White);
    }
}

#[test]
fn handles_stay_fresh() {
    let mut g = GridModel::new();
    let a = g.spawn(
        Position { x: 0, y: 0 },
        PieceType::Pawn,
        Army::Classic,
        PieceColor::White,
    );
    g.delete(a);
    let b = g.spawn(
        Position { x: 0, y: 0 },
        PieceType::Pawn,
        Army::Classic,
        PieceColor::White,
    );
    assert_ne!(a, b);
    assert!(g.can_allocate());
}
