use board_editor::board::Position;
use board_editor::cursor::{CursorPos, PointerMove};
use board_editor::drag::DragPlugin;
use board_editor::events::MutationEvent;
use board_editor::grid::GridModel;
use board_editor::modes::{ArmySelection, ColorSelection, CursorMode, KeyEdges};
use board_editor::pieces::{Army, PieceColor, PieceType};
use board_editor::pipeline::{Editor, TickInput};

const W: u32 = 768;
const H: u32 = 768;

fn idle() -> TickInput {
    TickInput {
        width: W,
        height: H,
        moves: vec![],
        left_pressed: false,
        left_just_pressed: false,
        left_just_released: false,
        right_just_pressed: false,
        keys: KeyEdges::default(),
    }
}

fn empty_editor(mode: CursorMode) -> Editor {
    Editor {
        grid: GridModel::new(),
        mode,
        army: ArmySelection { index: 0 },
        color: ColorSelection { index: 0 },
        cursor: CursorPos::start(),
        drag: DragPlugin::idle(),
        markers: vec![],
    }
}

/// The pixel at the centre of cell `(x, y)` under the 768 x 768 window.
fn centre(x: i32, y: i32) -> PointerMove {
    PointerMove { x: (x * 96 + 48) as u32, y: (y * 96 + 48) as u32 }
}

fn press_at(m: PointerMove) -> TickInput {
    TickInput { moves: vec![m], left_pressed: true, left_just_pressed: true, ..idle() }
}

fn release_at(m: PointerMove) -> TickInput {
    TickInput { moves: vec![m], left_just_released: true, ..idle() }
}

fn right_click_at(m: PointerMove) -> TickInput {
    TickInput { moves: vec![m], right_just_pressed: true, ..idle() }
}

fn keys(k: KeyEdges) -> TickInput {
    TickInput { keys: k, ..idle() }
}

#[test]
fn editor_starts_with_default_layout() {
    let ed = Editor::new();
    assert_eq!(ed.grid.count(), 16);
    assert_eq!(ed.mode, CursorMode::DragDrop);
    assert_eq!(ed.grid.occupant_at(Position { x: 0, y: 6 }), Some(0));
    assert_eq!(ed.grid.occupant_at(Position { x: 0, y: 1 }), Some(1));
    assert!(!ed.drag.is_dragging());
}

#[test]
fn place_mode_places_and_overwrites() {
    let mut ed = empty_editor(CursorMode::Place(PieceType::Pawn));
    let evs = ed.tick(&press_at(centre(4, 1)));
    assert_eq!(evs.len(), 1);
    assert!(matches!(evs[0], MutationEvent::Drawn { .. }));
    assert_eq!(ed.grid.count(), 1);
    let first = ed.grid.occupant_at(Position { x: 4, y: 1 }).unwrap();
    ed.tick(&release_at(centre(4, 1)));
    let evs2 = ed.tick(&press_at(centre(4, 1)));
    assert_eq!(evs2.len(), 2);
    assert_eq!(evs2[0], MutationEvent::Deleted { piece: first });
    assert!(matches!(evs2[1], MutationEvent::Drawn { .. }));
    assert_eq!(ed.grid.count(), 1);
    assert_ne!(ed.grid.occupant_at(Position { x: 4, y: 1 }), Some(first));
}

#[test]
fn placed_piece_carries_the_selected_triple() {
    let mut ed = empty_editor(CursorMode::Place(PieceType::Knight));
    ed.army = ArmySelection { index: 3 };
    ed.color = ColorSelection { index: 1 };
    ed.tick(&press_at(centre(2, 2)));
    let p = ed.grid.get(0);
    assert_eq!(p.kind, PieceType::Knight);
    assert_eq!(p.army, Army::Reaper);
    assert_eq!(p.color, PieceColor::Black);
    assert_eq!(p.pos, Position { x: 2, y: 2 });
}

#[test]
fn scenario_place_pick_drag_drop() {
    // Place a pawn at (4, 1) in Place(Pawn) mode, switch to drag-and-drop,
    // pick it up at (4, 1), move the pointer over (4, 3), release.
    let mut ed = empty_editor(CursorMode::Place(PieceType::Pawn));
    ed.tick(&press_at(centre(4, 1)));
    ed.tick(&release_at(centre(4, 1)));
    ed.tick(&keys(KeyEdges { digit1: true, ..Default::default() }));
    assert_eq!(ed.mode, CursorMode::DragDrop);

    let evs = ed.tick(&press_at(centre(4, 1)));
    let held = match evs[..] {
        [MutationEvent::DragStarted { piece, at }] => {
            assert_eq!(at, Position { x: 4, y: 1 });
            piece
        }
        _ => panic!("expected a single drag-started event"),
    };
    assert_eq!(ed.drag.highlight, Some(Position { x: 4, y: 1 }));

    let evs2 = ed.tick(&release_at(centre(4, 3)));
    assert_eq!(evs2, vec![MutationEvent::Dropped { piece: held }]);
    assert_eq!(ed.grid.occupant_at(Position { x: 4, y: 1 }), None);
    assert_eq!(ed.grid.occupant_at(Position { x: 4, y: 3 }), Some(held));
    assert_eq!(ed.grid.count(), 1);
    assert_eq!(ed.drag.highlight, None);
    assert!(!ed.drag.is_dragging());
}

#[test]
fn scenario_trash_deletes_only_the_clicked_piece() {
    // Two pieces at (0, 0) and (1, 0); in trash mode, click the one at
    // (1, 0); the other is unaffected, and a second click is a no-op.
    let mut ed = empty_editor(CursorMode::DragDrop);
    let a = ed.grid.spawn(
        Position { x: 0, y: 0 },
        PieceType::Rook,
        Army::Classic,
        PieceColor::White,
    );
    let b = ed.grid.spawn(
        Position { x: 1, y: 0 },
        PieceType::Rook,
        Army::Classic,
        PieceColor::White,
    );
    ed.tick(&keys(KeyEdges { digit0: true, ..Default::default() }));
    assert_eq!(ed.mode, CursorMode::Trash);

    let evs = ed.tick(&press_at(centre(1, 0)));
    assert_eq!(evs, vec![MutationEvent::Deleted { piece: b }]);
    assert_eq!(ed.grid.occupant_at(Position { x: 1, y: 0 }), None);
    assert_eq!(ed.grid.occupant_at(Position { x: 0, y: 0 }), Some(a));

    ed.tick(&release_at(centre(1, 0)));
    let evs2 = ed.tick(&press_at(centre(1, 0)));
    assert!(evs2.is_empty());
    assert_eq!(ed.grid.occupant_at(Position { x: 0, y: 0 }), Some(a));
    assert_eq!(ed.grid.count(), 1);
}

#[test]
fn drop_overwrites_the_occupant() {
    let mut ed = empty_editor(CursorMode::DragDrop);
    let a = ed.grid.spawn(
        Position { x: 2, y: 2 },
        PieceType::Queen,
        Army::Classic,
        PieceColor::White,
    );
    let b = ed.grid.spawn(
        Position { x: 5, y: 5 },
        PieceType::Pawn,
        Army::Classic,
        PieceColor::Black,
    );
    ed.tick(&press_at(centre(2, 2)));
    assert!(ed.drag.is_dragging());
    let evs = ed.tick(&release_at(centre(5, 5)));
    assert_eq!(
        evs,
        vec![
            MutationEvent::Deleted { piece: b },
            MutationEvent::Dropped { piece: a },
        ]
    );
    assert_eq!(ed.grid.count(), 1);
    assert_eq!(ed.grid.occupant_at(Position { x: 5, y: 5 }), Some(a));
}

#[test]
fn held_piece_stays_detached_while_dragging() {
    let mut ed = empty_editor(CursorMode::DragDrop);
    ed.grid.spawn(
        Position { x: 3, y: 3 },
        PieceType::King,
        Army::Classic,
        PieceColor::White,
    );
    ed.tick(&press_at(centre(3, 3)));
    assert!(ed.drag.is_dragging());
    assert_eq!(ed.grid.occupant_at(Position { x: 3, y: 3 }), None);
    // drag on: pointer wanders, button still down, piece stays detached
    let drag_on = TickInput {
        moves: vec![centre(6, 6)],
        left_pressed: true,
        ..idle()
    };
    let evs = ed.tick(&drag_on);
    assert!(evs.is_empty());
    assert!(ed.drag.is_dragging());
    assert_eq!(ed.grid.get(0).pos, Position { x: -1, y: -1 });
    assert_eq!(ed.grid.occupant_at(Position { x: 6, y: 6 }), None);
}

#[test]
fn release_with_nothing_held_is_a_silent_noop() {
    let mut ed = empty_editor(CursorMode::DragDrop);
    ed.grid.spawn(
        Position { x: 0, y: 0 },
        PieceType::Pawn,
        Army::Classic,
        PieceColor::White,
    );
    let evs = ed.tick(&release_at(centre(0, 0)));
    assert!(evs.is_empty());
    assert_eq!(ed.grid.count(), 1);
    assert_eq!(ed.grid.occupant_at(Position { x: 0, y: 0 }), Some(0));
}

#[test]
fn press_on_empty_ground_picks_up_nothing() {
    let mut ed = empty_editor(CursorMode::DragDrop);
    ed.grid.spawn(
        Position { x: 0, y: 0 },
        PieceType::Pawn,
        Army::Classic,
        PieceColor::White,
    );
    // (7, 7) is far from the only piece: no hit, no drag.
    let evs = ed.tick(&press_at(centre(7, 7)));
    assert!(evs.is_empty());
    assert!(!ed.drag.is_dragging());
}

#[test]
fn marker_lifecycle() {
    let mut ed = empty_editor(CursorMode::DragDrop);
    ed.tick(&right_click_at(centre(3, 3)));
    assert_eq!(ed.markers, vec![Position { x: 3, y: 3 }]);
    // a further right-click elsewhere leaves the first marker standing
    ed.tick(&right_click_at(centre(5, 5)));
    assert_eq!(
        ed.markers,
        vec![Position { x: 3, y: 3 }, Position { x: 5, y: 5 }]
    );
    // any left-click interaction erases every marker, wherever it lands
    ed.tick(&press_at(centre(0, 0)));
    assert!(ed.markers.is_empty());
}

#[test]
fn markers_are_drag_drop_mode_only() {
    let mut ed = empty_editor(CursorMode::Trash);
    ed.tick(&right_click_at(centre(3, 3)));
    assert!(ed.markers.is_empty());
    let mut ed2 = empty_editor(CursorMode::Place(PieceType::Queen));
    ed2.tick(&right_click_at(centre(3, 3)));
    assert!(ed2.markers.is_empty());
}

#[test]
fn markers_are_erased_before_the_placement_lands() {
    let mut ed = empty_editor(CursorMode::DragDrop);
    ed.tick(&right_click_at(centre(3, 3)));
    ed.tick(&keys(KeyEdges { digit7: true, ..Default::default() }));
    assert_eq!(ed.mode, CursorMode::Place(PieceType::Pawn));
    ed.tick(&press_at(centre(3, 3)));
    assert!(ed.markers.is_empty());
    assert!(ed.grid.occupant_at(Position { x: 3, y: 3 }).is_some());
}

#[test]
fn mode_cannot_change_mid_drag() {
    let mut ed = empty_editor(CursorMode::DragDrop);
    ed.grid.spawn(
        Position { x: 3, y: 3 },
        PieceType::King,
        Army::Classic,
        PieceColor::White,
    );
    ed.tick(&press_at(centre(3, 3)));
    let drag_on = TickInput {
        left_pressed: true,
        keys: KeyEdges { digit0: true, ..Default::default() },
        ..idle()
    };
    ed.tick(&drag_on);
    assert_eq!(ed.mode, CursorMode::DragDrop);
    assert!(ed.drag.is_dragging());
}

#[test]
fn markers_coexist_with_pieces() {
    let mut ed = empty_editor(CursorMode::DragDrop);
    ed.grid.spawn(
        Position { x: 3, y: 3 },
        PieceType::Queen,
        Army::Classic,
        PieceColor::White,
    );
    ed.tick(&right_click_at(centre(3, 3)));
    assert_eq!(ed.markers, vec![Position { x: 3, y: 3 }]);
    assert!(ed.grid.occupant_at(Position { x: 3, y: 3 }).is_some());
}

#[test]
fn drop_at_the_window_edge_goes_off_board_unclamped() {
    let mut ed = empty_editor(CursorMode::DragDrop);
    let id = ed.grid.spawn(
        Position { x: 7, y: 7 },
        PieceType::Rook,
        Army::Classic,
        PieceColor::White,
    );
    ed.tick(&press_at(centre(7, 7)));
    assert!(ed.drag.is_dragging());
    // the window's far corner converts to (8, 8): one past the board
    let evs = ed.tick(&release_at(PointerMove { x: 768, y: 768 }));
    assert_eq!(evs, vec![MutationEvent::Dropped { piece: id }]);
    assert_eq!(ed.grid.get(0).pos, Position { x: 8, y: 8 });
    assert_eq!(ed.grid.occupant_at(Position { x: 7, y: 7 }), None);
}

#[test]
fn occupancy_holds_under_a_mixed_session() {
    let mut ed = empty_editor(CursorMode::Place(PieceType::Pawn));
    // place pieces, some onto the same cells, then drag one around
    for (x, y) in [(0, 0), (1, 0), (0, 0), (4, 4), (1, 0), (7, 7)] {
        ed.tick(&press_at(centre(x, y)));
        ed.tick(&release_at(centre(x, y)));
    }
    ed.tick(&keys(KeyEdges { digit1: true, ..Default::default() }));
    ed.tick(&press_at(centre(4, 4)));
    ed.tick(&release_at(centre(0, 0)));
    // at quiescence no two pieces share a cell
    let n = ed.grid.count();
    for i in 0..n {
        for j in (i + 1)..n {
            assert_ne!(ed.grid.get(i).pos, ed.grid.get(j).pos);
        }
    }
    assert_eq!(ed.grid.count(), 3);
}
