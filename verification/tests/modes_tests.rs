use board_editor::modes::{
    next_mode, place_kind, ArmySelection, ColorSelection, CursorMode, KeyEdges,
    screenshot_requested,
};
use board_editor::pieces::{Army, PieceColor, PieceType};

#[test]
fn digit_keys_select_modes() {
    let m = CursorMode::Trash;
    assert_eq!(
        next_mode(m, &KeyEdges { digit1: true, ..Default::default() }, false),
        CursorMode::DragDrop
    );
    assert_eq!(
        next_mode(CursorMode::DragDrop, &KeyEdges { digit0: true, ..Default::default() }, false),
        CursorMode::Trash
    );
    assert_eq!(
        next_mode(m, &KeyEdges { digit2: true, ..Default::default() }, false),
        CursorMode::Place(PieceType::King)
    );
    assert_eq!(
        next_mode(m, &KeyEdges { digit3: true, ..Default::default() }, false),
        CursorMode::Place(PieceType::Queen)
    );
    assert_eq!(
        next_mode(m, &KeyEdges { numpad4: true, ..Default::default() }, false),
        CursorMode::Place(PieceType::Rook)
    );
    assert_eq!(
        next_mode(m, &KeyEdges { digit5: true, ..Default::default() }, false),
        CursorMode::Place(PieceType::Bishop)
    );
    assert_eq!(
        next_mode(m, &KeyEdges { numpad6: true, ..Default::default() }, false),
        CursorMode::Place(PieceType::Knight)
    );
    assert_eq!(
        next_mode(m, &KeyEdges { digit7: true, ..Default::default() }, false),
        CursorMode::Place(PieceType::Pawn)
    );
}

#[test]
fn paired_keys_cancel_through_the_xor_gate() {
    let m = CursorMode::Trash;
    let k = KeyEdges { digit1: true, numpad1: true, ..Default::default() };
    assert_eq!(next_mode(m, &k, false), m);
}

#[test]
fn transitions_suppressed_while_button_held() {
    let m = CursorMode::DragDrop;
    let k = KeyEdges { digit0: true, ..Default::default() };
    assert_eq!(next_mode(m, &k, true), m);
    assert_eq!(next_mode(m, &k, false), CursorMode::Trash);
}

#[test]
fn last_evaluated_mode_key_wins() {
    let m = CursorMode::DragDrop;
    // Checks run in the order 1, 0, 2..7: "0" is evaluated after "1".
    let k = KeyEdges { digit1: true, digit0: true, ..Default::default() };
    assert_eq!(next_mode(m, &k, false), CursorMode::Trash);
    let k2 = KeyEdges { digit0: true, digit7: true, ..Default::default() };
    assert_eq!(next_mode(m, &k2, false), CursorMode::Place(PieceType::Pawn));
}

#[test]
fn place_kind_defaults_to_pawn() {
    assert_eq!(place_kind(CursorMode::Place(PieceType::Knight)), PieceType::Knight);
    assert_eq!(place_kind(CursorMode::DragDrop), PieceType::Pawn);
    assert_eq!(place_kind(CursorMode::Trash), PieceType::Pawn);
}

#[test]
fn army_decrement_wraps_to_last() {
    let mut a = ArmySelection::start();
    assert_eq!(a.index, 0);
    a.step(&KeyEdges { key_a: true, ..Default::default() });
    assert_eq!(a.index, 5);
    assert_eq!(a.army(), Army::Animals);
}

#[test]
fn army_six_increments_return_to_start() {
    for start in 0..6usize {
        let mut a = ArmySelection { index: start };
        for _ in 0..6 {
            a.step(&KeyEdges { key_d: true, ..Default::default() });
        }
        assert_eq!(a.index, start);
    }
}

#[test]
fn army_opposite_presses_cancel() {
    // every pairing of a decrement key with an increment key cancels
    let pairs = [
        KeyEdges { key_a: true, key_d: true, ..Default::default() },
        KeyEdges { arrow_left: true, arrow_right: true, ..Default::default() },
        KeyEdges { key_a: true, arrow_right: true, ..Default::default() },
        KeyEdges { arrow_left: true, key_d: true, ..Default::default() },
        KeyEdges {
            key_a: true,
            arrow_left: true,
            key_d: true,
            arrow_right: true,
            ..Default::default()
        },
    ];
    for k in pairs {
        let mut a = ArmySelection { index: 3 };
        a.step(&k);
        assert_eq!(a.index, 3);
    }
}

#[test]
fn army_catalog_order() {
    let names = [
        Army::Classic,
        Army::Nemesis,
        Army::Empowered,
        Army::Reaper,
        Army::TwoKings,
        Army::Animals,
    ];
    for (i, want) in names.iter().enumerate() {
        let a = ArmySelection { index: i };
        assert_eq!(a.army(), *want);
    }
}

#[test]
fn color_toggles_on_space() {
    let mut c = ColorSelection::start();
    assert_eq!(c.color(), PieceColor::White);
    c.step(&KeyEdges { space: true, ..Default::default() });
    assert_eq!(c.color(), PieceColor::Black);
    c.step(&KeyEdges { space: true, ..Default::default() });
    assert_eq!(c.color(), PieceColor::White);
    c.step(&KeyEdges::default());
    assert_eq!(c.color(), PieceColor::White);
}

#[test]
fn screenshot_needs_control_and_capture_edge() {
    assert!(screenshot_requested(true, false, true));
    assert!(screenshot_requested(false, true, true));
    assert!(!screenshot_requested(false, false, true));
    assert!(!screenshot_requested(true, true, false));
}
