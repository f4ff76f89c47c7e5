use board_editor::board::Position;
use board_editor::events::{deleted_events, MutationEvent, MutationEventBus};

#[test]
fn bus_drains_fully_in_order() {
    let mut bus = MutationEventBus::new();
    bus.publish(MutationEvent::DragStarted { piece: 7, at: Position { x: 2, y: 2 } });
    bus.publish(MutationEvent::Dropped { piece: 7 });
    let drained = bus.drain();
    assert_eq!(
        drained,
        vec![
            MutationEvent::DragStarted { piece: 7, at: Position { x: 2, y: 2 } },
            MutationEvent::Dropped { piece: 7 },
        ]
    );
    assert!(bus.drain().is_empty());
}

#[test]
fn publish_all_appends_behind_pending() {
    let mut bus = MutationEventBus::new();
    bus.publish(MutationEvent::Deleted { piece: 1 });
    bus.publish_all(vec![
        MutationEvent::Deleted { piece: 2 },
        MutationEvent::Drawn { piece: 3 },
    ]);
    assert_eq!(
        bus.drain(),
        vec![
            MutationEvent::Deleted { piece: 1 },
            MutationEvent::Deleted { piece: 2 },
            MutationEvent::Drawn { piece: 3 },
        ]
    );
}

#[test]
fn deletion_events_keep_handle_order() {
    let evs = deleted_events(&vec![5, 9, 5]);
    assert_eq!(
        evs,
        vec![
            MutationEvent::Deleted { piece: 5 },
            MutationEvent::Deleted { piece: 9 },
            MutationEvent::Deleted { piece: 5 },
        ]
    );
}
