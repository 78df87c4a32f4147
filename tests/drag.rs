use zdoc::{
    accepts, step, Assign, AssignmentError, AssignmentRegistry, Caretaker, CaretakerColumn, CaretakerOrdering, Commit, CursorHint,
    Data, Direction, DragDropCoordinator, DragState, Location, PointerEvent, Service, TargetStyle, Task, TaskColumn, TaskOrdering,
};

fn small_registry() -> AssignmentRegistry {
    let mut reg = AssignmentRegistry::new();
    reg.add_caretaker(Caretaker::new(9, "Jim Butz", "Nurse RN")).unwrap();
    reg.add_task(Task::new(1, "Angela Johnson", "Dog Therapy", Location::X, Service::All)).unwrap();
    reg
}

#[test]
fn press_hover_release_commits_once() {
    let (s1, c1) = step(DragState::Idle, PointerEvent::DragStart { caretaker: 9 });
    assert_eq!(s1, DragState::Dragging { caretaker: 9 });
    assert_eq!(c1, None);
    let (s2, c2) = step(s1, PointerEvent::OverTask { task: 1 });
    assert_eq!(s2, DragState::Hovering { caretaker: 9, task: 1 });
    assert_eq!(c2, None);
    let (s3, c3) = step(s2, PointerEvent::Release);
    assert_eq!(s3, DragState::Idle);
    assert_eq!(c3, Some(Commit { task: 1, caretaker: 9 }));
}

#[test]
fn release_without_hover_cancels() {
    let (s1, c1) = step(DragState::Idle, PointerEvent::DragStart { caretaker: 9 });
    assert_eq!(s1, DragState::Dragging { caretaker: 9 });
    assert_eq!(c1, None);
    let (s2, c2) = step(s1, PointerEvent::Release);
    assert_eq!(s2, DragState::Idle);
    assert_eq!(c2, None);
}

#[test]
fn second_drag_is_ignored_and_hover_can_clear() {
    let s = DragState::Dragging { caretaker: 9 };
    assert_eq!(step(s, PointerEvent::DragStart { caretaker: 2 }), (s, None));
    let h = DragState::Hovering { caretaker: 9, task: 1 };
    assert_eq!(step(h, PointerEvent::OverNothing), (DragState::Dragging { caretaker: 9 }, None));
    assert_eq!(step(h, PointerEvent::OverTask { task: 5 }), (DragState::Hovering { caretaker: 9, task: 5 }, None));
    assert_eq!(step(h, PointerEvent::Cancel), (DragState::Idle, None));
    assert_eq!(step(DragState::Idle, PointerEvent::OverTask { task: 1 }), (DragState::Idle, None));
    assert_eq!(step(DragState::Idle, PointerEvent::Release), (DragState::Idle, None));
    assert!(accepts(1, 9));
}

#[test]
fn coordinator_commits_into_registry() {
    let mut reg = small_registry();
    let mut co = DragDropCoordinator::new();
    assert_eq!(co.handle(PointerEvent::DragStart { caretaker: 9 }, &mut reg), None);
    assert_eq!(co.handle(PointerEvent::OverTask { task: 1 }, &mut reg), None);
    assert_eq!(co.handle(PointerEvent::Release, &mut reg), Some(Ok(())));
    assert_eq!(co.state, DragState::Idle);
    assert_eq!(reg.assignee(1), Some(Some(9)));
    assert_eq!(reg.case_count(9), Some(1));
}

#[test]
fn coordinator_cancel_makes_no_commit() {
    let mut reg = small_registry();
    let mut co = DragDropCoordinator::new();
    assert_eq!(co.handle(PointerEvent::DragStart { caretaker: 9 }, &mut reg), None);
    assert_eq!(co.handle(PointerEvent::Release, &mut reg), None);
    assert_eq!(co.state, DragState::Idle);
    assert_eq!(reg.assignee(1), Some(None));
    assert_eq!(reg.case_count(9), Some(0));
}

#[test]
fn failed_drop_still_ends_session() {
    let mut reg = small_registry();
    let mut co = DragDropCoordinator::new();
    co.handle(PointerEvent::DragStart { caretaker: 5 }, &mut reg);
    co.handle(PointerEvent::OverTask { task: 1 }, &mut reg);
    assert_eq!(co.handle(PointerEvent::Release, &mut reg), Some(Err(AssignmentError::UnknownCaretaker)));
    assert_eq!(co.state, DragState::Idle);
    co.handle(PointerEvent::DragStart { caretaker: 9 }, &mut reg);
    co.handle(PointerEvent::OverTask { task: 3 }, &mut reg);
    assert_eq!(co.handle(PointerEvent::Release, &mut reg), Some(Err(AssignmentError::UnknownTask)));
    assert_eq!(co.state, DragState::Idle);
    assert_eq!(reg.case_count(9), Some(0));
}

#[test]
fn default_board_drag_and_drop() {
    let mut board = Assign::default();
    assert_eq!(board.get_display_name(), "Assign");
    assert_eq!(board.visible_tasks().len(), 7);
    assert_eq!(board.visible_caretakers().len(), 4);
    board.click_caretaker_header(CaretakerColumn::Name);
    let first = board.visible_caretakers()[0].clone();
    assert_eq!(first.name, "Dave Butz");
    board.pointer(PointerEvent::DragStart { caretaker: first.id });
    board.pointer(PointerEvent::OverTask { task: 3 });
    assert_eq!(board.pointer(PointerEvent::Release), Some(Ok(())));
    assert_eq!(board.registry.assignee(3), Some(Some(first.id)));
    assert_eq!(board.registry.case_count(first.id), Some(1));
    board.click_task_header(TaskColumn::Assignee);
    assert_eq!(board.task_order.direction, Direction::Ascending);
    let rows = board.visible_tasks();
    assert_eq!(rows[6].id, 3);
    board.location = Some(Location::Y);
    board.service = Some(Service::All);
    let rows = board.visible_tasks();
    assert_eq!(rows.len(), 1);
    assert_eq!(rows[0].client_name, "Peter Groot");
    assert_eq!(rows[0].job, "Handwashing");
}

#[test]
fn default_board_roster_and_orderings() {
    let board = Assign::default();
    let cs: Vec<(u64, String, String, usize)> =
        board.registry.list_caretakers().into_iter().map(|c| (c.id, c.name, c.cred, c.case)).collect();
    assert_eq!(
        cs,
        vec![
            (1, "Jim Butz".to_string(), "Nurse RN".to_string(), 0),
            (2, "Dave Butz".to_string(), "DSP".to_string(), 0),
            (3, "Isaac Butz".to_string(), "Developer".to_string(), 0),
            (4, "Steve Butz".to_string(), "None".to_string(), 0),
        ]
    );
    let ts = board.registry.list_tasks();
    assert_eq!(ts.len(), 7);
    assert_eq!(ts[0].id, 1);
    assert_eq!(ts[0].client_name, "Angela Johnson");
    assert_eq!(ts[0].job, "Dog Therapy");
    assert_eq!(ts[6].client_name, "Gamora Thanos");
    assert_eq!(ts[6].job, "Stress Therepy");
    assert_eq!(ts[6].location, Location::Y);
    assert_eq!(ts[6].service, Service::Nothing);
    assert!(ts.iter().all(|t| t.assignee.is_none()));
    assert_eq!(board.task_order, TaskOrdering { column: TaskColumn::Client, direction: Direction::Ascending });
    assert_eq!(board.caretaker_order, CaretakerOrdering::by_credential());
    assert_eq!(board.drag.state, DragState::Idle);
    assert_eq!(board.location, None);
    assert_eq!(board.service, None);
    let shown: Vec<String> = board.visible_caretakers().into_iter().map(|c| c.cred).collect();
    assert_eq!(shown, vec!["Nurse RN", "None", "Developer", "DSP"]);
}

#[test]
fn drag_visual_hints() {
    assert_eq!(Assign::drag_source(true, false), CursorHint::Grabbing);
    assert_eq!(Assign::drag_source(false, true), CursorHint::Grab);
    assert_eq!(Assign::drag_source(false, false), CursorHint::Plain);
    assert_eq!(Assign::drop_target(true, true, true), TargetStyle::Active);
    assert_eq!(Assign::drop_target(true, true, false), TargetStyle::Inactive);
    assert_eq!(Assign::drop_target(true, false, true), TargetStyle::GrayedOut);
    assert_eq!(Assign::drop_target(false, true, true), TargetStyle::Inactive);
}

#[test]
fn model_values() {
    let d = Data::new("Peter", 41);
    assert_eq!(d.name, "Peter");
    assert_eq!(d.age, 41);
    let c = Caretaker::new(2, "Dave Butz", "DSP");
    assert_eq!(c.name, "Dave Butz");
    assert_eq!(c.cred, "DSP");
    assert_eq!(c.case, 0);
    assert_eq!(Location::X.label(), "X");
    assert_eq!(Service::Partial.label(), "Some");
    assert_eq!(Service::Nothing.label(), "None");
}
