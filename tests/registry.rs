use zdoc::{AssignmentError, AssignmentRegistry, Caretaker, Location, RegistryError, Service, Task};

fn board_with(tasks: &[(u64, &str)], caretakers: &[(u64, &str)]) -> AssignmentRegistry {
    let mut reg = AssignmentRegistry::new();
    for (id, name) in caretakers {
        assert_eq!(reg.add_caretaker(Caretaker::new(*id, name, "RN")), Ok(()));
    }
    for (id, client) in tasks {
        assert_eq!(reg.add_task(Task::new(*id, client, "Dog Therapy", Location::X, Service::All)), Ok(()));
    }
    reg
}

#[test]
fn commit_then_recommit_same_pair() {
    let mut reg = board_with(&[(1, "Angela Johnson")], &[(9, "Jim Butz")]);
    assert_eq!(reg.assignee(1), Some(None));
    assert_eq!(reg.case_count(9), Some(0));
    assert_eq!(reg.commit_assignment(1, 9), Ok(()));
    assert_eq!(reg.assignee(1), Some(Some(9)));
    assert_eq!(reg.case_count(9), Some(1));
    // committing the pair again is a no-op
    assert_eq!(reg.commit_assignment(1, 9), Ok(()));
    assert_eq!(reg.assignee(1), Some(Some(9)));
    assert_eq!(reg.case_count(9), Some(1));
}

#[test]
fn reassignment_moves_the_case() {
    let mut reg = board_with(&[(1, "A"), (2, "B")], &[(10, "Jim"), (11, "Dave")]);
    assert_eq!(reg.commit_assignment(1, 10), Ok(()));
    assert_eq!(reg.commit_assignment(2, 10), Ok(()));
    assert_eq!(reg.case_count(10), Some(2));
    assert_eq!(reg.commit_assignment(1, 11), Ok(()));
    assert_eq!(reg.case_count(10), Some(1));
    assert_eq!(reg.case_count(11), Some(1));
    assert_eq!(reg.assignee(1), Some(Some(11)));
    assert_eq!(reg.assignee(2), Some(Some(10)));
}

#[test]
fn case_counts_match_assigned_tasks() {
    let mut reg = board_with(&[(1, "A"), (2, "B"), (3, "C")], &[(10, "Jim"), (11, "Dave")]);
    let steps = [(1, 10), (2, 11), (3, 10), (2, 10), (1, 11), (3, 11), (3, 11)];
    for (t, c) in steps {
        assert_eq!(reg.commit_assignment(t, c), Ok(()));
        for ct in reg.list_caretakers() {
            let held = reg.list_tasks().iter().filter(|task| task.assignee == Some(ct.id)).count();
            assert_eq!(ct.case, held);
        }
    }
}

#[test]
fn unknown_ids_are_refused_without_change() {
    let mut reg = board_with(&[(1, "A")], &[(9, "Jim")]);
    assert_eq!(reg.commit_assignment(2, 9), Err(AssignmentError::UnknownTask));
    assert_eq!(reg.commit_assignment(2, 8), Err(AssignmentError::UnknownTask));
    assert_eq!(reg.commit_assignment(1, 8), Err(AssignmentError::UnknownCaretaker));
    assert_eq!(reg.assignee(1), Some(None));
    assert_eq!(reg.case_count(9), Some(0));
    assert_eq!(reg.assignee(2), None);
    assert_eq!(reg.case_count(8), None);
}

#[test]
fn duplicate_ids_are_refused() {
    let mut reg = board_with(&[(1, "A")], &[(9, "Jim")]);
    assert_eq!(
        reg.add_task(Task::new(1, "Other", "Handwashing", Location::Y, Service::Partial)),
        Err(RegistryError::DuplicateTask)
    );
    assert_eq!(reg.add_caretaker(Caretaker::new(9, "Other", "DSP")), Err(RegistryError::DuplicateCaretaker));
    assert_eq!(reg.list_tasks().len(), 1);
    assert_eq!(reg.list_caretakers().len(), 1);
    assert_eq!(reg.list_tasks()[0].client_name, "A");
}

#[test]
fn added_entities_start_unassigned() {
    let mut reg = AssignmentRegistry::new();
    let mut c = Caretaker::new(3, "Isaac Butz", "Developer");
    c.case = 5;
    assert_eq!(reg.add_caretaker(c), Ok(()));
    let mut t = Task::new(4, "Dax Quil", "Verbal Therapy", Location::Z, Service::Nothing);
    t.assignee = Some(3);
    assert_eq!(reg.add_task(t), Ok(()));
    assert_eq!(reg.case_count(3), Some(0));
    assert_eq!(reg.assignee(4), Some(None));
    let listed = reg.list_tasks();
    assert_eq!(listed[0].job, "Verbal Therapy");
    assert_eq!(listed[0].location, Location::Z);
    assert_eq!(listed[0].service, Service::Nothing);
}
