use zdoc::{
    assignee_name, filter_tasks, order_caretakers, order_tasks, stable_order, Caretaker, CaretakerOrdering,
    Direction, Location, Service, Task, TaskColumn, TaskOrdering,
};

fn roster() -> Vec<Caretaker> {
    vec![
        Caretaker::new(1, "Jim Butz", "Nurse RN"),
        Caretaker::new(2, "Dave Butz", "DSP"),
        Caretaker::new(3, "Isaac Butz", "Developer"),
        Caretaker::new(4, "Steve Butz", "None"),
    ]
}

fn names(cs: &[Caretaker]) -> Vec<String> {
    cs.iter().map(|c| c.name.clone()).collect()
}

#[test]
fn caretakers_by_name_ascending() {
    let r = order_caretakers(&roster(), CaretakerOrdering::by_name());
    assert_eq!(names(&r), vec!["Dave Butz", "Isaac Butz", "Jim Butz", "Steve Butz"]);
    for w in r.windows(2) {
        assert!(w[0].name <= w[1].name);
    }
}

#[test]
fn caretakers_by_credential_descending() {
    let r = order_caretakers(&roster(), CaretakerOrdering::by_credential());
    let creds: Vec<String> = r.iter().map(|c| c.cred.clone()).collect();
    assert_eq!(creds, vec!["Nurse RN", "None", "Developer", "DSP"]);
    for w in r.windows(2) {
        assert!(w[0].cred >= w[1].cred);
    }
}

#[test]
fn equal_keys_keep_input_order() {
    let cs = vec![
        Caretaker::new(1, "Zed", "RN"),
        Caretaker::new(2, "Amy", "DSP"),
        Caretaker::new(3, "Bob", "RN"),
        Caretaker::new(4, "Cal", "DSP"),
    ];
    let r = order_caretakers(&cs, CaretakerOrdering::by_credential());
    let ids: Vec<u64> = r.iter().map(|c| c.id).collect();
    assert_eq!(ids, vec![1, 3, 2, 4]);
}

#[test]
fn comparison_is_case_sensitive_code_point_order() {
    let keys = vec!["b".to_string(), "B".to_string(), "a".to_string(), "ab".to_string(), "".to_string()];
    assert_eq!(stable_order(&keys, Direction::Ascending), vec![4, 1, 2, 3, 0]);
    assert_eq!(stable_order(&keys, Direction::Descending), vec![0, 3, 2, 1, 4]);
    assert_eq!(stable_order(&Vec::new(), Direction::Ascending), Vec::<usize>::new());
}

fn tasks() -> Vec<Task> {
    vec![
        Task::new(1, "Peter Groot", "Teethburshing", Location::X, Service::All),
        Task::new(2, "Angela Johnson", "Dog Therapy", Location::Y, Service::All),
        Task::new(3, "Dax Quil", "Verbal Therapy", Location::X, Service::Partial),
        Task::new(4, "Gamora Thanos", "Stress Therepy", Location::X, Service::All),
    ]
}

#[test]
fn filter_by_location_and_service() {
    let r = filter_tasks(&tasks(), Some(Location::X), Some(Service::All));
    let ids: Vec<u64> = r.iter().map(|t| t.id).collect();
    assert_eq!(ids, vec![1, 4]);
    let r = filter_tasks(&tasks(), None, Some(Service::All));
    let ids: Vec<u64> = r.iter().map(|t| t.id).collect();
    assert_eq!(ids, vec![1, 2, 4]);
    assert!(filter_tasks(&tasks(), Some(Location::Z), None).is_empty());
}

#[test]
fn filter_unset_keeps_everything_in_order() {
    let r = filter_tasks(&tasks(), None, None);
    let ids: Vec<u64> = r.iter().map(|t| t.id).collect();
    assert_eq!(ids, vec![1, 2, 3, 4]);
}

#[test]
fn tasks_by_client_and_job() {
    let r = order_tasks(&tasks(), &roster(), TaskOrdering::ascending(TaskColumn::Client));
    let ids: Vec<u64> = r.iter().map(|t| t.id).collect();
    assert_eq!(ids, vec![2, 3, 4, 1]);
    let r = order_tasks(&tasks(), &roster(), TaskOrdering { column: TaskColumn::Job, direction: Direction::Descending });
    let ids: Vec<u64> = r.iter().map(|t| t.id).collect();
    assert_eq!(ids, vec![3, 1, 4, 2]);
}

#[test]
fn tasks_by_assignee_name() {
    let mut ts = tasks();
    ts[0].assignee = Some(4);
    ts[1].assignee = Some(2);
    ts[3].assignee = Some(77);
    let r = order_tasks(&ts, &roster(), TaskOrdering::ascending(TaskColumn::Assignee));
    let ids: Vec<u64> = r.iter().map(|t| t.id).collect();
    // tasks 3 (unassigned) and 4 (unknown caretaker) show an empty name
    assert_eq!(ids, vec![3, 4, 2, 1]);
}

#[test]
fn assignee_column_text() {
    assert_eq!(assignee_name(&roster(), Some(3)), "Isaac Butz");
    assert_eq!(assignee_name(&roster(), None), "");
    assert_eq!(assignee_name(&roster(), Some(42)), "");
}
