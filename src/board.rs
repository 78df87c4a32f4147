use vstd::prelude::*;
use crate::drag::{DragDropCoordinator, DragState, PointerEvent, commit_request, next_state};
use crate::model::{Caretaker, Location, Service, Task};
use crate::ordering::{
    CaretakerColumn, CaretakerOrdering, Direction, TaskColumn, TaskOrdering, filter_tasks,
    order_caretakers, order_tasks, orders_caretakers, orders_tasks, selected,
};
use crate::registry::{AssignmentError, AssignmentRegistry, commit_post, has_caretaker, has_task};

verus! {

/// Cursor a caretaker row asks for.
#[derive(Debug, Clone, Copy, PartialEq, Eq, Structural)]
pub enum CursorHint {
    Plain,
    Grab,
    Grabbing,
}

/// How a task row's drop surface is drawn.
#[derive(Debug, Clone, Copy, PartialEq, Eq, Structural)]
pub enum TargetStyle {
    Inactive,
    /// A drag is over this row and the row accepts it.
    Active,
    /// A drag is under way that this row does not accept.
    GrayedOut,
}

pub open spec fn cursor_for(is_being_dragged: bool, hovered: bool) -> CursorHint {
    if is_being_dragged {
        CursorHint::Grabbing
    } else if hovered {
        CursorHint::Grab
    } else {
        CursorHint::Plain
    }
}

pub open spec fn target_style(anything_dragged: bool, can_accept: bool, hovered: bool) -> TargetStyle {
    if anything_dragged && can_accept && hovered {
        TargetStyle::Active
    } else if anything_dragged && !can_accept {
        TargetStyle::GrayedOut
    } else {
        TargetStyle::Inactive
    }
}

/// The assignment board: the registry, the filter and sort selections of its
/// two tables, and the drag session.
pub struct Assign {
    pub registry: AssignmentRegistry,
    pub location: Option<Location>,
    pub service: Option<Service>,
    pub task_order: TaskOrdering,
    pub caretaker_order: CaretakerOrdering,
    pub drag: DragDropCoordinator,
}

impl Assign {
    /// A board over `registry`, with no filter, tasks by client name and
    /// caretakers by credential, descending.
    pub fn new(registry: AssignmentRegistry) -> (r: Self)
        ensures
            r.registry == registry,
            r.location is None,
            r.service is None,
            r.task_order == (TaskOrdering { column: TaskColumn::Client, direction: Direction::Ascending }),
            r.caretaker_order == (CaretakerOrdering {
                column: CaretakerColumn::Credential,
                direction: Direction::Descending,
            }),
            r.drag.state == DragState::Idle,
    {
        Assign {
            registry,
            location: None,
            service: None,
            task_order: TaskOrdering::ascending(TaskColumn::Client),
            caretaker_order: CaretakerOrdering::by_credential(),
            drag: DragDropCoordinator::new(),
        }
    }

    /// Name of this board in the side bar.
    pub fn get_display_name(&self) -> (r: String)
        ensures
            r@ == "Assign"@,
    {
        "Assign".to_owned()
    }

    /// A click on a task column's header sorts by that column, ascending.
    pub fn click_task_header(&mut self, column: TaskColumn)
        ensures
            final(self).task_order == (TaskOrdering { column, direction: Direction::Ascending }),
            final(self).registry == old(self).registry,
            final(self).drag == old(self).drag,
            final(self).caretaker_order == old(self).caretaker_order,
            final(self).location == old(self).location,
            final(self).service == old(self).service,
    {
        self.task_order = TaskOrdering::ascending(column);
    }

    /// A click on the caretaker table's name header sorts by name ascending;
    /// one on its credential header, by credential descending.
    pub fn click_caretaker_header(&mut self, column: CaretakerColumn)
        ensures
            final(self).caretaker_order.column == column,
            final(self).caretaker_order.direction == match column {
                CaretakerColumn::Name => Direction::Ascending,
                CaretakerColumn::Credential => Direction::Descending,
            },
            final(self).registry == old(self).registry,
            final(self).drag == old(self).drag,
            final(self).task_order == old(self).task_order,
            final(self).location == old(self).location,
            final(self).service == old(self).service,
    {
        self.caretaker_order = match column {
            CaretakerColumn::Name => CaretakerOrdering::by_name(),
            CaretakerColumn::Credential => CaretakerOrdering::by_credential(),
        };
    }

    /// Rows of the task table: the tasks that pass the selections, in the
    /// table's order.
    pub fn visible_tasks(&self) -> (r: Vec<Task>)
        ensures
            orders_tasks(
                self.registry.task_seq().filter(|t: Task| selected(t, self.location, self.service)),
                self.registry.caretaker_seq(),
                self.task_order,
                r@,
            ),
    {
        let all = self.registry.list_tasks();
        let shown = filter_tasks(&all, self.location, self.service);
        let cs = self.registry.list_caretakers();
        order_tasks(&shown, &cs, self.task_order)
    }

    /// Rows of the caretaker table, in the table's order.
    pub fn visible_caretakers(&self) -> (r: Vec<Caretaker>)
        ensures
            orders_caretakers(self.registry.caretaker_seq(), self.caretaker_order, r@),
    {
        let cs = self.registry.list_caretakers();
        order_caretakers(&cs, self.caretaker_order)
    }

    /// Feeds one pointer event to the drag session; a drop commits into the
    /// registry and the registry's answer is handed back.
    pub fn pointer(&mut self, e: PointerEvent) -> (r: Option<Result<(), AssignmentError>>)
        requires
            old(self).registry.wf(),
        ensures
            final(self).registry.wf(),
            final(self).drag.state == next_state(old(self).drag.state, e),
            final(self).location == old(self).location,
            final(self).service == old(self).service,
            final(self).task_order == old(self).task_order,
            final(self).caretaker_order == old(self).caretaker_order,
            match commit_request(old(self).drag.state, e) {
                None => r is None && final(self).registry == old(self).registry,
                Some(c) => r is Some && commit_post(
                    old(self).registry,
                    c.task,
                    c.caretaker,
                    final(self).registry,
                    r.unwrap(),
                ),
            },
    {
        self.drag.handle(e, &mut self.registry)
    }

    /// Cursor for a caretaker row: grabbing while it is dragged, grab while
    /// the pointer is over it.
    pub fn drag_source(is_being_dragged: bool, hovered: bool) -> (r: CursorHint)
        ensures
            r == cursor_for(is_being_dragged, hovered),
    {
        if is_being_dragged {
            CursorHint::Grabbing
        } else if hovered {
            CursorHint::Grab
        } else {
            CursorHint::Plain
        }
    }

    /// Style of a task row's drop surface.
    pub fn drop_target(anything_dragged: bool, can_accept: bool, hovered: bool) -> (r: TargetStyle)
        ensures
            r == target_style(anything_dragged, can_accept, hovered),
    {
        if anything_dragged && can_accept && hovered {
            TargetStyle::Active
        } else if anything_dragged && !can_accept {
            TargetStyle::GrayedOut
        } else {
            TargetStyle::Inactive
        }
    }
}


/// Caretaker `c` has these fields and no cases.
pub open spec fn is_caretaker(c: Caretaker, id: u64, name: Seq<char>, cred: Seq<char>) -> bool {
    c.id == id && c.name@ == name && c.cred@ == cred && c.case == 0
}

/// Task `t` has these fields and no assignee.
pub open spec fn is_task(
    t: Task,
    id: u64,
    client: Seq<char>,
    job: Seq<char>,
    location: Location,
    service: Service,
) -> bool {
    &&& t.id == id
    &&& t.client_name@ == client
    &&& t.job@ == job
    &&& t.location == location
    &&& t.service == service
    &&& t.assignee is None
}

impl Default for Assign {
    /// The board over the starting roster: four caretakers and seven
    /// unassigned tasks, tasks by client name and caretakers by credential,
    /// descending.
    fn default() -> (r: Self)
        ensures
            r.registry.wf(),
            r.registry.caretaker_seq().len() == 4,
            is_caretaker(r.registry.caretaker_seq()[0], 1, "Jim Butz"@, "Nurse RN"@),
            is_caretaker(r.registry.caretaker_seq()[1], 2, "Dave Butz"@, "DSP"@),
            is_caretaker(r.registry.caretaker_seq()[2], 3, "Isaac Butz"@, "Developer"@),
            is_caretaker(r.registry.caretaker_seq()[3], 4, "Steve Butz"@, "None"@),
            r.registry.task_seq().len() == 7,
            is_task(r.registry.task_seq()[0], 1, "Angela Johnson"@, "Dog Therapy"@, Location::X, Service::All),
            is_task(r.registry.task_seq()[1], 2, "Dax Quil"@, "Verbal Therapy"@, Location::Y, Service::Partial),
            is_task(r.registry.task_seq()[2], 3, "Peter Groot"@, "Teethburshing"@, Location::Z, Service::All),
            is_task(r.registry.task_seq()[3], 4, "Peter Groot"@, "Dog Therapy"@, Location::Z, Service::Partial),
            is_task(r.registry.task_seq()[4], 5, "Peter Groot"@, "Stress Therapy"@, Location::X, Service::Nothing),
            is_task(r.registry.task_seq()[5], 6, "Peter Groot"@, "Handwashing"@, Location::Y, Service::All),
            is_task(r.registry.task_seq()[6], 7, "Gamora Thanos"@, "Stress Therepy"@, Location::Y, Service::Nothing),
            r.location is None,
            r.service is None,
            r.task_order == (TaskOrdering { column: TaskColumn::Client, direction: Direction::Ascending }),
            r.caretaker_order == (CaretakerOrdering {
                column: CaretakerColumn::Credential,
                direction: Direction::Descending,
            }),
            r.drag.state == DragState::Idle,
    {
        let mut reg = AssignmentRegistry::new();
        assert(!has_caretaker(reg.caretaker_seq(), 1)) by {
            assert(forall|i: int| 0 <= i < reg.caretaker_seq().len() ==> reg.caretaker_seq()[i].id < 1);
        }
        let _ = reg.add_caretaker(Caretaker::new(1, "Jim Butz", "Nurse RN"));
        assert(!has_caretaker(reg.caretaker_seq(), 2)) by {
            assert(forall|i: int| 0 <= i < reg.caretaker_seq().len() ==> reg.caretaker_seq()[i].id < 2);
        }
        let _ = reg.add_caretaker(Caretaker::new(2, "Dave Butz", "DSP"));
        assert(!has_caretaker(reg.caretaker_seq(), 3)) by {
            assert(forall|i: int| 0 <= i < reg.caretaker_seq().len() ==> reg.caretaker_seq()[i].id < 3);
        }
        let _ = reg.add_caretaker(Caretaker::new(3, "Isaac Butz", "Developer"));
        assert(!has_caretaker(reg.caretaker_seq(), 4)) by {
            assert(forall|i: int| 0 <= i < reg.caretaker_seq().len() ==> reg.caretaker_seq()[i].id < 4);
        }
        let _ = reg.add_caretaker(Caretaker::new(4, "Steve Butz", "None"));
        assert(!has_task(reg.task_seq(), 1)) by {
            assert(forall|i: int| 0 <= i < reg.task_seq().len() ==> reg.task_seq()[i].id < 1);
        }
        let _ = reg.add_task(Task::new(1, "Angela Johnson", "Dog Therapy", Location::X, Service::All));
        assert(!has_task(reg.task_seq(), 2)) by {
            assert(forall|i: int| 0 <= i < reg.task_seq().len() ==> reg.task_seq()[i].id < 2);
        }
        let _ = reg.add_task(Task::new(2, "Dax Quil", "Verbal Therapy", Location::Y, Service::Partial));
        assert(!has_task(reg.task_seq(), 3)) by {
            assert(forall|i: int| 0 <= i < reg.task_seq().len() ==> reg.task_seq()[i].id < 3);
        }
        let _ = reg.add_task(Task::new(3, "Peter Groot", "Teethburshing", Location::Z, Service::All));
        assert(!has_task(reg.task_seq(), 4)) by {
            assert(forall|i: int| 0 <= i < reg.task_seq().len() ==> reg.task_seq()[i].id < 4);
        }
        let _ = reg.add_task(Task::new(4, "Peter Groot", "Dog Therapy", Location::Z, Service::Partial));
        assert(!has_task(reg.task_seq(), 5)) by {
            assert(forall|i: int| 0 <= i < reg.task_seq().len() ==> reg.task_seq()[i].id < 5);
        }
        let _ = reg.add_task(Task::new(5, "Peter Groot", "Stress Therapy", Location::X, Service::Nothing));
        assert(!has_task(reg.task_seq(), 6)) by {
            assert(forall|i: int| 0 <= i < reg.task_seq().len() ==> reg.task_seq()[i].id < 6);
        }
        let _ = reg.add_task(Task::new(6, "Peter Groot", "Handwashing", Location::Y, Service::All));
        assert(!has_task(reg.task_seq(), 7)) by {
            assert(forall|i: int| 0 <= i < reg.task_seq().len() ==> reg.task_seq()[i].id < 7);
        }
        let _ = reg.add_task(Task::new(7, "Gamora Thanos", "Stress Therepy", Location::Y, Service::Nothing));
        Assign::new(reg)
    }
}

} // verus!
