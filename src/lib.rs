//! Assignment board: pairs care tasks with caretakers through a verified
//! registry, a display-ordering policy and a drag-and-drop state machine.

mod board;
mod drag;
mod model;
mod ordering;
mod registry;
mod text;

pub use board::{Assign, CursorHint, TargetStyle};
pub use drag::{Commit, DragDropCoordinator, DragState, PointerEvent, accepts, step};
pub use model::{Caretaker, Data, Location, Service, Task};
pub use ordering::{
    CaretakerColumn, CaretakerOrdering, Direction, TaskColumn, TaskOrdering, assignee_name,
    filter_tasks, order_caretakers, order_tasks, stable_order,
};
pub use registry::{AssignmentError, AssignmentRegistry, RegistryError};
