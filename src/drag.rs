use vstd::prelude::*;
use crate::registry::{AssignmentError, AssignmentRegistry, commit_post};

verus! {

/// State of the board's single drag session.
#[derive(Debug, Clone, Copy, PartialEq, Eq, Structural)]
pub enum DragState {
    Idle,
    /// A caretaker row is being dragged, over no drop surface.
    Dragging { caretaker: u64 },
    /// A caretaker row is being dragged over a task row's drop surface.
    Hovering { caretaker: u64, task: u64 },
}

/// A pointer signal reported by the host for one frame.
#[derive(Debug, Clone, Copy, PartialEq, Eq, Structural)]
pub enum PointerEvent {
    /// Pointer pressed and moved on caretaker row `caretaker`.
    DragStart { caretaker: u64 },
    /// Pointer over task row `task`'s drop surface.
    OverTask { task: u64 },
    /// Pointer over an area that accepts no drop.
    OverNothing,
    /// Pointer button released.
    Release,
    /// The drag was abandoned: it left the interactive surface, or no button is held.
    Cancel,
}

/// A request to give `task` to `caretaker`.
#[derive(Debug, Clone, Copy, PartialEq, Eq, Structural)]
pub struct Commit {
    pub task: u64,
    pub caretaker: u64,
}

/// Every task row accepts every caretaker.
pub open spec fn accepts_spec(task: u64, caretaker: u64) -> bool {
    true
}

/// Whether task row `task` accepts a drop of caretaker `caretaker`.
pub fn accepts(task: u64, caretaker: u64) -> (r: bool)
    ensures
        r == accepts_spec(task, caretaker),
{
    true
}

/// The state after event `e` in state `s`.
pub open spec fn next_state(s: DragState, e: PointerEvent) -> DragState {
    match (s, e) {
        (DragState::Idle, PointerEvent::DragStart { caretaker }) => DragState::Dragging { caretaker },
        (DragState::Idle, _) => DragState::Idle,
        (_, PointerEvent::Release) | (_, PointerEvent::Cancel) => DragState::Idle,
        (DragState::Dragging { caretaker }, PointerEvent::OverTask { task })
        | (DragState::Hovering { caretaker, .. }, PointerEvent::OverTask { task }) => if accepts_spec(
            task,
            caretaker,
        ) {
            DragState::Hovering { caretaker, task }
        } else {
            DragState::Dragging { caretaker }
        },
        (DragState::Dragging { caretaker }, PointerEvent::OverNothing)
        | (DragState::Hovering { caretaker, .. }, PointerEvent::OverNothing) => DragState::Dragging {
            caretaker,
        },
        // a second drag while one is active is ignored
        (_, PointerEvent::DragStart { .. }) => s,
    }
}

/// The commit that event `e` in state `s` issues: only a release over a task row.
pub open spec fn commit_request(s: DragState, e: PointerEvent) -> Option<Commit> {
    match (s, e) {
        (DragState::Hovering { caretaker, task }, PointerEvent::Release) => Some(
            Commit { task, caretaker },
        ),
        _ => None,
    }
}

/// State and commits after the events `es`, starting in `s`.
pub open spec fn run(s: DragState, es: Seq<PointerEvent>) -> (DragState, Seq<Commit>)
    decreases es.len(),
{
    if es.len() == 0 {
        (s, Seq::empty())
    } else {
        let (last, commits) = run(s, es.drop_last());
        let issued = match commit_request(last, es.last()) {
            Some(c) => commits.push(c),
            None => commits,
        };
        (next_state(last, es.last()), issued)
    }
}

/// One transition of the drag session.
pub fn step(s: DragState, e: PointerEvent) -> (r: (DragState, Option<Commit>))
    ensures
        r.0 == next_state(s, e),
        r.1 == commit_request(s, e),
{
    match e {
        PointerEvent::DragStart { caretaker } => match s {
            DragState::Idle => (DragState::Dragging { caretaker }, None),
            _ => (s, None),
        },
        PointerEvent::OverTask { task } => match s {
            DragState::Idle => (s, None),
            DragState::Dragging { caretaker } | DragState::Hovering { caretaker, .. } => {
                if accepts(task, caretaker) {
                    (DragState::Hovering { caretaker, task }, None)
                } else {
                    (DragState::Dragging { caretaker }, None)
                }
            },
        },
        PointerEvent::OverNothing => match s {
            DragState::Idle => (s, None),
            DragState::Dragging { caretaker } | DragState::Hovering { caretaker, .. } => (
                DragState::Dragging { caretaker },
                None,
            ),
        },
        PointerEvent::Release => match s {
            DragState::Hovering { caretaker, task } => (
                DragState::Idle,
                Some(Commit { task, caretaker }),
            ),
            _ => (DragState::Idle, None),
        },
        PointerEvent::Cancel => (DragState::Idle, None),
    }
}

/// Drives the drag session and commits drops into the registry.
pub struct DragDropCoordinator {
    pub state: DragState,
}

impl DragDropCoordinator {
    pub fn new() -> (r: Self)
        ensures
            r.state == DragState::Idle,
    {
        DragDropCoordinator { state: DragState::Idle }
    }

    /// Applies event `e`. A release over a task row commits the drop into
    /// `reg` and hands back the registry's answer; the session ends either way.
    pub fn handle(&mut self, e: PointerEvent, reg: &mut AssignmentRegistry) -> (r: Option<Result<(), AssignmentError>>)
        requires
            old(reg).wf(),
        ensures
            final(reg).wf(),
            final(self).state == next_state(old(self).state, e),
            match commit_request(old(self).state, e) {
                None => r is None && *final(reg) == *old(reg),
                Some(c) => r is Some && commit_post(*old(reg), c.task, c.caretaker, *final(reg), r.unwrap()),
            },
    {
        let (next, request) = step(self.state, e);
        self.state = next;
        match request {
            None => None,
            Some(c) => Some(reg.commit_assignment(c.task, c.caretaker)),
        }
    }
}

/// A press on caretaker `c`, a move over task `t`'s surface and a release go
/// `Idle -> Dragging{c} -> Hovering{c, t} -> Idle` and issue exactly one
/// commit, of `t` to `c`.
pub proof fn lemma_drop_commits_once(c: u64, t: u64)
    ensures
        next_state(DragState::Idle, PointerEvent::DragStart { caretaker: c }) == (DragState::Dragging {
            caretaker: c,
        }),
        next_state(DragState::Dragging { caretaker: c }, PointerEvent::OverTask { task: t })
            == (DragState::Hovering { caretaker: c, task: t }),
        next_state(DragState::Hovering { caretaker: c, task: t }, PointerEvent::Release)
            == DragState::Idle,
        run(
            DragState::Idle,
            seq![PointerEvent::DragStart { caretaker: c }, PointerEvent::OverTask { task: t }, PointerEvent::Release],
        ) == (DragState::Idle, seq![Commit { task: t, caretaker: c }]),
{
    let es = seq![PointerEvent::DragStart { caretaker: c }, PointerEvent::OverTask { task: t }, PointerEvent::Release];
    assert(es.drop_last() =~= seq![PointerEvent::DragStart { caretaker: c }, PointerEvent::OverTask { task: t }]);
    assert(es.drop_last().drop_last() =~= seq![PointerEvent::DragStart { caretaker: c }]);
    assert(es.drop_last().drop_last().drop_last() =~= Seq::<PointerEvent>::empty());
    assert(run(DragState::Idle, Seq::<PointerEvent>::empty()) == (DragState::Idle, Seq::<Commit>::empty()));
    assert(run(DragState::Idle, es.drop_last().drop_last()) == (DragState::Dragging { caretaker: c }, Seq::<Commit>::empty()));
    assert(run(DragState::Idle, es.drop_last()) == (DragState::Hovering { caretaker: c, task: t }, Seq::<Commit>::empty()));
    assert(Seq::<Commit>::empty().push(Commit { task: t, caretaker: c }) =~= seq![Commit { task: t, caretaker: c }]);
}

/// A press on caretaker `c` then a release with no hover go
/// `Idle -> Dragging{c} -> Idle` and issue no commit.
pub proof fn lemma_release_without_hover_cancels(c: u64)
    ensures
        next_state(DragState::Idle, PointerEvent::DragStart { caretaker: c }) == (DragState::Dragging {
            caretaker: c,
        }),
        next_state(DragState::Dragging { caretaker: c }, PointerEvent::Release) == DragState::Idle,
        run(DragState::Idle, seq![PointerEvent::DragStart { caretaker: c }, PointerEvent::Release]) == (
            DragState::Idle,
            Seq::<Commit>::empty(),
        ),
{
    let es = seq![PointerEvent::DragStart { caretaker: c }, PointerEvent::Release];
    assert(es.drop_last() =~= seq![PointerEvent::DragStart { caretaker: c }]);
    assert(es.drop_last().drop_last() =~= Seq::<PointerEvent>::empty());
    assert(run(DragState::Idle, Seq::<PointerEvent>::empty()) == (DragState::Idle, Seq::<Commit>::empty()));
    assert(run(DragState::Idle, es.drop_last()) == (DragState::Dragging { caretaker: c }, Seq::<Commit>::empty()));
}

/// Every release and every cancellation ends the drag session, and only a
/// release over a task row commits.
pub proof fn lemma_session_ends(s: DragState)
    ensures
        next_state(s, PointerEvent::Release) == DragState::Idle,
        next_state(s, PointerEvent::Cancel) == DragState::Idle,
        commit_request(s, PointerEvent::Cancel) is None,
        commit_request(s, PointerEvent::Release) is Some <==> s is Hovering,
{
}

} // verus!
