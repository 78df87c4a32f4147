use vstd::prelude::*;
use crate::model::{Caretaker, Task};

verus! {

/// Why a commit was refused.
#[derive(Debug, Clone, Copy, PartialEq, Eq, Structural)]
pub enum AssignmentError {
    UnknownTask,
    UnknownCaretaker,
}

/// Why an entity could not be added.
#[derive(Debug, Clone, Copy, PartialEq, Eq, Structural)]
pub enum RegistryError {
    DuplicateTask,
    DuplicateCaretaker,
}

/// Number of tasks in `tasks` assigned to caretaker `cid`.
pub open spec fn count_assigned(tasks: Seq<Task>, cid: u64) -> nat
    decreases tasks.len(),
{
    if tasks.len() == 0 {
        0
    } else {
        count_assigned(tasks.drop_last(), cid) + if tasks.last().assignee == Some(cid) {
            1nat
        } else {
            0nat
        }
    }
}

pub open spec fn has_task(tasks: Seq<Task>, id: u64) -> bool {
    exists|i: int| 0 <= i < tasks.len() && tasks[i].id == id
}

pub open spec fn has_caretaker(cs: Seq<Caretaker>, id: u64) -> bool {
    exists|i: int| 0 <= i < cs.len() && cs[i].id == id
}

pub open spec fn task_ids_unique(tasks: Seq<Task>) -> bool {
    forall|i: int, j: int| 0 <= i < j < tasks.len() ==> tasks[i].id != tasks[j].id
}

pub open spec fn caretaker_ids_unique(cs: Seq<Caretaker>) -> bool {
    forall|i: int, j: int| 0 <= i < j < cs.len() ==> cs[i].id != cs[j].id
}

/// Every caretaker's case count is the number of tasks assigned to it.
pub open spec fn counts_match(tasks: Seq<Task>, cs: Seq<Caretaker>) -> bool {
    forall|k: int| 0 <= k < cs.len() ==> #[trigger] cs[k].case == count_assigned(tasks, cs[k].id)
}

/// The assignee of the task with id `id` (meaningful when ids are unique and it exists).
pub open spec fn assignee_of(tasks: Seq<Task>, id: u64) -> Option<u64> {
    tasks[choose|i: int| 0 <= i < tasks.len() && tasks[i].id == id].assignee
}

pub open spec fn with_assignee(t: Task, a: Option<u64>) -> Task {
    Task {
        id: t.id,
        assignee: a,
        client_name: t.client_name,
        job: t.job,
        location: t.location,
        service: t.service,
    }
}

pub open spec fn with_case(c: Caretaker, n: usize) -> Caretaker {
    Caretaker { id: c.id, name: c.name, cred: c.cred, case: n }
}

/// `tasks` after the task with id `task_id` is given to `cid`.
pub open spec fn reassigned(tasks: Seq<Task>, task_id: u64, cid: u64) -> Seq<Task> {
    tasks.map_values(|t: Task| if t.id == task_id { with_assignee(t, Some(cid)) } else { t })
}

/// A caretaker's count after a task moves from `prev` to `cid` (with `prev != Some(cid)`):
/// the previous assignee loses one case, the new one gains one.
pub open spec fn recounted(c: Caretaker, prev: Option<u64>, cid: u64) -> int {
    c.case as int - (if prev == Some(c.id) { 1int } else { 0int }) + (if c.id == cid {
        1int
    } else {
        0int
    })
}

pub proof fn lemma_count_bound(tasks: Seq<Task>, cid: u64)
    ensures
        count_assigned(tasks, cid) <= tasks.len(),
    decreases tasks.len(),
{
    if tasks.len() > 0 {
        lemma_count_bound(tasks.drop_last(), cid);
    }
}

pub proof fn lemma_count_push(tasks: Seq<Task>, t: Task, cid: u64)
    ensures
        count_assigned(tasks.push(t), cid) == count_assigned(tasks, cid) + if t.assignee == Some(cid) {
            1nat
        } else {
            0nat
        },
{
    assert(tasks.push(t).drop_last() =~= tasks);
}

pub proof fn lemma_count_update(tasks: Seq<Task>, i: int, t: Task, cid: u64)
    requires
        0 <= i < tasks.len(),
    ensures
        count_assigned(tasks.update(i, t), cid) + (if tasks[i].assignee == Some(cid) {
            1int
        } else {
            0int
        }) == count_assigned(tasks, cid) + (if t.assignee == Some(cid) {
            1int
        } else {
            0int
        }),
    decreases tasks.len(),
{
    let u = tasks.update(i, t);
    if i == tasks.len() - 1 {
        assert(u.drop_last() =~= tasks.drop_last());
    } else {
        assert(u.drop_last() =~= tasks.drop_last().update(i, t));
        lemma_count_update(tasks.drop_last(), i, t, cid);
    }
}

/// A task assigned to `cid` contributes to its count.
pub proof fn lemma_count_positive(tasks: Seq<Task>, i: int, cid: u64)
    requires
        0 <= i < tasks.len(),
        tasks[i].assignee == Some(cid),
    ensures
        count_assigned(tasks, cid) >= 1,
    decreases tasks.len(),
{
    if i < tasks.len() - 1 {
        lemma_count_positive(tasks.drop_last(), i, cid);
    }
}

pub proof fn lemma_count_zero(tasks: Seq<Task>, cid: u64)
    requires
        forall|i: int| 0 <= i < tasks.len() ==> tasks[i].assignee != Some(cid),
    ensures
        count_assigned(tasks, cid) == 0,
    decreases tasks.len(),
{
    if tasks.len() > 0 {
        lemma_count_zero(tasks.drop_last(), cid);
    }
}

/// What a commit of task `task_id` to caretaker `caretaker_id` does, taking `pre` to
/// `post` with outcome `r`.
pub open spec fn commit_post(
    pre: AssignmentRegistry,
    task_id: u64,
    caretaker_id: u64,
    post: AssignmentRegistry,
    r: Result<(), AssignmentError>,
) -> bool {
    &&& post.wf()
    &&& (!has_task(pre.task_seq(), task_id) ==> r == Err::<(), AssignmentError>(
        AssignmentError::UnknownTask,
    ))
    &&& (has_task(pre.task_seq(), task_id) && !has_caretaker(pre.caretaker_seq(), caretaker_id)
        ==> r == Err::<(), AssignmentError>(AssignmentError::UnknownCaretaker))
    &&& (has_task(pre.task_seq(), task_id) && has_caretaker(pre.caretaker_seq(), caretaker_id)
        ==> r == Ok::<(), AssignmentError>(()))
    &&& (r is Err ==> post == pre)
    &&& (r is Ok && assignee_of(pre.task_seq(), task_id) == Some(caretaker_id) ==> post == pre)
    &&& (r is Ok && assignee_of(pre.task_seq(), task_id) != Some(caretaker_id) ==> {
        &&& post.task_seq() == reassigned(pre.task_seq(), task_id, caretaker_id)
        &&& post.caretaker_seq().len() == pre.caretaker_seq().len()
        &&& forall|k: int|
            0 <= k < pre.caretaker_seq().len() ==> #[trigger] post.caretaker_seq()[k] == with_case(
                pre.caretaker_seq()[k],
                recounted(pre.caretaker_seq()[k], assignee_of(pre.task_seq(), task_id), caretaker_id)
                    as usize,
            )
    })
}

pub proof fn lemma_count_is_filter_len(tasks: Seq<Task>, cid: u64)
    ensures
        count_assigned(tasks, cid) == tasks.filter(|t: Task| t.assignee == Some(cid)).len(),
    decreases tasks.len(),
{
    reveal(Seq::filter);
    if tasks.len() > 0 {
        lemma_count_is_filter_len(tasks.drop_last(), cid);
    }
}

/// In a well-formed registry every caretaker's case count is the number of
/// tasks whose assignee is that caretaker.
pub proof fn lemma_case_count_is_assigned_tasks(reg: AssignmentRegistry)
    requires
        reg.wf(),
    ensures
        forall|k: int|
            0 <= k < reg.caretaker_seq().len() ==> (#[trigger] reg.caretaker_seq()[k]).case == reg.task_seq().filter(
                |t: Task| t.assignee == Some(reg.caretaker_seq()[k].id),
            ).len(),
{
    assert forall|k: int| 0 <= k < reg.caretaker_seq().len() implies (#[trigger] reg.caretaker_seq()[k]).case
        == reg.task_seq().filter(|t: Task| t.assignee == Some(reg.caretaker_seq()[k].id)).len() by {
        lemma_count_is_filter_len(reg.task_seq(), reg.caretaker_seq()[k].id);
    }
}

/// Committing the same task to the same caretaker twice in a row: the second
/// commit answers as the first did and changes nothing, so the caretaker's
/// count went up once.
pub proof fn lemma_recommit_changes_nothing(
    r0: AssignmentRegistry,
    task_id: u64,
    caretaker_id: u64,
    r1: AssignmentRegistry,
    res1: Result<(), AssignmentError>,
    r2: AssignmentRegistry,
    res2: Result<(), AssignmentError>,
)
    requires
        r0.wf(),
        commit_post(r0, task_id, caretaker_id, r1, res1),
        commit_post(r1, task_id, caretaker_id, r2, res2),
    ensures
        res2 == res1,
        r2 == r1,
{
    if res1 is Ok && assignee_of(r0.task_seq(), task_id) != Some(caretaker_id) {
        let t0 = r0.task_seq();
        let t1 = r1.task_seq();
        let i = choose|i: int| 0 <= i < t0.len() && t0[i].id == task_id;
        assert(t1[i].id == task_id);
        assert(has_task(t1, task_id));
        let c = choose|j: int| 0 <= j < r0.caretaker_seq().len() && r0.caretaker_seq()[j].id == caretaker_id;
        assert(r1.caretaker_seq()[c].id == caretaker_id);
        assert(has_caretaker(r1.caretaker_seq(), caretaker_id));
        let j = choose|j: int| 0 <= j < t1.len() && t1[j].id == task_id;
        assert(t1[j] == with_assignee(t0[j], Some(caretaker_id)));
        assert(assignee_of(t1, task_id) == Some(caretaker_id));
        assert(res2 is Ok);
    } else if res1 is Ok {
        assert(r1 == r0);
    } else {
        assert(r1 == r0);
        assert(res2 is Err);
    }
}

/// Owns the tasks and caretakers and the assignment relation between them.
pub struct AssignmentRegistry {
    tasks: Vec<Task>,
    caretakers: Vec<Caretaker>,
}

impl AssignmentRegistry {
    pub closed spec fn task_seq(&self) -> Seq<Task> {
        self.tasks@
    }

    pub closed spec fn caretaker_seq(&self) -> Seq<Caretaker> {
        self.caretakers@
    }

    /// Ids are unique, every assignee is a known caretaker, and every
    /// caretaker's case count is the number of tasks assigned to it.
    pub open spec fn wf(&self) -> bool {
        &&& task_ids_unique(self.task_seq())
        &&& caretaker_ids_unique(self.caretaker_seq())
        &&& forall|i: int|
            0 <= i < self.task_seq().len() && (#[trigger] self.task_seq()[i]).assignee.is_some()
                ==> has_caretaker(self.caretaker_seq(), self.task_seq()[i].assignee.unwrap())
        &&& counts_match(self.task_seq(), self.caretaker_seq())
    }

    /// An empty registry.
    pub fn new() -> (r: Self)
        ensures
            r.wf(),
            r.task_seq() == Seq::<Task>::empty(),
            r.caretaker_seq() == Seq::<Caretaker>::empty(),
    {
        AssignmentRegistry { tasks: Vec::new(), caretakers: Vec::new() }
    }

    /// Index of the task with id `id`.
    pub fn find_task(&self, id: u64) -> (r: Option<usize>)
        ensures
            match r {
                Some(i) => i < self.task_seq().len() && self.task_seq()[i as int].id == id,
                None => !has_task(self.task_seq(), id),
            },
    {
        let mut i: usize = 0;
        while i < self.tasks.len()
            invariant
                i <= self.tasks@.len(),
                forall|j: int| 0 <= j < i ==> self.tasks@[j].id != id,
            decreases self.tasks@.len() - i,
        {
            if self.tasks[i].id == id {
                return Some(i);
            }
            i = i + 1;
        }
        None
    }

    /// Index of the caretaker with id `id`.
    pub fn find_caretaker(&self, id: u64) -> (r: Option<usize>)
        ensures
            match r {
                Some(i) => i < self.caretaker_seq().len() && self.caretaker_seq()[i as int].id == id,
                None => !has_caretaker(self.caretaker_seq(), id),
            },
    {
        let mut i: usize = 0;
        while i < self.caretakers.len()
            invariant
                i <= self.caretakers@.len(),
                forall|j: int| 0 <= j < i ==> self.caretakers@[j].id != id,
            decreases self.caretakers@.len() - i,
        {
            if self.caretakers[i].id == id {
                return Some(i);
            }
            i = i + 1;
        }
        None
    }

    /// Adds a caretaker with no cases; refused when its id is taken.
    pub fn add_caretaker(&mut self, c: Caretaker) -> (r: Result<(), RegistryError>)
        requires
            old(self).wf(),
        ensures
            final(self).wf(),
            final(self).task_seq() == old(self).task_seq(),
            has_caretaker(old(self).caretaker_seq(), c.id) ==> r == Err::<(), RegistryError>(
                RegistryError::DuplicateCaretaker,
            ) && final(self).caretaker_seq() == old(self).caretaker_seq(),
            !has_caretaker(old(self).caretaker_seq(), c.id) ==> r is Ok
                && final(self).caretaker_seq() == old(self).caretaker_seq().push(with_case(c, 0)),
    {
        if self.find_caretaker(c.id).is_some() {
            return Err(RegistryError::DuplicateCaretaker);
        }
        let ghost t = self.tasks@;
        let ghost cs = self.caretakers@;
        let fresh = Caretaker { id: c.id, name: c.name, cred: c.cred, case: 0 };
        self.caretakers.push(fresh);
        proof {
            // no task refers to the new id, since every assignee is known
            assert forall|i: int| 0 <= i < t.len() implies t[i].assignee != Some(c.id) by {
                if t[i].assignee == Some(c.id) {
                    assert(has_caretaker(cs, c.id));
                }
            }
            lemma_count_zero(t, c.id);
            assert forall|i: int|
                0 <= i < self.tasks@.len() && (#[trigger] self.tasks@[i]).assignee.is_some()
                    implies has_caretaker(self.caretakers@, self.tasks@[i].assignee.unwrap()) by {
                let j = choose|j: int| 0 <= j < cs.len() && cs[j].id == t[i].assignee.unwrap();
                assert(self.caretakers@[j] == cs[j]);
            }
            assert(counts_match(self.tasks@, self.caretakers@)) by {
                assert forall|k: int| 0 <= k < self.caretakers@.len() implies #[trigger] self.caretakers@[k].case
                    == count_assigned(self.tasks@, self.caretakers@[k].id) by {
                    if k < cs.len() {
                        assert(self.caretakers@[k] == cs[k]);
                    }
                }
            }
        }
        Ok(())
    }

    /// Adds a task, unassigned; refused when its id is taken.
    pub fn add_task(&mut self, t: Task) -> (r: Result<(), RegistryError>)
        requires
            old(self).wf(),
        ensures
            final(self).wf(),
            final(self).caretaker_seq() == old(self).caretaker_seq(),
            has_task(old(self).task_seq(), t.id) ==> r == Err::<(), RegistryError>(
                RegistryError::DuplicateTask,
            ) && final(self).task_seq() == old(self).task_seq(),
            !has_task(old(self).task_seq(), t.id) ==> r is Ok
                && final(self).task_seq() == old(self).task_seq().push(with_assignee(t, None)),
    {
        if self.find_task(t.id).is_some() {
            return Err(RegistryError::DuplicateTask);
        }
        let ghost ts = self.tasks@;
        let fresh = Task {
            id: t.id,
            assignee: None,
            client_name: t.client_name,
            job: t.job,
            location: t.location,
            service: t.service,
        };
        self.tasks.push(fresh);
        proof {
            assert forall|k: int| 0 <= k < self.caretakers@.len() implies #[trigger] self.caretakers@[k].case
                == count_assigned(self.tasks@, self.caretakers@[k].id) by {
                lemma_count_push(ts, fresh, self.caretakers@[k].id);
            }
            assert forall|i: int|
                0 <= i < self.tasks@.len() && (#[trigger] self.tasks@[i]).assignee.is_some()
                    implies has_caretaker(self.caretakers@, self.tasks@[i].assignee.unwrap()) by {
                assert(i < ts.len());
                assert(self.tasks@[i] == ts[i]);
            }
        }
        Ok(())
    }

    /// A snapshot of the tasks.
    pub fn list_tasks(&self) -> (r: Vec<Task>)
        ensures
            r@ == self.task_seq(),
    {
        let mut out: Vec<Task> = Vec::new();
        let mut i: usize = 0;
        while i < self.tasks.len()
            invariant
                i <= self.tasks@.len(),
                out@ == self.tasks@.subrange(0, i as int),
            decreases self.tasks@.len() - i,
        {
            out.push(self.tasks[i].duplicate());
            i = i + 1;
        }
        assert(out@ =~= self.tasks@);
        out
    }

    /// A snapshot of the caretakers.
    pub fn list_caretakers(&self) -> (r: Vec<Caretaker>)
        ensures
            r@ == self.caretaker_seq(),
    {
        let mut out: Vec<Caretaker> = Vec::new();
        let mut i: usize = 0;
        while i < self.caretakers.len()
            invariant
                i <= self.caretakers@.len(),
                out@ == self.caretakers@.subrange(0, i as int),
            decreases self.caretakers@.len() - i,
        {
            out.push(self.caretakers[i].duplicate());
            i = i + 1;
        }
        assert(out@ =~= self.caretakers@);
        out
    }

    /// The assignee of task `task_id`, or `None` when there is no such task.
    pub fn assignee(&self, task_id: u64) -> (r: Option<Option<u64>>)
        requires
            self.wf(),
        ensures
            r is None <==> !has_task(self.task_seq(), task_id),
            r is Some ==> r.unwrap() == assignee_of(self.task_seq(), task_id),
    {
        match self.find_task(task_id) {
            None => None,
            Some(i) => Some(self.tasks[i].assignee),
        }
    }

    /// The case count of caretaker `id`, or `None` when there is no such caretaker.
    pub fn case_count(&self, id: u64) -> (r: Option<usize>)
        requires
            self.wf(),
        ensures
            r is None <==> !has_caretaker(self.caretaker_seq(), id),
            r is Some ==> r.unwrap() == count_assigned(self.task_seq(), id),
    {
        match self.find_caretaker(id) {
            None => None,
            Some(i) => Some(self.caretakers[i].case),
        }
    }

    /// Gives task `task_id` to caretaker `caretaker_id`.
    ///
    /// Re-assignment policy: the previous assignee, if any, loses the case, so
    /// every count stays the caretaker's current case load. Committing a task
    /// to the caretaker that already holds it changes nothing.
    pub fn commit_assignment(&mut self, task_id: u64, caretaker_id: u64) -> (r: Result<(), AssignmentError>)
        requires
            old(self).wf(),
        ensures
            final(self).wf(),
            commit_post(*old(self), task_id, caretaker_id, *final(self), r),
    {
        let ti = match self.find_task(task_id) {
            None => {
                return Err(AssignmentError::UnknownTask);
            },
            Some(i) => i,
        };
        let ci = match self.find_caretaker(caretaker_id) {
            None => {
                return Err(AssignmentError::UnknownCaretaker);
            },
            Some(i) => i,
        };
        let ghost t0 = self.tasks@;
        let ghost c0 = self.caretakers@;
        let prev = self.tasks[ti].assignee;
        proof {
            let j = choose|j: int| 0 <= j < t0.len() && t0[j].id == task_id;
            assert(j == ti as int);
            assert(assignee_of(t0, task_id) == prev);
        }
        match prev {
            Some(p) => {
                if p == caretaker_id {
                    return Ok(());
                }
                proof {
                    // every assignee is a known caretaker
                    assert(has_caretaker(c0, p));
                    lemma_count_positive(t0, ti as int, p);
                }
                let pi = self.find_caretaker(p).unwrap();
                self.caretakers[pi].case = self.caretakers[pi].case - 1;
            },
            None => {},
        }
        let ghost c1 = self.caretakers@;
        proof {
            lemma_count_bound(t0.update(ti as int, with_assignee(t0[ti as int], Some(caretaker_id))), caretaker_id);
            lemma_count_update(t0, ti as int, with_assignee(t0[ti as int], Some(caretaker_id)), caretaker_id);
            assert(c1[ci as int].case == c0[ci as int].case);
            assert(prev != Some(caretaker_id));
            assert(t0.len() == self.tasks.len());
            assert(c1[ci as int].case < t0.len());
        }
        self.tasks[ti].assignee = Some(caretaker_id);
        self.caretakers[ci].case = self.caretakers[ci].case + 1;
        proof {
            let nt = with_assignee(t0[ti as int], Some(caretaker_id));
            assert(self.tasks@ =~= t0.update(ti as int, nt));
            assert(self.tasks@ =~= reassigned(t0, task_id, caretaker_id));
            assert forall|k: int| 0 <= k < c0.len() implies #[trigger] self.caretakers@[k] == with_case(
                c0[k],
                recounted(c0[k], prev, caretaker_id) as usize,
            ) by {
                lemma_count_update(t0, ti as int, nt, c0[k].id);
            }
            assert forall|k: int| 0 <= k < self.caretakers@.len() implies #[trigger] self.caretakers@[k].case
                == count_assigned(self.tasks@, self.caretakers@[k].id) by {
                lemma_count_update(t0, ti as int, nt, c0[k].id);
            }
            assert forall|i: int|
                0 <= i < self.tasks@.len() && (#[trigger] self.tasks@[i]).assignee.is_some()
                    implies has_caretaker(self.caretakers@, self.tasks@[i].assignee.unwrap()) by {
                if i == ti {
                    assert(self.caretakers@[ci as int].id == caretaker_id);
                } else {
                    let j = choose|j: int| 0 <= j < c0.len() && c0[j].id == t0[i].assignee.unwrap();
                    assert(self.caretakers@[j].id == c0[j].id);
                }
            }
        }
        Ok(())
    }
}

} // verus!
