use vstd::prelude::*;
use crate::model::{Caretaker, Location, Service, Task};
use crate::text::{lex_le, lex_lt, lemma_lex_lt_iff, lemma_lex_total, lemma_lex_trans, lemma_lex_antisym, lemma_lex_refl, text_le};

verus! {

/// Direction of a table's sort.
#[derive(Debug, Clone, Copy, PartialEq, Eq, Structural)]
pub enum Direction {
    Ascending,
    Descending,
}

/// Key `a` sorts strictly before key `b` in direction `dir`.
pub open spec fn precedes(a: Seq<char>, b: Seq<char>, dir: Direction) -> bool {
    match dir {
        Direction::Ascending => lex_lt(a, b),
        Direction::Descending => lex_lt(b, a),
    }
}

/// Row `i` is shown before row `j`: its key sorts first, or the keys are
/// equal and it came first in the input.
pub open spec fn ranked_before(keys: Seq<Seq<char>>, i: int, j: int, dir: Direction) -> bool {
    precedes(keys[i], keys[j], dir) || (keys[i] == keys[j] && i < j)
}

/// `p` lists every row index of `keys` once, in stable sorted order.
pub open spec fn is_stable_order(keys: Seq<Seq<char>>, p: Seq<usize>, dir: Direction) -> bool {
    &&& p.len() == keys.len()
    &&& forall|k: int| 0 <= k < p.len() ==> #[trigger] p[k] < keys.len()
    &&& forall|k: int, l: int|
        0 <= k < l < p.len() ==> ranked_before(keys, #[trigger] p[k] as int, #[trigger] p[l] as int, dir)
}

pub open spec fn views(keys: Seq<String>) -> Seq<Seq<char>> {
    keys.map_values(|s: String| s@)
}

pub proof fn lemma_precedes_total(a: Seq<char>, b: Seq<char>, dir: Direction)
    ensures
        precedes(a, b, dir) || precedes(b, a, dir) || a == b,
{
    lemma_lex_total(a, b);
}

pub proof fn lemma_precedes_trans(a: Seq<char>, b: Seq<char>, c: Seq<char>, dir: Direction)
    requires
        precedes(a, b, dir),
        precedes(b, c, dir) || b == c,
    ensures
        precedes(a, c, dir),
{
    lemma_lex_refl(b);
    match dir {
        Direction::Ascending => {
            lemma_lex_trans(a, b, c);
            if a == c {
                lemma_lex_antisym(a, b);
            }
        },
        Direction::Descending => {
            lemma_lex_trans(c, b, a);
            if a == c {
                lemma_lex_antisym(a, b);
            }
        },
    }
}

fn precedes_exec(a: &String, b: &String, dir: Direction) -> (r: bool)
    ensures
        r == precedes(a@, b@, dir),
{
    proof {
        lemma_lex_lt_iff(a@, b@);
        lemma_lex_lt_iff(b@, a@);
    }
    match dir {
        Direction::Ascending => !text_le(b, a),
        Direction::Descending => !text_le(a, b),
    }
}

/// The row indices of `keys` in stable sorted order: by key in direction
/// `dir`, rows with equal keys in their input order.
pub fn stable_order(keys: &Vec<String>, dir: Direction) -> (r: Vec<usize>)
    ensures
        is_stable_order(views(keys@), r@, dir),
{
    let ghost ks = views(keys@);
    let mut out: Vec<usize> = Vec::new();
    let mut i: usize = 0;
    while i < keys.len()
        invariant
            ks == views(keys@),
            i <= keys@.len(),
            out@.len() == i,
            forall|k: int| 0 <= k < out@.len() ==> #[trigger] out@[k] < i,
            forall|k: int, l: int|
                0 <= k < l < out@.len() ==> ranked_before(ks, #[trigger] out@[k] as int, #[trigger] out@[l] as int, dir),
        decreases keys@.len() - i,
    {
        let mut j: usize = out.len();
        while j > 0 && precedes_exec(&keys[i], &keys[out[j - 1]], dir)
            invariant
                ks == views(keys@),
                i < keys@.len(),
                j <= out@.len(),
                out@.len() == i,
                forall|k: int| 0 <= k < out@.len() ==> #[trigger] out@[k] < i,
                forall|m: int| j <= m < out@.len() ==> precedes(ks[i as int], #[trigger] ks[out@[m] as int], dir),
            decreases j,
        {
            j = j - 1;
        }
        let ghost old_out = out@;
        proof {
            // rows before the insertion point do not sort after row i
            assert forall|k: int| 0 <= k < j implies !precedes(ks[i as int], #[trigger] ks[old_out[k] as int], dir) by {
                if k < j - 1 {
                    let a = ks[old_out[k] as int];
                    let b = ks[old_out[j - 1] as int];
                    assert(ranked_before(ks, old_out[k] as int, old_out[j - 1] as int, dir));
                    if precedes(ks[i as int], a, dir) {
                        lemma_precedes_trans(ks[i as int], a, b, dir);
                    }
                }
            }
        }
        out.insert(j, i);
        proof {
            let n = out@;
            assert(n =~= old_out.insert(j as int, i));
            assert forall|k: int| 0 <= k < n.len() implies #[trigger] n[k] < i + 1 by {
                if k < j {
                    assert(n[k] == old_out[k]);
                } else if k > j {
                    assert(n[k] == old_out[k - 1]);
                }
            }
            assert forall|k: int, l: int| 0 <= k < l < n.len() implies ranked_before(
                ks,
                #[trigger] n[k] as int,
                #[trigger] n[l] as int,
                dir,
            ) by {
                if k < j && l < j {
                    assert(n[k] == old_out[k] && n[l] == old_out[l]);
                } else if k < j && l == j {
                    assert(n[k] == old_out[k]);
                    lemma_precedes_total(ks[i as int], ks[old_out[k] as int], dir);
                } else if k < j && l > j {
                    assert(n[k] == old_out[k] && n[l] == old_out[l - 1]);
                    assert(ranked_before(ks, old_out[k] as int, old_out[l - 1] as int, dir));
                } else if k == j {
                    assert(n[l] == old_out[l - 1]);
                } else {
                    assert(n[k] == old_out[k - 1] && n[l] == old_out[l - 1]);
                    assert(ranked_before(ks, old_out[k - 1] as int, old_out[l - 1] as int, dir));
                }
            }
        }
        i = i + 1;
    }
    out
}


/// Sortable caretaker columns.
#[derive(Debug, Clone, Copy, PartialEq, Eq, Structural)]
pub enum CaretakerColumn {
    Name,
    Credential,
}

/// Sortable task columns.
#[derive(Debug, Clone, Copy, PartialEq, Eq, Structural)]
pub enum TaskColumn {
    Assignee,
    Client,
    Job,
}

/// Column and direction of the caretaker table's sort.
#[derive(Debug, Clone, Copy, PartialEq, Eq, Structural)]
pub struct CaretakerOrdering {
    pub column: CaretakerColumn,
    pub direction: Direction,
}

/// Column and direction of the task table's sort.
#[derive(Debug, Clone, Copy, PartialEq, Eq, Structural)]
pub struct TaskOrdering {
    pub column: TaskColumn,
    pub direction: Direction,
}

impl CaretakerOrdering {
    /// Ascending by name.
    pub fn by_name() -> (r: Self)
        ensures
            r.column == CaretakerColumn::Name,
            r.direction == Direction::Ascending,
    {
        CaretakerOrdering { column: CaretakerColumn::Name, direction: Direction::Ascending }
    }

    /// Descending by credential.
    pub fn by_credential() -> (r: Self)
        ensures
            r.column == CaretakerColumn::Credential,
            r.direction == Direction::Descending,
    {
        CaretakerOrdering { column: CaretakerColumn::Credential, direction: Direction::Descending }
    }
}

impl TaskOrdering {
    /// Ascending by `column`, the sort a click on that header selects.
    pub fn ascending(column: TaskColumn) -> (r: Self)
        ensures
            r.column == column,
            r.direction == Direction::Ascending,
    {
        TaskOrdering { column, direction: Direction::Ascending }
    }
}

/// The rows of `s` in the order that `p` lists their indices.
pub open spec fn permuted<T>(s: Seq<T>, p: Seq<usize>) -> Seq<T> {
    p.map_values(|i: usize| s[i as int])
}

pub open spec fn caretaker_key(c: Caretaker, col: CaretakerColumn) -> Seq<char> {
    match col {
        CaretakerColumn::Name => c.name@,
        CaretakerColumn::Credential => c.cred@,
    }
}

pub open spec fn caretaker_keys(cs: Seq<Caretaker>, col: CaretakerColumn) -> Seq<Seq<char>> {
    cs.map_values(|c: Caretaker| caretaker_key(c, col))
}

/// `r` is `cs` stably sorted by `ord`.
pub open spec fn orders_caretakers(cs: Seq<Caretaker>, ord: CaretakerOrdering, r: Seq<Caretaker>) -> bool {
    exists|p: Seq<usize>|
        is_stable_order(caretaker_keys(cs, ord.column), p, ord.direction) && r == permuted(cs, p)
}

/// `r` is `ts` stably sorted by `ord`, assignees named as in `cs`.
pub open spec fn orders_tasks(ts: Seq<Task>, cs: Seq<Caretaker>, ord: TaskOrdering, r: Seq<Task>) -> bool {
    exists|p: Seq<usize>|
        is_stable_order(task_keys(ts, cs, ord.column), p, ord.direction) && r == permuted(ts, p)
}

/// Name of the first caretaker in `cs` with id `id`; empty when there is none.
pub open spec fn name_for(cs: Seq<Caretaker>, id: u64) -> Seq<char>
    decreases cs.len(),
{
    if cs.len() == 0 {
        Seq::empty()
    } else if cs[0].id == id {
        cs[0].name@
    } else {
        name_for(cs.drop_first(), id)
    }
}

/// Text of a task's assignee column: the assignee's name, empty when unassigned.
pub open spec fn assignee_text(cs: Seq<Caretaker>, a: Option<u64>) -> Seq<char> {
    match a {
        None => Seq::empty(),
        Some(id) => name_for(cs, id),
    }
}

pub open spec fn task_key(t: Task, cs: Seq<Caretaker>, col: TaskColumn) -> Seq<char> {
    match col {
        TaskColumn::Assignee => assignee_text(cs, t.assignee),
        TaskColumn::Client => t.client_name@,
        TaskColumn::Job => t.job@,
    }
}

pub open spec fn task_keys(ts: Seq<Task>, cs: Seq<Caretaker>, col: TaskColumn) -> Seq<Seq<char>> {
    ts.map_values(|t: Task| task_key(t, cs, col))
}

/// A task passes the filter: each selection is unset or equals the task's field.
pub open spec fn selected(t: Task, loc: Option<Location>, svc: Option<Service>) -> bool {
    (loc is None || loc == Some(t.location)) && (svc is None || svc == Some(t.service))
}

/// Text of the assignee column for assignee `a`.
pub fn assignee_name(cs: &Vec<Caretaker>, a: Option<u64>) -> (r: String)
    ensures
        r@ == assignee_text(cs@, a),
{
    match a {
        None => String::new(),
        Some(id) => {
            let mut i: usize = 0;
            assert(cs@.subrange(0, cs@.len() as int) =~= cs@);
            while i < cs.len()
                invariant
                    a == Some(id),
                    i <= cs@.len(),
                    name_for(cs@, id) == name_for(cs@.subrange(i as int, cs@.len() as int), id),
                decreases cs@.len() - i,
            {
                let ghost rest = cs@.subrange(i as int, cs@.len() as int);
                assert(rest.drop_first() =~= cs@.subrange(i + 1, cs@.len() as int));
                assert(rest[0] == cs@[i as int]);
                if cs[i].id == id {
                    let n = cs[i].name.clone();
                    return n;
                }
                i = i + 1;
            }
            String::new()
        },
    }
}

fn copy_rows_caretakers(cs: &Vec<Caretaker>, p: &Vec<usize>) -> (r: Vec<Caretaker>)
    requires
        forall|k: int| 0 <= k < p@.len() ==> #[trigger] p@[k] < cs@.len(),
    ensures
        r@ == permuted(cs@, p@),
{
    let mut out: Vec<Caretaker> = Vec::new();
    let mut k: usize = 0;
    while k < p.len()
        invariant
            k <= p@.len(),
            forall|m: int| 0 <= m < p@.len() ==> #[trigger] p@[m] < cs@.len(),
            out@ =~= permuted(cs@, p@.subrange(0, k as int)),
        decreases p@.len() - k,
    {
        out.push(cs[p[k]].duplicate());
        k = k + 1;
        assert(out@ =~= permuted(cs@, p@.subrange(0, k as int)));
    }
    assert(p@.subrange(0, k as int) =~= p@);
    out
}

fn copy_rows_tasks(ts: &Vec<Task>, p: &Vec<usize>) -> (r: Vec<Task>)
    requires
        forall|k: int| 0 <= k < p@.len() ==> #[trigger] p@[k] < ts@.len(),
    ensures
        r@ == permuted(ts@, p@),
{
    let mut out: Vec<Task> = Vec::new();
    let mut k: usize = 0;
    while k < p.len()
        invariant
            k <= p@.len(),
            forall|m: int| 0 <= m < p@.len() ==> #[trigger] p@[m] < ts@.len(),
            out@ =~= permuted(ts@, p@.subrange(0, k as int)),
        decreases p@.len() - k,
    {
        out.push(ts[p[k]].duplicate());
        k = k + 1;
        assert(out@ =~= permuted(ts@, p@.subrange(0, k as int)));
    }
    assert(p@.subrange(0, k as int) =~= p@);
    out
}

/// The caretakers in display order: stably sorted by the ordering's column
/// and direction, equal keys keeping their input order.
pub fn order_caretakers(cs: &Vec<Caretaker>, ord: CaretakerOrdering) -> (r: Vec<Caretaker>)
    ensures
        orders_caretakers(cs@, ord, r@),
{
    let mut keys: Vec<String> = Vec::new();
    let mut i: usize = 0;
    while i < cs.len()
        invariant
            i <= cs@.len(),
            views(keys@) =~= caretaker_keys(cs@.subrange(0, i as int), ord.column),
        decreases cs@.len() - i,
    {
        let key = match ord.column {
            CaretakerColumn::Name => cs[i].name.clone(),
            CaretakerColumn::Credential => cs[i].cred.clone(),
        };
        assert(key@ == caretaker_key(cs@[i as int], ord.column));
        let ghost before = keys@;
        keys.push(key);
        proof {
            assert(views(keys@) =~= views(before).push(key@));
            assert(cs@.subrange(0, i + 1) =~= cs@.subrange(0, i as int).push(cs@[i as int]));
        }
        i = i + 1;
        assert(views(keys@) =~= caretaker_keys(cs@.subrange(0, i as int), ord.column));
    }
    assert(cs@.subrange(0, i as int) =~= cs@);
    let p = stable_order(&keys, ord.direction);
    let r = copy_rows_caretakers(cs, &p);
    assert(is_stable_order(caretaker_keys(cs@, ord.column), p@, ord.direction));
    r
}

/// The tasks in display order: stably sorted by the ordering's column and
/// direction, the assignee column by the assignee's name in `cs`.
pub fn order_tasks(ts: &Vec<Task>, cs: &Vec<Caretaker>, ord: TaskOrdering) -> (r: Vec<Task>)
    ensures
        orders_tasks(ts@, cs@, ord, r@),
{
    let mut keys: Vec<String> = Vec::new();
    let mut i: usize = 0;
    while i < ts.len()
        invariant
            i <= ts@.len(),
            views(keys@) =~= task_keys(ts@.subrange(0, i as int), cs@, ord.column),
        decreases ts@.len() - i,
    {
        let key = match ord.column {
            TaskColumn::Assignee => assignee_name(cs, ts[i].assignee),
            TaskColumn::Client => ts[i].client_name.clone(),
            TaskColumn::Job => ts[i].job.clone(),
        };
        assert(key@ == task_key(ts@[i as int], cs@, ord.column));
        let ghost before = keys@;
        keys.push(key);
        proof {
            assert(views(keys@) =~= views(before).push(key@));
            assert(ts@.subrange(0, i + 1) =~= ts@.subrange(0, i as int).push(ts@[i as int]));
        }
        i = i + 1;
        assert(views(keys@) =~= task_keys(ts@.subrange(0, i as int), cs@, ord.column));
    }
    assert(ts@.subrange(0, i as int) =~= ts@);
    let p = stable_order(&keys, ord.direction);
    let r = copy_rows_tasks(ts, &p);
    assert(is_stable_order(task_keys(ts@, cs@, ord.column), p@, ord.direction));
    r
}

/// The tasks that pass the location and service selections, in input order.
pub fn filter_tasks(ts: &Vec<Task>, loc: Option<Location>, svc: Option<Service>) -> (r: Vec<Task>)
    ensures
        r@ == ts@.filter(|t: Task| selected(t, loc, svc)),
{
    let mut out: Vec<Task> = Vec::new();
    let mut i: usize = 0;
    while i < ts.len()
        invariant
            i <= ts@.len(),
            out@ == ts@.subrange(0, i as int).filter(|t: Task| selected(t, loc, svc)),
        decreases ts@.len() - i,
    {
        let t = &ts[i];
        let keep_loc = match loc {
            None => true,
            Some(l) => l == t.location,
        };
        let keep_svc = match svc {
            None => true,
            Some(s) => s == t.service,
        };
        proof {
            reveal(Seq::filter);
            assert(ts@.subrange(0, i + 1).drop_last() =~= ts@.subrange(0, i as int));
        }
        if keep_loc && keep_svc {
            out.push(t.duplicate());
        }
        i = i + 1;
    }
    assert(ts@.subrange(0, i as int) =~= ts@);
    out
}


/// Caretakers ordered by name ascending: each name is lexicographically at
/// most every later one.
pub proof fn lemma_by_name_sorted(cs: Seq<Caretaker>, ord: CaretakerOrdering, r: Seq<Caretaker>)
    requires
        ord.column == CaretakerColumn::Name,
        ord.direction == Direction::Ascending,
        orders_caretakers(cs, ord, r),
    ensures
        forall|k: int, l: int| 0 <= k < l < r.len() ==> lex_le(#[trigger] r[k].name@, #[trigger] r[l].name@),
{
    let p = choose|p: Seq<usize>|
        is_stable_order(caretaker_keys(cs, ord.column), p, ord.direction) && r == permuted(cs, p);
    assert forall|k: int, l: int| 0 <= k < l < r.len() implies lex_le(#[trigger] r[k].name@, #[trigger] r[l].name@) by {
        assert(ranked_before(caretaker_keys(cs, ord.column), p[k] as int, p[l] as int, ord.direction));
        lemma_lex_refl(r[k].name@);
    }
}

/// Caretakers ordered by credential descending: each credential is
/// lexicographically at least every later one.
pub proof fn lemma_by_credential_sorted(cs: Seq<Caretaker>, ord: CaretakerOrdering, r: Seq<Caretaker>)
    requires
        ord.column == CaretakerColumn::Credential,
        ord.direction == Direction::Descending,
        orders_caretakers(cs, ord, r),
    ensures
        forall|k: int, l: int| 0 <= k < l < r.len() ==> lex_le(#[trigger] r[l].cred@, #[trigger] r[k].cred@),
{
    let p = choose|p: Seq<usize>|
        is_stable_order(caretaker_keys(cs, ord.column), p, ord.direction) && r == permuted(cs, p);
    assert forall|k: int, l: int| 0 <= k < l < r.len() implies lex_le(#[trigger] r[l].cred@, #[trigger] r[k].cred@) by {
        assert(ranked_before(caretaker_keys(cs, ord.column), p[k] as int, p[l] as int, ord.direction));
        lemma_lex_refl(r[k].cred@);
    }
}

/// With both selections unset every task passes, in its order.
pub proof fn lemma_filter_unset_keeps_all(ts: Seq<Task>, loc: Option<Location>, svc: Option<Service>)
    requires
        loc is None,
        svc is None,
    ensures
        ts.filter(|t: Task| selected(t, loc, svc)) == ts,
    decreases ts.len(),
{
    reveal(Seq::filter);
    if ts.len() > 0 {
        lemma_filter_unset_keeps_all(ts.drop_last(), loc, svc);
        assert(ts.drop_last().push(ts.last()) =~= ts);
    }
}

/// With both selections set, a task is shown exactly when it is in the input
/// and has that location and that service.
pub proof fn lemma_filter_exact(ts: Seq<Task>, loc: Option<Location>, svc: Option<Service>)
    requires
        loc is Some,
        svc is Some,
    ensures
        forall|t: Task|
            ts.filter(|t: Task| selected(t, loc, svc)).contains(t) <==> (ts.contains(t) && Some(t.location)
                == loc && Some(t.service) == svc),
{
    broadcast use vstd::seq_lib::group_filter_ensures;

    let f = ts.filter(|t: Task| selected(t, loc, svc));
    assert forall|t: Task| f.contains(t) implies ts.contains(t) by {
        ts.lemma_filter_contains_rev(|t: Task| selected(t, loc, svc), t);
    }
}

} // verus!
