//! The task store, with per-owner scoping.
//!
//! Every operation except creation filters by `(task id, owner)` or by
//! `(owner)` alone — never by task id alone — so a task one user owns is
//! invisible and unmodifiable to every other user, even with a
//! well-formed identifier in hand. Mutating operations hand back the
//! owner's refreshed task list, in store order.

use vstd::prelude::*;

use crate::digits::{dec_value, parse_id, valid_id_string};
use crate::model::{AppError, CreateTask, Date, Task, TaskStatus};

verus! {

/// The tasks owned by `owner`, in store order.
pub open spec fn tasks_of_owner(s: Seq<Task>, owner: u64) -> Seq<Task> {
    s.filter(|t: Task| t.user_id == owner)
}

/// The tasks left once `owner`'s are removed, in store order.
pub open spec fn tasks_of_others(s: Seq<Task>, owner: u64) -> Seq<Task> {
    s.filter(|t: Task| t.user_id != owner)
}

/// `owner`'s tasks due on `date` and not yet done, in store order.
pub open spec fn due_tasks(s: Seq<Task>, owner: u64, date: Date) -> Seq<Task> {
    s.filter(|t: Task| t.user_id == owner && t.due_date == date && !(t.status is Done))
}

/// No two stored tasks share an id.
pub open spec fn unique_task_ids(s: Seq<Task>) -> bool {
    forall|i: int, j: int|
        0 <= i < j < s.len() ==> (#[trigger] s[i].id) != (#[trigger] s[j].id)
}

/// Filtering a sequence extended by one element.
pub(crate) proof fn lemma_filter_push<A>(s: Seq<A>, pred: spec_fn(A) -> bool, x: A)
    ensures
        pred(x) ==> s.push(x).filter(pred) == s.filter(pred).push(x),
        !pred(x) ==> s.push(x).filter(pred) == s.filter(pred),
{
    reveal(Seq::filter);
    assert(s.push(x).drop_last() =~= s);
    assert(s.push(x).last() == x);
}

/// Owns the task records.
pub struct TaskRepository {
    pub tasks: Vec<Task>,
    pub next_id: u64,
}

impl TaskRepository {
    /// The store's invariant: task ids unique and below `next_id`.
    pub open spec fn wf(self) -> bool {
        &&& unique_task_ids(self.tasks@)
        &&& forall|i: int| 0 <= i < self.tasks@.len() ==> (#[trigger] self.tasks@[i].id) < self.next_id
    }

    /// Whether some stored task carries `id` and belongs to `owner`.
    pub open spec fn has_task(self, id: u64, owner: u64) -> bool {
        exists|i: int|
            0 <= i < self.tasks@.len() && (#[trigger] self.tasks@[i].id) == id
                && self.tasks@[i].user_id == owner
    }

    /// An empty store.
    pub fn init() -> (r: Self)
        ensures
            r.wf(),
            r.tasks@ =~= Seq::<Task>::empty(),
            r.next_id == 0,
    {
        TaskRepository { tasks: Vec::new(), next_id: 0 }
    }

    /// All of `user_id`'s tasks, in store order.
    #[verifier::loop_isolation(false)]
    pub fn find_all_for_user(&self, user_id: u64) -> (r: Result<Vec<Task>, AppError>)
        ensures
            r matches Ok(v) && v@ == tasks_of_owner(self.tasks@, user_id),
    {
        let ghost spred = |t: Task| t.user_id == user_id;
        let n = self.tasks.len();
        let mut out: Vec<Task> = Vec::new();
        let mut i: usize = 0;
        while i < n
            invariant
                0 <= i <= n,
                n == self.tasks@.len(),
                out@ == self.tasks@.subrange(0, i as int).filter(spred),
            decreases n - i,
        {
            proof {
                assert(self.tasks@.subrange(0, i + 1) =~= self.tasks@.subrange(0, i as int).push(
                    self.tasks@[i as int],
                ));
                lemma_filter_push(self.tasks@.subrange(0, i as int), spred, self.tasks@[i as int]);
            }
            if self.tasks[i].user_id == user_id {
                out.push(self.tasks[i].clone());
            }
            i = i + 1;
        }
        proof {
            assert(self.tasks@.subrange(0, n as int) =~= self.tasks@);
        }
        Ok(out)
    }

    /// Inserts a new task for `user_id` with a fresh id and status `ToDo`,
    /// and returns the owner's refreshed task list.
    #[verifier::loop_isolation(false)]
    pub fn create_task(&mut self, new_task: &CreateTask, user_id: u64) -> (r: Result<
        Vec<Task>,
        AppError,
    >)
        requires
            old(self).wf(),
            old(self).next_id < u64::MAX,
        ensures
            final(self).wf(),
            final(self).tasks@ == old(self).tasks@.push(
                (Task {
                    id: old(self).next_id,
                    user_id,
                    title: new_task.title,
                    description: new_task.description,
                    status: TaskStatus::ToDo,
                    due_date: new_task.due_date,
                }),
            ),
            r matches Ok(v) && v@ == tasks_of_owner(final(self).tasks@, user_id),
    {
        let id = self.next_id;
        self.next_id = self.next_id + 1;
        self.tasks.push(
            Task {
                id,
                user_id,
                title: new_task.title.clone(),
                description: new_task.description.clone(),
                status: TaskStatus::ToDo,
                due_date: new_task.due_date,
            },
        );
        proof {
            let so = old(self).tasks@;
            let sn = self.tasks@;
            assert forall|i: int, j: int|
                0 <= i < j < sn.len() implies (#[trigger] sn[i].id) != (#[trigger] sn[j].id) by {
                if j < so.len() {
                    assert(so[i].id != so[j].id);
                } else {
                    assert(so[i].id < old(self).next_id);
                }
            }
            assert forall|i: int|
                0 <= i < sn.len() implies (#[trigger] sn[i].id) < self.next_id by {
                if i < so.len() {
                    assert(so[i].id < old(self).next_id);
                }
            }
        }
        self.find_all_for_user(user_id)
    }

    /// Looks a task up by `(task id, owner)`. A malformed identifier is
    /// rejected before any lookup; an absent row is a plain `None`.
    #[verifier::loop_isolation(false)]
    pub fn find_by_id(&self, task_id: &String, user_id: u64) -> (r: Result<Option<Task>, AppError>)
        ensures
            !valid_id_string(task_id@) ==> r == Err::<Option<Task>, AppError>(
                AppError::InvalidIdentifier,
            ),
            valid_id_string(task_id@) ==> match r {
                Ok(Some(t)) => exists|i: int|
                    0 <= i < self.tasks@.len() && (#[trigger] self.tasks@[i]) == t && t.id
                        == dec_value(task_id@) && t.user_id == user_id,
                Ok(None) => !self.has_task(dec_value(task_id@) as u64, user_id),
                Err(_) => false,
            },
    {
        let id = match parse_id(task_id.as_str()) {
            Some(id) => id,
            None => {
                return Err(AppError::InvalidIdentifier);
            },
        };
        let n = self.tasks.len();
        let mut i: usize = 0;
        while i < n
            invariant
                0 <= i <= n,
                n == self.tasks@.len(),
                forall|j: int|
                    0 <= j < i ==> !((#[trigger] self.tasks@[j].id) == id && self.tasks@[j].user_id
                        == user_id),
            decreases n - i,
        {
            if self.tasks[i].id == id && self.tasks[i].user_id == user_id {
                return Ok(Some(self.tasks[i].clone()));
            }
            i = i + 1;
        }
        Ok(None)
    }

    /// Removes all of `user_id`'s tasks and reports how many went.
    #[verifier::loop_isolation(false)]
    pub fn delete_all_for_user(&mut self, user_id: u64) -> (r: Result<u64, AppError>)
        requires
            old(self).wf(),
        ensures
            final(self).wf(),
            final(self).tasks@ == tasks_of_others(old(self).tasks@, user_id),
            final(self).next_id == old(self).next_id,
            r == Ok::<u64, AppError>(tasks_of_owner(old(self).tasks@, user_id).len() as u64),
    {
        let ghost keep = |t: Task| t.user_id != user_id;
        let ghost gone = |t: Task| t.user_id == user_id;
        let n = self.tasks.len();
        let mut kept: Vec<Task> = Vec::new();
        let mut removed: u64 = 0;
        let mut i: usize = 0;
        while i < n
            invariant
                0 <= i <= n,
                n == self.tasks@.len(),
                *self == *old(self),
                kept@ == self.tasks@.subrange(0, i as int).filter(keep),
                removed == self.tasks@.subrange(0, i as int).filter(gone).len(),
                removed <= i,
            decreases n - i,
        {
            proof {
                assert(self.tasks@.subrange(0, i + 1) =~= self.tasks@.subrange(0, i as int).push(
                    self.tasks@[i as int],
                ));
                lemma_filter_push(self.tasks@.subrange(0, i as int), keep, self.tasks@[i as int]);
                lemma_filter_push(self.tasks@.subrange(0, i as int), gone, self.tasks@[i as int]);
            }
            if self.tasks[i].user_id != user_id {
                kept.push(self.tasks[i].clone());
            } else {
                removed = removed + 1;
            }
            i = i + 1;
        }
        proof {
            assert(self.tasks@.subrange(0, n as int) =~= self.tasks@);
        }
        self.tasks = kept;
        proof {
            let so = old(self).tasks@;
            let sn = self.tasks@;
            assert forall|a: int, b: int|
                0 <= a < b < sn.len() implies (#[trigger] sn[a].id) != (#[trigger] sn[b].id) by {
                lemma_filter_distinct_indexes(so, keep, a, b);
                let (oa, ob): (int, int) = choose|oa: int, ob: int|
                    0 <= oa < ob < so.len() && so[oa] == sn[a] && so[ob] == sn[b];
                assert(so[oa].id != so[ob].id);
            }
            assert forall|a: int|
                0 <= a < sn.len() implies (#[trigger] sn[a].id) < self.next_id by {
                lemma_filter_index_source(so, keep, a);
                let oa = choose|oa: int| 0 <= oa < so.len() && so[oa] == sn[a];
                assert(so[oa].id < old(self).next_id);
            }
        }
        Ok(removed)
    }

    /// Removes the task matching `(task id, owner)` and returns the
    /// owner's refreshed list, or `None` when no row matched.
    #[verifier::loop_isolation(false)]
    pub fn delete_by_id(&mut self, task_id: &String, user_id: u64) -> (r: Result<
        Option<Vec<Task>>,
        AppError,
    >)
        requires
            old(self).wf(),
        ensures
            final(self).wf(),
            !valid_id_string(task_id@) ==> r == Err::<Option<Vec<Task>>, AppError>(
                AppError::InvalidIdentifier,
            ) && *final(self) == *old(self),
            valid_id_string(task_id@) ==> match r {
                Ok(Some(v)) => exists|i: int|
                    0 <= i < old(self).tasks@.len() && (#[trigger] old(self).tasks@[i].id)
                        == dec_value(task_id@) && old(self).tasks@[i].user_id == user_id
                        && final(self).tasks@ == old(self).tasks@.remove(i) && v@ == tasks_of_owner(
                        final(self).tasks@,
                        user_id,
                    ),
                Ok(None) => !old(self).has_task(dec_value(task_id@) as u64, user_id) && *final(self)
                    == *old(self),
                Err(_) => false,
            },
    {
        let id = match parse_id(task_id.as_str()) {
            Some(id) => id,
            None => {
                return Err(AppError::InvalidIdentifier);
            },
        };
        let n = self.tasks.len();
        let mut k: usize = 0;
        while k < n
            invariant
                0 <= k <= n,
                n == self.tasks@.len(),
                *self == *old(self),
                forall|j: int|
                    0 <= j < k ==> !((#[trigger] self.tasks@[j].id) == id && self.tasks@[j].user_id
                        == user_id),
            decreases n - k,
        {
            if self.tasks[k].id == id && self.tasks[k].user_id == user_id {
                self.tasks.remove(k);
                proof {
                    let so = old(self).tasks@;
                    let sn = self.tasks@;
                    so.remove_ensures(k as int);
                    assert forall|a: int, b: int|
                        0 <= a < b < sn.len() implies (#[trigger] sn[a].id) != (
                    #[trigger] sn[b].id) by {
                        let oa: int = if a < k { a } else { a + 1 };
                        let ob: int = if b < k { b } else { b + 1 };
                        assert(sn[a] == so[oa]);
                        assert(sn[b] == so[ob]);
                        assert(so[oa].id != so[ob].id);
                    }
                    assert forall|a: int|
                        0 <= a < sn.len() implies (#[trigger] sn[a].id) < self.next_id by {
                        let oa: int = if a < k { a } else { a + 1 };
                        assert(sn[a] == so[oa]);
                        assert(so[oa].id < old(self).next_id);
                    }
                }
                return match self.find_all_for_user(user_id) {
                    Ok(v) => Ok(Some(v)),
                    Err(e) => Err(e),
                };
            }
            k = k + 1;
        }
        Ok(None)
    }

    /// Sets the status of the task matching `(task id, owner)` and returns
    /// the owner's refreshed list, or `None` when no row matched. Any
    /// status may follow any other; the due date is not re-validated.
    #[verifier::loop_isolation(false)]
    pub fn update_status(&mut self, task_id: &String, user_id: u64, new_status: &TaskStatus) -> (r:
        Result<Option<Vec<Task>>, AppError>)
        requires
            old(self).wf(),
        ensures
            final(self).wf(),
            !valid_id_string(task_id@) ==> r == Err::<Option<Vec<Task>>, AppError>(
                AppError::InvalidIdentifier,
            ) && *final(self) == *old(self),
            valid_id_string(task_id@) ==> match r {
                Ok(Some(v)) => exists|i: int|
                    0 <= i < old(self).tasks@.len() && (#[trigger] old(self).tasks@[i].id)
                        == dec_value(task_id@) && old(self).tasks@[i].user_id == user_id
                        && final(self).tasks@ == old(self).tasks@.update(
                        i,
                        (Task { status: *new_status, ..old(self).tasks@[i] }),
                    ) && v@ == tasks_of_owner(final(self).tasks@, user_id),
                Ok(None) => !old(self).has_task(dec_value(task_id@) as u64, user_id) && *final(self)
                    == *old(self),
                Err(_) => false,
            },
    {
        let id = match parse_id(task_id.as_str()) {
            Some(id) => id,
            None => {
                return Err(AppError::InvalidIdentifier);
            },
        };
        let n = self.tasks.len();
        let mut k: usize = 0;
        while k < n
            invariant
                0 <= k <= n,
                n == self.tasks@.len(),
                *self == *old(self),
                forall|j: int|
                    0 <= j < k ==> !((#[trigger] self.tasks@[j].id) == id && self.tasks@[j].user_id
                        == user_id),
            decreases n - k,
        {
            if self.tasks[k].id == id && self.tasks[k].user_id == user_id {
                let row = self.tasks.remove(k);
                let updated = Task { status: *new_status, ..row };
                self.tasks.insert(k, updated);
                proof {
                    let so = old(self).tasks@;
                    let sn = self.tasks@;
                    assert(sn =~= so.update(k as int, (Task { status: *new_status, ..so[k as int] })));
                    assert forall|a: int, b: int|
                        0 <= a < b < sn.len() implies (#[trigger] sn[a].id) != (
                    #[trigger] sn[b].id) by {
                        assert(so[a].id != so[b].id);
                    }
                    assert forall|a: int|
                        0 <= a < sn.len() implies (#[trigger] sn[a].id) < self.next_id by {
                        assert(so[a].id < old(self).next_id);
                    }
                }
                return match self.find_all_for_user(user_id) {
                    Ok(v) => Ok(Some(v)),
                    Err(e) => Err(e),
                };
            }
            k = k + 1;
        }
        Ok(None)
    }

    /// `user_id`'s tasks due on `due_date`, excluding those already done.
    #[verifier::loop_isolation(false)]
    pub fn find_by_due_date(&self, user_id: u64, due_date: Date) -> (r: Result<Vec<Task>, AppError>)
        ensures
            r matches Ok(v) && v@ == due_tasks(self.tasks@, user_id, due_date),
    {
        let ghost pred = |t: Task| t.user_id == user_id && t.due_date == due_date && !(t.status
            is Done);
        let n = self.tasks.len();
        let mut out: Vec<Task> = Vec::new();
        let mut i: usize = 0;
        while i < n
            invariant
                0 <= i <= n,
                n == self.tasks@.len(),
                out@ == self.tasks@.subrange(0, i as int).filter(pred),
            decreases n - i,
        {
            proof {
                assert(self.tasks@.subrange(0, i + 1) =~= self.tasks@.subrange(0, i as int).push(
                    self.tasks@[i as int],
                ));
                lemma_filter_push(self.tasks@.subrange(0, i as int), pred, self.tasks@[i as int]);
            }
            let t = &self.tasks[i];
            let is_done = match t.status {
                TaskStatus::Done => true,
                _ => false,
            };
            if t.user_id == user_id && t.due_date == due_date && !is_done {
                out.push(self.tasks[i].clone());
            }
            i = i + 1;
        }
        proof {
            assert(self.tasks@.subrange(0, n as int) =~= self.tasks@);
        }
        Ok(out)
    }
}

/// Two distinct positions of a filtered sequence come from two distinct
/// positions of the original, so their elements cannot be the very same
/// occurrence.
proof fn lemma_filter_distinct_indexes(s: Seq<Task>, pred: spec_fn(Task) -> bool, a: int, b: int)
    requires
        0 <= a < b < s.filter(pred).len(),
    ensures
        exists|oa: int, ob: int|
            0 <= oa < ob < s.len() && s[oa] == s.filter(pred)[a] && s[ob] == s.filter(pred)[b],
    decreases s.len(),
{
    reveal(Seq::filter);
    s.lemma_filter_len(pred);
    if s.len() > 0 {
        let rest = s.drop_last();
        let f = s.filter(pred);
        if pred(s.last()) && b == f.len() - 1 {
            lemma_filter_index_source(rest, pred, a);
            let oa = choose|oa: int| 0 <= oa < rest.len() && rest[oa] == rest.filter(pred)[a];
            assert(s[oa] == f[a]);
            assert(s[s.len() - 1] == f[b]);
        } else {
            lemma_filter_distinct_indexes(rest, pred, a, b);
            let (oa, ob) = choose|oa: int, ob: int|
                0 <= oa < ob < rest.len() && rest[oa] == rest.filter(pred)[a] && rest[ob]
                    == rest.filter(pred)[b];
            assert(s[oa] == s.filter(pred)[a]);
            assert(s[ob] == s.filter(pred)[b]);
        }
    }
}

/// Every element of a filtered sequence sits at some position of the
/// original.
proof fn lemma_filter_index_source(s: Seq<Task>, pred: spec_fn(Task) -> bool, a: int)
    requires
        0 <= a < s.filter(pred).len(),
    ensures
        exists|oa: int| 0 <= oa < s.len() && s[oa] == s.filter(pred)[a],
    decreases s.len(),
{
    reveal(Seq::filter);
    s.lemma_filter_len(pred);
    if s.len() > 0 {
        let rest = s.drop_last();
        let f = s.filter(pred);
        if pred(s.last()) && a == f.len() - 1 {
            assert(s[s.len() - 1] == f[a]);
        } else {
            lemma_filter_index_source(rest, pred, a);
            let oa = choose|oa: int| 0 <= oa < rest.len() && rest[oa] == rest.filter(pred)[a];
            assert(s[oa] == s.filter(pred)[a]);
        }
    }
}

/// A task of one owner is invisible to every other owner: no stored row
/// matches the pair of that task's id and a different owner's id.
pub proof fn cross_owner_isolation(s: Seq<Task>, t: Task, other_owner: u64)
    requires
        unique_task_ids(s),
        s.contains(t),
        t.user_id != other_owner,
    ensures
        forall|i: int|
            0 <= i < s.len() ==> !((#[trigger] s[i].id) == t.id && s[i].user_id == other_owner),
{
    let j = choose|j: int| 0 <= j < s.len() && s[j] == t;
    assert forall|i: int|
        0 <= i < s.len() implies !((#[trigger] s[i].id) == t.id && s[i].user_id == other_owner) by {
        if i != j {
            if i < j {
                assert(s[i].id != s[j].id);
            } else {
                assert(s[j].id != s[i].id);
            }
        }
    }
}

/// The due-today view never contains a task already done, and every task
/// in it falls due exactly on the queried date and belongs to the owner.
pub proof fn due_today_excludes_done(s: Seq<Task>, owner: u64, date: Date)
    ensures
        forall|i: int|
            0 <= i < due_tasks(s, owner, date).len() ==> !((#[trigger] due_tasks(s, owner, date)[i]).status
                is Done) && due_tasks(s, owner, date)[i].due_date == date && due_tasks(
                s,
                owner,
                date,
            )[i].user_id == owner,
{
    let pred = |t: Task| t.user_id == owner && t.due_date == date && !(t.status is Done);
    assert forall|i: int|
        0 <= i < due_tasks(s, owner, date).len() implies !((#[trigger] due_tasks(s, owner, date)[i]).status
        is Done) && due_tasks(s, owner, date)[i].due_date == date && due_tasks(s, owner, date)[i].user_id
        == owner by {
        s.lemma_filter_pred(pred, i);
    }
}

/// After a cascade delete of an owner's tasks, that owner's view of the
/// store is empty.
pub proof fn deleted_owner_has_no_tasks(s: Seq<Task>, owner: u64)
    ensures
        tasks_of_owner(tasks_of_others(s, owner), owner) =~= Seq::<Task>::empty(),
{
    let keep = |t: Task| t.user_id != owner;
    let mine = |t: Task| t.user_id == owner;
    let rem = tasks_of_others(s, owner);
    assert forall|i: int| 0 <= i < rem.len() implies !mine(#[trigger] rem[i]) by {
        s.lemma_filter_pred(keep, i);
    }
    let f = tasks_of_owner(rem, owner);
    if f.len() > 0 {
        rem.lemma_filter_pred(mine, 0);
        assert(f.contains(f[0]));
        rem.lemma_filter_contains_rev(mine, f[0]);
        let i = choose|i: int| 0 <= i < rem.len() && rem[i] == f[0];
        assert(!mine(rem[i]));
        assert(false);
    }
}

} // verus!
