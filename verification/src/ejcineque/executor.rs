//! The executor's bookkeeping: task ids, the per-core queues of ready tasks, and the
//! choice of the least loaded queue for a new task.  The futures themselves are polled by
//! the caller.
use vstd::prelude::*;

verus! {

/// A task's identity.
#[derive(Debug, Clone, Copy, PartialEq, Eq, Structural)]
pub struct TaskID(pub u64);

/// A task: its id and the queue (the core) it stays on.
#[derive(Debug, Clone, Copy, PartialEq, Eq, Structural)]
pub struct Task {
    pub id: TaskID,
    // they stay in the same core to keep cacheline efficiency
    pub queue_id: u32,
}

/// What wakes a task: its id, pushed back on its queue.
#[derive(Debug, Clone, Copy, PartialEq, Eq, Structural)]
pub struct TaskWaker {
    pub id: TaskID,
}

/// One core's queue of ready tasks and the tasks it holds.
#[derive(Debug, Clone)]
pub struct ExecutorContext {
    pub tasks: Vec<TaskID>,
    pub tasks_map: Vec<Task>,
}

/// Whether `id` is among the tasks of `m`.
pub open spec fn holds(m: Seq<Task>, id: TaskID) -> bool {
    exists|k: int| 0 <= k < m.len() && m[k].id == id
}

impl ExecutorContext {
    /// A context with nothing queued.
    pub fn new() -> (c: Self)
        ensures
            c.tasks@.len() == 0,
            c.tasks_map@.len() == 0,
    {
        ExecutorContext { tasks: Vec::new(), tasks_map: Vec::new() }
    }

    /// Wakes task `w.id`: it goes to the back of the queue.
    pub fn wake(&mut self, w: TaskWaker)
        ensures
            final(self).tasks@ == old(self).tasks@.push(w.id),
            final(self).tasks_map == old(self).tasks_map,
    {
        self.tasks.push(w.id);
    }

    /// A context with the same queue and the same tasks.
    pub fn copy(&self) -> (c: Self)
        ensures
            c.tasks@ == self.tasks@,
            c.tasks_map@ == self.tasks_map@,
    {
        let mut tasks: Vec<TaskID> = Vec::new();
        let mut i: usize = 0;
        while i < self.tasks.len()
            invariant
                i <= self.tasks@.len(),
                tasks@ == self.tasks@.take(i as int),
            decreases self.tasks@.len() - i,
        {
            tasks.push(self.tasks[i]);
            assert(tasks@ =~= self.tasks@.take(i + 1));
            i = i + 1;
        }
        let mut tasks_map: Vec<Task> = Vec::new();
        let mut j: usize = 0;
        while j < self.tasks_map.len()
            invariant
                j <= self.tasks_map@.len(),
                tasks_map@ == self.tasks_map@.take(j as int),
            decreases self.tasks_map@.len() - j,
        {
            tasks_map.push(self.tasks_map[j]);
            assert(tasks_map@ =~= self.tasks_map@.take(j + 1));
            j = j + 1;
        }
        assert(tasks@ =~= self.tasks@);
        assert(tasks_map@ =~= self.tasks_map@);
        ExecutorContext { tasks, tasks_map }
    }

    /// The next task to poll: the front of the queue, taken off it, if the context still
    /// holds that task; `None` where the queue is empty or the task is gone.
    pub fn next_task(&mut self) -> (r: Option<Task>)
        ensures
            old(self).tasks@.len() == 0 ==> r is None && final(self).tasks@ == old(self).tasks@,
            old(self).tasks@.len() > 0 ==> final(self).tasks@ == old(self).tasks@.drop_first(),
            old(self).tasks@.len() > 0 ==> (r is Some <==> holds(old(self).tasks_map@, old(self).tasks@[0])),
            r matches Some(t) ==> t.id == old(self).tasks@[0] && old(self).tasks_map@.contains(t),
            final(self).tasks_map == old(self).tasks_map,
    {
        if self.tasks.len() == 0 {
            return None;
        }
        let id = self.tasks.remove(0);
        let mut k: usize = 0;
        while k < self.tasks_map.len()
            invariant
                k <= self.tasks_map@.len(),
                self.tasks_map == old(self).tasks_map,
                old(self).tasks@.len() > 0,
                self.tasks@ == old(self).tasks@.drop_first(),
                id == old(self).tasks@[0],
                forall|j: int| 0 <= j < k ==> self.tasks_map@[j].id != id,
            decreases self.tasks_map@.len() - k,
        {
            if self.tasks_map[k].id.0 == id.0 {
                let t = self.tasks_map[k];
                assert(self.tasks_map@[k as int] == t);
                return Some(t);
            }
            k = k + 1;
        }
        None
    }

    /// Drops a finished task: every task with its id leaves the held tasks, the others
    /// stay in order.
    pub fn finish(&mut self, id: TaskID)
        ensures
            final(self).tasks_map@ == old(self).tasks_map@.filter(not_task(id)),
            final(self).tasks == old(self).tasks,
    {
        let mut kept: Vec<Task> = Vec::new();
        let mut k: usize = 0;
        while k < self.tasks_map.len()
            invariant
                k <= self.tasks_map@.len(),
                self.tasks_map == old(self).tasks_map,
                kept@ == self.tasks_map@.take(k as int).filter(not_task(id)),
            decreases self.tasks_map@.len() - k,
        {
            let t = self.tasks_map[k];
            proof {
                assert(self.tasks_map@.take(k + 1) =~= self.tasks_map@.take(k as int).push(t));
                self.tasks_map@.take(k as int).lemma_filter_push(t, not_task(id));
            }
            if t.id.0 != id.0 {
                kept.push(t);
            }
            k = k + 1;
        }
        assert(self.tasks_map@.take(self.tasks_map@.len() as int) =~= self.tasks_map@);
        self.tasks_map = kept;
    }
}

/// The test that keeps the tasks other than `id`.
pub open spec fn not_task(id: TaskID) -> spec_fn(Task) -> bool {
    |t: Task| t.id != id
}

/// The id after `c` in the counter's order: zero after the largest.
pub open spec fn next_counter(c: u64) -> u64 {
    if c == u64::MAX { 0 } else { (c + 1) as u64 }
}

/// Whether one of the queues `ctxs` belongs to the core `id`.
pub open spec fn has_queue(ctxs: Seq<(u32, ExecutorContext)>, id: u32) -> bool {
    exists|k: int| 0 <= k < ctxs.len() && ctxs[k].0 == id
}

/// Hands out task ids and places new tasks on the least loaded queue of an executor.  It
/// keeps no state of its own: every spawner works on the executor's one counter and its
/// queues, so the spawners of one executor share them.
#[derive(Debug, Clone, Copy)]
pub struct Spawner {}

/// Every task that the queues `ctxs` hold has an id below `c`.
pub open spec fn ids_below(ctxs: Seq<(u32, ExecutorContext)>, c: u64) -> bool {
    forall|k: int, i: int| 0 <= k < ctxs.len() && 0 <= i < ctxs[k].1.tasks_map@.len()
        ==> (#[trigger] ctxs[k].1.tasks_map@[i]).id.0 < c
}

/// No task id is held twice, on one queue or on two.
pub open spec fn ids_distinct(ctxs: Seq<(u32, ExecutorContext)>) -> bool {
    forall|k1: int, i1: int, k2: int, i2: int|
        #![trigger ctxs[k1].1.tasks_map@[i1], ctxs[k2].1.tasks_map@[i2]]
        0 <= k1 < ctxs.len() && 0 <= i1 < ctxs[k1].1.tasks_map@.len() && 0 <= k2 < ctxs.len() && 0 <= i2
            < ctxs[k2].1.tasks_map@.len() && (k1 != k2 || i1 != i2) ==> ctxs[k1].1.tasks_map@[i1].id
            != ctxs[k2].1.tasks_map@[i2].id
}

/// The queues are kept by core id, in increasing order, so no core has two.
pub open spec fn queues_sorted(ctxs: Seq<(u32, ExecutorContext)>) -> bool {
    forall|k: int, l: int| 0 <= k < l < ctxs.len() ==> ctxs[k].0 < ctxs[l].0
}

/// Whether `id` is held on one of the queues `ctxs`.
pub open spec fn id_held(ctxs: Seq<(u32, ExecutorContext)>, id: TaskID) -> bool {
    exists|k: int, i: int| 0 <= k < ctxs.len() && 0 <= i < ctxs[k].1.tasks_map@.len()
        && (#[trigger] ctxs[k].1.tasks_map@[i]).id == id
}

/// The position of the first queue with the fewest ready tasks, queues taken in the
/// order given.
pub open spec fn is_least_loaded(ctxs: Seq<(u32, ExecutorContext)>, k: int) -> bool {
    &&& 0 <= k < ctxs.len()
    &&& forall|j: int| 0 <= j < ctxs.len() ==> ctxs[k].1.tasks@.len() <= #[trigger] ctxs[j].1.tasks@.len()
    &&& forall|j: int| 0 <= j < k ==> ctxs[k].1.tasks@.len() < #[trigger] ctxs[j].1.tasks@.len()
}

impl Spawner {
    /// Spawns a task on `executor`: it gets the executor's counter as its id (the counter
    /// moves on, wrapping to zero after the largest id), and goes to the first queue with
    /// the fewest ready tasks, queued and held there.  Without any queue there is nothing to
    /// spawn on.  On a well-formed executor whose counter has not reached the largest id, the
    /// new id is held nowhere yet, and the executor stays well-formed.
    pub fn spawn(&self, executor: &mut Executor) -> (r: Option<Task>)
        ensures
            final(executor).counter == next_counter(old(executor).counter),
            old(executor).contexts@.len() == 0 <==> r is None,
            old(executor).contexts@.len() == 0 ==> final(executor).contexts == old(executor).contexts,
            r matches Some(t) ==> {
                &&& t.id == TaskID(old(executor).counter)
                &&& exists|k: int| is_least_loaded(old(executor).contexts@, k) && t.queue_id == old(executor).contexts@[k].0
                    && final(executor).contexts@[k].1.tasks@ == old(executor).contexts@[k].1.tasks@.push(t.id)
                    && final(executor).contexts@[k].1.tasks_map@ == old(executor).contexts@[k].1.tasks_map@.push(t)
                    && final(executor).contexts@[k].0 == old(executor).contexts@[k].0
                    && final(executor).contexts@.len() == old(executor).contexts@.len()
                    && forall|j: int| 0 <= j < old(executor).contexts@.len() && j != k ==> final(executor).contexts@[j] == old(executor).contexts@[j]
            },
            old(executor).wf() && old(executor).counter < u64::MAX ==> {
                &&& final(executor).wf()
                &&& r matches Some(t) ==> !id_held(old(executor).contexts@, t.id)
            },
    {
        let id = TaskID(executor.counter);
        if executor.counter == u64::MAX {
            executor.counter = 0;
        } else {
            executor.counter = executor.counter + 1;
        }
        if executor.contexts.len() == 0 {
            return None;
        }
        let mut best: usize = 0;
        let mut i: usize = 1;
        while i < executor.contexts.len()
            invariant
                1 <= i <= executor.contexts@.len(),
                best < i,
                forall|j: int| 0 <= j < i ==> executor.contexts@[best as int].1.tasks@.len() <= #[trigger] executor.contexts@[j].1.tasks@.len(),
                forall|j: int| 0 <= j < best ==> executor.contexts@[best as int].1.tasks@.len() < #[trigger] executor.contexts@[j].1.tasks@.len(),
            decreases executor.contexts@.len() - i,
        {
            if executor.contexts[i].1.tasks.len() < executor.contexts[best].1.tasks.len() {
                best = i;
            }
            i = i + 1;
        }
        let queue_id = executor.contexts[best].0;
        let task = Task { id, queue_id };
        let ghost before = executor.contexts@;
        let (qid, mut ctx) = executor.contexts.remove(best);
        ctx.tasks.push(id);
        ctx.tasks_map.push(task);
        executor.contexts.insert(best, (qid, ctx));
        proof {
            assert(is_least_loaded(before, best as int));
            assert forall|j: int| 0 <= j < before.len() && j != best implies executor.contexts@[j] == before[j] by {
                if j < best {
                    assert(executor.contexts@[j] == before.remove(best as int)[j]);
                } else {
                    assert(executor.contexts@[j] == before.remove(best as int)[j - 1]);
                }
            }
            let after = executor.contexts@;
            let b = best as int;
            assert(after[b].1.tasks_map@ == before[b].1.tasks_map@.push(task));
            if old(executor).wf() && old(executor).counter < u64::MAX {
                assert(executor.counter == id.0 + 1);
                assert forall|k: int, i2: int| 0 <= k < after.len() && 0 <= i2 < after[k].1.tasks_map@.len()
                    implies (#[trigger] after[k].1.tasks_map@[i2]).id.0 < executor.counter by {
                    if k == b && i2 == before[b].1.tasks_map@.len() {
                    } else if k == b {
                        assert(after[k].1.tasks_map@[i2] == before[k].1.tasks_map@[i2]);
                    } else {
                        assert(after[k] == before[k]);
                    }
                }
                assert forall|k1: int, i1: int, k2: int, i2: int|
                    0 <= k1 < after.len() && 0 <= i1 < after[k1].1.tasks_map@.len() && 0 <= k2 < after.len() && 0 <= i2
                        < after[k2].1.tasks_map@.len() && (k1 != k2 || i1 != i2)
                    implies #[trigger] after[k1].1.tasks_map@[i1].id != #[trigger] after[k2].1.tasks_map@[i2].id by {
                    let n = before[b].1.tasks_map@.len();
                    let new1 = k1 == b && i1 == n;
                    let new2 = k2 == b && i2 == n;
                    if !new1 {
                        if k1 == b {
                            assert(after[k1].1.tasks_map@[i1] == before[k1].1.tasks_map@[i1]);
                        } else {
                            assert(after[k1] == before[k1]);
                        }
                        assert(before[k1].1.tasks_map@[i1].id.0 < id.0);
                    }
                    if !new2 {
                        if k2 == b {
                            assert(after[k2].1.tasks_map@[i2] == before[k2].1.tasks_map@[i2]);
                        } else {
                            assert(after[k2] == before[k2]);
                        }
                        assert(before[k2].1.tasks_map@[i2].id.0 < id.0);
                    }
                    if !new1 && !new2 {
                        assert(before[k1].1.tasks_map@[i1].id != before[k2].1.tasks_map@[i2].id);
                    }
                }
                assert forall|k: int, l: int| 0 <= k < l < after.len() implies after[k].0 < after[l].0 by {
                    assert(after[k].0 == before[k].0 && after[l].0 == before[l].0);
                }
                assert(!id_held(before, id)) by {
                    if id_held(before, id) {
                        let (k, i2) = choose|k: int, i2: int| 0 <= k < before.len() && 0 <= i2 < before[k].1.tasks_map@.len()
                            && (#[trigger] before[k].1.tasks_map@[i2]).id == id;
                        assert(before[k].1.tasks_map@[i2].id.0 < id.0);
                    }
                }
            }
        }
        Some(task)
    }
}

/// The executor: the id counter and the queue of each core.
#[derive(Debug, Clone)]
pub struct Executor {
    pub counter: u64,
    pub contexts: Vec<(u32, ExecutorContext)>,
}

impl Executor {
    /// The executor's invariant: the queues are kept by core id, no task id is held twice,
    /// and every held id is below the counter, so the counter's next id is fresh.
    pub open spec fn wf(&self) -> bool {
        &&& queues_sorted(self.contexts@)
        &&& ids_distinct(self.contexts@)
        &&& ids_below(self.contexts@, self.counter)
    }

    /// An executor with an empty queue for each of the cores `cpu_ids`, ids counted from zero.
    /// The queues are kept by core id: in increasing order, one for each distinct id.
    pub fn new(cpu_ids: &Vec<u32>) -> (e: Self)
        ensures
            e.counter == 0,
            forall|k: int| 0 <= k < e.contexts@.len() ==> cpu_ids@.contains(#[trigger] e.contexts@[k].0)
                && e.contexts@[k].1.tasks@.len() == 0 && e.contexts@[k].1.tasks_map@.len() == 0,
            forall|j: int| 0 <= j < cpu_ids@.len() ==> has_queue(e.contexts@, #[trigger] cpu_ids@[j]),
            forall|k: int, l: int| 0 <= k < l < e.contexts@.len() ==> e.contexts@[k].0 < e.contexts@[l].0,
            e.wf(),
    {
        let mut contexts: Vec<(u32, ExecutorContext)> = Vec::new();
        let mut i: usize = 0;
        while i < cpu_ids.len()
            invariant
                i <= cpu_ids@.len(),
                forall|k: int| 0 <= k < contexts@.len() ==> cpu_ids@.take(i as int).contains(#[trigger] contexts@[k].0)
                    && contexts@[k].1.tasks@.len() == 0 && contexts@[k].1.tasks_map@.len() == 0,
                forall|j: int| 0 <= j < i ==> has_queue(contexts@, #[trigger] cpu_ids@[j]),
                forall|k: int, l: int| 0 <= k < l < contexts@.len() ==> contexts@[k].0 < contexts@[l].0,
            decreases cpu_ids@.len() - i,
        {
            let id = cpu_ids[i];
            let mut pos: usize = 0;
            while pos < contexts.len() && contexts[pos].0 < id
                invariant
                    pos <= contexts@.len(),
                    forall|k: int| 0 <= k < pos ==> contexts@[k].0 < id,
                decreases contexts@.len() - pos,
            {
                pos = pos + 1;
            }
            let ghost before = contexts@;
            proof {
                assert forall|k: int| 0 <= k < before.len() implies cpu_ids@.take(i + 1).contains(#[trigger] before[k].0) by {
                    let w = choose|w: int| 0 <= w < i && cpu_ids@.take(i as int)[w] == before[k].0;
                    assert(cpu_ids@.take(i + 1)[w] == before[k].0);
                }
                assert(cpu_ids@.take(i + 1)[i as int] == id);
            }
            if pos < contexts.len() && contexts[pos].0 == id {
                assert(contexts@[pos as int].0 == cpu_ids@[i as int]);
                assert(has_queue(contexts@, cpu_ids@[i as int]));
            } else {
                contexts.insert(pos, (id, ExecutorContext::new()));
                proof {
                    before.insert_ensures(pos as int, (id, contexts@[pos as int].1));
                    assert(contexts@[pos as int].0 == cpu_ids@[i as int]);
                    assert(has_queue(contexts@, cpu_ids@[i as int]));
                    assert forall|j: int| 0 <= j < i implies has_queue(contexts@, #[trigger] cpu_ids@[j]) by {
                        assert(has_queue(before, cpu_ids@[j]));
                        let k = choose|k: int| 0 <= k < before.len() && before[k].0 == cpu_ids@[j];
                        if k < pos {
                            assert(contexts@[k].0 == cpu_ids@[j]);
                        } else {
                            assert(contexts@[k + 1].0 == cpu_ids@[j]);
                        }
                    }
                    assert forall|k: int, l: int| 0 <= k < l < contexts@.len() implies contexts@[k].0 < contexts@[l].0 by {
                        if pos < before.len() {
                            assert(before[pos as int].0 > id);
                        }
                        if l < pos {
                            assert(contexts@[k] == before[k] && contexts@[l] == before[l]);
                        } else if l == pos {
                            assert(contexts@[k] == before[k]);
                        } else if k < pos {
                            assert(contexts@[k] == before[k] && contexts@[l] == before[l - 1]);
                        } else if k == pos {
                            assert(contexts@[l] == before[l - 1]);
                            assert(before[pos as int].0 <= before[l - 1].0);
                        } else {
                            assert(contexts@[k] == before[k - 1] && contexts@[l] == before[l - 1]);
                        }
                    }
                    assert forall|k: int| 0 <= k < contexts@.len() implies cpu_ids@.take(i + 1).contains(#[trigger] contexts@[k].0)
                        && contexts@[k].1.tasks@.len() == 0 && contexts@[k].1.tasks_map@.len() == 0 by {
                        if k < pos {
                            assert(contexts@[k] == before[k]);
                        } else if k > pos {
                            assert(contexts@[k] == before[k - 1]);
                        }
                    }
                }
            }
            i = i + 1;
        }
        assert(cpu_ids@.take(cpu_ids@.len() as int) =~= cpu_ids@);
        let e = Executor { counter: 0, contexts };
        assert(ids_below(e.contexts@, 0)) by {
            assert forall|k: int, i2: int| 0 <= k < e.contexts@.len() && 0 <= i2 < e.contexts@[k].1.tasks_map@.len()
                implies (#[trigger] e.contexts@[k].1.tasks_map@[i2]).id.0 < 0 by {
                let q = e.contexts@[k].0;
                assert(e.contexts@[k].1.tasks_map@.len() == 0);
            }
        }
        assert(ids_distinct(e.contexts@)) by {
            assert forall|k1: int, i1: int, k2: int, i2: int|
                0 <= k1 < e.contexts@.len() && 0 <= i1 < e.contexts@[k1].1.tasks_map@.len() && 0 <= k2
                    < e.contexts@.len() && 0 <= i2 < e.contexts@[k2].1.tasks_map@.len() && (k1 != k2 || i1 != i2)
                implies #[trigger] e.contexts@[k1].1.tasks_map@[i1].id != #[trigger] e.contexts@[k2].1.tasks_map@[i2].id by {
                let q = e.contexts@[k1].0;
                assert(e.contexts@[k1].1.tasks_map@.len() == 0);
            }
        }
        e
    }

    /// A spawner of this executor: it spawns through the executor's own counter and
    /// queues, which all its spawners share.
    pub fn spawner(&self) -> (s: Spawner) {
        Spawner {}
    }

    /// Runs the executor; the cores run their own queues, so nothing is done here.
    pub fn run(&self) {
    }
}

} // verus!
