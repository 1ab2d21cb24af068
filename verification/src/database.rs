use crate::error::Error;
use crate::task::{uuid_variant, uuid_version, TaskId, TaskInfo, TaskRequest, TaskRequestView, TaskStatus};
use vstd::prelude::*;

verus! {

// ---------------------------------------------------------------------------------------------
// The abstract store
// ---------------------------------------------------------------------------------------------

/// One stored task: its identifier, its status and the request it runs.
pub struct TaskEntry {
    pub id: TaskId,
    pub status: TaskStatus,
    pub request: TaskRequestView,
}

/// What a `Database` holds: the tasks in the order they were created, and the work queue,
/// front first.
pub struct DatabaseView {
    pub tasks: Seq<TaskEntry>,
    pub queue: Seq<TaskId>,
}

impl DatabaseView {
    /// The store with no task and an empty queue.
    pub open spec fn empty() -> DatabaseView {
        DatabaseView { tasks: Seq::empty(), queue: Seq::empty() }
    }

    /// Whether a task with identifier `id` is stored.
    pub open spec fn has_task(self, id: TaskId) -> bool {
        exists|i: int| 0 <= i < self.tasks.len() && #[trigger] self.tasks[i].id == id
    }

    /// The position of the task with identifier `id` (meaningful when it is stored).
    pub open spec fn position(self, id: TaskId) -> int {
        choose|i: int| 0 <= i < self.tasks.len() && #[trigger] self.tasks[i].id == id
    }

    /// Whether some stored task has a random identifier (a version 4 UUID), the only kind that
    /// a newly drawn identifier can collide with.
    pub open spec fn holds_random_id(self) -> bool {
        exists|t: TaskId| self.has_task(t) && uuid_version(t@) == 4 && uuid_variant(t@) == 2
    }

    /// No two stored tasks share an identifier.
    pub open spec fn ids_unique(self) -> bool {
        forall|i: int, j: int|
            0 <= i < self.tasks.len() && 0 <= j < self.tasks.len() && #[trigger] self.tasks[i].id
                == #[trigger] self.tasks[j].id ==> i == j
    }

    /// No task is queued twice.
    pub open spec fn queue_unique(self) -> bool {
        forall|i: int, j: int|
            0 <= i < self.queue.len() && 0 <= j < self.queue.len() && #[trigger] self.queue[i]
                == #[trigger] self.queue[j] ==> i == j
    }

    /// Every queued task is stored.
    pub open spec fn queue_stored(self) -> bool {
        forall|k: int| 0 <= k < self.queue.len() ==> self.has_task(#[trigger] self.queue[k])
    }

    /// The invariant of the store.
    pub open spec fn wf(self) -> bool {
        &&& self.ids_unique()
        &&& self.queue_unique()
        &&& self.queue_stored()
    }

    /// The summary of the task with identifier `id`, if it is stored.
    pub open spec fn info(self, id: TaskId) -> Option<TaskInfo> {
        if self.has_task(id) {
            Some(TaskInfo { id, status: self.tasks[self.position(id)].status })
        } else {
            None
        }
    }

    /// The request of the task with identifier `id`, if it is stored.
    pub open spec fn request(self, id: TaskId) -> Option<TaskRequestView> {
        if self.has_task(id) {
            Some(self.tasks[self.position(id)].request)
        } else {
            None
        }
    }

    /// The summaries of all stored tasks, in creation order.
    pub open spec fn infos(self) -> Seq<TaskInfo> {
        self.tasks.map_values(|e: TaskEntry| TaskInfo { id: e.id, status: e.status })
    }

    /// The store after a new task `id` with the given request is created: it is stored as
    /// `Pending` and appended to the queue.
    pub open spec fn insert(self, id: TaskId, request: TaskRequestView) -> DatabaseView {
        DatabaseView {
            tasks: self.tasks.push(TaskEntry { id, status: TaskStatus::Pending, request }),
            queue: self.queue.push(id),
        }
    }

    /// The store after the status of task `id` is set (unchanged when it is not stored).
    pub open spec fn set_status(self, id: TaskId, status: TaskStatus) -> DatabaseView {
        if self.has_task(id) {
            let p = self.position(id);
            DatabaseView {
                tasks: self.tasks.update(p, TaskEntry { status, ..self.tasks[p] }),
                queue: self.queue,
            }
        } else {
            self
        }
    }

    /// The task at the front of the queue, if any.
    pub open spec fn front(self) -> Option<TaskId> {
        if self.queue.len() > 0 {
            Some(self.queue[0])
        } else {
            None
        }
    }

    /// The store after the front of the queue is removed and marked `Claimed`
    /// (unchanged when the queue is empty).
    pub open spec fn pop(self) -> DatabaseView {
        if self.queue.len() > 0 {
            let claimed = self.set_status(self.queue[0], TaskStatus::Claimed);
            DatabaseView { tasks: claimed.tasks, queue: self.queue.drop_first() }
        } else {
            self
        }
    }
}

/// With unique identifiers, a stored task sits at exactly one position.
proof fn lemma_position(v: DatabaseView, i: int)
    requires
        v.ids_unique(),
        0 <= i < v.tasks.len(),
    ensures
        v.has_task(v.tasks[i].id),
        v.position(v.tasks[i].id) == i,
{
    let id = v.tasks[i].id;
    assert(v.tasks[i].id == id);
    let p = v.position(id);
    assert(0 <= p < v.tasks.len() && v.tasks[p].id == id);
}

// ---------------------------------------------------------------------------------------------
// Laws of the store
// ---------------------------------------------------------------------------------------------

/// The store after the queue has been popped `n` times.
pub open spec fn pop_times(v: DatabaseView, n: nat) -> DatabaseView
    decreases n,
{
    if n == 0 {
        v
    } else {
        pop_times(v, (n - 1) as nat).pop()
    }
}

/// A task that has just been created can be read back: it is `Pending` and holds the request
/// it was created with. The other tasks read as before.
pub proof fn lemma_create_then_read(v: DatabaseView, id: TaskId, request: TaskRequestView)
    requires
        v.wf(),
        !v.has_task(id),
    ensures
        v.insert(id, request).wf(),
        v.insert(id, request).info(id) == Some(TaskInfo { id, status: TaskStatus::Pending }),
        v.insert(id, request).request(id) == Some(request),
        forall|other: TaskId|
            other != id ==> v.insert(id, request).info(other) == v.info(other)
                && v.insert(id, request).request(other) == v.request(other),
{
    let w = v.insert(id, request);
    let n = v.tasks.len() as int;
    assert(w.tasks[n].id == id);
    assert forall|i: int, j: int|
        0 <= i < w.tasks.len() && 0 <= j < w.tasks.len() && #[trigger] w.tasks[i].id
            == #[trigger] w.tasks[j].id implies i == j by {
        if i < n && j < n {
            assert(v.tasks[i].id == v.tasks[j].id);
        } else if i < n {
            assert(v.tasks[i].id == id);
        } else if j < n {
            assert(v.tasks[j].id == id);
        }
    }
    assert forall|k: int| 0 <= k < w.queue.len() implies w.has_task(#[trigger] w.queue[k]) by {
        if k < v.queue.len() {
            let q = v.queue[k];
            assert(v.has_task(q));
            let p = choose|p: int| 0 <= p < v.tasks.len() && #[trigger] v.tasks[p].id == q;
            assert(w.tasks[p].id == q);
        }
    }
    assert forall|i: int, j: int|
        0 <= i < w.queue.len() && 0 <= j < w.queue.len() && #[trigger] w.queue[i]
            == #[trigger] w.queue[j] implies i == j by {
        if i < v.queue.len() && j < v.queue.len() {
            assert(v.queue[i] == v.queue[j]);
        } else if i < v.queue.len() {
            assert(v.has_task(v.queue[i]));
        } else if j < v.queue.len() {
            assert(v.has_task(v.queue[j]));
        }
    }
    lemma_position(w, n);
    assert forall|other: TaskId| other != id implies w.info(other) == v.info(other) && w.request(
        other,
    ) == v.request(other) by {
        if v.has_task(other) {
            let p = v.position(other);
            lemma_position(v, p);
            assert(w.tasks[p].id == other);
            lemma_position(w, p);
        } else {
            if w.has_task(other) {
                let p = choose|p: int| 0 <= p < w.tasks.len() && #[trigger] w.tasks[p].id == other;
                assert(p < n);
                assert(v.tasks[p].id == other);
            }
        }
    }
}

/// After the status of a stored task is set, the task reads back with that status; every
/// other task reads as before, the queue is unchanged, and the store stays valid.
pub proof fn lemma_update_then_read(v: DatabaseView, id: TaskId, status: TaskStatus)
    requires
        v.wf(),
        v.has_task(id),
    ensures
        v.set_status(id, status).wf(),
        v.set_status(id, status).info(id) == Some(TaskInfo { id, status }),
        v.set_status(id, status).request(id) == v.request(id),
        v.set_status(id, status).queue == v.queue,
        forall|other: TaskId|
            other != id ==> v.set_status(id, status).info(other) == v.info(other)
                && v.set_status(id, status).request(other) == v.request(other),
{
    let w = v.set_status(id, status);
    let p = v.position(id);
    lemma_position(v, p);
    assert forall|i: int, j: int|
        0 <= i < w.tasks.len() && 0 <= j < w.tasks.len() && #[trigger] w.tasks[i].id
            == #[trigger] w.tasks[j].id implies i == j by {
        assert(v.tasks[i].id == v.tasks[j].id);
    }
    assert forall|k: int| 0 <= k < w.queue.len() implies w.has_task(#[trigger] w.queue[k]) by {
        let q = v.queue[k];
        assert(v.has_task(q));
        let r = choose|r: int| 0 <= r < v.tasks.len() && #[trigger] v.tasks[r].id == q;
        assert(w.tasks[r].id == q);
    }
    lemma_position(w, p);
    assert forall|other: TaskId| other != id implies w.info(other) == v.info(other) && w.request(
        other,
    ) == v.request(other) by {
        if v.has_task(other) {
            let q = v.position(other);
            lemma_position(v, q);
            assert(w.tasks[q].id == other);
            lemma_position(w, q);
        } else {
            if w.has_task(other) {
                let q = choose|q: int| 0 <= q < w.tasks.len() && #[trigger] w.tasks[q].id == other;
                assert(v.tasks[q].id == other);
            }
        }
    }
}

/// Popping hands out the front of the queue: it is marked `Claimed`, it is no longer queued
/// (no task is handed out twice), the rest of the queue keeps its order, and the store stays
/// valid.
pub proof fn lemma_pop_claims(v: DatabaseView)
    requires
        v.wf(),
        v.queue.len() > 0,
    ensures
        v.pop().wf(),
        v.front() == Some(v.queue[0]),
        v.pop().info(v.queue[0]) == Some(TaskInfo { id: v.queue[0], status: TaskStatus::Claimed }),
        !v.pop().queue.contains(v.queue[0]),
        v.pop().queue == v.queue.drop_first(),
        forall|id: TaskId| v.pop().request(id) == v.request(id),
{
    let id = v.queue[0];
    assert(v.has_task(id));
    lemma_update_then_read(v, id, TaskStatus::Claimed);
    let c = v.set_status(id, TaskStatus::Claimed);
    let w = v.pop();
    assert(w.tasks == c.tasks);
    assert forall|i: int, j: int|
        0 <= i < w.queue.len() && 0 <= j < w.queue.len() && #[trigger] w.queue[i]
            == #[trigger] w.queue[j] implies i == j by {
        assert(v.queue[i + 1] == v.queue[j + 1]);
    }
    assert forall|k: int| 0 <= k < w.queue.len() implies w.has_task(#[trigger] w.queue[k]) by {
        assert(c.has_task(c.queue[k + 1]));
    }
    if w.queue.contains(id) {
        let k = choose|k: int| 0 <= k < w.queue.len() && w.queue[k] == id;
        assert(v.queue[k + 1] == v.queue[0]);
    }
    assert(w.has_task(id) == c.has_task(id));
    assert forall|other: TaskId| w.request(other) == v.request(other) by {
        assert(w.has_task(other) == c.has_task(other));
        if other != id {
            assert(c.request(other) == v.request(other));
        }
    }
}

/// Creating a task while others are waiting does not change which task is popped next:
/// popping and creating commute.
pub proof fn lemma_create_keeps_front(v: DatabaseView, id: TaskId, request: TaskRequestView)
    requires
        v.wf(),
        !v.has_task(id),
        v.queue.len() > 0,
    ensures
        v.insert(id, request).front() == v.front(),
        v.insert(id, request).pop() == v.pop().insert(id, request),
{
    let w = v.insert(id, request);
    let f = v.queue[0];
    assert(v.has_task(f));
    let p = v.position(f);
    lemma_position(v, p);
    lemma_create_then_read(v, id, request);
    assert(w.tasks[p].id == f);
    lemma_position(w, p);
    assert(w.pop().tasks =~= v.pop().insert(id, request).tasks);
    assert(w.pop().queue =~= v.pop().insert(id, request).queue);
}

/// First in, first out: a task created into a valid store is popped right after the tasks
/// that were waiting before it, which are popped in their order.
pub proof fn lemma_fifo(v: DatabaseView, id: TaskId, request: TaskRequestView, k: nat)
    requires
        v.wf(),
        !v.has_task(id),
        k <= v.queue.len(),
    ensures
        pop_times(v.insert(id, request), k).front() == if k < v.queue.len() {
            Some(v.queue[k as int])
        } else {
            Some(id)
        },
        pop_times(v.insert(id, request), k).queue == v.queue.skip(k as int).push(id),
        pop_times(v.insert(id, request), k).wf(),
    decreases k,
{
    let w = v.insert(id, request);
    if k == 0 {
        lemma_create_then_read(v, id, request);
        assert(w.queue.skip(0) =~= w.queue);
        assert(v.queue.skip(0).push(id) =~= w.queue);
    } else {
        lemma_fifo(v, id, request, (k - 1) as nat);
        let prev = pop_times(w, (k - 1) as nat);
        lemma_pop_claims(prev);
        assert(prev.queue.drop_first() =~= v.queue.skip(k as int).push(id));
    }
}

/// Listing after a creation gives the earlier list followed by the new task, `Pending`;
/// listing after an update of a stored task changes that task's status and nothing else.
pub proof fn lemma_list_after_changes(v: DatabaseView, id: TaskId, request: TaskRequestView, target: TaskId, status: TaskStatus)
    requires
        v.wf(),
    ensures
        v.insert(id, request).infos() == v.infos().push(TaskInfo { id, status: TaskStatus::Pending }),
        v.has_task(target) ==> v.set_status(target, status).infos() == v.infos().update(
            v.position(target),
            TaskInfo { id: target, status },
        ),
{
    assert(v.insert(id, request).infos() =~= v.infos().push(TaskInfo { id, status: TaskStatus::Pending }));
    if v.has_task(target) {
        let p = v.position(target);
        assert(v.set_status(target, status).infos() =~= v.infos().update(p, TaskInfo { id: target, status }));
    }
}

/// A stored task is never lost: creating, updating and popping keep every stored task.
pub proof fn lemma_tasks_persist(v: DatabaseView, id: TaskId, new_id: TaskId, request: TaskRequestView, target: TaskId, status: TaskStatus)
    requires
        v.wf(),
        v.has_task(id),
    ensures
        v.insert(new_id, request).has_task(id),
        v.set_status(target, status).has_task(id),
        v.pop().has_task(id),
{
    let p = v.position(id);
    assert(v.insert(new_id, request).tasks[p].id == id);
    if v.has_task(target) {
        assert(v.set_status(target, status).tasks[p].id == id);
    }
    if v.queue.len() > 0 {
        assert(v.has_task(v.queue[0]));
        assert(v.set_status(v.queue[0], TaskStatus::Claimed).tasks[p].id == id);
        assert(v.pop().tasks[p].id == id);
    }
}

// ---------------------------------------------------------------------------------------------
// Laws over any sequence of operations
// ---------------------------------------------------------------------------------------------

/// One operation on the store, as the store's methods perform it.
pub enum StoreOp {
    /// `task_insert` (and `task_create`, with the identifier it drew).
    Create { id: TaskId, request: TaskRequestView },
    /// `task_update`.
    Update { id: TaskId, status: TaskStatus },
    /// `queue_pop`.
    Pop,
}

impl DatabaseView {
    /// The store after an operation: a creation under a taken identifier and an update of a
    /// missing task change nothing, as the methods' errors do.
    pub open spec fn apply(self, op: StoreOp) -> DatabaseView {
        match op {
            StoreOp::Create { id, request } => if self.has_task(id) {
                self
            } else {
                self.insert(id, request)
            },
            StoreOp::Update { id, status } => self.set_status(id, status),
            StoreOp::Pop => self.pop(),
        }
    }

    /// The task that an operation hands out to a worker, if any.
    pub open spec fn handed_out_by(self, op: StoreOp) -> Option<TaskId> {
        match op {
            StoreOp::Pop => self.front(),
            _ => None,
        }
    }
}

/// The store after a sequence of operations.
pub open spec fn run_ops(v: DatabaseView, ops: Seq<StoreOp>) -> DatabaseView
    decreases ops.len(),
{
    if ops.len() == 0 {
        v
    } else {
        run_ops(v, ops.drop_last()).apply(ops.last())
    }
}

/// The tasks handed out to workers by a sequence of operations, in order.
pub open spec fn handed_out(v: DatabaseView, ops: Seq<StoreOp>) -> Seq<TaskId>
    decreases ops.len(),
{
    if ops.len() == 0 {
        Seq::empty()
    } else {
        let prev = handed_out(v, ops.drop_last());
        match run_ops(v, ops.drop_last()).handed_out_by(ops.last()) {
            Some(t) => prev.push(t),
            None => prev,
        }
    }
}

/// Whether some operation of a sequence creates a task with identifier `id`.
pub open spec fn creates(ops: Seq<StoreOp>, id: TaskId) -> bool {
    exists|i: int| 0 <= i < ops.len() && (#[trigger] ops[i] matches StoreOp::Create { id: c, .. } && c == id)
}

/// One operation keeps the store valid, keeps every stored task and its request, adds only
/// the task it creates, and changes the queue only by appending a created task or removing
/// the front.
proof fn lemma_apply_step(v: DatabaseView, op: StoreOp)
    requires
        v.wf(),
    ensures
        v.apply(op).wf(),
        forall|x: TaskId|
            #[trigger] v.apply(op).has_task(x) <==> (v.has_task(x) || (op matches StoreOp::Create {
                id,
                ..
            } && id == x)),
        forall|x: TaskId| v.has_task(x) ==> #[trigger] v.apply(op).request(x) == v.request(x),
        match op {
            StoreOp::Create { id, .. } => if v.has_task(id) {
                v.apply(op).queue == v.queue
            } else {
                v.apply(op).queue == v.queue.push(id)
            },
            StoreOp::Update { .. } => v.apply(op).queue == v.queue,
            StoreOp::Pop => v.apply(op).queue == if v.queue.len() > 0 {
                v.queue.drop_first()
            } else {
                v.queue
            },
        },
{
    let w = v.apply(op);
    match op {
        StoreOp::Create { id, request } => {
            if !v.has_task(id) {
                lemma_create_then_read(v, id, request);
                assert forall|x: TaskId| #[trigger] w.has_task(x) <==> (v.has_task(x) || x == id) by {
                    if v.has_task(x) {
                        let p = v.position(x);
                        assert(w.tasks[p].id == x);
                    }
                    if x == id {
                        assert(w.tasks[v.tasks.len() as int].id == id);
                    }
                    if w.has_task(x) && x != id {
                        let p = choose|p: int| 0 <= p < w.tasks.len() && #[trigger] w.tasks[p].id == x;
                        assert(p < v.tasks.len());
                        assert(v.tasks[p].id == x);
                    }
                }
            }
        },
        StoreOp::Update { id, status } => {
            if v.has_task(id) {
                lemma_update_then_read(v, id, status);
                assert forall|x: TaskId| #[trigger] w.has_task(x) <==> v.has_task(x) by {
                    if v.has_task(x) {
                        let p = v.position(x);
                        assert(w.tasks[p].id == x);
                    }
                    if w.has_task(x) {
                        let p = choose|p: int| 0 <= p < w.tasks.len() && #[trigger] w.tasks[p].id == x;
                        assert(v.tasks[p].id == x);
                    }
                }
            }
        },
        StoreOp::Pop => {
            if v.queue.len() > 0 {
                lemma_pop_claims(v);
                let f = v.queue[0];
                assert(v.has_task(f));
                let c = v.set_status(f, TaskStatus::Claimed);
                assert(w.tasks == c.tasks);
                assert forall|x: TaskId| #[trigger] w.has_task(x) <==> v.has_task(x) by {
                    if v.has_task(x) {
                        let p = v.position(x);
                        assert(w.tasks[p].id == x);
                    }
                    if w.has_task(x) {
                        let p = choose|p: int| 0 <= p < w.tasks.len() && #[trigger] w.tasks[p].id == x;
                        assert(v.tasks[p].id == x);
                    }
                }
            }
        },
    }
}

/// No task is handed out twice: over any sequence of operations on a valid store, the tasks
/// handed out to workers are all different, and none of them is still queued or lost.
pub proof fn lemma_never_handed_out_twice(v: DatabaseView, ops: Seq<StoreOp>)
    requires
        v.wf(),
    ensures
        run_ops(v, ops).wf(),
        forall|i: int, j: int|
            0 <= i < handed_out(v, ops).len() && 0 <= j < handed_out(v, ops).len() && #[trigger] handed_out(v, ops)[i]
                == #[trigger] handed_out(v, ops)[j] ==> i == j,
        forall|i: int|
            0 <= i < handed_out(v, ops).len() ==> run_ops(v, ops).has_task(#[trigger] handed_out(v, ops)[i])
                && !run_ops(v, ops).queue.contains(handed_out(v, ops)[i]),
    decreases ops.len(),
{
    if ops.len() > 0 {
        let prev_ops = ops.drop_last();
        let op = ops.last();
        lemma_never_handed_out_twice(v, prev_ops);
        let u = run_ops(v, prev_ops);
        let h = handed_out(v, prev_ops);
        let w = run_ops(v, ops);
        let hw = handed_out(v, ops);
        assert(w == u.apply(op));
        lemma_apply_step(u, op);
        match u.handed_out_by(op) {
            Some(f) => {
                assert(op is Pop && u.queue.len() > 0 && f == u.queue[0]);
                assert(hw == h.push(f));
                assert(u.queue.contains(f));
                lemma_pop_claims(u);
                assert forall|i: int, j: int|
                    0 <= i < hw.len() && 0 <= j < hw.len() && #[trigger] hw[i] == #[trigger] hw[j] implies i == j by {
                    if i < h.len() && j < h.len() {
                        assert(h[i] == h[j]);
                    } else if i < h.len() {
                        assert(h[i] == f);
                    } else if j < h.len() {
                        assert(h[j] == f);
                    }
                }
                assert forall|i: int| 0 <= i < hw.len() implies w.has_task(#[trigger] hw[i])
                    && !w.queue.contains(hw[i]) by {
                    if i < h.len() {
                        let x = h[i];
                        assert(u.has_task(x));
                        if w.queue.contains(x) {
                            let k = choose|k: int| 0 <= k < w.queue.len() && w.queue[k] == x;
                            assert(u.queue[k + 1] == x);
                        }
                    } else {
                        assert(hw[i] == f);
                        assert(u.has_task(f));
                    }
                }
            },
            None => {
                assert(hw == h);
                assert forall|i: int| 0 <= i < hw.len() implies w.has_task(#[trigger] hw[i])
                    && !w.queue.contains(hw[i]) by {
                    let x = h[i];
                    assert(u.has_task(x));
                    match op {
                        StoreOp::Create { id, .. } => {
                            if !u.has_task(id) {
                                if w.queue.contains(x) {
                                    let k = choose|k: int| 0 <= k < w.queue.len() && w.queue[k] == x;
                                    if k < u.queue.len() {
                                        assert(u.queue[k] == x);
                                    }
                                }
                            }
                        },
                        _ => {},
                    }
                }
            },
        }
    }
}

/// A created task's request reads back unchanged after any sequence of further operations.
pub proof fn lemma_request_reads_back(v: DatabaseView, id: TaskId, request: TaskRequestView, ops: Seq<StoreOp>)
    requires
        v.wf(),
        !v.has_task(id),
    ensures
        run_ops(v.insert(id, request), ops).wf(),
        run_ops(v.insert(id, request), ops).request(id) == Some(request),
    decreases ops.len(),
{
    if ops.len() == 0 {
        lemma_create_then_read(v, id, request);
    } else {
        lemma_request_reads_back(v, id, request, ops.drop_last());
        let u = run_ops(v.insert(id, request), ops.drop_last());
        lemma_apply_step(u, ops.last());
        assert(u.has_task(id));
    }
}

/// Starting from the empty store, a task is stored exactly when one of the operations
/// created it; asking for the request of any other identifier fails.
pub proof fn lemma_stored_iff_created(ops: Seq<StoreOp>, id: TaskId)
    ensures
        run_ops(DatabaseView::empty(), ops).wf(),
        run_ops(DatabaseView::empty(), ops).has_task(id) <==> creates(ops, id),
        !creates(ops, id) ==> run_ops(DatabaseView::empty(), ops).request(id) is None,
    decreases ops.len(),
{
    if ops.len() > 0 {
        let prev = ops.drop_last();
        lemma_stored_iff_created(prev, id);
        let u = run_ops(DatabaseView::empty(), prev);
        lemma_apply_step(u, ops.last());
        if creates(prev, id) {
            let i = choose|i: int| 0 <= i < prev.len() && (#[trigger] prev[i] matches StoreOp::Create { id: c, .. } && c == id);
            assert(ops[i] == prev[i]);
        }
        if creates(ops, id) && !creates(prev, id) {
            let i = choose|i: int| 0 <= i < ops.len() && (#[trigger] ops[i] matches StoreOp::Create { id: c, .. } && c == id);
            if i < prev.len() {
                assert(prev[i] == ops[i]);
            }
        }
        if ops.last() matches StoreOp::Create { id: c, .. } && c == id {
            assert(ops[ops.len() - 1] == ops.last());
        }
    } else {
        assert(DatabaseView::empty().wf());
    }
}

// ---------------------------------------------------------------------------------------------
// Fallback identifiers
// ---------------------------------------------------------------------------------------------

/// The `k`-th fallback identifier: a version 4, RFC 4122 variant identifier whose random bits
/// hold `k` (the low 62 bits of `k` in bits 0 to 61, its top 2 bits in bits 80 and 81).
pub open spec fn fallback_value(k: u64) -> u128 {
    (0x4000_8000_0000_0000_0000u128 + (k as u128 % 0x4000_0000_0000_0000u128) + (k as u128
        / 0x4000_0000_0000_0000u128) * 0x1_0000_0000_0000_0000_0000u128) as u128
}

/// Every fallback identifier has version 4 and the RFC 4122 variant, and different `k` give
/// different identifiers.
proof fn lemma_fallback_shape(k: u64, other: u64)
    ensures
        uuid_version(fallback_value(k)) == 4,
        uuid_variant(fallback_value(k)) == 2,
        fallback_value(k) == fallback_value(other) ==> k == other,
{
    let c = fallback_value(k);
    let d = fallback_value(other);
    let kk = k as u128;
    let oo = other as u128;
    assert(kk < 0x1_0000_0000_0000_0000u128 && oo < 0x1_0000_0000_0000_0000u128);
    assert((c / 0x1000_0000_0000_0000_0000u128) % 16 == 4 && (c / 0x4000_0000_0000_0000u128) % 4 == 2)
        by (bit_vector)
        requires
            kk < 0x1_0000_0000_0000_0000u128,
            c == 0x4000_8000_0000_0000_0000u128 + kk % 0x4000_0000_0000_0000u128 + (kk / 0x4000_0000_0000_0000u128)
                * 0x1_0000_0000_0000_0000_0000u128,
    ;
    assert(c == d ==> kk == oo) by (bit_vector)
        requires
            kk < 0x1_0000_0000_0000_0000u128,
            oo < 0x1_0000_0000_0000_0000u128,
            c == 0x4000_8000_0000_0000_0000u128 + kk % 0x4000_0000_0000_0000u128 + (kk / 0x4000_0000_0000_0000u128)
                * 0x1_0000_0000_0000_0000_0000u128,
            d == 0x4000_8000_0000_0000_0000u128 + oo % 0x4000_0000_0000_0000u128 + (oo / 0x4000_0000_0000_0000u128)
                * 0x1_0000_0000_0000_0000_0000u128,
    ;
}

/// Whether the `j`-th fallback identifier is stored.
pub open spec fn fallback_stored(v: DatabaseView, j: int) -> bool {
    exists|p: int| 0 <= p < v.tasks.len() && #[trigger] v.tasks[p].id@ == fallback_value(j as u64)
}

/// A store of `n` tasks cannot hold all of the `n + 1` first fallback identifiers.
proof fn lemma_fallbacks_not_all_stored(v: DatabaseView, n: u64)
    requires
        v.tasks.len() == n,
    ensures
        exists|j: int| 0 <= j <= n && !#[trigger] fallback_stored(v, j),
{
    if forall|j: int| 0 <= j <= n ==> #[trigger] fallback_stored(v, j) {
        // Pigeonhole: the n + 1 fallback identifiers would sit at n + 1 different positions
        // among n.
        let x = vstd::set_lib::set_int_range(0, n + 1);
        let f = |j: int| choose|p: int| 0 <= p < n && #[trigger] v.tasks[p].id@ == fallback_value(j as u64);
        assert forall|a: int| x.contains(a) implies 0 <= #[trigger] f(a) < n && v.tasks[f(a)].id@ == fallback_value(a as u64) by {
            assert(fallback_stored(v, a));
        }
        assert forall|a: int, b: int| x.contains(a) && x.contains(b) && #[trigger] f(a) == #[trigger] f(b) implies a == b by {
            lemma_fallback_shape(a as u64, b as u64);
        }
        assert(vstd::relations::injective_on(f, x));
        let y = x.map(f);
        vstd::set_lib::lemma_int_range(0, n + 1);
        vstd::set_lib::lemma_map_size(x, y, f);
        let r = vstd::set_lib::set_int_range(0, n as int);
        vstd::set_lib::lemma_int_range(0, n as int);
        assert(y.subset_of(r)) by {
            assert forall|p: int| y.contains(p) implies r.contains(p) by {
                let a = choose|a: int| x.contains(a) && f(a) == p;
            }
        }
        vstd::set_lib::lemma_len_subset(y, r);
    }
}

// ---------------------------------------------------------------------------------------------
// The executable store
// ---------------------------------------------------------------------------------------------

/// The task store: every task ever created, with its status and request, and the queue of
/// tasks waiting for a worker.
pub struct Database {
    ids: Vec<TaskId>,
    statuses: Vec<TaskStatus>,
    requests: Vec<TaskRequest>,
    queue: Vec<TaskId>,
}

impl View for Database {
    type V = DatabaseView;

    closed spec fn view(&self) -> DatabaseView {
        DatabaseView {
            tasks: Seq::new(
                self.ids@.len(),
                |i: int|
                    TaskEntry {
                        id: self.ids@[i],
                        status: self.statuses@[i],
                        request: self.requests@[i]@,
                    },
            ),
            queue: self.queue@,
        }
    }
}

impl Database {
    /// The invariant of the store: its columns line up and its view is well formed.
    pub closed spec fn wf(&self) -> bool {
        &&& self.ids@.len() == self.statuses@.len()
        &&& self.ids@.len() == self.requests@.len()
        &&& self@.wf()
    }

    /// Every valid store has a well-formed view.
    pub proof fn lemma_wf_view(&self)
        requires
            self.wf(),
        ensures
            self@.wf(),
    {
    }

    /// Open a new, empty store.
    pub fn open_in_memory() -> (db: Result<Database, Error>)
        ensures
            db matches Ok(d) && d.wf() && d@ == DatabaseView::empty(),
    {
        let d = Database { ids: Vec::new(), statuses: Vec::new(), requests: Vec::new(), queue: Vec::new() };
        assert(d@.tasks =~= Seq::<TaskEntry>::empty());
        Ok(d)
    }

    /// The position of the task with identifier `id`, if it is stored.
    fn find(&self, id: TaskId) -> (found: Option<usize>)
        requires
            self.wf(),
        ensures
            match found {
                Some(i) => {
                    &&& self@.has_task(id)
                    &&& i < self@.tasks.len()
                    &&& self@.position(id) == i
                },
                None => !self@.has_task(id),
            },
    {
        let n = self.ids.len();
        let mut i: usize = 0;
        while i < n
            invariant
                self.wf(),
                n == self@.tasks.len(),
                i <= n,
                forall|j: int| 0 <= j < i ==> self@.tasks[j].id != id,
            decreases n - i,
        {
            if self.ids[i] == id {
                proof {
                    lemma_position(self@, i as int);
                }
                return Some(i);
            }
            i = i + 1;
        }
        None
    }

    /// Store a new task under the identifier `id` and add it to the back of the queue.
    /// Its status is `Pending`. Fails, changing nothing, when `id` is already taken.
    pub fn task_insert(&mut self, id: TaskId, req: &TaskRequest) -> (created: Result<TaskId, Error>)
        requires
            old(self).wf(),
        ensures
            final(self).wf(),
            match created {
                Ok(new_id) => {
                    &&& new_id == id
                    &&& !old(self)@.has_task(id)
                    &&& final(self)@ == old(self)@.insert(id, req@)
                },
                Err(e) => {
                    &&& e is TaskExists
                    &&& old(self)@.has_task(id)
                    &&& final(self)@ == old(self)@
                },
            },
            final(self)@ == old(self)@.apply(StoreOp::Create { id, request: req@ }),
    {
        if self.find(id).is_some() {
            return Err(Error::TaskExists);
        }
        let ghost before = self@;
        let request = req.clone();
        self.ids.push(id);
        self.statuses.push(TaskStatus::Pending);
        self.requests.push(request);
        self.queue.push(id);
        let ghost after = self@;
        assert(after.tasks =~= before.insert(id, req@).tasks);
        assert(after.queue =~= before.insert(id, req@).queue);
        proof {
            lemma_create_then_read(before, id, req@);
        }
        Ok(id)
    }

    /// The first fallback identifier that is not stored. One always exists: a store of `n`
    /// tasks cannot hold all of the first `n + 1` fallback identifiers.
    fn fresh_fallback(&self) -> (id: TaskId)
        requires
            self.wf(),
        ensures
            !self@.has_task(id),
            uuid_version(id@) == 4,
            uuid_variant(id@) == 2,
    {
        let n = self.ids.len();
        let last = n as u64;
        proof {
            lemma_fallbacks_not_all_stored(self@, last);
        }
        let mut k: u64 = 0;
        loop
            invariant
                self.wf(),
                last == self@.tasks.len(),
                k <= last,
                forall|j: int| 0 <= j < k ==> #[trigger] fallback_stored(self@, j),
                exists|j: int| 0 <= j <= last && !#[trigger] fallback_stored(self@, j),
            decreases last - k,
        {
            let kk = k as u128;
            let low: u128 = kk % 0x4000_0000_0000_0000u128;
            let high: u128 = kk / 0x4000_0000_0000_0000u128;
            assert(low < 0x4000_0000_0000_0000u128 && high < 4) by (bit_vector)
                requires
                    kk < 0x1_0000_0000_0000_0000u128,
                    low == kk % 0x4000_0000_0000_0000u128,
                    high == kk / 0x4000_0000_0000_0000u128,
            ;
            let value: u128 = 0x4000_8000_0000_0000_0000u128 + low + high * 0x1_0000_0000_0000_0000_0000u128;
            assert(value == fallback_value(k));
            let candidate = TaskId::from_u128(value);
            match self.find(candidate) {
                None => {
                    proof {
                        lemma_fallback_shape(k, k);
                    }
                    return candidate;
                },
                Some(_) => {
                    assert(fallback_stored(self@, k as int));
                    if k == last {
                        assert(forall|j: int| 0 <= j <= last ==> #[trigger] fallback_stored(self@, j));
                        assert(false);
                    }
                    k = k + 1;
                },
            }
        }
    }

    /// Create a new task and add it to the queue.
    ///
    /// The task's initial status is `Pending`. A new unique identifier is generated for this
    /// task and is returned: a random (version 4) identifier, or, should the one drawn already
    /// be stored, the first free fallback identifier of the same version. Creation always
    /// succeeds.
    pub fn task_create(&mut self, req: &TaskRequest) -> (created: Result<TaskId, Error>)
        requires
            old(self).wf(),
        ensures
            final(self).wf(),
            created is Ok,
            match created {
                Ok(id) => {
                    &&& !old(self)@.has_task(id)
                    &&& final(self)@ == old(self)@.insert(id, req@)
                    &&& uuid_version(id@) == 4
                    &&& uuid_variant(id@) == 2
                },
                Err(e) => {
                    &&& e is TaskExists
                    &&& final(self)@ == old(self)@
                    &&& old(self)@.holds_random_id()
                },
            },
    {
        let drawn = TaskId::new();
        let id = match self.find(drawn) {
            None => drawn,
            Some(_) => self.fresh_fallback(),
        };
        self.task_insert(id, req)
    }

    /// The identifier and status of the task `id`, or `None` when there is no such task.
    pub fn task_get_info(&self, id: TaskId) -> (info: Result<Option<TaskInfo>, Error>)
        requires
            self.wf(),
        ensures
            info == Ok::<Option<TaskInfo>, Error>(self@.info(id)),
    {
        match self.find(id) {
            Some(i) => Ok(Some(TaskInfo { id, status: self.statuses[i] })),
            None => Ok(None),
        }
    }

    /// The request of the task `id`; fails with `TaskNotFound` when there is no such task.
    pub fn task_get_request(&self, id: TaskId) -> (request: Result<TaskRequest, Error>)
        requires
            self.wf(),
        ensures
            match request {
                Ok(r) => self@.request(id) == Some(r@),
                Err(e) => e is TaskNotFound && self@.request(id) is None,
            },
    {
        match self.find(id) {
            Some(i) => Ok(self.requests[i].clone()),
            None => Err(Error::TaskNotFound),
        }
    }

    /// The identifiers and statuses of all tasks, in creation order.
    pub fn task_list(&self) -> (tasks: Result<Vec<TaskInfo>, Error>)
        requires
            self.wf(),
        ensures
            tasks matches Ok(v) && v@ == self@.infos(),
    {
        let n = self.ids.len();
        let mut out: Vec<TaskInfo> = Vec::new();
        let mut i: usize = 0;
        while i < n
            invariant
                self.wf(),
                n == self@.tasks.len(),
                i <= n,
                out@ =~= self@.infos().take(i as int),
            decreases n - i,
        {
            out.push(TaskInfo { id: self.ids[i], status: self.statuses[i] });
            i = i + 1;
            assert(out@ =~= self@.infos().take(i as int));
        }
        assert(self@.infos().take(n as int) =~= self@.infos());
        Ok(out)
    }

    /// Set the status of the stored task at position `i` to `status`.
    fn set_status_at(&mut self, i: usize, status: TaskStatus)
        requires
            old(self).wf(),
            i < old(self)@.tasks.len(),
        ensures
            final(self).wf(),
            final(self)@ == old(self)@.set_status(old(self)@.tasks[i as int].id, status),
    {
        let ghost before = self@;
        proof {
            lemma_position(before, i as int);
        }
        self.statuses.set(i, status);
        let ghost after = self@;
        let ghost expected = before.set_status(before.tasks[i as int].id, status);
        assert(after.tasks =~= expected.tasks);
        assert(after.queue =~= expected.queue);
        proof {
            lemma_update_then_read(before, before.tasks[i as int].id, status);
        }
    }

    /// Set the status of task `id`. Fails with `InvalidTask`, changing nothing, when there
    /// is no such task.
    pub fn task_update(&mut self, id: TaskId, status: TaskStatus) -> (updated: Result<(), Error>)
        requires
            old(self).wf(),
        ensures
            final(self).wf(),
            match updated {
                Ok(()) => old(self)@.has_task(id) && final(self)@ == old(self)@.set_status(id, status),
                Err(e) => e is InvalidTask && !old(self)@.has_task(id) && final(self)@ == old(self)@,
            },
            final(self)@ == old(self)@.apply(StoreOp::Update { id, status }),
    {
        match self.find(id) {
            Some(i) => {
                self.set_status_at(i, status);
                Ok(())
            },
            None => Err(Error::InvalidTask),
        }
    }

    /// Remove the first task from the work queue and mark its status as `Claimed`.
    pub fn queue_pop(&mut self) -> (popped: Result<Option<TaskId>, Error>)
        requires
            old(self).wf(),
        ensures
            final(self).wf(),
            popped == Ok::<Option<TaskId>, Error>(old(self)@.front()),
            final(self)@ == old(self)@.pop(),
            final(self)@ == old(self)@.apply(StoreOp::Pop),
            old(self)@.handed_out_by(StoreOp::Pop) == old(self)@.front(),
    {
        if self.queue.len() == 0 {
            return Ok(None);
        }
        let ghost before = self@;
        proof {
            lemma_pop_claims(before);
        }
        let id = self.queue[0];
        match self.find(id) {
            Some(i) => self.set_status_at(i, TaskStatus::Claimed),
            None => {},
        }
        self.queue.remove(0);
        assert(self@.tasks =~= before.pop().tasks);
        assert(self@.queue =~= before.pop().queue);
        Ok(Some(id))
    }
}

} // verus!
