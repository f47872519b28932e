//! The executor's decisions: which task is polled next, what spawning and
//! waking do to the task queue, and when the executor loop ends.
//!
//! Tasks are named by the order in which they were spawned. The task queue
//! has one sending end held by the spawner and one held by each task that
//! is still referenced (by a queue entry, by the executor, or by a waker),
//! and its receiving end is held by the executor: the executor stops once
//! the spawner is gone, every task has been released and nothing is queued.
use crate::channel::{Channel, ChannelView, TryRecvError, TrySendError, CHANNEL_CAPACITY};
use crate::handle::handle_wf;
use vstd::prelude::*;

verus! {

/// Where a task is in its life.
#[derive(Debug, Clone, Copy, PartialEq, Eq, Structural)]
pub enum TaskState {
    /// Its future has not completed; the task holds a sending end of the queue.
    Live,
    /// Its future has completed, but the task is still referenced (by a
    /// waker, say) and still holds its sending end.
    Completed,
    /// The last reference to the task is gone, and with it its sending end.
    Released,
}

/// What a spawn did.
#[derive(Debug, Clone, Copy, PartialEq, Eq, Structural)]
pub enum SpawnOutcome {
    /// The task got this id and was queued to be polled.
    Queued(usize),
    /// The queue is full; nothing changed. A blocking spawner waits and tries again.
    Full,
    /// The executor is gone: the task got this id and was released at once.
    Rejected(usize),
}

/// What a wake did.
#[derive(Debug, Clone, Copy, PartialEq, Eq, Structural)]
pub enum WakeOutcome {
    /// The task was queued to be polled again.
    Queued,
    /// The queue is full; nothing changed. A blocking waker waits and tries again.
    Full,
    /// The executor is gone; the wake is lost.
    Dropped,
}

/// What the executor does next.
#[derive(Debug, Clone, Copy, PartialEq, Eq, Structural)]
pub enum Step {
    /// Poll the future of the task with this id.
    Poll(usize),
    /// Nothing is queued yet: wait for a spawn or a wake.
    Idle,
    /// Nothing is queued and nothing can be queued any more: the loop ends.
    Stop,
}

/// Number of tasks that still hold a sending end of the queue.
pub open spec fn held_count(tasks: Seq<TaskState>) -> nat
    decreases tasks.len(),
{
    if tasks.len() == 0 {
        0
    } else {
        held_count(tasks.drop_last()) + if tasks.last() != TaskState::Released {
            1nat
        } else {
            0nat
        }
    }
}

/// The mathematical state of the executor.
pub struct RuntimeView {
    /// The queue of ids of the tasks to poll.
    pub queue: ChannelView<usize>,
    /// The state of each task, by id.
    pub tasks: Seq<TaskState>,
    /// Whether the spawner is alive.
    pub spawner_alive: bool,
}

impl RuntimeView {
    /// A new executor: empty queue, no task, spawner and executor alive.
    pub open spec fn initial() -> Self {
        RuntimeView {
            queue: ChannelView::fresh(Some(CHANNEL_CAPACITY as nat)),
            tasks: Seq::empty(),
            spawner_alive: true,
        }
    }

    /// The invariant: the queue is bounded, its sending ends are the
    /// spawner's and those of the tasks not yet released, and it names only
    /// tasks that exist and, being referenced by it, are not released.
    pub open spec fn wf(self) -> bool {
        &&& self.queue.wf()
        &&& self.queue.bound == Some(CHANNEL_CAPACITY as nat)
        &&& self.queue.senders == (if self.spawner_alive {
            1nat
        } else {
            0nat
        }) + held_count(self.tasks)
        &&& forall|i: int|
            0 <= i < self.queue.items.len() ==> #[trigger] self.queue.items[i] < self.tasks.len()
                && self.tasks[self.queue.items[i] as int] != TaskState::Released
    }

    /// What a spawn reports.
    pub open spec fn spawn_result(self) -> SpawnOutcome {
        let id = self.tasks.len() as usize;
        if !self.queue.receiver_alive {
            SpawnOutcome::Rejected(id)
        } else if !self.queue.has_room() {
            SpawnOutcome::Full
        } else {
            SpawnOutcome::Queued(id)
        }
    }

    /// The state after a spawn.
    pub open spec fn after_spawn(self) -> Self {
        match self.spawn_result() {
            SpawnOutcome::Queued(id) => RuntimeView {
                queue: ChannelView {
                    items: self.queue.items.push(id),
                    senders: self.queue.senders + 1,
                    ..self.queue
                },
                tasks: self.tasks.push(TaskState::Live),
                ..self
            },
            SpawnOutcome::Rejected(_) => RuntimeView {
                tasks: self.tasks.push(TaskState::Released),
                ..self
            },
            SpawnOutcome::Full => self,
        }
    }

    /// What a wake of task `id` reports.
    pub open spec fn wake_result(self, id: usize) -> WakeOutcome {
        match self.queue.send_result(id) {
            Ok(_) => WakeOutcome::Queued,
            Err(TrySendError::Full(_)) => WakeOutcome::Full,
            Err(TrySendError::Disconnected(_)) => WakeOutcome::Dropped,
        }
    }

    /// The state after a wake of task `id`.
    pub open spec fn after_wake(self, id: usize) -> Self {
        RuntimeView { queue: self.queue.after_send(id), ..self }
    }

    /// Whether the task at the head of the queue, if any, is live. Polling
    /// a task whose future has completed is not something an executor may
    /// do (the future panics or is already freed), so the executor's next
    /// step is taken only when this holds.
    pub open spec fn head_live(self) -> bool {
        self.queue.items.len() > 0 ==> self.tasks[self.queue.items[0] as int] == TaskState::Live
    }

    /// What the executor does next.
    pub open spec fn next_result(self) -> Step {
        match self.queue.recv_result() {
            Ok(id) => Step::Poll(id),
            Err(TryRecvError::Empty) => Step::Idle,
            Err(TryRecvError::Disconnected) => Step::Stop,
        }
    }

    /// The state after the executor took its next step; on `Stop` the
    /// executor is gone.
    pub open spec fn after_next(self) -> Self {
        if self.next_result() == Step::Stop {
            RuntimeView {
                queue: ChannelView { items: Seq::empty(), receiver_alive: false, ..self.queue },
                ..self
            }
        } else {
            RuntimeView { queue: self.queue.after_recv(), ..self }
        }
    }

    /// The state after the future of task `id` completed: the task still
    /// holds its sending end until its last reference goes.
    pub open spec fn after_complete(self, id: usize) -> Self {
        RuntimeView { tasks: self.tasks.update(id as int, TaskState::Completed), ..self }
    }

    /// The state after the last reference to task `id` went: it no longer
    /// holds a sending end.
    pub open spec fn after_release(self, id: usize) -> Self {
        RuntimeView {
            queue: ChannelView { senders: (self.queue.senders - 1) as nat, ..self.queue },
            tasks: self.tasks.update(id as int, TaskState::Released),
            ..self
        }
    }

    /// The state after the executor was dropped: the queued entries are
    /// dropped with the queue and nothing more is polled. The tasks those
    /// entries referenced are released as their last references go.
    pub open spec fn after_drop_executor(self) -> Self {
        RuntimeView {
            queue: ChannelView { items: Seq::empty(), receiver_alive: false, ..self.queue },
            ..self
        }
    }

    /// The state after the spawner was dropped.
    pub open spec fn after_drop_spawner(self) -> Self {
        RuntimeView {
            queue: ChannelView { senders: (self.queue.senders - 1) as nat, ..self.queue },
            spawner_alive: false,
            ..self
        }
    }
}

proof fn lemma_held_count_push(s: Seq<TaskState>, t: TaskState)
    ensures
        held_count(s.push(t)) == held_count(s) + if t != TaskState::Released {
            1nat
        } else {
            0nat
        },
{
    assert(s.push(t).drop_last() =~= s);
}

proof fn lemma_held_count_le_len(s: Seq<TaskState>)
    ensures
        held_count(s) <= s.len(),
    decreases s.len(),
{
    if s.len() > 0 {
        lemma_held_count_le_len(s.drop_last());
    }
}

/// Changing the state of a task between two held states keeps the count;
/// releasing a held task lowers it by one.
proof fn lemma_held_count_update(s: Seq<TaskState>, i: int, t: TaskState)
    requires
        0 <= i < s.len(),
        s[i] != TaskState::Released,
    ensures
        t != TaskState::Released ==> held_count(s.update(i, t)) == held_count(s),
        t == TaskState::Released ==> held_count(s.update(i, t)) + 1 == held_count(s),
    decreases s.len(),
{
    let u = s.update(i, t);
    if i == s.len() - 1 {
        assert(u.drop_last() =~= s.drop_last());
    } else {
        lemma_held_count_update(s.drop_last(), i, t);
        assert(u.drop_last() =~= s.drop_last().update(i, t));
    }
}

/// No task holds a sending end exactly when every task is released.
proof fn lemma_held_count_zero(s: Seq<TaskState>)
    ensures
        (held_count(s) == 0) <==> (forall|i: int| 0 <= i < s.len() ==> #[trigger] s[i]
            == TaskState::Released),
    decreases s.len(),
{
    if s.len() > 0 {
        lemma_held_count_zero(s.drop_last());
        if held_count(s) == 0 {
            assert forall|i: int| 0 <= i < s.len() implies #[trigger] s[i] == TaskState::Released by {
                if i < s.len() - 1 {
                    assert(s.drop_last()[i] == s[i]);
                }
            }
        } else {
            if s.last() == TaskState::Released {
                assert(held_count(s.drop_last()) > 0);
                let j = choose|j: int|
                    0 <= j < s.drop_last().len() && #[trigger] s.drop_last()[j]
                        != TaskState::Released;
                assert(s[j] != TaskState::Released);
            }
        }
    }
}

/// The executor's bookkeeping; its view is a `RuntimeView`.
pub struct Runtime {
    queue: Channel<usize>,
    tasks: Vec<TaskState>,
    spawner_alive: bool,
}

impl View for Runtime {
    type V = RuntimeView;

    closed spec fn view(&self) -> RuntimeView {
        RuntimeView { queue: self.queue@, tasks: self.tasks@, spawner_alive: self.spawner_alive }
    }
}

/// A new executor with its spawner: an empty task queue of the runtime's
/// bound, no task yet.
pub fn create_runtime() -> (rt: Runtime)
    ensures
        rt@ == RuntimeView::initial(),
        rt@.wf(),
{
    let rt = Runtime {
        queue: Channel::bounded(CHANNEL_CAPACITY),
        tasks: Vec::new(),
        spawner_alive: true,
    };
    proof {
        assert(rt@.tasks =~= Seq::<TaskState>::empty());
    }
    rt
}

impl Runtime {
    /// The state of task `id`.
    pub fn task_state(&self, id: usize) -> (s: TaskState)
        requires
            id < self@.tasks.len(),
        ensures
            s == self@.tasks[id as int],
    {
        self.tasks[id]
    }

    /// Number of tasks spawned so far.
    pub fn task_count(&self) -> (n: usize)
        ensures
            n == self@.tasks.len(),
    {
        self.tasks.len()
    }

    /// Number of task ids queued for polling.
    pub fn queued(&self) -> (n: usize)
        ensures
            n == self@.queue.items.len(),
    {
        self.queue.len()
    }

    /// The id at the head of the queue, the task the executor takes next.
    pub fn peek(&self) -> (r: Option<usize>)
        ensures
            r == (if self@.queue.items.len() > 0 {
                Some(self@.queue.items[0])
            } else {
                None
            }),
    {
        match self.queue.peek() {
            Some(id) => Some(*id),
            None => None,
        }
    }

    /// Whether task `id` is queued to be polled.
    pub fn is_queued(&self, id: usize) -> (b: bool)
        ensures
            b == self@.queue.items.contains(id),
    {
        let n = self.queue.len();
        let mut i: usize = 0;
        while i < n
            invariant
                i <= n,
                n == self@.queue.items.len(),
                forall|j: int| 0 <= j < i ==> #[trigger] self@.queue.items[j] != id,
            decreases n - i,
        {
            if *self.queue.get(i) == id {
                return true;
            }
            i = i + 1;
        }
        false
    }

    /// Whether the executor may take its next step: the task at the head of
    /// the queue, if any, is live.
    pub fn head_live(&self) -> (b: bool)
        requires
            self@.wf(),
        ensures
            b == self@.head_live(),
    {
        match self.peek() {
            Some(id) => {
                proof {
                    assert(self@.queue.items[0] < self@.tasks.len());
                }
                match self.tasks[id] {
                    TaskState::Live => true,
                    _ => false,
                }
            },
            None => true,
        }
    }

    /// Whether the executor is alive, that is, whether it has not stopped.
    pub fn executor_alive(&self) -> (b: bool)
        ensures
            b == self@.queue.receiver_alive,
    {
        self.queue.receiver_alive()
    }

    /// Whether the spawner is alive.
    pub fn spawner_alive(&self) -> (b: bool)
        ensures
            b == self@.spawner_alive,
    {
        self.spawner_alive
    }

    /// Spawns a task: it gets the next id, takes a sending end of the task
    /// queue and queues itself to be polled.
    pub fn spawn(&mut self) -> (r: SpawnOutcome)
        requires
            old(self)@.wf(),
            old(self)@.spawner_alive,
            old(self)@.tasks.len() + 1 < usize::MAX,
        ensures
            r == old(self)@.spawn_result(),
            final(self)@ == old(self)@.after_spawn(),
            final(self)@.wf(),
    {
        let ghost pre = self@;
        let id = self.tasks.len();
        if !self.queue.receiver_alive() {
            self.tasks.push(TaskState::Released);
            proof {
                lemma_held_count_push(pre.tasks, TaskState::Released);
                assert(self@ == pre.after_spawn());
                assert forall|i: int| 0 <= i < self@.queue.items.len() implies #[trigger] self@.queue.items[i]
                    < self@.tasks.len() && self@.tasks[self@.queue.items[i] as int]
                    != TaskState::Released by {
                    assert(pre.queue.items[i] < pre.tasks.len());
                    assert(self@.tasks[pre.queue.items[i] as int] == pre.tasks[pre.queue.items[i] as int]);
                }
            }
            return SpawnOutcome::Rejected(id);
        }
        if self.queue.len() >= CHANNEL_CAPACITY {
            return SpawnOutcome::Full;
        }
        proof {
            lemma_held_count_le_len(pre.tasks);
        }
        self.tasks.push(TaskState::Live);
        self.queue.add_sender();
        let r = self.queue.try_send(id);
        proof {
            assert(r is Ok);
            lemma_held_count_push(pre.tasks, TaskState::Live);
            assert(self@ == pre.after_spawn());
            assert forall|i: int| 0 <= i < self@.queue.items.len() implies #[trigger] self@.queue.items[i]
                < self@.tasks.len() && self@.tasks[self@.queue.items[i] as int]
                != TaskState::Released by {
                if i < pre.queue.items.len() {
                    assert(self@.queue.items[i] == pre.queue.items[i]);
                    assert(self@.tasks[pre.queue.items[i] as int] == pre.tasks[pre.queue.items[i] as int]);
                }
            }
        }
        SpawnOutcome::Queued(id)
    }

    /// Wakes task `id` (through a waker, which references the task): its
    /// id is queued to be polled again.
    pub fn wake(&mut self, id: usize) -> (r: WakeOutcome)
        requires
            old(self)@.wf(),
            id < old(self)@.tasks.len(),
            old(self)@.tasks[id as int] != TaskState::Released,
        ensures
            r == old(self)@.wake_result(id),
            final(self)@ == old(self)@.after_wake(id),
            final(self)@.wf(),
    {
        let ghost pre = self@;
        let r = self.queue.try_send(id);
        proof {
            assert forall|i: int| 0 <= i < self@.queue.items.len() implies #[trigger] self@.queue.items[i]
                < self@.tasks.len() && self@.tasks[self@.queue.items[i] as int]
                != TaskState::Released by {
                if i < pre.queue.items.len() {
                    assert(self@.queue.items[i] == pre.queue.items[i]);
                }
            }
        }
        match r {
            Ok(_) => WakeOutcome::Queued,
            Err(TrySendError::Full(_)) => WakeOutcome::Full,
            Err(TrySendError::Disconnected(_)) => WakeOutcome::Dropped,
        }
    }

    /// The executor's next step: takes the oldest queued id, whose task is
    /// to be polled; with nothing queued, waits or, when no sending end is
    /// left, stops and drops the receiving end.
    pub fn next_task(&mut self) -> (s: Step)
        requires
            old(self)@.wf(),
            old(self)@.queue.receiver_alive,
            old(self)@.head_live(),
        ensures
            s == old(self)@.next_result(),
            final(self)@ == old(self)@.after_next(),
            final(self)@.wf(),
    {
        let ghost pre = self@;
        match self.queue.try_recv() {
            Ok(id) => {
                proof {
                    assert forall|i: int| 0 <= i < self@.queue.items.len() implies #[trigger] self@.queue.items[i]
                        < self@.tasks.len() && self@.tasks[self@.queue.items[i] as int]
                        != TaskState::Released by {
                        assert(self@.queue.items[i] == pre.queue.items[i + 1]);
                    }
                }
                Step::Poll(id)
            },
            Err(TryRecvError::Empty) => Step::Idle,
            Err(TryRecvError::Disconnected) => {
                self.queue.drop_receiver();
                proof {
                    assert(self@ == pre.after_next());
                }
                Step::Stop
            },
        }
    }

    /// The future of task `id` completed. The task keeps its sending end
    /// until its last reference goes (`release`).
    pub fn complete(&mut self, id: usize)
        requires
            old(self)@.wf(),
            id < old(self)@.tasks.len(),
            old(self)@.tasks[id as int] == TaskState::Live,
        ensures
            final(self)@ == old(self)@.after_complete(id),
            final(self)@.wf(),
    {
        let ghost pre = self@;
        proof {
            lemma_held_count_update(pre.tasks, id as int, TaskState::Completed);
        }
        self.tasks.set(id, TaskState::Completed);
        proof {
            assert(self@.tasks =~= pre.tasks.update(id as int, TaskState::Completed));
            assert(self@ == pre.after_complete(id));
            assert forall|i: int| 0 <= i < self@.queue.items.len() implies #[trigger] self@.queue.items[i]
                < self@.tasks.len() && self@.tasks[self@.queue.items[i] as int]
                != TaskState::Released by {
                assert(pre.queue.items[i] < pre.tasks.len());
            }
        }
    }

    /// The last reference to task `id` went (no queue entry, executor or
    /// waker refers to it any more): the task gives up its sending end. A
    /// task released before its future completed never completes.
    pub fn release(&mut self, id: usize)
        requires
            old(self)@.wf(),
            id < old(self)@.tasks.len(),
            old(self)@.tasks[id as int] != TaskState::Released,
            !old(self)@.queue.items.contains(id),
        ensures
            final(self)@ == old(self)@.after_release(id),
            final(self)@.wf(),
    {
        let ghost pre = self@;
        proof {
            lemma_held_count_update(pre.tasks, id as int, TaskState::Released);
        }
        self.tasks.set(id, TaskState::Released);
        self.queue.drop_sender();
        proof {
            assert(self@.tasks =~= pre.tasks.update(id as int, TaskState::Released));
            assert(self@ == pre.after_release(id));
            assert forall|i: int| 0 <= i < self@.queue.items.len() implies #[trigger] self@.queue.items[i]
                < self@.tasks.len() && self@.tasks[self@.queue.items[i] as int]
                != TaskState::Released by {
                assert(pre.queue.items[i] < pre.tasks.len());
                assert(pre.queue.items[i] != id);
            }
        }
    }

    /// The executor is dropped (never run, or its loop ended by a panic):
    /// the queued entries are dropped and later spawns and wakes are refused.
    pub fn drop_executor(&mut self)
        requires
            old(self)@.wf(),
        ensures
            final(self)@ == old(self)@.after_drop_executor(),
            final(self)@.wf(),
    {
        self.queue.drop_receiver();
    }

    /// The spawner is dropped and gives up its sending end of the queue.
    pub fn drop_spawner(&mut self)
        requires
            old(self)@.wf(),
            old(self)@.spawner_alive,
        ensures
            final(self)@ == old(self)@.after_drop_spawner(),
            final(self)@.wf(),
    {
        self.spawner_alive = false;
        self.queue.drop_sender();
    }
}

/// The executor stops exactly when nothing is queued, the spawner is gone
/// and every task has been released: as long as any task is still
/// referenced (a waker of a completed task included), it keeps waiting.
pub proof fn lemma_stop_iff_all_done(r: RuntimeView)
    requires
        r.wf(),
    ensures
        (r.next_result() == Step::Stop) <==> (r.queue.items.len() == 0 && !r.spawner_alive && forall|
            i: int,
        | 0 <= i < r.tasks.len() ==> #[trigger] r.tasks[i] == TaskState::Released),
{
    lemma_held_count_zero(r.tasks);
}

/// The executor polls only tasks that exist, and, when it may take its
/// next step, only live ones.
pub proof fn lemma_only_live_tasks_polled(r: RuntimeView)
    requires
        r.wf(),
        r.head_live(),
    ensures
        r.next_result() matches Step::Poll(id) ==> (id < r.tasks.len() && r.tasks[id as int]
            == TaskState::Live),
{
    if r.queue.items.len() > 0 {
        assert(r.queue.items[0] < r.tasks.len());
    }
}

/// A wake that comes after the future completed queues the task again, so
/// the executor may not take its next step until that entry is gone: a
/// completed task is never polled again.
pub proof fn lemma_late_wake_not_polled(r: RuntimeView, id: usize)
    requires
        r.wf(),
        r.queue.receiver_alive,
        r.queue.items.len() == 0,
        id < r.tasks.len(),
        r.tasks[id as int] == TaskState::Completed,
    ensures
        r.wake_result(id) == WakeOutcome::Queued,
        !r.after_wake(id).head_live(),
{
    assert(r.after_wake(id).queue.items =~= seq![id]);
}

/// Once the executor is gone, a spawned task is released at once and never
/// polled, a wake is lost, and no task is queued, so each task is released
/// as soon as its other references go.
pub proof fn lemma_no_executor_rejects(r: RuntimeView, id: usize)
    requires
        r.wf(),
        r.spawner_alive,
        id < r.tasks.len(),
        r.tasks[id as int] != TaskState::Released,
    ensures
        r.after_drop_executor().spawn_result() == SpawnOutcome::Rejected(r.tasks.len() as usize),
        r.after_drop_executor().after_spawn().tasks.last() == TaskState::Released,
        r.after_drop_executor().wake_result(id) == WakeOutcome::Dropped,
        r.after_drop_executor().after_wake(id) == r.after_drop_executor(),
        !r.after_drop_executor().queue.items.contains(id),
{
}

/// A task spawned on an idle executor is the next task it polls, and it
/// gets the next id in spawn order.
pub proof fn lemma_spawn_then_poll(r: RuntimeView)
    requires
        r.wf(),
        r.spawner_alive,
        r.queue.receiver_alive,
        r.queue.items.len() == 0,
        r.tasks.len() < usize::MAX,
    ensures
        r.spawn_result() == SpawnOutcome::Queued(r.tasks.len() as usize),
        r.after_spawn().next_result() == Step::Poll(r.tasks.len() as usize),
        r.after_spawn().after_next().queue.items.len() == 0,
{
    let s = r.after_spawn();
    assert(s.queue.items =~= seq![r.tasks.len() as usize]);
    assert(s.tasks[r.tasks.len() as int] == TaskState::Live);
}

/// Tasks are polled in the order they were queued: a wake puts the task
/// behind every task already queued, and the head of the queue is unchanged.
pub proof fn lemma_wake_queues_last(r: RuntimeView, id: usize)
    requires
        r.wf(),
        r.queue.receiver_alive,
        r.queue.has_room(),
    ensures
        r.wake_result(id) == WakeOutcome::Queued,
        r.after_wake(id).queue.items == r.queue.items.push(id),
        r.queue.items.len() > 0 ==> r.after_wake(id).next_result() == r.next_result(),
{
}

/// The state after the executor took `k` steps.
pub open spec fn advance(r: RuntimeView, k: nat) -> RuntimeView
    decreases k,
{
    if k == 0 {
        r
    } else {
        advance(r, (k - 1) as nat).after_next()
    }
}

proof fn lemma_advance_skips(r: RuntimeView, k: nat)
    requires
        r.queue.receiver_alive,
        k <= r.queue.items.len(),
    ensures
        advance(r, k).queue.items == r.queue.items.skip(k as int),
        advance(r, k).tasks == r.tasks,
        advance(r, k).queue.receiver_alive,
    decreases k,
{
    if k > 0 {
        lemma_advance_skips(r, (k - 1) as nat);
        let p = advance(r, (k - 1) as nat);
        assert(p.queue.items.len() > 0);
        assert(p.queue.items.drop_first() =~= r.queue.items.skip(k as int));
    } else {
        assert(r.queue.items.skip(0) =~= r.queue.items);
    }
}

/// Every queued task is polled in its turn: a task at position `k` of the
/// queue is the one polled at the executor's `k`-th next step (counting
/// from zero), each earlier step polls the task queued before it, and the
/// executor may take every one of these steps when the tasks ahead are live.
pub proof fn lemma_queued_task_polled(r: RuntimeView, k: nat)
    requires
        r.wf(),
        r.queue.receiver_alive,
        k < r.queue.items.len(),
    ensures
        advance(r, k).next_result() == Step::Poll(r.queue.items[k as int]),
        forall|j: nat| j <= k ==> #[trigger] advance(r, j).next_result() == Step::Poll(
            r.queue.items[j as int],
        ),
        (forall|j: int| 0 <= j <= k ==> r.tasks[#[trigger] r.queue.items[j] as int]
            == TaskState::Live) ==> forall|j: nat| j <= k ==> #[trigger] advance(r, j).head_live(),
{
    assert forall|j: nat| j <= k implies #[trigger] advance(r, j).next_result() == Step::Poll(
        r.queue.items[j as int],
    ) by {
        lemma_advance_skips(r, j);
        assert(advance(r, j).queue.items[0] == r.queue.items[j as int]);
    }
    if forall|j: int| 0 <= j <= k ==> r.tasks[#[trigger] r.queue.items[j] as int]
        == TaskState::Live {
        assert forall|j: nat| j <= k implies #[trigger] advance(r, j).head_live() by {
            lemma_advance_skips(r, j);
            assert(advance(r, j).queue.items[0] == r.queue.items[j as int]);
            assert(r.tasks[r.queue.items[j as int] as int] == TaskState::Live);
        }
    }
}

/// A full queue blocks a spawn without changing anything, so no queued task
/// is dropped or overwritten; once the executor has taken one task, the
/// spawn goes through.
pub proof fn lemma_full_queue_blocks_spawn(r: RuntimeView)
    requires
        r.wf(),
        r.spawner_alive,
        r.queue.receiver_alive,
        r.queue.items.len() == CHANNEL_CAPACITY,
    ensures
        r.spawn_result() == SpawnOutcome::Full,
        r.after_spawn() == r,
        r.after_next().spawn_result() == SpawnOutcome::Queued(r.tasks.len() as usize),
        r.after_next().queue.items == r.queue.items.drop_first(),
{
}

/// A live task that is woken while the queue is otherwise empty is polled
/// next.
pub proof fn lemma_wake_then_poll(r: RuntimeView, id: usize)
    requires
        r.wf(),
        r.queue.receiver_alive,
        r.queue.items.len() == 0,
        id < r.tasks.len(),
        r.tasks[id as int] == TaskState::Live,
    ensures
        r.wake_result(id) == WakeOutcome::Queued,
        r.after_wake(id).next_result() == Step::Poll(id),
{
    assert(r.after_wake(id).queue.items =~= seq![id]);
}

/// The state after `n` rounds in each of which the executor polls the task
/// at the head of the queue, which answers not ready and is woken again.
pub open spec fn pending_rounds(r: RuntimeView, id: usize, n: nat) -> RuntimeView
    decreases n,
{
    if n == 0 {
        r
    } else {
        pending_rounds(r, id, (n - 1) as nat).after_next().after_wake(id)
    }
}

proof fn lemma_pending_rounds_fixed(r: RuntimeView, id: usize, n: nat)
    requires
        r.wf(),
        r.queue.receiver_alive,
        r.queue.items == seq![id],
    ensures
        pending_rounds(r, id, n) == r,
    decreases n,
{
    if n > 0 {
        lemma_pending_rounds_fixed(r, id, (n - 1) as nat);
        let a = r.after_next();
        assert(a.queue.items =~= Seq::<usize>::empty());
        assert(a.after_wake(id).queue.items =~= r.queue.items);
        assert(a.after_wake(id).queue == r.queue);
    }
}

/// A spawned task runs to completion and delivers its output: on an idle
/// executor, the spawned task is polled next; as long as its future answers
/// not ready and wakes it, it is polled again at every step (and the
/// executor may take each of them); when the future is ready with `v`, the
/// task is completed, nothing is left queued, and the task's handle yields
/// `v`.
pub proof fn lemma_task_runs_to_completion<T>(r: RuntimeView, n: nat, c: ChannelView<T>, v: T)
    requires
        r.wf(),
        r.spawner_alive,
        r.queue.receiver_alive,
        r.queue.items.len() == 0,
        r.tasks.len() + 1 < usize::MAX,
        handle_wf(c),
        c.senders == 1,
    ensures
        ({
            let id = r.tasks.len() as usize;
            let s = r.after_spawn();
            &&& r.spawn_result() == SpawnOutcome::Queued(id)
            &&& s.wf()
            &&& forall|j: nat| j <= n ==> #[trigger] pending_rounds(s, id, j).head_live()
                && pending_rounds(s, id, j).next_result() == Step::Poll(id)
            &&& pending_rounds(s, id, n).after_next().after_complete(id).wf()
            &&& pending_rounds(s, id, n).after_next().after_complete(id).tasks[id as int]
                == TaskState::Completed
            &&& pending_rounds(s, id, n).after_next().after_complete(id).queue.items.len() == 0
            &&& crate::handle::after_complete(c, v).recv_result() == Ok::<T, TryRecvError>(v)
        }),
{
    let id = r.tasks.len() as usize;
    let s = r.after_spawn();
    lemma_held_count_le_len(r.tasks);
    lemma_held_count_push(r.tasks, TaskState::Live);
    assert(s.queue.items =~= seq![id]);
    assert(s.wf()) by {
        assert forall|i: int| 0 <= i < s.queue.items.len() implies #[trigger] s.queue.items[i]
            < s.tasks.len() && s.tasks[s.queue.items[i] as int] != TaskState::Released by {
            assert(s.queue.items[i] == id);
        }
    }
    assert forall|j: nat| j <= n implies #[trigger] pending_rounds(s, id, j).head_live()
        && pending_rounds(s, id, j).next_result() == Step::Poll(id) by {
        lemma_pending_rounds_fixed(s, id, j);
    }
    lemma_pending_rounds_fixed(s, id, n);
    let a = s.after_next();
    assert(a.queue.items =~= Seq::<usize>::empty());
    lemma_held_count_update(a.tasks, id as int, TaskState::Completed);
    let d = a.after_complete(id);
    assert(d.wf());
    assert(crate::handle::after_complete(c, v).items =~= seq![v]);
}

/// An idle executor may always take its next step: with nothing queued the
/// executor is never barred from waiting or stopping; in particular a new
/// executor may step, and its step is to wait.
pub proof fn lemma_empty_queue_may_step(r: RuntimeView)
    ensures
        r.queue.items.len() == 0 ==> r.head_live(),
        r.queue.items.len() == 0 && r.queue.senders > 0 ==> r.next_result() == Step::Idle,
        RuntimeView::initial().head_live(),
        RuntimeView::initial().next_result() == Step::Idle,
        r.queue.items.len() > 0 ==> (r.head_live() <==> r.tasks[r.queue.items[0] as int]
            == TaskState::Live),
{
}

/// Completing a live task always records it, whatever is queued (a wake of
/// the task during its last poll included): the task is completed, every
/// other task keeps its state, and the queue, its senders and the spawner
/// are untouched. If the task is at the head of the queue, the executor may
/// then not step, so the completed future is not polled again.
pub proof fn lemma_complete_records(r: RuntimeView, id: usize)
    requires
        id < r.tasks.len(),
    ensures
        r.after_complete(id).tasks[id as int] == TaskState::Completed,
        r.after_complete(id).tasks.len() == r.tasks.len(),
        forall|j: int| 0 <= j < r.tasks.len() && j != id ==> #[trigger] r.after_complete(id).tasks[j]
            == r.tasks[j],
        r.after_complete(id).queue == r.queue,
        r.after_complete(id).spawner_alive == r.spawner_alive,
        r.queue.items.len() > 0 && r.queue.items[0] == id ==> !r.after_complete(id).head_live(),
{
}

/// Releasing a task records it and gives up exactly one sending end; every
/// other task keeps its state and the queue's contents are untouched.
pub proof fn lemma_release_records(r: RuntimeView, id: usize)
    requires
        r.wf(),
        id < r.tasks.len(),
        r.tasks[id as int] != TaskState::Released,
    ensures
        r.after_release(id).tasks[id as int] == TaskState::Released,
        forall|j: int| 0 <= j < r.tasks.len() && j != id ==> #[trigger] r.after_release(id).tasks[j]
            == r.tasks[j],
        r.after_release(id).queue.items == r.queue.items,
        r.after_release(id).queue.senders + 1 == r.queue.senders,
        r.after_release(id).queue.receiver_alive == r.queue.receiver_alive,
{
    lemma_held_count_update(r.tasks, id as int, TaskState::Released);
}

/// A spawn that is queued gives the task the next id, appends that id to
/// the queue, records the task live and adds one sending end; the tasks
/// already there keep their states.
pub proof fn lemma_spawn_appends(r: RuntimeView)
    requires
        r.queue.receiver_alive,
        r.queue.has_room(),
    ensures
        r.spawn_result() == SpawnOutcome::Queued(r.tasks.len() as usize),
        r.after_spawn().queue.items == r.queue.items.push(r.tasks.len() as usize),
        r.after_spawn().tasks == r.tasks.push(TaskState::Live),
        r.after_spawn().queue.senders == r.queue.senders + 1,
{
}

/// Dropping the executor empties the queue and refuses later sends, and
/// touches nothing else: every task keeps its state and the sending ends
/// are as they were. Dropping the spawner gives up exactly its sending end.
pub proof fn lemma_drops_touch_only_their_end(r: RuntimeView)
    requires
        r.wf(),
    ensures
        r.after_drop_executor().queue.items.len() == 0,
        !r.after_drop_executor().queue.receiver_alive,
        r.after_drop_executor().tasks == r.tasks,
        r.after_drop_executor().queue.senders == r.queue.senders,
        r.after_drop_executor().spawner_alive == r.spawner_alive,
        r.spawner_alive ==> r.after_drop_spawner().queue.senders + 1 == r.queue.senders,
        !r.after_drop_spawner().spawner_alive,
        r.after_drop_spawner().tasks == r.tasks,
        r.after_drop_spawner().queue.items == r.queue.items,
{
}

} // verus!
