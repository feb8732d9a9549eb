use vstd::prelude::*;

verus! {

/// Index of a task in the scheduler's task table.
pub type TaskId = usize;

/// Where a task stands in its life.
#[derive(Clone, Copy, PartialEq, Eq, Structural, Debug)]
pub enum TaskState {
    /// On the ready queue, waiting for its next poll.
    Queued,
    /// Taken off the queue; its computation is being polled.
    Polling,
    /// Its last poll returned pending; it waits for a wake.
    Parked,
    /// Its computation returned ready.
    Completed,
    /// It was parked when its last wake handle went away.
    Abandoned,
}

impl TaskState {
    pub open spec fn is_terminal(self) -> bool {
        self is Completed || self is Abandoned
    }
}

/// What one poll of a computation returned.
#[derive(Clone, Copy, PartialEq, Eq, Structural, Debug)]
pub enum PollResult {
    Ready,
    Pending,
}

/// What the run loop does next.
#[derive(Clone, Copy, PartialEq, Eq, Structural, Debug)]
pub enum Step {
    /// Poll the computation of the task with this id.
    Poll(TaskId),
    /// Nothing is ready but a producer is still alive: block until an event.
    Wait,
    /// No producer is left and nothing is queued: the run loop ends.
    Shutdown,
}

/// The ready queue is full: a spawn or a wake could not enqueue its task.
#[derive(Clone, Copy, PartialEq, Eq, Structural, Debug)]
pub struct QueueSaturated;

/// A handle count is at its largest value and cannot grow.
#[derive(Clone, Copy, PartialEq, Eq, Structural, Debug)]
pub struct HandleOverflow;

/// The abstract state of a scheduler.
pub struct SchedulerView {
    /// The state of each task ever spawned, by id.
    pub states: Seq<TaskState>,
    /// The number of live wake handles of each task, by id.
    pub handles: Seq<nat>,
    /// The ready queue, front first.
    pub queue: Seq<TaskId>,
    /// The bound on queued tasks fixed at construction.
    pub capacity: nat,
    /// The number of live spawner handles.
    pub spawners: nat,
    /// The task being polled was woken during its poll.
    pub rewake: bool,
}

/// An event that changes the scheduler's state.
pub enum Event {
    Spawn,
    Wake(TaskId),
    Step,
    Finish(TaskId, PollResult),
    Retain(TaskId),
    Release(TaskId),
    CloneSpawner,
    DropSpawner,
}

impl SchedulerView {
    pub open spec fn num_tasks(self) -> nat {
        self.states.len()
    }

    pub open spec fn valid_id(self, id: int) -> bool {
        0 <= id < self.states.len()
    }

    /// Queue slots in use: the queued tasks, plus one slot held for a task
    /// that was woken while it was being polled.
    pub open spec fn occupancy(self) -> nat {
        self.queue.len() + if self.rewake {
            1nat
        } else {
            0nat
        }
    }

    /// The task `id` has an entry on the ready queue.
    pub open spec fn in_queue(self, id: int) -> bool {
        exists|k: int| 0 <= k < self.queue.len() && self.queue[k] == id
    }

    /// One more task fits on the queue.
    pub open spec fn has_room(self) -> bool {
        self.occupancy() < self.capacity
    }

    pub open spec fn is_polling(self, id: int) -> bool {
        self.valid_id(id) && self.states[id] is Polling
    }

    pub open spec fn no_task_polling(self) -> bool {
        forall|i: int| 0 <= i < self.states.len() ==> !(#[trigger] self.states[i] is Polling)
    }

    /// Every task has completed or been abandoned.
    pub open spec fn all_settled(self) -> bool {
        forall|i: int| 0 <= i < self.states.len() ==> (#[trigger] self.states[i]).is_terminal()
    }

    /// The scheduler's invariant: the queue holds within its bound exactly
    /// the queued tasks, each once; a parked task has a live wake handle; at
    /// most one task is being polled; a held slot belongs to a task being
    /// polled.
    pub open spec fn wf(self) -> bool {
        &&& self.handles.len() == self.states.len()
        &&& self.occupancy() <= self.capacity
        &&& forall|k: int|
            0 <= k < self.queue.len() ==> {
                &&& 0 <= #[trigger] self.queue[k] < self.states.len()
                &&& self.states[self.queue[k] as int] is Queued
            }
        &&& forall|j: int, k: int|
            0 <= j < k < self.queue.len() ==> self.queue[j] != self.queue[k]
        &&& self.states.len() <= usize::MAX
        &&& forall|i: int|
            0 <= i < self.states.len() && (#[trigger] self.states[i] is Queued) ==> self.in_queue(i)
        &&& forall|i: int|
            0 <= i < self.states.len() && (#[trigger] self.states[i] is Parked) ==> self.handles[i]
                > 0
        &&& forall|i: int, j: int|
            0 <= i < self.states.len() && 0 <= j < self.states.len() && (
            #[trigger] self.states[i] is Polling) && (#[trigger] self.states[j] is Polling) ==> i
                == j
        &&& self.rewake ==> !self.no_task_polling()
    }

    /// The id of a task that would be spawned now.
    pub open spec fn next_id(self) -> TaskId {
        self.states.len() as TaskId
    }

    /// A new task, with no wake handle, is added and queued at the back.
    pub open spec fn spawned(self) -> Self {
        SchedulerView {
            states: self.states.push(TaskState::Queued),
            handles: self.handles.push(0),
            queue: self.queue.push(self.next_id()),
            ..self
        }
    }

    /// A wake of the task `id` needs a queue slot: the task is parked, or it is
    /// being polled and was not woken yet during this poll.
    pub open spec fn wake_takes_slot(self, id: int) -> bool {
        self.valid_id(id) && (self.states[id] is Parked || (self.states[id] is Polling
            && !self.rewake))
    }

    /// A parked task is queued at the back; a task being polled gets a held
    /// slot; any other wake changes nothing.
    pub open spec fn woken(self, id: TaskId) -> Self {
        if !self.wake_takes_slot(id as int) {
            self
        } else if self.states[id as int] is Parked {
            SchedulerView {
                states: self.states.update(id as int, TaskState::Queued),
                queue: self.queue.push(id),
                ..self
            }
        } else {
            SchedulerView { rewake: true, ..self }
        }
    }

    /// Poll the task at the front of the queue; with an empty queue, shut
    /// down once no spawner is left and every task is settled, else wait.
    pub open spec fn step_of(self) -> Step {
        if self.queue.len() > 0 {
            Step::Poll(self.queue[0])
        } else if self.spawners == 0 && self.all_settled() {
            Step::Shutdown
        } else {
            Step::Wait
        }
    }

    /// The task at the front of the queue, if any, leaves it to be polled.
    pub open spec fn stepped(self) -> Self {
        if self.queue.len() > 0 {
            SchedulerView {
                states: self.states.update(self.queue[0] as int, TaskState::Polling),
                queue: self.queue.drop_first(),
                ..self
            }
        } else {
            self
        }
    }

    /// The state a polled task moves to: completed on ready; on pending, back
    /// on the queue if it was woken during the poll, else parked while a wake
    /// handle of it is alive and abandoned when none is.
    pub open spec fn state_after_poll(self, id: int, outcome: PollResult) -> TaskState {
        match outcome {
            PollResult::Ready => TaskState::Completed,
            PollResult::Pending => if self.rewake {
                TaskState::Queued
            } else if self.handles[id] == 0 {
                TaskState::Abandoned
            } else {
                TaskState::Parked
            },
        }
    }

    /// The polled task takes its state after the poll, goes back on the
    /// queue if that state is queued, and any held slot is given up.
    pub open spec fn finished(self, id: TaskId, outcome: PollResult) -> Self {
        let next = self.state_after_poll(id as int, outcome);
        SchedulerView {
            states: self.states.update(id as int, next),
            queue: if next is Queued {
                self.queue.push(id)
            } else {
                self.queue
            },
            rewake: false,
            ..self
        }
    }

    /// One more wake handle of the task `id`.
    pub open spec fn retained(self, id: TaskId) -> Self {
        if self.valid_id(id as int) {
            SchedulerView { handles: self.handles.update(id as int, self.handles[id as int] + 1), ..self }
        } else {
            self
        }
    }

    /// One wake handle of the task `id` less; a parked task whose last handle
    /// goes is abandoned.
    pub open spec fn released(self, id: TaskId) -> Self {
        if self.valid_id(id as int) && self.handles[id as int] > 0 {
            let left = (self.handles[id as int] - 1) as nat;
            SchedulerView {
                handles: self.handles.update(id as int, left),
                states: if left == 0 && self.states[id as int] is Parked {
                    self.states.update(id as int, TaskState::Abandoned)
                } else {
                    self.states
                },
                ..self
            }
        } else {
            self
        }
    }

    pub open spec fn spawner_cloned(self) -> Self {
        SchedulerView { spawners: self.spawners + 1, ..self }
    }

    pub open spec fn spawner_dropped(self) -> Self {
        SchedulerView {
            spawners: if self.spawners > 0 {
                (self.spawners - 1) as nat
            } else {
                0
            },
            ..self
        }
    }

    /// The event can happen in this state: what it needs holds, and a queue
    /// slot is free where it takes one.
    pub open spec fn accepts(self, e: Event) -> bool {
        match e {
            Event::Spawn => self.has_room() && self.states.len() < usize::MAX,
            Event::Wake(id) => self.wake_takes_slot(id as int) ==> self.has_room(),
            Event::Step => self.no_task_polling(),
            Event::Finish(id, _) => self.is_polling(id as int),
            Event::Retain(_) => true,
            Event::Release(_) => true,
            Event::CloneSpawner => true,
            Event::DropSpawner => true,
        }
    }

    /// The state after the event.
    pub open spec fn apply(self, e: Event) -> Self {
        match e {
            Event::Spawn => self.spawned(),
            Event::Wake(id) => self.woken(id),
            Event::Step => self.stepped(),
            Event::Finish(id, outcome) => self.finished(id, outcome),
            Event::Retain(id) => self.retained(id),
            Event::Release(id) => self.released(id),
            Event::CloneSpawner => self.spawner_cloned(),
            Event::DropSpawner => self.spawner_dropped(),
        }
    }
}

/// The number of tasks that have neither completed nor been abandoned.
spec fn unsettled_count(states: Seq<TaskState>) -> nat
    decreases states.len(),
{
    if states.len() == 0 {
        0
    } else {
        unsettled_count(states.drop_last()) + if states.last().is_terminal() {
            0nat
        } else {
            1nat
        }
    }
}

proof fn lemma_unsettled_bounded(states: Seq<TaskState>)
    ensures
        unsettled_count(states) <= states.len(),
        unsettled_count(states) == 0 <==> forall|i: int|
            0 <= i < states.len() ==> (#[trigger] states[i]).is_terminal(),
    decreases states.len(),
{
    if states.len() > 0 {
        let init = states.drop_last();
        lemma_unsettled_bounded(init);
        if unsettled_count(states) == 0 {
            assert forall|i: int| 0 <= i < states.len() implies (#[trigger] states[i]).is_terminal() by {
                if i < init.len() {
                    assert(init[i] == states[i]);
                }
            }
        }
        if forall|i: int| 0 <= i < states.len() ==> (#[trigger] states[i]).is_terminal() {
            assert forall|i: int| 0 <= i < init.len() implies (#[trigger] init[i]).is_terminal() by {
                assert(init[i] == states[i]);
            }
        }
    }
}

proof fn lemma_unsettled_push(states: Seq<TaskState>, x: TaskState)
    ensures
        unsettled_count(states.push(x)) == unsettled_count(states) + if x.is_terminal() {
            0nat
        } else {
            1nat
        },
{
    assert(states.push(x).drop_last() =~= states);
}

proof fn lemma_unsettled_update(states: Seq<TaskState>, i: int, x: TaskState)
    requires
        0 <= i < states.len(),
    ensures
        unsettled_count(states.update(i, x)) + (if states[i].is_terminal() {
            0nat
        } else {
            1nat
        }) == unsettled_count(states) + if x.is_terminal() {
            0nat
        } else {
            1nat
        },
    decreases states.len(),
{
    let t = states.update(i, x);
    if i == states.len() - 1 {
        assert(t.drop_last() =~= states.drop_last());
    } else {
        lemma_unsettled_update(states.drop_last(), i, x);
        assert(t.drop_last() =~= states.drop_last().update(i, x));
    }
}

proof fn lemma_spawned_wf(s: SchedulerView)
    requires
        s.wf(),
        s.accepts(Event::Spawn),
    ensures
        s.spawned().wf(),
{
    let t = s.spawned();
    let n = s.next_id();
    assert forall|i: int| 0 <= i < t.states.len() && (#[trigger] t.states[i] is Queued) implies t.in_queue(i) by {
        if i < s.states.len() {
            let k = choose|k: int| 0 <= k < s.queue.len() && s.queue[k] == i;
            assert(t.queue[k] == i);
        } else {
            assert(t.queue[s.queue.len() as int] == i);
        }
    }
    if s.rewake {
        let p = choose|p: int| 0 <= p < s.states.len() && s.states[p] is Polling;
        assert(t.states[p] is Polling);
    }
}

proof fn lemma_woken_wf(s: SchedulerView, id: TaskId)
    requires
        s.wf(),
        s.accepts(Event::Wake(id)),
    ensures
        s.woken(id).wf(),
{
    let t = s.woken(id);
    if s.wake_takes_slot(id as int) && s.states[id as int] is Parked {
        assert forall|i: int| 0 <= i < t.states.len() && (#[trigger] t.states[i] is Queued) implies t.in_queue(i) by {
            if i != id {
                let k = choose|k: int| 0 <= k < s.queue.len() && s.queue[k] == i;
                assert(t.queue[k] == i);
            } else {
                assert(t.queue[s.queue.len() as int] == i);
            }
        }
        if s.rewake {
            let p = choose|p: int| 0 <= p < s.states.len() && s.states[p] is Polling;
            assert(t.states[p] is Polling);
        }
    } else if s.wake_takes_slot(id as int) {
        assert(t.states[id as int] is Polling);
    }
}

proof fn lemma_stepped_wf(s: SchedulerView)
    requires
        s.wf(),
        s.no_task_polling(),
    ensures
        s.stepped().wf(),
{
    let t = s.stepped();
    if s.queue.len() > 0 {
        let f = s.queue[0];
        assert forall|k: int| 0 <= k < t.queue.len() implies 0 <= #[trigger] t.queue[k] < t.states.len()
            && t.states[t.queue[k] as int] is Queued by {
            assert(t.queue[k] == s.queue[k + 1]);
            assert(s.queue[0] != s.queue[k + 1]);
        }
        assert forall|i: int| 0 <= i < t.states.len() && (#[trigger] t.states[i] is Queued) implies t.in_queue(i) by {
            let k = choose|k: int| 0 <= k < s.queue.len() && s.queue[k] == i;
            assert(k != 0);
            assert(t.queue[k - 1] == i);
        }
    }
}

proof fn lemma_finished_wf(s: SchedulerView, id: TaskId, outcome: PollResult)
    requires
        s.wf(),
        s.is_polling(id as int),
    ensures
        s.finished(id, outcome).wf(),
{
    let t = s.finished(id, outcome);
    assert(!s.in_queue(id as int));
    assert forall|i: int| 0 <= i < t.states.len() && (#[trigger] t.states[i] is Queued) implies t.in_queue(i) by {
        if i != id {
            let k = choose|k: int| 0 <= k < s.queue.len() && s.queue[k] == i;
            assert(t.queue[k] == i);
        } else {
            assert(t.queue[s.queue.len() as int] == i);
        }
    }
    assert forall|i: int| 0 <= i < t.states.len() implies !(#[trigger] t.states[i] is Polling) by {
        if i != id {
            assert(s.states[i] is Polling ==> i == id);
        }
    }
}

proof fn lemma_retained_wf(s: SchedulerView, id: TaskId)
    requires
        s.wf(),
    ensures
        s.retained(id).wf(),
{
}

proof fn lemma_released_wf(s: SchedulerView, id: TaskId)
    requires
        s.wf(),
    ensures
        s.released(id).wf(),
{
    let t = s.released(id);
    if s.valid_id(id as int) && s.handles[id as int] > 0 {
        if s.rewake {
            let p = choose|p: int| 0 <= p < s.states.len() && s.states[p] is Polling;
            assert(t.states[p] is Polling);
        }
    }
}

/// Every event that a well-formed scheduler accepts leaves it well-formed.
pub proof fn lemma_apply_wf(s: SchedulerView, e: Event)
    requires
        s.wf(),
        s.accepts(e),
    ensures
        s.apply(e).wf(),
{
    match e {
        Event::Spawn => lemma_spawned_wf(s),
        Event::Wake(id) => lemma_woken_wf(s, id),
        Event::Step => lemma_stepped_wf(s),
        Event::Finish(id, outcome) => lemma_finished_wf(s, id, outcome),
        Event::Retain(id) => lemma_retained_wf(s, id),
        Event::Release(id) => lemma_released_wf(s, id),
        Event::CloneSpawner => {},
        Event::DropSpawner => {},
    }
}

/// The scheduling state of a single-consumer executor: the task table, the
/// bounded FIFO ready queue and the counts of live producer handles.
pub struct Scheduler {
    states: Vec<TaskState>,
    handles: Vec<u64>,
    queue: std::collections::VecDeque<TaskId>,
    max_queued_tasks: usize,
    spawners: u64,
    rewake: bool,
    /// How many tasks are neither completed nor abandoned.
    unsettled: usize,
}

impl View for Scheduler {
    type V = SchedulerView;

    closed spec fn view(&self) -> SchedulerView {
        SchedulerView {
            states: self.states@,
            handles: self.handles@.map_values(|h: u64| h as nat),
            queue: self.queue@,
            capacity: self.max_queued_tasks as nat,
            spawners: self.spawners as nat,
            rewake: self.rewake,
        }
    }
}

impl Scheduler {
    pub open spec fn wf(&self) -> bool {
        &&& self@.wf()
        &&& self.counts_match()
    }

    /// The stored counts agree with the task table.
    pub closed spec fn counts_match(&self) -> bool {
        &&& self.handles@.len() == self.states@.len()
        &&& self.unsettled == unsettled_count(self.states@)
    }

    /// A scheduler with no task, an empty queue of the given capacity, and
    /// the one spawner handle that is created with it.
    pub fn new(max_queued_tasks: usize) -> (r: Self)
        ensures
            r.wf(),
            r@.states == Seq::<TaskState>::empty(),
            r@.handles == Seq::<nat>::empty(),
            r@.queue == Seq::<TaskId>::empty(),
            r@.capacity == max_queued_tasks,
            r@.spawners == 1,
            !r@.rewake,
    {
        let r = Scheduler {
            states: Vec::new(),
            handles: Vec::new(),
            queue: std::collections::VecDeque::new(),
            max_queued_tasks,
            spawners: 1,
            rewake: false,
            unsettled: 0,
        };
        assert(r@.handles =~= Seq::<nat>::empty());
        r
    }

    /// Number of tasks spawned so far; the next spawn gets this id.
    pub fn num_tasks(&self) -> (r: usize)
        requires
            self.wf(),
        ensures
            r == self@.num_tasks(),
    {
        self.states.len()
    }

    /// The state of a task, or `None` for an id that no spawn returned.
    pub fn state(&self, id: TaskId) -> (r: Option<TaskState>)
        requires
            self.wf(),
        ensures
            r == (if self@.valid_id(id as int) {
                Some(self@.states[id as int])
            } else {
                None
            }),
    {
        if id < self.states.len() {
            Some(self.states[id])
        } else {
            None
        }
    }

    fn occupancy(&self) -> (r: usize)
        requires
            self.wf(),
        ensures
            r == self@.occupancy(),
    {
        if self.rewake {
            self.queue.len() + 1
        } else {
            self.queue.len()
        }
    }

    /// Adds a task and puts it on the ready queue; a new task is always polled
    /// once before anything decides that it waits. Fails, changing nothing,
    /// when the queue is full.
    pub fn spawn(&mut self) -> (r: Result<TaskId, QueueSaturated>)
        requires
            old(self).wf(),
            old(self)@.num_tasks() < usize::MAX,
        ensures
            final(self).wf(),
            r is Ok <==> old(self)@.has_room(),
            r is Ok ==> r == Ok::<TaskId, QueueSaturated>(old(self)@.next_id()),
            r is Ok ==> final(self)@ == old(self)@.spawned(),
            r is Err ==> final(self)@ == old(self)@,
    {
        if self.occupancy() >= self.max_queued_tasks {
            return Err(QueueSaturated);
        }
        proof {
            lemma_spawned_wf(self@);
        }
        proof {
            lemma_unsettled_bounded(self.states@);
            lemma_unsettled_push(self.states@, TaskState::Queued);
        }
        let id = self.states.len();
        self.unsettled = self.unsettled + 1;
        self.states.push(TaskState::Queued);
        self.handles.push(0);
        self.queue.push_back(id);
        assert(self@.handles =~= old(self)@.spawned().handles);
        Ok(id)
    }

    /// Called through a wake handle of the task: a parked task goes back on
    /// the queue; a task being polled is queued again once its poll returns
    /// pending; a wake of a queued, completed or abandoned task, a second wake
    /// during one poll, and a wake with an unknown id change nothing. Fails,
    /// changing nothing, when the wake needs a queue slot and none is free.
    pub fn wake_by_ref(&mut self, id: TaskId) -> (r: Result<(), QueueSaturated>)
        requires
            old(self).wf(),
        ensures
            final(self).wf(),
            r is Err <==> !old(self)@.accepts(Event::Wake(id)),
            r is Ok ==> final(self)@ == old(self)@.woken(id),
            r is Err ==> final(self)@ == old(self)@,
    {
        if id >= self.states.len() {
            return Ok(());
        }
        let takes_slot = match self.states[id] {
            TaskState::Parked => true,
            TaskState::Polling => !self.rewake,
            _ => false,
        };
        if !takes_slot {
            return Ok(());
        }
        if self.occupancy() >= self.max_queued_tasks {
            return Err(QueueSaturated);
        }
        proof {
            lemma_woken_wf(self@, id);
        }
        if self.states[id] == TaskState::Parked {
            proof {
                lemma_unsettled_update(self.states@, id as int, TaskState::Queued);
            }
            self.states.set(id, TaskState::Queued);
            self.queue.push_back(id);
        } else {
            self.rewake = true;
        }
        Ok(())
    }

    /// Decides the run loop's next step. When a task is queued, the one at
    /// the front leaves the queue and is marked as being polled.
    pub fn next_step(&mut self) -> (r: Step)
        requires
            old(self).wf(),
            old(self)@.no_task_polling(),
        ensures
            final(self).wf(),
            r == old(self)@.step_of(),
            final(self)@ == old(self)@.stepped(),
    {
        proof {
            lemma_stepped_wf(self@);
        }
        match self.queue.pop_front() {
            Some(id) => {
                proof {
                    lemma_unsettled_update(self.states@, id as int, TaskState::Polling);
                }
                self.states.set(id, TaskState::Polling);
                Step::Poll(id)
            },
            None => {
                proof {
                    lemma_unsettled_bounded(self.states@);
                }
                if self.spawners == 0 && self.unsettled == 0 {
                    Step::Shutdown
                } else {
                    Step::Wait
                }
            },
        }
    }

    /// Records what the poll of the task being polled returned, and returns
    /// the task's new state: a completed or abandoned task's computation is
    /// dropped by the caller, any other is kept for the next poll.
    pub fn finish_poll(&mut self, id: TaskId, outcome: PollResult) -> (r: TaskState)
        requires
            old(self).wf(),
            old(self)@.is_polling(id as int),
        ensures
            final(self).wf(),
            r == old(self)@.state_after_poll(id as int, outcome),
            final(self)@ == old(self)@.finished(id, outcome),
    {
        proof {
            lemma_finished_wf(self@, id, outcome);
        }
        let next = match outcome {
            PollResult::Ready => TaskState::Completed,
            PollResult::Pending => if self.rewake {
                TaskState::Queued
            } else if self.handles[id] == 0 {
                TaskState::Abandoned
            } else {
                TaskState::Parked
            },
        };
        proof {
            lemma_unsettled_update(self.states@, id as int, next);
        }
        self.states.set(id, next);
        if next == TaskState::Completed || next == TaskState::Abandoned {
            self.unsettled = self.unsettled - 1;
        }
        if next == TaskState::Queued {
            self.queue.push_back(id);
        }
        self.rewake = false;
        next
    }

    /// Counts one more live wake handle of the task; an unknown id changes
    /// nothing. Fails, changing nothing, when the count is at its largest.
    pub fn retain(&mut self, id: TaskId) -> (r: Result<(), HandleOverflow>)
        requires
            old(self).wf(),
        ensures
            final(self).wf(),
            r is Err <==> (old(self)@.valid_id(id as int) && old(self)@.handles[id as int]
                == u64::MAX),
            r is Ok ==> final(self)@ == old(self)@.retained(id),
            r is Err ==> final(self)@ == old(self)@,
    {
        if id >= self.handles.len() {
            return Ok(());
        }
        let h = self.handles[id];
        if h == u64::MAX {
            return Err(HandleOverflow);
        }
        proof {
            lemma_retained_wf(self@, id);
        }
        self.handles.set(id, h + 1);
        assert(self@.handles =~= old(self)@.retained(id).handles);
        Ok(())
    }

    /// Counts one wake handle of the task less. A parked task whose last
    /// handle goes away is abandoned: nothing can wake it any more. Returns
    /// whether that happened. An unknown id or a count at zero changes nothing.
    pub fn release(&mut self, id: TaskId) -> (r: bool)
        requires
            old(self).wf(),
        ensures
            final(self).wf(),
            final(self)@ == old(self)@.released(id),
            r == (old(self)@.valid_id(id as int) && old(self)@.states[id as int] is Parked
                && final(self)@.states[id as int] is Abandoned),
    {
        if id >= self.handles.len() {
            return false;
        }
        let h = self.handles[id];
        if h == 0 {
            return false;
        }
        proof {
            lemma_released_wf(self@, id);
        }
        self.handles.set(id, h - 1);
        let abandoned = h == 1 && self.states[id] == TaskState::Parked;
        if abandoned {
            proof {
                lemma_unsettled_update(self.states@, id as int, TaskState::Abandoned);
            }
            self.states.set(id, TaskState::Abandoned);
            self.unsettled = self.unsettled - 1;
        }
        assert(self@.handles =~= old(self)@.released(id).handles);
        abandoned
    }

    /// Counts one more live spawner handle. Fails, changing nothing, when the
    /// count is at its largest.
    pub fn clone_spawner(&mut self) -> (r: Result<(), HandleOverflow>)
        requires
            old(self).wf(),
        ensures
            final(self).wf(),
            r is Err <==> old(self)@.spawners == u64::MAX,
            r is Ok ==> final(self)@ == old(self)@.spawner_cloned(),
            r is Err ==> final(self)@ == old(self)@,
    {
        if self.spawners == u64::MAX {
            return Err(HandleOverflow);
        }
        self.spawners = self.spawners + 1;
        Ok(())
    }

    /// Counts one spawner handle less; at zero it changes nothing.
    pub fn drop_spawner(&mut self)
        requires
            old(self).wf(),
        ensures
            final(self).wf(),
            final(self)@ == old(self)@.spawner_dropped(),
    {
        if self.spawners > 0 {
            self.spawners = self.spawners - 1;
        }
    }
}

} // verus!
