//! Scheduling guarantees, stated over the abstract scheduler state and the
//! transitions that the `Scheduler` methods are proved to perform.
use vstd::prelude::*;

use crate::scheduler::{Event, PollResult, SchedulerView, Step, TaskId, TaskState};

verus! {

/// A task whose poll returned ready is completed and is not on the queue.
pub proof fn lemma_ready_completes(s: SchedulerView, id: TaskId)
    requires
        s.wf(),
        s.is_polling(id as int),
    ensures
        s.finished(id, PollResult::Ready).states[id as int] is Completed,
        !s.finished(id, PollResult::Ready).in_queue(id as int),
{
    assert(!s.in_queue(id as int));
}

/// A completed task is never polled again: it is not the next task to poll,
/// and every event leaves it completed and off the queue.
pub proof fn lemma_completed_is_final(s: SchedulerView, id: TaskId, e: Event)
    requires
        s.wf(),
        s.valid_id(id as int),
        s.states[id as int] is Completed,
        s.accepts(e),
    ensures
        s.step_of() != Step::Poll(id),
        !s.in_queue(id as int),
        s.apply(e).states[id as int] is Completed,
        !s.apply(e).in_queue(id as int),
{
    if s.queue.len() > 0 {
        assert(s.states[s.queue[0] as int] is Queued);
    }
    lemma_settled_task_stays(s, id, e);
}

proof fn lemma_settled_task_stays(s: SchedulerView, id: TaskId, e: Event)
    requires
        s.wf(),
        s.valid_id(id as int),
        s.states[id as int].is_terminal(),
        s.accepts(e),
    ensures
        s.apply(e).states[id as int] == s.states[id as int],
        !s.apply(e).in_queue(id as int),
{
    crate::scheduler::lemma_apply_wf(s, e);
    let t = s.apply(e);
    if t.in_queue(id as int) {
        let k = choose|k: int| 0 <= k < t.queue.len() && t.queue[k] == id;
        assert(t.states[t.queue[k] as int] is Queued);
    }
}

/// A task whose poll returned pending, that was not woken during the poll
/// and has a live wake handle, is parked and not on the queue.
pub proof fn lemma_pending_parks(s: SchedulerView, id: TaskId)
    requires
        s.wf(),
        s.is_polling(id as int),
        !s.rewake,
        s.handles[id as int] > 0,
    ensures
        s.finished(id, PollResult::Pending).states[id as int] is Parked,
        !s.finished(id, PollResult::Pending).in_queue(id as int),
{
    assert(!s.in_queue(id as int));
}

/// A parked task is not polled and stays off the queue until it is woken:
/// every other event leaves it parked, or abandoned once its last wake
/// handle is gone.
pub proof fn lemma_parked_waits_for_wake(s: SchedulerView, id: TaskId, e: Event)
    requires
        s.wf(),
        s.valid_id(id as int),
        s.states[id as int] is Parked,
        s.accepts(e),
        e != Event::Wake(id),
    ensures
        s.step_of() != Step::Poll(id),
        !s.in_queue(id as int),
        s.apply(e).states[id as int] is Parked || s.apply(e).states[id as int] is Abandoned,
        !s.apply(e).in_queue(id as int),
{
    if s.queue.len() > 0 {
        assert(s.states[s.queue[0] as int] is Queued);
    }
    if s.in_queue(id as int) {
        let k = choose|k: int| 0 <= k < s.queue.len() && s.queue[k] == id;
        assert(s.states[s.queue[k] as int] is Queued);
    }
    crate::scheduler::lemma_apply_wf(s, e);
    let t = s.apply(e);
    if t.in_queue(id as int) {
        let k = choose|k: int| 0 <= k < t.queue.len() && t.queue[k] == id;
        assert(t.states[t.queue[k] as int] is Queued);
    }
}

/// Waking a parked task puts it on the queue exactly once, at the back; a
/// second wake before its next poll changes nothing.
pub proof fn lemma_wake_parked(s: SchedulerView, id: TaskId)
    requires
        s.wf(),
        s.valid_id(id as int),
        s.states[id as int] is Parked,
        s.has_room(),
    ensures
        s.woken(id).states[id as int] is Queued,
        s.woken(id).queue == s.queue.push(id),
        !s.in_queue(id as int),
        s.woken(id).woken(id) == s.woken(id),
{
    if s.in_queue(id as int) {
        let k = choose|k: int| 0 <= k < s.queue.len() && s.queue[k] == id;
        assert(s.states[s.queue[k] as int] is Queued);
    }
}

/// Waking the task being polled keeps it off the queue during the poll; a
/// second wake during the same poll changes nothing; when the poll returns
/// pending the task is queued once.
pub proof fn lemma_wake_during_poll(s: SchedulerView, id: TaskId)
    requires
        s.wf(),
        s.is_polling(id as int),
        !s.rewake,
        s.has_room(),
    ensures
        s.woken(id).queue == s.queue,
        s.woken(id).woken(id) == s.woken(id),
        s.woken(id).finished(id, PollResult::Pending).states[id as int] is Queued,
        s.woken(id).finished(id, PollResult::Pending).queue == s.queue.push(id),
{
}

/// At most one task is being polled, and it is not on the queue: no
/// computation is ever polled twice at once.
pub proof fn lemma_single_poller(s: SchedulerView, i: TaskId, j: TaskId)
    requires
        s.wf(),
        s.is_polling(i as int),
        s.is_polling(j as int),
    ensures
        i == j,
        !s.in_queue(i as int),
{
    if s.in_queue(i as int) {
        let k = choose|k: int| 0 <= k < s.queue.len() && s.queue[k] == i;
        assert(s.states[s.queue[k] as int] is Queued);
    }
}

/// Three tasks spawned in turn onto an empty queue, with no wakes, are
/// polled in the order in which they were spawned, whatever each poll returns.
pub proof fn lemma_fifo_order(s: SchedulerView, first: PollResult, second: PollResult)
    requires
        s.wf(),
        s.queue.len() == 0,
        s.no_task_polling(),
        s.capacity >= 3,
        s.states.len() + 3 <= usize::MAX,
    ensures
        ({
            let a = s.next_id();
            let s3 = s.spawned().spawned().spawned();
            let u1 = s3.stepped().finished(a, first);
            let u2 = u1.stepped().finished((a + 1) as TaskId, second);
            &&& s3.queue == seq![a, (a + 1) as TaskId, (a + 2) as TaskId]
            &&& s3.step_of() == Step::Poll(a)
            &&& u1.step_of() == Step::Poll((a + 1) as TaskId)
            &&& u2.step_of() == Step::Poll((a + 2) as TaskId)
        }),
{
    assert(!s.rewake);
    let a = s.next_id();
    let s1 = s.spawned();
    crate::scheduler::lemma_apply_wf(s, Event::Spawn);
    let s2 = s1.spawned();
    crate::scheduler::lemma_apply_wf(s1, Event::Spawn);
    let s3 = s2.spawned();
    crate::scheduler::lemma_apply_wf(s2, Event::Spawn);
    assert(s3.queue =~= seq![a, (a + 1) as TaskId, (a + 2) as TaskId]);
    assert(s3.no_task_polling()) by {
        assert forall|i: int| 0 <= i < s3.states.len() implies !(#[trigger] s3.states[i] is Polling) by {
            if i < s.states.len() {
                assert(s3.states[i] == s.states[i]);
            }
        }
    }
    let v1 = s3.stepped();
    crate::scheduler::lemma_apply_wf(s3, Event::Step);
    let u1 = v1.finished(a, first);
    crate::scheduler::lemma_apply_wf(v1, Event::Finish(a, first));
    assert(u1.queue =~= seq![(a + 1) as TaskId, (a + 2) as TaskId]);
    assert(u1.no_task_polling()) by {
        assert forall|i: int| 0 <= i < u1.states.len() implies !(#[trigger] u1.states[i] is Polling) by {
            if i != a {
                assert(u1.states[i] == s3.states[i]);
            }
        }
    }
    let v2 = u1.stepped();
    crate::scheduler::lemma_apply_wf(u1, Event::Step);
    let u2 = v2.finished((a + 1) as TaskId, second);
    assert(u2.queue =~= seq![(a + 2) as TaskId]);
}

/// Once every spawner and every wake handle is gone and nothing is queued or
/// being polled, the run loop is told to shut down.
pub proof fn lemma_shutdown(s: SchedulerView)
    requires
        s.wf(),
        s.spawners == 0,
        s.queue.len() == 0,
        s.no_task_polling(),
        forall|i: int| 0 <= i < s.handles.len() ==> #[trigger] s.handles[i] == 0,
    ensures
        s.step_of() == Step::Shutdown,
{
    assert forall|i: int| 0 <= i < s.states.len() implies (#[trigger] s.states[i]).is_terminal() by {
        if s.states[i] is Queued {
            let k = choose|k: int| 0 <= k < s.queue.len() && s.queue[k] == i;
        }
        assert(s.handles[i] == 0);
    }
}

/// The run loop does not spin: a wait step changes nothing, and after a
/// shutdown step no event that a live wake handle can send ever makes a task
/// ready to poll again.
pub proof fn lemma_wait_and_shutdown_are_quiet(s: SchedulerView, e: Event)
    requires
        s.wf(),
        s.no_task_polling(),
        s.accepts(e),
        e != Event::Spawn,
        e != Event::CloneSpawner,
    ensures
        s.step_of() == Step::Wait ==> s.stepped() == s,
        s.step_of() == Step::Shutdown ==> s.apply(e).step_of() == Step::Shutdown,
{
    if s.step_of() == Step::Shutdown {
        assert(!s.rewake);
        let t = s.apply(e);
        assert forall|i: int| 0 <= i < t.states.len() implies (#[trigger] t.states[i]).is_terminal() by {
            assert(s.states[i].is_terminal());
            lemma_settled_task_stays(s, i as TaskId, e);
        }
        assert(t.queue.len() == 0) by {
            if t.queue.len() > 0 {
                let q = t.queue[0];
                crate::scheduler::lemma_apply_wf(s, e);
                assert(t.states[q as int] is Queued);
                assert(s.states[q as int].is_terminal());
                lemma_settled_task_stays(s, q, e);
            }
        }
    }
}

} // verus!
