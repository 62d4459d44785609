//! The cooperative executor: a round-robin scheduler over a queue of tasks,
//! each identified by a 16-bit id and carrying a bounded pending-signal ring,
//! an optional signal handler, a paused flag and an optional exit code.
//!
//! A task is a resumable state machine (the [`Continuation`] trait). Each time
//! the scheduler polls a task, the task advances as far as its next suspension
//! point and answers with a [`Step`]: either it is done with an exit code, or
//! it yields, or it asks the executor for a service (spawn, wait, kill, send a
//! signal, install a handler, query the task set). The executor serves the
//! request and delivers the answer as the [`Reply`] of the task's next poll.

use vstd::prelude::*;

use crate::bytes::clone_bytes;
use crate::driver::SysTickDriver;
use crate::ringbuf::RingBuf;

verus! {

/// Task identifier. Allocation picks the lowest free id starting from a
/// rolling hint and may reuse ids of reaped tasks.
pub type TaskId = u16;

/// Exit code of a task: a signed 8-bit value.
pub type ExitCode = i8;

/// What a wait on another task observed.
#[derive(Clone, Copy, Debug, PartialEq, Eq, Structural)]
pub enum ExitStatus {
    /// The target task exited with this code.
    Exited(ExitCode),
    /// The caller waited on its own id.
    ErrorPid,
    /// No task with the target id exists.
    NotExist,
    /// Wait was requested outside any task context.
    NotRunning,
    /// The target entry vanished while being waited on; should not occur.
    Aborted,
}

/// An asynchronous event queued on a task and consumed at the task's next
/// dispatch, before it is polled.
#[derive(Clone, Copy, Debug, PartialEq, Eq, Structural)]
#[allow(non_camel_case_types)]
pub enum Signal {
    /// Interrupt (Ctrl-C).
    SIGINT,
    /// Termination request.
    SIGTERM,
    /// Forced kill; cannot be caught by a handler.
    SIGKILL,
    /// Pause; cannot be caught by a handler.
    SIGSTOP,
    /// Resume a paused task.
    SIGCONT,
    /// User-defined signal.
    SIGUSR(u8),
    /// Placeholder signal; always ignored.
    SIGNULL,
}

/// What delivering one signal does to the target task.
#[derive(Clone, Copy, Debug, PartialEq, Eq, Structural)]
pub enum SignalAction {
    /// Do nothing.
    Ignore,
    /// Set the task's exit code; it is never polled again.
    Terminate(ExitCode),
    /// Set the paused flag; the task is not polled while paused.
    Pause,
    /// Clear the paused flag.
    Continue,
}

/// The answer a task receives when it is polled, carrying the result of the
/// service it requested from the previous poll.
#[derive(Debug)]
pub enum Reply {
    /// No request was pending.
    Nothing,
    /// The id of the task created by the requested spawn.
    Spawned(TaskId),
    /// The outcome of the requested wait.
    WaitResult(ExitStatus),
    /// Whether the requested kill found its target.
    KillResult(bool),
    /// Whether the requested signal send found its target.
    SendResult(bool),
    /// Whether the queried task is live.
    Running(bool),
    /// Id and command name of every live task, front of the queue first.
    Tasks(Vec<(TaskId, Vec<u8>)>),
}

/// What a task answers when polled: either a terminal exit code, or a bare
/// yield, or a request for one executor service.
pub enum Step<C, H> {
    /// The task is finished with this exit code.
    Done(ExitCode),
    /// The task made progress and wants to be polled again.
    Yield,
    /// Suspend until the task with this id has an exit code.
    Wait(TaskId),
    /// Create a new task with this command name and continuation.
    Spawn(Vec<u8>, C),
    /// Send SIGTERM to the task with the given id.
    Kill(TaskId),
    /// Enqueue a signal on the task with the given id.
    SendSignal(TaskId, Signal),
    /// Install this handler as the calling task's signal handler.
    RegisterHandler(H),
    /// Ask whether the task with the given id is live.
    IsRunning(TaskId),
    /// Ask for the list of live tasks.
    TaskList,
}

/// A resumable task body. Polling advances it to its next suspension point;
/// `reply` carries the result of the service requested by the previous poll,
/// and `now_ms` the monotonic millisecond clock.
pub trait Continuation<H>: Sized {
    fn poll(&mut self, now_ms: u32, reply: Reply) -> Step<Self, H>;
}

/// A signal handler installed by a task: maps each delivered catchable signal
/// to the action to take. SIGKILL, SIGSTOP and SIGNULL never reach it.
pub trait SignalHandler {
    fn on_signal(&self, signal: Signal) -> SignalAction;
}

/// One scheduled task.
pub struct Task<C, H> {
    /// Identifier; unique among live tasks.
    pub id: TaskId,
    /// Command name the task was spawned under.
    pub cmd: Vec<u8>,
    /// The suspended continuation.
    pub cont: C,
    /// While set, the task is not polled.
    pub paused: bool,
    /// Terminal exit code; set once, and the task is never polled after.
    pub exited: Option<ExitCode>,
    /// Number of tasks currently suspended waiting for the task's exit code.
    pub waiters: u16,
    /// Signals delivered but not yet consumed, oldest first.
    pub pending_signals: RingBuf<Signal, 4>,
    /// Handler consulted for catchable signals; default policy when absent.
    pub signal_handler: Option<H>,
    /// Id of the task this one is suspended waiting for.
    pub blocked_on: Option<TaskId>,
    /// Answer to hand to the next poll.
    pub reply: Reply,
}

impl<C, H> Task<C, H> {
    /// A task starts unpaused, not exited, with no waiters, no pending
    /// signals, no handler, and nothing to reply.
    pub fn new(id: TaskId, cmd: Vec<u8>, cont: C) -> (r: Task<C, H>)
        ensures
            r.id == id,
            r.cmd == cmd,
            r.cont == cont,
            r.fresh(),
    {
        Task {
            id,
            cmd,
            cont,
            paused: false,
            exited: None,
            waiters: 0,
            pending_signals: RingBuf::new(),
            signal_handler: None,
            blocked_on: None,
            reply: Reply::Nothing,
        }
    }

    /// The state every task is spawned in.
    pub open spec fn fresh(&self) -> bool {
        &&& !self.paused
        &&& self.exited is None
        &&& self.waiters == 0
        &&& self.pending_signals@ == Seq::<Signal>::empty()
        &&& self.pending_signals.wf()
        &&& self.signal_handler is None
        &&& self.blocked_on is None
        &&& self.reply is Nothing
    }
}

/// Whether no two tasks of the queue share an id.
pub open spec fn ids_distinct<C, H>(s: Seq<Task<C, H>>) -> bool {
    forall|i: int, j: int| 0 <= i < j < s.len() ==> s[i].id != s[j].id
}

/// Whether some task of the queue has this id.
pub open spec fn id_in<C, H>(s: Seq<Task<C, H>>, id: TaskId) -> bool {
    exists|i: int| 0 <= i < s.len() && s[i].id == id
}

/// Well-formedness of a task queue: distinct ids, well-formed signal rings.
pub open spec fn queue_wf<C, H>(s: Seq<Task<C, H>>) -> bool {
    &&& ids_distinct(s)
    &&& forall|i: int| 0 <= i < s.len() ==> (#[trigger] s[i]).pending_signals.wf()
}

/// Signals that may never be discarded by the pending-ring overflow policy.
pub open spec fn never_droppable(s: Signal) -> bool {
    s == Signal::SIGKILL || s == Signal::SIGSTOP
}

/// The pending ring after enqueueing `s` on a task whose ring holds `p`:
/// append when there is room; when full, discard the oldest droppable entry
/// to make room; when full of undroppable entries, the new signal is lost.
pub open spec fn pending_after_send(p: Seq<Signal>, s: Signal) -> Seq<Signal> {
    if p.len() < 3 {
        p.push(s)
    } else if exists|i: int| 0 <= i < p.len() && !never_droppable(p[i]) {
        let i = first_droppable(p);
        p.remove(i).push(s)
    } else {
        p
    }
}

/// Index of the oldest entry the overflow policy may discard.
pub open spec fn first_droppable(p: Seq<Signal>) -> int
    recommends
        exists|i: int| 0 <= i < p.len() && !never_droppable(p[i]),
    decreases p.len(),
{
    if p.len() == 0 {
        0
    } else if !never_droppable(p[0]) {
        0
    } else {
        1 + first_droppable(p.skip(1))
    }
}

/// The round-robin cooperative scheduler.
pub struct Executor<C, H> {
    tasks: Vec<Task<C, H>>,
    next_id_hint: TaskId,
    current_task_id: Option<TaskId>,
}

impl<C: Continuation<H>, H: SignalHandler> Executor<C, H> {
    /// The task queue, front (next to be dispatched) first.
    pub closed spec fn tasks(&self) -> Seq<Task<C, H>> {
        self.tasks@
    }

    /// The rolling hint id allocation starts searching from.
    pub closed spec fn hint(&self) -> TaskId {
        self.next_id_hint
    }

    /// Id of the task being dispatched right now, if any.
    pub closed spec fn current(&self) -> Option<TaskId> {
        self.current_task_id
    }

    /// No two live tasks share an id, and every signal ring is well-formed.
    pub open spec fn wf(&self) -> bool {
        &&& queue_wf(self.tasks())
        &&& self.current() is None
    }

    /// An executor starts with no tasks.
    pub fn new() -> (r: Self)
        ensures
            r.wf(),
            r.tasks() == Seq::<Task<C, H>>::empty(),
            r.hint() == 0,
    {
        Executor { tasks: Vec::new(), next_id_hint: 0, current_task_id: None }
    }

    /// Whether any task is live.
    pub fn has_tasks(&self) -> (r: bool)
        ensures
            r == (self.tasks().len() > 0),
    {
        self.tasks.len() > 0
    }

    /// Number of live tasks.
    pub fn task_count(&self) -> (r: usize)
        ensures
            r == self.tasks().len(),
    {
        self.tasks.len()
    }

    /// Id of the task being dispatched right now; `None` between dispatches.
    pub fn current_task_id(&self) -> (r: Option<TaskId>)
        ensures
            r == self.current(),
    {
        self.current_task_id
    }

    /// Whether a task with this id is live.
    pub fn is_running(&self, id: TaskId) -> (r: bool)
        ensures
            r == (self.current() == Some(id) || id_in(self.tasks(), id)),
    {
        if let Some(cur) = self.current_task_id {
            if cur == id {
                return true;
            }
        }
        let r = self.position_of(id);
        r.is_some()
    }

    /// Id and command name of every live task, front of the queue first.
    pub fn task_list(&self) -> (r: Vec<(TaskId, Vec<u8>)>)
        ensures
            r@.len() == self.tasks().len(),
            forall|i: int|
                0 <= i < r@.len() ==> #[trigger] r@[i].0 == self.tasks()[i].id && r@[i].1@
                    == self.tasks()[i].cmd@,
    {
        let mut r: Vec<(TaskId, Vec<u8>)> = Vec::new();
        let mut i: usize = 0;
        while i < self.tasks.len()
            invariant
                i <= self.tasks@.len(),
                r@.len() == i,
                forall|j: int|
                    0 <= j < i ==> #[trigger] r@[j].0 == self.tasks@[j].id && r@[j].1@
                        == self.tasks@[j].cmd@,
            decreases self.tasks@.len() - i,
        {
            let name = clone_bytes(&self.tasks[i].cmd);
            r.push((self.tasks[i].id, name));
            i += 1;
        }
        r
    }

    /// Index of the task with this id, if it is live.
    fn position_of(&self, id: TaskId) -> (r: Option<usize>)
        ensures
            match r {
                Some(i) => i < self.tasks().len() && self.tasks()[i as int].id == id,
                None => !id_in(self.tasks(), id),
            },
    {
        let mut i: usize = 0;
        while i < self.tasks.len()
            invariant
                i <= self.tasks@.len(),
                forall|j: int| 0 <= j < i ==> self.tasks@[j].id != id,
            decreases self.tasks@.len() - i,
        {
            if self.tasks[i].id == id {
                return Some(i);
            }
            i += 1;
        }
        None
    }

    /// The default signal policy, used for a task with no installed handler:
    /// SIGINT and SIGTERM terminate with code -1, SIGKILL terminates with
    /// code -9, SIGSTOP pauses, SIGCONT resumes, everything else is ignored.
    pub fn default_signal_handler(signal: Signal) -> (r: SignalAction)
        ensures
            r == default_action(signal),
    {
        match signal {
            Signal::SIGINT | Signal::SIGTERM => SignalAction::Terminate(-1),
            Signal::SIGKILL => SignalAction::Terminate(-9),
            Signal::SIGSTOP => SignalAction::Pause,
            Signal::SIGCONT => SignalAction::Continue,
            Signal::SIGUSR(_) => SignalAction::Ignore,
            Signal::SIGNULL => SignalAction::Ignore,
        }
    }

    /// Append a new task running `cont` under the command name `cmd`, with
    /// the lowest free id starting from the rolling hint.
    pub fn spawn(&mut self, cmd: Vec<u8>, cont: C) -> (id: TaskId)
        requires
            queue_wf(old(self).tasks()),
            old(self).tasks().len() < 65535,
        ensures
            queue_wf(final(self).tasks()),
            !id_in(old(self).tasks(), id),
            final(self).tasks().len() == old(self).tasks().len() + 1,
            final(self).tasks() == old(self).tasks().push(final(self).tasks().last()),
            final(self).tasks().last().id == id,
            final(self).tasks().last().cmd == cmd,
            final(self).tasks().last().cont == cont,
            final(self).tasks().last().fresh(),
            final(self).current() == old(self).current(),
            final(self).hint() == succ16(id, 1),
            exists|c: int|
                0 <= c <= old(self).tasks().len() && id == #[trigger] succ16(
                    old(self).hint(),
                    c,
                ) && (forall|k: int|
                    0 <= k < c ==> id_in(old(self).tasks(), succ16(old(self).hint(), k))),
    {
        let id = self.next_id();
        let task = Task::new(id, cmd, cont);
        self.tasks.push(task);
        id
    }

    /// Allocate the lowest id, starting from the rolling hint and wrapping,
    /// that no live task carries; advance the hint past it.
    fn next_id(&mut self) -> (id: TaskId)
        requires
            queue_wf(old(self).tasks()),
            old(self).tasks().len() < 65535,
        ensures
            queue_wf(final(self).tasks()),
            final(self).tasks() == old(self).tasks(),
            final(self).current() == old(self).current(),
            !id_in(final(self).tasks(), id),
            final(self).hint() == succ16(id, 1),
            exists|c: int|
                0 <= c <= old(self).tasks().len() && id == #[trigger] succ16(
                    old(self).hint(),
                    c,
                ) && (forall|k: int|
                    0 <= k < c ==> id_in(old(self).tasks(), succ16(old(self).hint(), k))),
    {
        let ghost start = self.next_id_hint;
        let mut candidate = self.next_id_hint;
        let mut c: usize = 0;
        loop
            invariant
                self.tasks@ == old(self).tasks@,
                self.next_id_hint == old(self).next_id_hint,
                start == old(self).next_id_hint,
                self.current_task_id == old(self).current_task_id,
                self.tasks@.len() < 65535,
                queue_wf(self.tasks@),
                c <= self.tasks@.len(),
                candidate == succ16(start, c as int),
                forall|k: int| 0 <= k < c ==> id_in(self.tasks@, succ16(start, k)),
            decreases self.tasks@.len() - c,
        {
            let free = self.position_of(candidate).is_none();
            if free {
                self.next_id_hint = candidate.wrapping_add(1);
                proof {
                    assert(self.next_id_hint == succ16(candidate, 1));
                    assert(start == old(self).hint());
                    assert(old(self).tasks() == self.tasks@);
                    assert(exists|cc: int|
                        0 <= cc <= old(self).tasks().len() && candidate == #[trigger] succ16(
                            old(self).hint(),
                            cc,
                        ) && (forall|k: int|
                            0 <= k < cc ==> id_in(old(self).tasks(), succ16(old(self).hint(), k))))
                        by {
                        assert(candidate == succ16(old(self).hint(), c as int));
                        assert(forall|k: int|
                            0 <= k < c ==> id_in(old(self).tasks(), succ16(old(self).hint(), k)));
                    }
                }
                return candidate;
            }
            proof {
                if c + 1 > self.tasks@.len() {
                    lemma_wrap_pigeonhole(self.tasks@, start, (c + 1) as nat);
                    assert(false);
                }
            }
            candidate = candidate.wrapping_add(1);
            proof {
                assert(candidate == succ16(start, c + 1));
            }
            c += 1;
        }
    }

    /// Enqueue a signal on the task with this id; false when no such task is
    /// live. A full ring discards its oldest droppable entry to make room;
    /// SIGKILL and SIGSTOP are never discarded.
    pub fn send_signal(&mut self, target_id: TaskId, signal: Signal) -> (r: bool)
        requires
            queue_wf(old(self).tasks()),
        ensures
            queue_wf(final(self).tasks()),
            r == id_in(old(self).tasks(), target_id),
            final(self).current() == old(self).current(),
            final(self).hint() == old(self).hint(),
            final(self).tasks().len() == old(self).tasks().len(),
            forall|i: int|
                0 <= i < old(self).tasks().len() && old(self).tasks()[i].id != target_id
                    ==> final(self).tasks()[i] == old(self).tasks()[i],
            forall|i: int|
                0 <= i < old(self).tasks().len() && old(self).tasks()[i].id == target_id
                    ==> task_with_pending(
                    old(self).tasks()[i],
                    (#[trigger] final(self).tasks()[i]),
                    pending_after_send(old(self).tasks()[i].pending_signals@, signal),
                ),
    {
        let pos = self.position_of(target_id);
        match pos {
            None => false,
            Some(i) => {
                push_signal(&mut self.tasks[i].pending_signals, signal);
                proof {
                    assert(self.tasks@ =~= old(self).tasks@.update(
                        i as int,
                        self.tasks@[i as int],
                    ));
                }
                true
            },
        }
    }

    /// Send SIGTERM to the task with this id; false when no such task is
    /// live. A task using the default policy then terminates with code -1 at
    /// its next dispatch.
    pub fn kill(&mut self, id: TaskId) -> (r: bool)
        requires
            queue_wf(old(self).tasks()),
        ensures
            queue_wf(final(self).tasks()),
            r == id_in(old(self).tasks(), id),
            final(self).current() == old(self).current(),
            final(self).hint() == old(self).hint(),
            final(self).tasks().len() == old(self).tasks().len(),
            forall|i: int|
                0 <= i < old(self).tasks().len() && old(self).tasks()[i].id != id
                    ==> final(self).tasks()[i] == old(self).tasks()[i],
            forall|i: int|
                0 <= i < old(self).tasks().len() && old(self).tasks()[i].id == id
                    ==> task_with_pending(
                    old(self).tasks()[i],
                    (#[trigger] final(self).tasks()[i]),
                    pending_after_send(old(self).tasks()[i].pending_signals@, Signal::SIGTERM),
                ),
    {
        self.send_signal(id, Signal::SIGTERM)
    }
}

/// Whether `post` is `pre` with its pending-signal ring replaced by `p` and
/// every other field kept.
pub open spec fn task_with_pending<C, H>(pre: Task<C, H>, post: Task<C, H>, p: Seq<Signal>) -> bool {
    &&& post.pending_signals@ == p
    &&& post.pending_signals.wf()
    &&& post.id == pre.id
    &&& post.cmd == pre.cmd
    &&& post.cont == pre.cont
    &&& post.paused == pre.paused
    &&& post.exited == pre.exited
    &&& post.waiters == pre.waiters
    &&& post.signal_handler == pre.signal_handler
    &&& post.blocked_on == pre.blocked_on
    &&& post.reply == pre.reply
}

/// The default signal policy as a predicate: SIGINT and SIGTERM map to
/// Terminate(-1), SIGKILL to Terminate(-9), SIGSTOP to Pause, SIGCONT to
/// Continue, everything else to Ignore.
pub open spec fn default_action(s: Signal) -> SignalAction {
    match s {
        Signal::SIGINT => SignalAction::Terminate(-1i8),
        Signal::SIGTERM => SignalAction::Terminate(-1i8),
        Signal::SIGKILL => SignalAction::Terminate(-9i8),
        Signal::SIGSTOP => SignalAction::Pause,
        Signal::SIGCONT => SignalAction::Continue,
        Signal::SIGUSR(_) => SignalAction::Ignore,
        Signal::SIGNULL => SignalAction::Ignore,
    }
}

/// `start + k`, wrapped to the 16-bit id space, for `0 <= k <= 65536`.
pub open spec fn succ16(start: u16, k: int) -> u16 {
    if start + k < 65536 {
        (start + k) as u16
    } else {
        (start + k - 65536) as u16
    }
}

/// Pigeonhole for id allocation: a queue with pairwise distinct ids that
/// contains `n` distinct candidate ids has at least `n` tasks.
proof fn lemma_wrap_pigeonhole<C, H>(s: Seq<Task<C, H>>, start: u16, n: nat)
    requires
        ids_distinct(s),
        n <= 65536,
        forall|k: int| 0 <= k < n ==> id_in(s, succ16(start, k)),
    ensures
        s.len() >= n,
    decreases n,
{
    if n > 0 {
        let v = succ16(start, n - 1);
        assert(id_in(s, v));
        let i = choose|i: int| 0 <= i < s.len() && s[i].id == v;
        let s2 = s.remove(i);
        assert forall|k: int| 0 <= k < n - 1 implies id_in(s2, succ16(start, k)) by {
            let w = succ16(start, k);
            assert(w != v);
            let j = choose|j: int| 0 <= j < s.len() && s[j].id == w;
            assert(j != i);
            if j < i {
                assert(s2[j].id == w);
            } else {
                assert(s2[j - 1].id == w);
            }
        }
        assert(ids_distinct(s2)) by {
            assert forall|a: int, b: int| 0 <= a < b < s2.len() implies s2[a].id != s2[b].id by {
                let a0 = if a < i {
                    a
                } else {
                    a + 1
                };
                let b0 = if b < i {
                    b
                } else {
                    b + 1
                };
                assert(s2[a] == s[a0] && s2[b] == s[b0]);
            }
        }
        lemma_wrap_pigeonhole(s2, start, (n - 1) as nat);
    }
}

/// Enqueue a signal on a pending ring under the overflow policy: append when
/// there is room; on a full ring discard the oldest droppable entry to make
/// room; when every stored entry is SIGKILL or SIGSTOP the new signal is lost.
fn push_signal(ring: &mut RingBuf<Signal, 4>, signal: Signal) -> (r: bool)
    requires
        old(ring).wf(),
    ensures
        final(ring).wf(),
        final(ring)@ == pending_after_send(old(ring)@, signal),
{
    proof {
        ring.lemma_len_bounded();
    }
    if !ring.is_full() {
        let ok = ring.push(signal);
        return ok;
    }
    // The ring is full: drain it, drop the oldest droppable entry, refill.
    let mut kept: Vec<Signal> = Vec::new();
    let ghost p = ring@;
    let mut dropped = false;
    while ring.len() > 0
        invariant
            ring.wf(),
            p.len() == 3,
            ring@.len() + kept@.len() + (if dropped {
                1int
            } else {
                0int
            }) == 3,
            ring@ == p.skip(p.len() - ring@.len()),
            !dropped ==> kept@ == p.take(kept@.len() as int) && (forall|i: int|
                0 <= i < kept@.len() ==> never_droppable(#[trigger] p[i])),
            dropped ==> kept@ == p.take(kept@.len() as int + 1).remove(
                first_droppable(p),
            ) && first_droppable(p) < kept@.len() + 1 && 0 <= first_droppable(p) && (exists|i: int|
                0 <= i < p.len() && !never_droppable(p[i])),
        decreases ring@.len(),
    {
        let next = ring.pop();
        let sig = match next {
            Some(s) => s,
            None => Signal::SIGNULL,  // unreachable: the ring is not empty
        };
        let precious = match sig {
            Signal::SIGKILL => true,
            Signal::SIGSTOP => true,
            _ => false,
        };
        proof {
            assert(sig == p[p.len() - ring@.len() - 1]);
        }
        if dropped || precious {
            kept.push(sig);
            proof {
                if dropped {
                    assert(kept@ =~= p.take(kept@.len() as int + 1).remove(first_droppable(p)));
                } else {
                    assert(kept@ =~= p.take(kept@.len() as int));
                }
            }
        } else {
            dropped = true;
            proof {
                let k = kept@.len() as int;
                lemma_first_droppable(p, k);
                assert(kept@ =~= p.take(k + 1).remove(first_droppable(p)));
            }
        }
    }
    if !dropped {
        // Every stored signal is SIGKILL or SIGSTOP: restore them, lose the
        // new signal.
        let mut i: usize = 0;
        while i < kept.len()
            invariant
                ring.wf(),
                kept@.len() == 3,
                i <= 3,
                ring@ == kept@.take(i as int),
            decreases kept@.len() - i,
        {
            let _ = ring.push(kept[i]);
            i += 1;
        }
        proof {
            assert(forall|i: int| 0 <= i < p.len() ==> never_droppable(#[trigger] p[i]));
            assert(ring@ =~= p);
            assert(ring@ =~= pending_after_send(p, signal));
        }
        false
    } else {
        let mut i: usize = 0;
        while i < kept.len()
            invariant
                ring.wf(),
                kept@.len() == 2,
                i <= 2,
                ring@ == kept@.take(i as int),
            decreases kept@.len() - i,
        {
            let _ = ring.push(kept[i]);
            i += 1;
        }
        proof {
            assert(ring@ =~= kept@);
        }
        let ok = ring.push(signal);
        proof {
            assert(kept@ =~= p.remove(first_droppable(p)));
            assert(ring@ =~= pending_after_send(p, signal));
        }
        ok
    }
}

/// Entries before the first droppable one are all undroppable; the entry at
/// `first_droppable` is droppable. Holds wherever the prefix up to `k` is all
/// undroppable and entry `k` is droppable.
proof fn lemma_first_droppable(p: Seq<Signal>, k: int)
    requires
        0 <= k < p.len(),
        forall|i: int| 0 <= i < k ==> never_droppable(#[trigger] p[i]),
        !never_droppable(p[k]),
    ensures
        first_droppable(p) == k,
        exists|i: int| 0 <= i < p.len() && !never_droppable(p[i]),
    decreases k,
{
    if k > 0 {
        lemma_first_droppable(p.skip(1), k - 1);
    }
}


/// The outcome a delivered signal list implies for the task's exit code: a
/// terminating action ends delivery, so only the last entry can terminate.
pub open spec fn exit_after(d: Seq<(Signal, SignalAction)>) -> Option<ExitCode> {
    if d.len() > 0 && d.last().1 is Terminate {
        Some(d.last().1->Terminate_0)
    } else {
        None
    }
}

/// The paused flag after applying a delivered signal list to a task that
/// started with `p0`: Terminate and Continue clear it, Pause sets it, Ignore
/// keeps it.
pub open spec fn paused_after(p0: bool, d: Seq<(Signal, SignalAction)>) -> bool
    decreases d.len(),
{
    if d.len() == 0 {
        p0
    } else {
        let p1 = match d[0].1 {
            SignalAction::Terminate(_) => false,
            SignalAction::Pause => true,
            SignalAction::Continue => false,
            SignalAction::Ignore => p0,
        };
        paused_after(p1, d.skip(1))
    }
}

/// What a well-formed delivery record looks like: the delivered signals are a
/// prefix of the pending ring, consumed in order; delivery stops early only
/// on a terminating action; SIGKILL, SIGSTOP and SIGNULL get their hard-wired
/// actions whatever handler is installed; and a task without a handler gets
/// the default policy for every signal.
pub open spec fn delivered_ok(
    pending: Seq<Signal>,
    has_handler: bool,
    d: Seq<(Signal, SignalAction)>,
) -> bool {
    &&& d.len() <= pending.len()
    &&& forall|i: int| 0 <= i < d.len() ==> (#[trigger] d[i]).0 == pending[i]
    &&& forall|i: int| 0 <= i < d.len() - 1 ==> !((#[trigger] d[i]).1 is Terminate)
    &&& (d.len() < pending.len() ==> d.len() > 0 && d.last().1 is Terminate)
    &&& forall|i: int|
        0 <= i < d.len() ==> {
            &&& ((#[trigger] d[i]).0 == Signal::SIGKILL ==> d[i].1 == SignalAction::Terminate(
                -9i8,
            ))
            &&& (d[i].0 == Signal::SIGSTOP ==> d[i].1 == SignalAction::Pause)
            &&& (d[i].0 == Signal::SIGNULL ==> d[i].1 == SignalAction::Ignore)
        }
    &&& (!has_handler ==> forall|i: int|
        0 <= i < d.len() ==> (#[trigger] d[i]).1 == default_action(d[i].0))
}

/// Appending one more delivered pair steps the paused flag once.
proof fn lemma_paused_after_push(p0: bool, d: Seq<(Signal, SignalAction)>, x: (Signal, SignalAction))
    ensures
        paused_after(p0, d.push(x)) == (match x.1 {
            SignalAction::Terminate(_) => false,
            SignalAction::Pause => true,
            SignalAction::Continue => false,
            SignalAction::Ignore => paused_after(p0, d),
        }),
    decreases d.len(),
{
    reveal_with_fuel(paused_after, 3);
    if d.len() == 0 {
        assert(d.push(x)[0] == x);
        assert(d.push(x).skip(1) =~= Seq::<(Signal, SignalAction)>::empty());
    } else {
        assert(d.push(x)[0] == d[0]);
        assert(d.push(x).skip(1) =~= d.skip(1).push(x));
        let p1 = match d[0].1 {
            SignalAction::Terminate(_) => false,
            SignalAction::Pause => true,
            SignalAction::Continue => false,
            SignalAction::Ignore => p0,
        };
        lemma_paused_after_push(p1, d.skip(1), x);
    }
}

/// The action one delivered signal provokes: SIGKILL, SIGSTOP and SIGNULL are
/// hard-wired and bypass any handler; otherwise the installed handler decides,
/// and without one the default policy does.
fn action_for<H: SignalHandler>(handler: &Option<H>, signal: Signal) -> (a: SignalAction)
    ensures
        signal == Signal::SIGKILL ==> a == SignalAction::Terminate(-9i8),
        signal == Signal::SIGSTOP ==> a == SignalAction::Pause,
        signal == Signal::SIGNULL ==> a == SignalAction::Ignore,
        handler is None ==> a == default_action(signal),
{
    match signal {
        Signal::SIGKILL => SignalAction::Terminate(-9),
        Signal::SIGSTOP => SignalAction::Pause,
        Signal::SIGNULL => SignalAction::Ignore,
        _ => match handler {
            Some(h) => h.on_signal(signal),
            None => match signal {
                Signal::SIGINT | Signal::SIGTERM => SignalAction::Terminate(-1),
                Signal::SIGCONT => SignalAction::Continue,
                _ => SignalAction::Ignore,
            },
        },
    }
}

/// Drain the pending-signal ring of a not-yet-exited task, applying each
/// signal's action in order; a terminating action sets the exit code, clears
/// the paused flag and ends delivery.
fn deliver_signals<C, H: SignalHandler>(task: &mut Task<C, H>) -> (d: Vec<(Signal, SignalAction)>)
    requires
        old(task).pending_signals.wf(),
        old(task).exited is None,
    ensures
        final(task).pending_signals.wf(),
        delivered_ok(old(task).pending_signals@, old(task).signal_handler is Some, d@),
        final(task).pending_signals@ == old(task).pending_signals@.skip(d@.len() as int),
        final(task).exited == exit_after(d@),
        final(task).paused == paused_after(old(task).paused, d@),
        final(task).id == old(task).id,
        final(task).cmd == old(task).cmd,
        final(task).cont == old(task).cont,
        final(task).waiters == old(task).waiters,
        final(task).signal_handler == old(task).signal_handler,
        final(task).blocked_on == old(task).blocked_on,
        final(task).reply == old(task).reply,
{
    let ghost p0 = task.pending_signals@;
    let ghost paused0 = task.paused;
    let mut d: Vec<(Signal, SignalAction)> = Vec::new();
    let mut terminated = false;
    while !terminated && task.pending_signals.len() > 0
        invariant
            task.pending_signals.wf(),
            task.exited is None || terminated,
            d@.len() <= p0.len(),
            task.pending_signals@ == p0.skip(d@.len() as int),
            forall|i: int| 0 <= i < d@.len() ==> (#[trigger] d@[i]).0 == p0[i],
            forall|i: int| 0 <= i < d@.len() - 1 ==> !((#[trigger] d@[i]).1 is Terminate),
            terminated == (d@.len() > 0 && d@.last().1 is Terminate),
            task.exited == exit_after(d@),
            task.paused == paused_after(paused0, d@),
            forall|i: int|
                0 <= i < d@.len() ==> {
                    &&& ((#[trigger] d@[i]).0 == Signal::SIGKILL ==> d@[i].1
                        == SignalAction::Terminate(-9i8))
                    &&& (d@[i].0 == Signal::SIGSTOP ==> d@[i].1 == SignalAction::Pause)
                    &&& (d@[i].0 == Signal::SIGNULL ==> d@[i].1 == SignalAction::Ignore)
                }
            ,
            old(task).signal_handler is None ==> forall|i: int|
                0 <= i < d@.len() ==> (#[trigger] d@[i]).1 == default_action(d@[i].0),
            task.id == old(task).id,
            task.cmd == old(task).cmd,
            task.cont == old(task).cont,
            task.waiters == old(task).waiters,
            task.signal_handler == old(task).signal_handler,
            task.blocked_on == old(task).blocked_on,
            task.reply == old(task).reply,
        decreases task.pending_signals@.len(),
    {
        let popped = task.pending_signals.pop();
        let signal = match popped {
            Some(s) => s,
            None => Signal::SIGNULL,  // unreachable: the ring is not empty
        };
        let action = action_for(&task.signal_handler, signal);
        let ghost dpre = d@;
        match action {
            SignalAction::Terminate(code) => {
                task.exited = Some(code);
                task.paused = false;
                terminated = true;
            },
            SignalAction::Pause => {
                task.paused = true;
            },
            SignalAction::Continue => {
                task.paused = false;
            },
            SignalAction::Ignore => {},
        }
        d.push((signal, action));
        proof {
            lemma_paused_after_push(paused0, dpre, (signal, action));
            assert(task.pending_signals@ =~= p0.skip(d@.len() as int));
        }
    }
    d
}


/// One less waiter, stopping at zero.
pub open spec fn sat_dec(w: u16) -> u16 {
    if w > 0 {
        (w - 1) as u16
    } else {
        0
    }
}

/// One more waiter, stopping at the type's maximum.
pub open spec fn sat_inc(w: u16) -> u16 {
    if w < 65535 {
        (w + 1) as u16
    } else {
        w
    }
}

/// The queue with the waiter count of every task of id `w` (at most one, in a
/// well-formed queue) decremented.
pub open spec fn dec_waiters_seq<C, H>(s: Seq<Task<C, H>>, w: TaskId) -> Seq<Task<C, H>> {
    Seq::new(
        s.len(),
        |i: int|
            if s[i].id == w {
                Task { waiters: sat_dec(s[i].waiters), ..s[i] }
            } else {
                s[i]
            },
    )
}

/// The queue with the waiter count of every task of id `w` incremented.
pub open spec fn inc_waiters_seq<C, H>(s: Seq<Task<C, H>>, w: TaskId) -> Seq<Task<C, H>> {
    Seq::new(
        s.len(),
        |i: int|
            if s[i].id == w {
                Task { waiters: sat_inc(s[i].waiters), ..s[i] }
            } else {
                s[i]
            },
    )
}

/// The first task of the queue carrying this id, if any.
pub open spec fn find_task<C, H>(s: Seq<Task<C, H>>, w: TaskId) -> Option<Task<C, H>>
    decreases s.len(),
{
    if s.len() == 0 {
        None
    } else if s[0].id == w {
        Some(s[0])
    } else {
        find_task(s.skip(1), w)
    }
}

/// `find_task` agrees with membership and, on a queue with distinct ids, with
/// any index that carries the id.
proof fn lemma_find_task<C, H>(s: Seq<Task<C, H>>, w: TaskId)
    ensures
        find_task(s, w) is Some <==> id_in(s, w),
        forall|j: int|
            0 <= j < s.len() && ids_distinct(s) && (#[trigger] s[j]).id == w ==> find_task(s, w)
                == Some(s[j]),
    decreases s.len(),
{
    if s.len() > 0 {
        lemma_find_task(s.skip(1), w);
        if s[0].id == w {
            assert(id_in(s, w));
            assert forall|j: int|
                0 <= j < s.len() && ids_distinct(s) && (#[trigger] s[j]).id == w implies find_task(
                s,
                w,
            ) == Some(s[j]) by {
                if j != 0 {
                    assert(s[0].id != s[j].id);
                }
            }
        } else {
            assert forall|j: int|
                0 <= j < s.len() && ids_distinct(s) && (#[trigger] s[j]).id == w implies find_task(
                s,
                w,
            ) == Some(s[j]) by {
                assert(j != 0);
                assert(s.skip(1)[j - 1] == s[j]);
                assert(ids_distinct(s.skip(1))) by {
                    assert(forall|a: int, b: int|
                        0 <= a < b < s.skip(1).len() ==> s.skip(1)[a] == s[a + 1] && s.skip(1)[b]
                            == s[b + 1]);
                }
            }
            if id_in(s, w) {
                let j = choose|j: int| 0 <= j < s.len() && s[j].id == w;
                assert(s.skip(1)[j - 1] == s[j]);
                assert(id_in(s.skip(1), w));
            }
            if id_in(s.skip(1), w) {
                let j = choose|j: int| 0 <= j < s.skip(1).len() && s.skip(1)[j].id == w;
                assert(s[j + 1] == s.skip(1)[j]);
                assert(id_in(s, w));
            }
        }
    }
}

/// How the signal phase transforms the dispatched task's own fields (its
/// blocked-on mark and reply slot are dealt with separately by the phase that
/// follows).
pub open spec fn sig_core_rel<C, H>(
    pre: Task<C, H>,
    post: Task<C, H>,
    d: Seq<(Signal, SignalAction)>,
) -> bool {
    &&& post.id == pre.id
    &&& post.cmd == pre.cmd
    &&& post.cont == pre.cont
    &&& post.waiters == pre.waiters
    &&& post.signal_handler == pre.signal_handler
    &&& post.pending_signals@ == pre.pending_signals@.skip(d.len() as int)
    &&& post.pending_signals.wf()
    &&& post.exited == exit_after(d)
    &&& post.paused == paused_after(pre.paused, d)
}

/// The fields a poll leaves alone on the dispatched task.
pub open spec fn polled_core_rel<C, H>(
    pre: Task<C, H>,
    post: Task<C, H>,
    d: Seq<(Signal, SignalAction)>,
) -> bool {
    &&& post.id == pre.id
    &&& post.cmd == pre.cmd
    &&& post.waiters == pre.waiters
    &&& post.paused == paused_after(pre.paused, d)
}

/// Summary of the request the polled task made and how it was served.
#[derive(Clone, Copy, Debug, PartialEq, Eq, Structural)]
pub enum SyscallTag {
    /// The task completed with this exit code.
    Done(ExitCode),
    /// The task yielded without a request.
    Yielded,
    /// The task is now suspended waiting for this id.
    Waiting(TaskId),
    /// A wait on this id was refused with this status.
    WaitFailed(TaskId, ExitStatus),
    /// A child task with this id was created.
    Spawned(TaskId),
    /// A spawn was requested but the id space is exhausted.
    SpawnFailed,
    /// SIGTERM was sent to this id; the flag tells whether it was found.
    Killed(TaskId, bool),
    /// This signal was sent to this id; the flag tells whether it was found.
    Sent(TaskId, Signal, bool),
    /// The task installed a signal handler.
    HandlerInstalled,
    /// The task asked whether this id is live; the flag is the answer.
    RunningQueried(TaskId, bool),
    /// The task asked for the task list.
    Listed,
}

/// What one dispatch of the front task did.
pub struct DispatchEvent {
    /// Id of the dispatched task.
    pub id: TaskId,
    /// The signals consumed from its pending ring, with the action each one
    /// provoked, in delivery order.
    pub delivered: Vec<(Signal, SignalAction)>,
    /// Set when the task was suspended in a wait that resolved this dispatch:
    /// the status its next poll will receive.
    pub resolved: Option<ExitStatus>,
    /// Set when the task was polled: what it answered and how the request was
    /// served.
    pub polled: Option<SyscallTag>,
    /// Whether the task was reaped (removed for good) this dispatch.
    pub removed: bool,
}

/// The full specification of one dispatch step, relating the queue before
/// (`q`), the queue after (`post`), the event returned, and the served queue
/// `s`: the queue as it stood after the dispatched task was handled but
/// before it was reaped or rotated to the back (the dispatched task standing
/// at its front).
pub open spec fn dispatch_spec<C, H>(
    q: Seq<Task<C, H>>,
    post: Seq<Task<C, H>>,
    ev: DispatchEvent,
    s: Seq<Task<C, H>>,
) -> bool {
    let f = q[0];
    let rest = q.skip(1);
    let d = ev.delivered@;
    let skipd = f.pending_signals@.skip(d.len() as int);
    &&& ev.id == f.id
    &&& s.len() >= 1
    &&& s[0].id == f.id
    &&& ev.removed == (s[0].exited is Some && s[0].waiters == 0)
    &&& (ev.removed ==> post == s.skip(1))
    &&& (!ev.removed ==> post == s.skip(1).push(s[0]))
    // A task that already has an exit code is only reaped or rotated: no
    // signal is consumed and it is never polled.
    &&& (f.exited is Some ==> d.len() == 0 && ev.polled is None && ev.resolved is None && s == q)
    &&& (f.exited is None ==> delivered_ok(f.pending_signals@, f.signal_handler is Some, d))
    // Terminated by a signal: not polled; a pending wait of the task is
    // withdrawn (the target loses one waiter).
    &&& (f.exited is None && exit_after(d) is Some ==> {
        &&& ev.polled is None
        &&& ev.resolved is None
        &&& s.len() == q.len()
        &&& sig_core_rel(f, s[0], d)
        &&& s[0].blocked_on is None
        &&& s[0].reply == f.reply
        &&& match f.blocked_on {
            None => s.skip(1) == rest,
            Some(w) => s.skip(1) == dec_waiters_seq(rest, w),
        }
    })
    // Paused after the signal phase: not polled, rotated unchanged.
    &&& (f.exited is None && exit_after(d) is None && paused_after(f.paused, d) ==> {
        &&& ev.polled is None
        &&& ev.resolved is None
        &&& s.len() == q.len()
        &&& sig_core_rel(f, s[0], d)
        &&& s[0].blocked_on == f.blocked_on
        &&& s[0].reply == f.reply
        &&& s.skip(1) == rest
    })
    // Suspended in a wait: not polled this dispatch. If the target has an
    // exit code, the wait resolves: the target loses one waiter and the
    // waiter's next poll receives the observed status.
    &&& (f.exited is None && exit_after(d) is None && !paused_after(f.paused, d) ==> match f
        .blocked_on {
        None => true,
        Some(w) => {
        &&& ev.polled is None
        &&& s.len() == q.len()
        &&& sig_core_rel(f, s[0], d)
        &&& match find_task(rest, w) {
            None => {
                &&& ev.resolved == Some(ExitStatus::Aborted)
                &&& s[0].blocked_on is None
                &&& s[0].reply == Reply::WaitResult(ExitStatus::Aborted)
                &&& s.skip(1) == rest
            },
            Some(t) => match t.exited {
                None => {
                    &&& ev.resolved is None
                    &&& s[0].blocked_on == Some(w)
                    &&& s[0].reply == f.reply
                    &&& s.skip(1) == rest
                },
                Some(c) => {
                    &&& ev.resolved == Some(ExitStatus::Exited(c))
                    &&& s[0].blocked_on is None
                    &&& s[0].reply == Reply::WaitResult(ExitStatus::Exited(c))
                    &&& s.skip(1) == dec_waiters_seq(rest, w)
                },
            },
        }
        },
    })
    // The task is polled exactly when it survives the signal phase unpaused
    // and is not suspended in a wait.
    &&& (ev.polled is Some <==> (f.exited is None && exit_after(d) is None && !paused_after(
        f.paused,
        d,
    ) && f.blocked_on is None))
    &&& (ev.polled is Some ==> ev.resolved is None && polled_core_rel(f, s[0], d)
        && match ev.polled->0 {
        SyscallTag::Done(c) => {
            &&& s.len() == q.len()
            &&& s[0].exited == Some(c)
            &&& s[0].blocked_on is None
            &&& s[0].reply is Nothing
            &&& s[0].signal_handler == f.signal_handler
            &&& s[0].pending_signals@ == skipd
            &&& s[0].pending_signals.wf()
            &&& s.skip(1) == rest
        },
        SyscallTag::Yielded => {
            &&& s.len() == q.len()
            &&& s[0].exited is None
            &&& s[0].blocked_on is None
            &&& s[0].reply is Nothing
            &&& s[0].signal_handler == f.signal_handler
            &&& s[0].pending_signals@ == skipd
            &&& s[0].pending_signals.wf()
            &&& s.skip(1) == rest
        },
        SyscallTag::Waiting(w) => {
            &&& w != f.id
            &&& id_in(rest, w)
            &&& s.len() == q.len()
            &&& s[0].exited is None
            &&& s[0].blocked_on == Some(w)
            &&& s[0].reply is Nothing
            &&& s[0].signal_handler == f.signal_handler
            &&& s[0].pending_signals@ == skipd
            &&& s[0].pending_signals.wf()
            &&& s.skip(1) == inc_waiters_seq(rest, w)
        },
        SyscallTag::WaitFailed(w, st) => {
            &&& (w == f.id ==> st == ExitStatus::ErrorPid)
            &&& (w != f.id ==> st == ExitStatus::NotExist && !id_in(rest, w))
            &&& s.len() == q.len()
            &&& s[0].exited is None
            &&& s[0].blocked_on is None
            &&& s[0].reply == Reply::WaitResult(st)
            &&& s[0].signal_handler == f.signal_handler
            &&& s[0].pending_signals@ == skipd
            &&& s[0].pending_signals.wf()
            &&& s.skip(1) == rest
        },
        SyscallTag::Spawned(nid) => {
            &&& q.len() < 65535
            &&& s.len() == q.len() + 1
            &&& s[0].exited is None
            &&& s[0].blocked_on is None
            &&& s[0].reply == Reply::Spawned(nid)
            &&& s[0].signal_handler == f.signal_handler
            &&& s[0].pending_signals@ == skipd
            &&& s[0].pending_signals.wf()
            &&& s.subrange(1, q.len() as int) == rest
            &&& s.last().fresh()
            &&& s.last().id == nid
            &&& !id_in(q, nid)
        },
        SyscallTag::SpawnFailed => {
            &&& q.len() >= 65535
            &&& s.len() == q.len()
            &&& s[0].exited is None
            &&& s[0].blocked_on is None
            &&& s[0].reply is Nothing
            &&& s[0].signal_handler == f.signal_handler
            &&& s[0].pending_signals@ == skipd
            &&& s[0].pending_signals.wf()
            &&& s.skip(1) == rest
        },
        SyscallTag::Killed(w, ok) => {
            &&& ok == (w == f.id || id_in(rest, w))
            &&& s.len() == q.len()
            &&& s[0].exited is None
            &&& s[0].blocked_on is None
            &&& s[0].reply == Reply::KillResult(ok)
            &&& s[0].signal_handler == f.signal_handler
            &&& s[0].pending_signals.wf()
            &&& (w == f.id ==> s[0].pending_signals@ == pending_after_send(skipd, Signal::SIGTERM)
                && s.skip(1) == rest)
            &&& (w != f.id ==> s[0].pending_signals@ == skipd && signal_sent_rel(
                rest,
                s.skip(1),
                w,
                Signal::SIGTERM,
            ))
        },
        SyscallTag::Sent(w, sg, ok) => {
            &&& ok == (w == f.id || id_in(rest, w))
            &&& s.len() == q.len()
            &&& s[0].exited is None
            &&& s[0].blocked_on is None
            &&& s[0].reply == Reply::SendResult(ok)
            &&& s[0].signal_handler == f.signal_handler
            &&& s[0].pending_signals.wf()
            &&& (w == f.id ==> s[0].pending_signals@ == pending_after_send(skipd, sg) && s.skip(1)
                == rest)
            &&& (w != f.id ==> s[0].pending_signals@ == skipd && signal_sent_rel(
                rest,
                s.skip(1),
                w,
                sg,
            ))
        },
        SyscallTag::HandlerInstalled => {
            &&& s.len() == q.len()
            &&& s[0].exited is None
            &&& s[0].blocked_on is None
            &&& s[0].reply is Nothing
            &&& s[0].signal_handler is Some
            &&& s[0].pending_signals@ == skipd
            &&& s[0].pending_signals.wf()
            &&& s.skip(1) == rest
        },
        SyscallTag::RunningQueried(w, b) => {
            &&& b == (w == f.id || id_in(rest, w))
            &&& s.len() == q.len()
            &&& s[0].exited is None
            &&& s[0].blocked_on is None
            &&& s[0].reply == Reply::Running(b)
            &&& s[0].signal_handler == f.signal_handler
            &&& s[0].pending_signals@ == skipd
            &&& s[0].pending_signals.wf()
            &&& s.skip(1) == rest
        },
        SyscallTag::Listed => {
            &&& s.len() == q.len()
            &&& s[0].exited is None
            &&& s[0].blocked_on is None
            &&& (s[0].reply matches Reply::Tasks(l) && l@.len() == q.len() && (forall|i: int|
                0 <= i < q.len() ==> (#[trigger] l@[i]).0 == q[i].id && l@[i].1@ == q[i].cmd@))
            &&& s[0].signal_handler == f.signal_handler
            &&& s[0].pending_signals@ == skipd
            &&& s[0].pending_signals.wf()
            &&& s.skip(1) == rest
        },
    })
}


/// The queue a run stands at just before step `i` of its trace (the final
/// queue once the trace is exhausted).
pub open spec fn trace_queue_at<C, H>(
    fin: Seq<Task<C, H>>,
    trace: Seq<(Seq<Task<C, H>>, DispatchEvent, Seq<Task<C, H>>)>,
    i: int,
) -> Seq<Task<C, H>> {
    if i < trace.len() {
        trace[i].0
    } else {
        fin
    }
}

/// A valid run trace: each element holds the queue a dispatch started from,
/// the event it returned, and the queue as served; consecutive steps chain
/// (each step's outcome is the next step's starting queue, and the last
/// step's outcome is the final queue), and every step obeys
/// [`dispatch_spec`]. An empty trace means the queue was never touched.
pub open spec fn run_trace_ok<C, H>(
    init: Seq<Task<C, H>>,
    fin: Seq<Task<C, H>>,
    trace: Seq<(Seq<Task<C, H>>, DispatchEvent, Seq<Task<C, H>>)>,
) -> bool {
    &&& (trace.len() == 0 ==> fin == init)
    &&& (trace.len() > 0 ==> trace[0].0 == init)
    &&& forall|i: int|
        0 <= i < trace.len() ==> (#[trigger] trace[i]).0.len() >= 1 && dispatch_spec(
            trace[i].0,
            trace_queue_at(fin, trace, i + 1),
            trace[i].1,
            trace[i].2,
        )
}


/// A task's exit code, once set, is observable for the rest of a run: if at
/// some point of a valid run trace a live task has exit code `c`, and no
/// later step reaps it (no later event carries its id with `removed`), then
/// the task still stands in the final queue with exit code `c`. With
/// [`lemma_done_sets_exit_code`] this is the spawn-to-completion story: a
/// continuation that answers `Done(c)` fixes `c` as the task's exit code for
/// as long as the task lives, so every waiter observes `Exited(c)`.
pub proof fn lemma_run_preserves_exit_code<C, H>(
    init: Seq<Task<C, H>>,
    fin: Seq<Task<C, H>>,
    trace: Seq<(Seq<Task<C, H>>, DispatchEvent, Seq<Task<C, H>>)>,
    i: int,
    j: int,
    id: TaskId,
    c: ExitCode,
)
    requires
        run_trace_ok(init, fin, trace),
        0 <= i <= trace.len(),
        0 <= j < trace_queue_at(fin, trace, i).len(),
        trace_queue_at(fin, trace, i)[j].id == id,
        trace_queue_at(fin, trace, i)[j].exited == Some(c),
        forall|m: int|
            i <= m < trace.len() ==> !((#[trigger] trace[m]).1.id == id && trace[m].1.removed),
    ensures
        exists|k: int|
            0 <= k < fin.len() && (#[trigger] fin[k]).id == id && fin[k].exited == Some(c),
    decreases trace.len() - i,
{
    if i == trace.len() {
        assert(fin[j].id == id && fin[j].exited == Some(c));
    } else {
        let q = trace[i].0;
        let ev = trace[i].1;
        let post = trace_queue_at(fin, trace, i + 1);
        assert(dispatch_spec(q, post, ev, trace[i].2));
        assert(ev.id == q[0].id);
        assert(!(j == 0 && ev.removed));
        lemma_exit_code_stable(q, post, ev, trace[i].2, j, c);
        let k = choose|k: int|
            0 <= k < post.len() && (#[trigger] post[k]).id == id && post[k].exited == Some(c);
        lemma_run_preserves_exit_code(init, fin, trace, i + 1, k, id, c);
    }
}

/// An exit code, once set, survives a dispatch: a task of the queue that has
/// an exit code either keeps it (at a possibly different position), or it
/// stood at the front with no waiters and was reaped. Together with
/// [`lemma_done_sets_exit_code`] and [`lemma_waiter_observes_exit`], this
/// carries a completed continuation's code unchanged through every later
/// step of a run until the task is reaped.
pub proof fn lemma_exit_code_stable<C, H>(
    q: Seq<Task<C, H>>,
    post: Seq<Task<C, H>>,
    ev: DispatchEvent,
    s: Seq<Task<C, H>>,
    j: int,
    c: ExitCode,
)
    requires
        q.len() >= 1,
        dispatch_spec(q, post, ev, s),
        0 <= j < q.len(),
        q[j].exited == Some(c),
        !(j == 0 && ev.removed),
    ensures
        exists|k: int|
            0 <= k < post.len() && (#[trigger] post[k]).id == q[j].id && post[k].exited == Some(c),
{
    let f = q[0];
    let rest = q.skip(1);
    let d = ev.delivered@;
    if j == 0 {
        // The front task already had its code: it was rotated unchanged.
        assert(s == q);
        assert(post == s.skip(1).push(s[0]));
        let k = post.len() - 1;
        assert(post[k] == q[0]);
    } else {
        // The task sits in the rest of the queue; every service of the
        // dispatch leaves ids and exit codes of those tasks unchanged.
        assert(rest[j - 1] == q[j]);
        let t = s.skip(1);
        assert(j - 1 < t.len() && t[j - 1].id == q[j].id && t[j - 1].exited == Some(c)) by {
            if f.exited is Some {
                assert(s == q);
                assert(s.skip(1)[j - 1] == q[j]);
            } else if exit_after(d) is Some {
                match f.blocked_on {
                    None => {
                        assert(t[j - 1] == rest[j - 1]);
                    },
                    Some(w) => {
                        assert(t == dec_waiters_seq(rest, w));
                        assert(t[j - 1].id == rest[j - 1].id && t[j - 1].exited == rest[j
                            - 1].exited);
                    },
                }
            } else if paused_after(f.paused, d) {
                assert(t[j - 1] == rest[j - 1]);
            } else if f.blocked_on is Some {
                let w = f.blocked_on->0;
                match find_task(rest, w) {
                    None => {
                        assert(t[j - 1] == rest[j - 1]);
                    },
                    Some(tgt) => match tgt.exited {
                        None => {
                            assert(t[j - 1] == rest[j - 1]);
                        },
                        Some(_) => {
                            assert(t == dec_waiters_seq(rest, w));
                            assert(t[j - 1].id == rest[j - 1].id && t[j - 1].exited == rest[j
                                - 1].exited);
                        },
                    },
                }
            } else {
                assert(ev.polled is Some);
                match ev.polled->0 {
                    SyscallTag::Waiting(w) => {
                        assert(t == inc_waiters_seq(rest, w));
                        assert(t[j - 1].id == rest[j - 1].id && t[j - 1].exited == rest[j
                            - 1].exited);
                    },
                    SyscallTag::Spawned(_) => {
                        assert(s.subrange(1, q.len() as int) == rest);
                        assert(t[j - 1] == s.subrange(1, q.len() as int)[j - 1]);
                    },
                    SyscallTag::Killed(w, _) => {
                        if w == f.id {
                            assert(t[j - 1] == rest[j - 1]);
                        } else {
                            assert(signal_sent_rel(rest, t, w, Signal::SIGTERM));
                            if rest[j - 1].id == w {
                                assert(task_with_pending(
                                    rest[j - 1],
                                    t[j - 1],
                                    pending_after_send(
                                        rest[j - 1].pending_signals@,
                                        Signal::SIGTERM,
                                    ),
                                ));
                            } else {
                                assert(t[j - 1] == rest[j - 1]);
                            }
                        }
                    },
                    SyscallTag::Sent(w, sg, _) => {
                        if w == f.id {
                            assert(t[j - 1] == rest[j - 1]);
                        } else {
                            assert(signal_sent_rel(rest, t, w, sg));
                            if rest[j - 1].id == w {
                                assert(task_with_pending(
                                    rest[j - 1],
                                    t[j - 1],
                                    pending_after_send(rest[j - 1].pending_signals@, sg),
                                ));
                            } else {
                                assert(t[j - 1] == rest[j - 1]);
                            }
                        }
                    },
                    _ => {
                        assert(t[j - 1] == rest[j - 1]);
                    },
                }
            }
        }
        if ev.removed {
            assert(post == t);
            assert(post[j - 1].id == q[j].id && post[j - 1].exited == Some(c));
        } else {
            assert(post == t.push(s[0]));
            assert(post[j - 1].id == q[j].id && post[j - 1].exited == Some(c));
        }
    }
}

/// Pointwise relation of a queue before and after a signal was sent to id
/// `w`: the target's ring is updated under the overflow policy, every other
/// task is untouched.
pub open spec fn signal_sent_rel<C, H>(
    pre: Seq<Task<C, H>>,
    post: Seq<Task<C, H>>,
    w: TaskId,
    sg: Signal,
) -> bool {
    &&& post.len() == pre.len()
    &&& forall|i: int|
        0 <= i < pre.len() && pre[i].id != w ==> post[i] == (#[trigger] pre[i])
    &&& forall|i: int|
        0 <= i < pre.len() && (#[trigger] pre[i]).id == w ==> task_with_pending(
            pre[i],
            post[i],
            pending_after_send(pre[i].pending_signals@, sg),
        )
}


/// Membership of an id in a queue with a distinguished front task.
proof fn lemma_id_in_cons<C, H>(f: Task<C, H>, rest: Seq<Task<C, H>>, w: TaskId)
    ensures
        id_in(seq![f] + rest, w) <==> (f.id == w || id_in(rest, w)),
{
    let s = seq![f] + rest;
    assert(s[0] == f);
    assert(forall|i: int| 0 <= i < rest.len() ==> #[trigger] s[i + 1] == rest[i]);
    if id_in(s, w) {
        let i = choose|i: int| 0 <= i < s.len() && s[i].id == w;
        if i > 0 {
            assert(rest[i - 1] == s[i]);
        }
    }
    if id_in(rest, w) {
        let i = choose|i: int| 0 <= i < rest.len() && rest[i].id == w;
        assert(s[i + 1].id == w);
    }
}

/// Pointwise id equality and ring well-formedness carry queue well-formedness
/// from one queue to another of the same length.
proof fn lemma_queue_wf_same_ids<C, H>(a: Seq<Task<C, H>>, b: Seq<Task<C, H>>)
    requires
        queue_wf(a),
        b.len() == a.len(),
        forall|i: int|
            0 <= i < b.len() ==> (#[trigger] b[i]).id == a[i].id && b[i].pending_signals.wf(),
    ensures
        queue_wf(b),
{
}

/// Dropping the front of a well-formed queue, or rotating it to the back,
/// keeps the queue well-formed.
proof fn lemma_requeue_wf<C, H>(s: Seq<Task<C, H>>)
    requires
        queue_wf(s),
        s.len() >= 1,
    ensures
        queue_wf(s.skip(1)),
        queue_wf(s.skip(1).push(s[0])),
{
    let r = s.skip(1).push(s[0]);
    assert forall|i: int| 0 <= i < r.len() implies (#[trigger] r[i]).pending_signals.wf() by {
        if i < s.len() - 1 {
            assert(r[i] == s[i + 1]);
        } else {
            assert(r[i] == s[0]);
        }
    }
    assert forall|a: int, b: int| 0 <= a < b < r.len() implies r[a].id != r[b].id by {
        let a0 = if a < s.len() - 1 {
            a + 1
        } else {
            0
        };
        let b0 = if b < s.len() - 1 {
            b + 1
        } else {
            0
        };
        assert(r[a] == s[a0] && r[b] == s[b0]);
    }
    assert(queue_wf(s.skip(1))) by {
        assert(forall|i: int| 0 <= i < s.skip(1).len() ==> #[trigger] s.skip(1)[i] == s[i + 1]);
    }
}

impl<C: Continuation<H>, H: SignalHandler> Executor<C, H> {
    /// Decrement (saturating) the waiter count of the task with id `w`, if
    /// one is live; everything else is untouched.
    fn dec_waiters(&mut self, w: TaskId)
        requires
            queue_wf(old(self).tasks@),
        ensures
            final(self).tasks@ == dec_waiters_seq(old(self).tasks@, w),
            queue_wf(final(self).tasks@),
            final(self).next_id_hint == old(self).next_id_hint,
            final(self).current_task_id == old(self).current_task_id,
    {
        let pos = self.position_of(w);
        match pos {
            None => {
                proof {
                    assert(self.tasks@ =~= dec_waiters_seq(self.tasks@, w));
                }
            },
            Some(j) => {
                let cur = self.tasks[j].waiters;
                let nw = if cur > 0 {
                    cur - 1
                } else {
                    0
                };
                self.tasks[j].waiters = nw;
                proof {
                    assert forall|i: int| 0 <= i < self.tasks@.len() implies self.tasks@[i]
                        == dec_waiters_seq(old(self).tasks@, w)[i] by {
                        if i != j {
                            assert(old(self).tasks@[i].id != w);
                        }
                    }
                    assert(self.tasks@ =~= dec_waiters_seq(old(self).tasks@, w));
                    lemma_queue_wf_same_ids(old(self).tasks@, self.tasks@);
                }
            },
        }
    }

    /// Dispatch the front task once: a task that already has an exit code is
    /// reaped when nobody waits for it, else rotated so waiters can observe
    /// the code. Otherwise its pending signals are delivered, and — unless it
    /// terminated, is paused, or is still suspended in a wait — it is polled
    /// once and the request it answered with is served. A task that ends the
    /// dispatch with an exit code and no waiters is reaped; every other task
    /// is rotated to the back. The returned event says what happened; the
    /// ghost sequence is the queue as served, before the final reap or
    /// rotation.
    pub fn dispatch_front(&mut self, now_ms: u32) -> (r: (DispatchEvent, Ghost<Seq<Task<C, H>>>))
        requires
            old(self).wf(),
            old(self).tasks().len() >= 1,
        ensures
            final(self).wf(),
            dispatch_spec(old(self).tasks(), final(self).tasks(), r.0, r.1@),
    {
        let ghost q = self.tasks@;
        let mut f = self.tasks.remove(0);
        let ghost rest = self.tasks@;

        // Already exited: reap when nobody waits, else rotate so waiters can
        // still observe the code.
        if f.exited.is_some() {
            let ghost served = q;
            let ghost fpre = f;
            let ev = DispatchEvent {
                id: f.id,
                delivered: Vec::new(),
                resolved: None,
                polled: None,
                removed: f.waiters == 0,
            };
            let removed = f.waiters == 0;
            if !removed {
                self.tasks.push(f);
            }
            proof {
                assert(served.skip(1) =~= rest);
                lemma_requeue_wf(served);
                if !removed {
                    assert(self.tasks@ =~= served.skip(1).push(served[0]));
                }
            }
            return (ev, Ghost(served));
        }
        self.current_task_id = Some(f.id);

        // Deliver pending signals.
        let delivered = deliver_signals(&mut f);

        // Terminated by a signal: withdraw a pending wait, then reap when
        // nobody waits, else rotate so waiters can observe the code.
        if f.exited.is_some() {
            if let Some(w) = f.blocked_on {
                self.dec_waiters(w);
                f.blocked_on = None;
            }
            self.current_task_id = None;
            let ghost served = seq![f] + self.tasks@;
            let ev = DispatchEvent {
                id: f.id,
                delivered,
                resolved: None,
                polled: None,
                removed: f.waiters == 0,
            };
            proof {
                assert(served[0] == f);
                assert(served.skip(1) =~= self.tasks@);
                assert(served.len() == q.len());
                assert forall|i: int|
                    0 <= i < served.len() implies (#[trigger] served[i]).id == q[i].id
                    && served[i].pending_signals.wf() by {
                    if i > 0 {
                        assert(served[i] == self.tasks@[i - 1]);
                        assert(q[i] == rest[i - 1]);
                    }
                }
                lemma_queue_wf_same_ids(q, served);
                lemma_requeue_wf(served);
            }
            let removed = f.waiters == 0;
            if !removed {
                self.tasks.push(f);
            }
            proof {
                if removed {
                    assert(self.tasks@ =~= served.skip(1));
                } else {
                    assert(self.tasks@ =~= served.skip(1).push(served[0]));
                }
            }
            return (ev, Ghost(served));
        }

        // Paused: skip the poll, rotate.
        if f.paused {
            self.current_task_id = None;
            let ghost served = seq![f] + self.tasks@;
            let ev = DispatchEvent {
                id: f.id,
                delivered,
                resolved: None,
                polled: None,
                removed: false,
            };
            proof {
                assert(served[0] == f);
                assert(served.skip(1) =~= rest);
                assert forall|i: int|
                    0 <= i < served.len() implies (#[trigger] served[i]).id == q[i].id
                    && served[i].pending_signals.wf() by {
                    if i > 0 {
                        assert(served[i] == rest[i - 1]);
                    }
                }
                lemma_queue_wf_same_ids(q, served);
                lemma_requeue_wf(served);
            }
            self.tasks.push(f);
            proof {
                assert(self.tasks@ =~= served.skip(1).push(served[0]));
            }
            return (ev, Ghost(served));
        }

        // Suspended in a wait: resolve it if the target has exited or is
        // gone; either way the task is not polled until its next dispatch.
        let mut resolved: Option<ExitStatus> = None;
        if let Some(w) = f.blocked_on {
            proof {
                lemma_find_task(rest, w);
                assert(ids_distinct(rest)) by {
                    assert(forall|i: int|
                        0 <= i < rest.len() ==> #[trigger] rest[i] == q[i + 1]);
                }
            }
            let pos = self.position_of(w);
            match pos {
                None => {
                    f.blocked_on = None;
                    f.reply = Reply::WaitResult(ExitStatus::Aborted);
                    resolved = Some(ExitStatus::Aborted);
                },
                Some(j) => {
                    let target_exited = self.tasks[j].exited;
                    match target_exited {
                        None => {},
                        Some(c) => {
                            self.dec_waiters(w);
                            f.blocked_on = None;
                            f.reply = Reply::WaitResult(ExitStatus::Exited(c));
                            resolved = Some(ExitStatus::Exited(c));
                        },
                    }
                },
            }
            self.current_task_id = None;
            let ghost served = seq![f] + self.tasks@;
            let ev = DispatchEvent {
                id: f.id,
                delivered,
                resolved,
                polled: None,
                removed: false,
            };
            proof {
                assert(served[0] == f);
                assert(served.skip(1) =~= self.tasks@);
                assert forall|i: int|
                    0 <= i < served.len() implies (#[trigger] served[i]).id == q[i].id
                    && served[i].pending_signals.wf() by {
                    if i > 0 {
                        assert(served[i] == self.tasks@[i - 1]);
                        assert(q[i] == rest[i - 1]);
                    }
                }
                lemma_queue_wf_same_ids(q, served);
                lemma_requeue_wf(served);
            }
            self.tasks.push(f);
            proof {
                assert(self.tasks@ =~= served.skip(1).push(served[0]));
            }
            return (ev, Ghost(served));
        }

        // Poll the task once and serve its request.
        let mut reply = Reply::Nothing;
        core::mem::swap(&mut reply, &mut f.reply);
        let own_id = f.id;
        let step = f.cont.poll(now_ms, reply);
        self.tasks.insert(0, f);
        proof {
            assert(self.tasks@ =~= seq![f] + rest);
            assert forall|i: int|
                0 <= i < self.tasks@.len() implies (#[trigger] self.tasks@[i]).id == q[i].id
                && self.tasks@[i].pending_signals.wf() by {
                if i > 0 {
                    assert(self.tasks@[i] == rest[i - 1]);
                }
            }
            lemma_queue_wf_same_ids(q, self.tasks@);
        }
        let ghost fq = self.tasks@;
        proof {
            assert(fq[0] == f);
            assert(forall|i: int| 0 <= i < rest.len() ==> #[trigger] fq[i + 1] == rest[i]);
        }
        let tag: SyscallTag = match step {
            Step::Done(code) => {
                self.tasks[0].exited = Some(code);
                proof {
                    assert(self.tasks@.skip(1) =~= rest);
                    lemma_queue_wf_same_ids(q, self.tasks@);
                }
                SyscallTag::Done(code)
            },
            Step::Yield => {
                proof {
                    assert(self.tasks@.skip(1) =~= rest);
                }
                SyscallTag::Yielded
            },
            Step::Wait(w) => {
                if w == own_id {
                    self.tasks[0].reply = Reply::WaitResult(ExitStatus::ErrorPid);
                    proof {
                        assert(self.tasks@.skip(1) =~= rest);
                        lemma_queue_wf_same_ids(q, self.tasks@);
                    }
                    SyscallTag::WaitFailed(w, ExitStatus::ErrorPid)
                } else {
                    let pos = self.position_of(w);
                    match pos {
                        None => {
                            self.tasks[0].reply = Reply::WaitResult(ExitStatus::NotExist);
                            proof {
                                lemma_id_in_cons(f, rest, w);
                                assert(self.tasks@.skip(1) =~= rest);
                                lemma_queue_wf_same_ids(q, self.tasks@);
                            }
                            SyscallTag::WaitFailed(w, ExitStatus::NotExist)
                        },
                        Some(j) => {
                            let cur = self.tasks[j].waiters;
                            let nw = if cur < 65535 {
                                cur + 1
                            } else {
                                cur
                            };
                            self.tasks[j].waiters = nw;
                            self.tasks[0].blocked_on = Some(w);
                            proof {
                                assert(j != 0);
                                assert forall|i: int|
                                    0 <= i < rest.len() implies self.tasks@.skip(1)[i]
                                    == inc_waiters_seq(rest, w)[i] by {
                                    assert(self.tasks@.skip(1)[i] == self.tasks@[i + 1]);
                                    if i + 1 != j {
                                        assert(fq[i + 1].id != w);
                                        assert(self.tasks@[i + 1] == fq[i + 1]);
                                        assert(rest[i] == fq[i + 1]);
                                    }
                                }
                                assert(self.tasks@.skip(1) =~= inc_waiters_seq(rest, w));
                                lemma_queue_wf_same_ids(q, self.tasks@);
                                assert(rest[j - 1] == fq[j as int]);
                                assert(id_in(rest, w));
                            }
                            SyscallTag::Waiting(w)
                        },
                    }
                }
            },
            Step::Spawn(name, cont) => {
                if self.tasks.len() < 65535 {
                    let nid = self.spawn(name, cont);
                    self.tasks[0].reply = Reply::Spawned(nid);
                    proof {
                        assert(self.tasks@.subrange(1, q.len() as int) =~= rest);
                        lemma_id_in_cons(f, rest, nid);
                        assert(forall|i: int| 0 <= i < q.len() ==> (#[trigger] q[i]).id == fq[i].id);
                        assert(!id_in(q, nid)) by {
                            if id_in(q, nid) {
                                let i = choose|i: int| 0 <= i < q.len() && q[i].id == nid;
                                assert(fq[i].id == nid);
                                assert(id_in(fq, nid));
                            }
                        }
                    }
                    SyscallTag::Spawned(nid)
                } else {
                    proof {
                        assert(self.tasks@.skip(1) =~= rest);
                    }
                    SyscallTag::SpawnFailed
                }
            },
            Step::Kill(w) => {
                let ok = self.kill(w);
                self.tasks[0].reply = Reply::KillResult(ok);
                proof {
                    lemma_id_in_cons(f, rest, w);
                    assert forall|i: int| 0 <= i < rest.len() implies #[trigger] self.tasks@.skip(
                        1,
                    )[i] == self.tasks@[i + 1] by {}
                    if w == own_id {
                        assert forall|i: int| 0 <= i < rest.len() implies self.tasks@.skip(1)[i]
                            == rest[i] by {
                            assert(fq[i + 1].id != w);
                        }
                        assert(self.tasks@.skip(1) =~= rest);
                    }
                }
                SyscallTag::Killed(w, ok)
            },
            Step::SendSignal(w, sg) => {
                let ok = self.send_signal(w, sg);
                self.tasks[0].reply = Reply::SendResult(ok);
                proof {
                    lemma_id_in_cons(f, rest, w);
                    assert forall|i: int| 0 <= i < rest.len() implies #[trigger] self.tasks@.skip(
                        1,
                    )[i] == self.tasks@[i + 1] by {}
                    if w == own_id {
                        assert forall|i: int| 0 <= i < rest.len() implies self.tasks@.skip(1)[i]
                            == rest[i] by {
                            assert(fq[i + 1].id != w);
                        }
                        assert(self.tasks@.skip(1) =~= rest);
                    }
                }
                SyscallTag::Sent(w, sg, ok)
            },
            Step::RegisterHandler(h) => {
                self.tasks[0].signal_handler = Some(h);
                proof {
                    assert(self.tasks@.skip(1) =~= rest);
                    lemma_queue_wf_same_ids(q, self.tasks@);
                }
                SyscallTag::HandlerInstalled
            },
            Step::IsRunning(w) => {
                let b = self.is_running(w);
                proof {
                    lemma_id_in_cons(f, rest, w);
                }
                self.tasks[0].reply = Reply::Running(b);
                proof {
                    assert(self.tasks@.skip(1) =~= rest);
                    lemma_queue_wf_same_ids(q, self.tasks@);
                }
                SyscallTag::RunningQueried(w, b)
            },
            Step::TaskList => {
                let l = self.task_list();
                proof {
                    assert(forall|i: int| 0 <= i < q.len() ==> (#[trigger] fq[i]).cmd@ == q[i].cmd@);
                }
                self.tasks[0].reply = Reply::Tasks(l);
                proof {
                    assert(self.tasks@.skip(1) =~= rest);
                    lemma_queue_wf_same_ids(q, self.tasks@);
                }
                SyscallTag::Listed
            },
        };
        self.current_task_id = None;
        let ghost served = self.tasks@;
        proof {
            lemma_requeue_wf(served);
        }
        let f2 = self.tasks.remove(0);
        let removed = f2.exited.is_some() && f2.waiters == 0;
        let ev = DispatchEvent {
            id: own_id,
            delivered,
            resolved: None,
            polled: Some(tag),
            removed,
        };
        if !removed {
            self.tasks.push(f2);
        }
        proof {
            if removed {
                assert(self.tasks@ =~= served.skip(1));
            } else {
                assert(self.tasks@ =~= served.skip(1).push(served[0]));
            }
        }
        (ev, Ghost(served))
    }

    /// Drive the dispatch loop until the queue is empty, reading the clock
    /// from the board's systick before each dispatch. Scheduling can go on
    /// for as long as a task stays live, so the loop carries a step budget;
    /// the result says whether the queue was drained before it ran out, and
    /// carries the trace of dispatches: the whole run is a chain of steps,
    /// each obeying [`dispatch_spec`], from the initial queue to the final
    /// one.
    pub fn run<S: SysTickDriver>(&mut self, systick: &mut S, max_steps: u64) -> (r: (
        bool,
        Ghost<Seq<(Seq<Task<C, H>>, DispatchEvent, Seq<Task<C, H>>)>>,
    ))
        requires
            old(self).wf(),
        ensures
            final(self).wf(),
            r.0 == (final(self).tasks().len() == 0),
            run_trace_ok(old(self).tasks(), final(self).tasks(), r.1@),
    {
        let ghost init = self.tasks@;
        let ghost mut trace: Seq<(Seq<Task<C, H>>, DispatchEvent, Seq<Task<C, H>>)> = Seq::empty();
        let mut steps_left = max_steps;
        while self.task_count() > 0 && steps_left > 0
            invariant
                self.wf(),
                init == old(self).tasks@,
                run_trace_ok(init, self.tasks@, trace),
            decreases steps_left,
        {
            let ghost pre = self.tasks@;
            let ghost trace_pre = trace;
            let now_ms = systick.get_system_ms();
            let (ev, served) = self.dispatch_front(now_ms);
            proof {
                trace = trace.push((pre, ev, served@));
                assert forall|i: int|
                    0 <= i < trace.len() implies (#[trigger] trace[i]).0.len() >= 1
                    && dispatch_spec(
                    trace[i].0,
                    if i + 1 < trace.len() {
                        trace[i + 1].0
                    } else {
                        self.tasks@
                    },
                    trace[i].1,
                    trace[i].2,
                ) by {
                    if i < trace.len() - 1 {
                        assert(trace[i] == trace_pre[i]);
                        if i + 1 < trace_pre.len() {
                            assert(trace[i + 1] == trace_pre[i + 1]);
                        } else {
                            assert(trace[i + 1].0 == pre);
                        }
                    }
                }
                if trace_pre.len() == 0 {
                    assert(trace[0].0 == init);
                }
            }
            steps_left -= 1;
        }
        let drained = self.task_count() == 0;
        (drained, Ghost(trace))
    }
}


/// Task ids of live tasks are pairwise distinct: in a well-formed executor no
/// two queue positions carry the same id. Dispatch and spawn preserve
/// well-formedness, so this holds at every point of a run.
pub proof fn lemma_live_ids_distinct<C: Continuation<H>, H: SignalHandler>(
    e: Executor<C, H>,
    i: int,
    j: int,
)
    requires
        e.wf(),
        0 <= i < j < e.tasks().len(),
    ensures
        e.tasks()[i].id != e.tasks()[j].id,
{
}

/// A task that has exited is never polled again and consumes no signal: a
/// dispatch of it only reaps it (when nobody waits) or rotates it unchanged.
pub proof fn lemma_exited_never_polled<C, H>(
    q: Seq<Task<C, H>>,
    post: Seq<Task<C, H>>,
    ev: DispatchEvent,
    s: Seq<Task<C, H>>,
)
    requires
        q.len() >= 1,
        dispatch_spec(q, post, ev, s),
        q[0].exited is Some,
    ensures
        ev.polled is None,
        ev.delivered@.len() == 0,
        ev.removed == (q[0].waiters == 0),
        q[0].waiters == 0 ==> post == q.skip(1),
        q[0].waiters != 0 ==> post == q.skip(1).push(q[0]),
{
}

/// A completed continuation sets exactly its own exit code: when a dispatch
/// polls the front task and the task answers that it is done with code `c`,
/// the task's recorded exit code becomes `c`.
pub proof fn lemma_done_sets_exit_code<C, H>(
    q: Seq<Task<C, H>>,
    post: Seq<Task<C, H>>,
    ev: DispatchEvent,
    s: Seq<Task<C, H>>,
    c: ExitCode,
)
    requires
        q.len() >= 1,
        dispatch_spec(q, post, ev, s),
        ev.polled == Some(SyscallTag::Done(c)),
    ensures
        s[0].exited == Some(c),
        s[0].id == q[0].id,
        q[0].waiters == 0 ==> ev.removed && post == q.skip(1),
        q[0].waiters != 0 ==> !ev.removed && post == q.skip(1).push(s[0]),
{
    assert(polled_core_rel(q[0], s[0], ev.delivered@));
}

/// SIGTERM under the default policy: a task with no installed handler whose
/// next pending signal is SIGTERM (or SIGINT) terminates with exit code -1 at
/// its next dispatch, without being polled.
pub proof fn lemma_default_term_is_minus_one<C, H>(
    q: Seq<Task<C, H>>,
    post: Seq<Task<C, H>>,
    ev: DispatchEvent,
    s: Seq<Task<C, H>>,
)
    requires
        q.len() >= 1,
        dispatch_spec(q, post, ev, s),
        q[0].exited is None,
        q[0].signal_handler is None,
        q[0].pending_signals@.len() >= 1,
        q[0].pending_signals@[0] == Signal::SIGTERM || q[0].pending_signals@[0] == Signal::SIGINT,
    ensures
        s[0].exited == Some(-1i8),
        s[0].id == q[0].id,
        ev.polled is None,
{
    let d = ev.delivered@;
    let p = q[0].pending_signals@;
    assert(delivered_ok(p, false, d));
    if d.len() == 0 {
        assert(d.len() < p.len());
        assert(false);
    }
    assert(d[0].0 == p[0]);
    assert(d[0].1 == default_action(p[0]));
    assert(d[0].1 == SignalAction::Terminate(-1i8));
    if d.len() > 1 {
        assert(!(d[0].1 is Terminate));
        assert(false);
    }
    assert(d.last() == d[0]);
    assert(exit_after(d) == Some(-1i8));
}

/// SIGKILL is uncatchable: a task whose next pending signal is SIGKILL
/// terminates with exit code -9 at its next dispatch, whatever handler is
/// installed, without being polled.
pub proof fn lemma_sigkill_is_minus_nine<C, H>(
    q: Seq<Task<C, H>>,
    post: Seq<Task<C, H>>,
    ev: DispatchEvent,
    s: Seq<Task<C, H>>,
)
    requires
        q.len() >= 1,
        dispatch_spec(q, post, ev, s),
        q[0].exited is None,
        q[0].pending_signals@.len() >= 1,
        q[0].pending_signals@[0] == Signal::SIGKILL,
    ensures
        s[0].exited == Some(-9i8),
        s[0].id == q[0].id,
        ev.polled is None,
{
    let d = ev.delivered@;
    let p = q[0].pending_signals@;
    assert(delivered_ok(p, q[0].signal_handler is Some, d));
    if d.len() == 0 {
        assert(d.len() < p.len());
        assert(false);
    }
    assert(d[0].0 == p[0]);
    assert(d[0].1 == SignalAction::Terminate(-9i8));
    if d.len() > 1 {
        assert(!(d[0].1 is Terminate));
        assert(false);
    }
    assert(d.last() == d[0]);
    assert(exit_after(d) == Some(-9i8));
}

/// SIGSTOP pauses: a task whose only pending signal is SIGSTOP is paused by
/// its next dispatch, whatever handler is installed, and is not polled.
pub proof fn lemma_sigstop_pauses<C, H>(
    q: Seq<Task<C, H>>,
    post: Seq<Task<C, H>>,
    ev: DispatchEvent,
    s: Seq<Task<C, H>>,
)
    requires
        q.len() >= 1,
        dispatch_spec(q, post, ev, s),
        q[0].exited is None,
        q[0].pending_signals@ == seq![Signal::SIGSTOP],
    ensures
        s[0].paused,
        s[0].exited is None,
        s[0].id == q[0].id,
        ev.polled is None,
{
    let d = ev.delivered@;
    let p = q[0].pending_signals@;
    assert(delivered_ok(p, q[0].signal_handler is Some, d));
    if d.len() == 0 {
        assert(false);
    }
    assert(d[0].0 == p[0]);
    assert(d[0].1 == SignalAction::Pause);
    assert(d.len() == 1);
    assert(exit_after(d) is None);
    assert(d.skip(1) =~= Seq::<(Signal, SignalAction)>::empty());
    reveal_with_fuel(paused_after, 3);
    assert(paused_after(q[0].paused, d));
}

/// A paused task with no pending signal is not polled and stays paused: no
/// poll occurs until something (SIGCONT, or a handler's Continue) clears the
/// flag.
pub proof fn lemma_paused_not_polled<C, H>(
    q: Seq<Task<C, H>>,
    post: Seq<Task<C, H>>,
    ev: DispatchEvent,
    s: Seq<Task<C, H>>,
)
    requires
        q.len() >= 1,
        dispatch_spec(q, post, ev, s),
        q[0].exited is None,
        q[0].paused,
        q[0].pending_signals@.len() == 0,
    ensures
        ev.polled is None,
        s[0].paused,
        s[0].exited is None,
        post == q.skip(1).push(s[0]),
{
    let d = ev.delivered@;
    assert(delivered_ok(q[0].pending_signals@, q[0].signal_handler is Some, d));
    assert(d.len() == 0);
    assert(exit_after(d) is None);
    assert(paused_after(q[0].paused, d));
}

/// SIGCONT under the default policy resumes a paused task: after the
/// dispatch that consumes it, the task is unpaused and was polled (unless it
/// was suspended in a wait).
pub proof fn lemma_sigcont_resumes<C, H>(
    q: Seq<Task<C, H>>,
    post: Seq<Task<C, H>>,
    ev: DispatchEvent,
    s: Seq<Task<C, H>>,
)
    requires
        q.len() >= 1,
        dispatch_spec(q, post, ev, s),
        q[0].exited is None,
        q[0].paused,
        q[0].signal_handler is None,
        q[0].blocked_on is None,
        q[0].pending_signals@ == seq![Signal::SIGCONT],
    ensures
        ev.polled is Some,
        !s[0].paused,
{
    let d = ev.delivered@;
    let p = q[0].pending_signals@;
    assert(delivered_ok(p, false, d));
    if d.len() == 0 {
        assert(false);
    }
    assert(d[0].0 == p[0]);
    assert(d[0].1 == default_action(Signal::SIGCONT));
    assert(d.len() == 1);
    assert(exit_after(d) is None);
    assert(d.skip(1) =~= Seq::<(Signal, SignalAction)>::empty());
    reveal_with_fuel(paused_after, 3);
    assert(!paused_after(q[0].paused, d));
    assert(polled_core_rel(q[0], s[0], d));
}

/// A waiter observes the target's exit code: when the front task is suspended
/// waiting for a task that has exited with code `k` (and no signal interferes),
/// the wait resolves to `Exited(k)`, that status is what the waiter's next
/// poll will receive, and the target loses one waiter.
pub proof fn lemma_waiter_observes_exit<C, H>(
    q: Seq<Task<C, H>>,
    post: Seq<Task<C, H>>,
    ev: DispatchEvent,
    s: Seq<Task<C, H>>,
    w: TaskId,
    k: ExitCode,
)
    requires
        q.len() >= 1,
        dispatch_spec(q, post, ev, s),
        q[0].exited is None,
        !q[0].paused,
        q[0].pending_signals@.len() == 0,
        q[0].blocked_on == Some(w),
        find_task(q.skip(1), w) matches Some(t) && t.exited == Some(k),
    ensures
        ev.resolved == Some(ExitStatus::Exited(k)),
        s[0].reply == Reply::WaitResult(ExitStatus::Exited(k)),
        s[0].blocked_on is None,
        s.skip(1) == dec_waiters_seq(q.skip(1), w),
        ev.polled is None,
{
    let d = ev.delivered@;
    assert(delivered_ok(q[0].pending_signals@, q[0].signal_handler is Some, d));
    assert(d.len() == 0);
    assert(exit_after(d) is None);
    assert(!paused_after(q[0].paused, d));
}


/// A named factory of task continuations: a command name together with the
/// function that builds a fresh continuation from the command's arguments.
pub struct Runnable<F> {
    name: Vec<u8>,
    func: F,
}

impl<F> Runnable<F> {
    /// The command name.
    pub closed spec fn name_view(&self) -> Seq<u8> {
        self.name@
    }

    /// The stored factory.
    pub closed spec fn func_spec(&self) -> F {
        self.func
    }

    /// Bundle a name with a continuation factory.
    pub fn new(name: Vec<u8>, func: F) -> (r: Runnable<F>)
        ensures
            r.name_view() == name@,
            r.func_spec() == func,
    {
        Runnable { name, func }
    }

    /// The command name.
    pub fn get_name(&self) -> (r: Vec<u8>)
        ensures
            r@ == self.name_view(),
    {
        clone_bytes(&self.name)
    }

    /// Build a fresh continuation for these arguments.
    pub fn run<C>(&self, args: &Vec<Vec<u8>>) -> (r: C) where F: Fn(&Vec<Vec<u8>>) -> C
        requires
            self.func_spec().requires((args,)),
        ensures
            self.func_spec().ensures((args,), r),
    {
        (self.func)(args)
    }
}

impl<C: Continuation<H>, H: SignalHandler> Executor<C, H> {
    /// Append a new task built by a runnable for these arguments, under the
    /// runnable's name.
    pub fn spawn_runnable<F: Fn(&Vec<Vec<u8>>) -> C>(
        &mut self,
        runner: &Runnable<F>,
        args: &Vec<Vec<u8>>,
    ) -> (id: TaskId)
        requires
            queue_wf(old(self).tasks()),
            old(self).tasks().len() < 65535,
            runner.func_spec().requires((args,)),
        ensures
            queue_wf(final(self).tasks()),
            !id_in(old(self).tasks(), id),
            final(self).tasks().len() == old(self).tasks().len() + 1,
            final(self).tasks() == old(self).tasks().push(final(self).tasks().last()),
            final(self).tasks().last().id == id,
            final(self).tasks().last().cmd@ == runner.name_view(),
            final(self).tasks().last().fresh(),
            runner.func_spec().ensures((args,), final(self).tasks().last().cont),
            final(self).current() == old(self).current(),
    {
        let cont = runner.run(args);
        let name = runner.get_name();
        self.spawn(name, cont)
    }
}

} // verus!
