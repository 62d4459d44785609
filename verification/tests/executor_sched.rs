//! The cooperative scheduler: spawn, wait, kill, signals, pause, reaping.

use simple_os::driver::{Driver, DriverError, SysTickDriver};
use simple_os::executor::{
    Continuation, DispatchEvent, ExitStatus, Executor, Reply, Signal, SignalAction,
    SignalHandler, Step, SyscallTag, TaskId,
};

/// Handler installed by tasks under test: turns every signal into an action
/// chosen at installation.
enum TestHandler {
    IgnoreAll,
}

impl SignalHandler for TestHandler {
    fn on_signal(&self, _signal: Signal) -> SignalAction {
        match self {
            TestHandler::IgnoreAll => SignalAction::Ignore,
        }
    }
}

/// Task bodies used across the scenarios.
enum TestTask {
    /// Yield this many times, then complete with the code.
    ReturnAfter { yields_left: u32, code: i8 },
    /// Yield forever.
    Forever,
    /// Wait for a task, then complete with the observed exit code
    /// (-101 for ErrorPid, -102 for NotExist, -103 for Aborted).
    Waiter { target: TaskId, asked: bool },
    /// Yield `delay` times, then wait for a task and complete with the
    /// observed exit code.
    DelayedWaiter { target: TaskId, delay: u32, asked: bool },
    /// Send a signal to a task, then complete.
    Sender { target: TaskId, signal: Signal, sent: bool },
    /// Install an ignore-everything handler, then yield forever.
    IgnoreSignalsForever { installed: bool },
    /// Ask for the task list, then complete with its length as the code.
    Lister { asked: bool },
}

fn status_code(status: ExitStatus) -> i8 {
    match status {
        ExitStatus::Exited(c) => c,
        ExitStatus::ErrorPid => -101,
        ExitStatus::NotExist => -102,
        ExitStatus::NotRunning => -104,
        ExitStatus::Aborted => -103,
    }
}

impl Continuation<TestHandler> for TestTask {
    fn poll(&mut self, _now_ms: u32, reply: Reply) -> Step<Self, TestHandler> {
        match self {
            TestTask::ReturnAfter { yields_left, code } => {
                if *yields_left == 0 {
                    Step::Done(*code)
                } else {
                    *yields_left -= 1;
                    Step::Yield
                }
            }
            TestTask::Forever => Step::Yield,
            TestTask::Waiter { target, asked } => {
                if !*asked {
                    *asked = true;
                    Step::Wait(*target)
                } else {
                    match reply {
                        Reply::WaitResult(status) => Step::Done(status_code(status)),
                        _ => Step::Yield,
                    }
                }
            }
            TestTask::DelayedWaiter { target, delay, asked } => {
                if *delay > 0 {
                    *delay -= 1;
                    Step::Yield
                } else if !*asked {
                    *asked = true;
                    Step::Wait(*target)
                } else {
                    match reply {
                        Reply::WaitResult(status) => Step::Done(status_code(status)),
                        _ => Step::Yield,
                    }
                }
            }
            TestTask::Sender { target, signal, sent } => {
                if !*sent {
                    *sent = true;
                    Step::SendSignal(*target, *signal)
                } else {
                    Step::Done(0)
                }
            }
            TestTask::IgnoreSignalsForever { installed } => {
                if !*installed {
                    *installed = true;
                    Step::RegisterHandler(TestHandler::IgnoreAll)
                } else {
                    Step::Yield
                }
            }
            TestTask::Lister { asked } => {
                if !*asked {
                    *asked = true;
                    Step::TaskList
                } else {
                    match reply {
                        Reply::Tasks(list) => Step::Done(list.len() as i8),
                        _ => Step::Yield,
                    }
                }
            }
        }
    }
}

type Ex = Executor<TestTask, TestHandler>;

/// Dispatch until the queue drains (or a step bound trips), collecting the
/// events.
fn drive(ex: &mut Ex, max_steps: usize) -> Vec<DispatchEvent> {
    let mut events = Vec::new();
    let mut steps = 0;
    while ex.has_tasks() && steps < max_steps {
        let (ev, _) = ex.dispatch_front(steps as u32);
        events.push(ev);
        steps += 1;
    }
    events
}

fn done_code_of(events: &[DispatchEvent], id: TaskId) -> Option<i8> {
    for ev in events {
        if ev.id == id {
            if let Some(SyscallTag::Done(c)) = ev.polled {
                return Some(c);
            }
        }
    }
    None
}

#[test]
fn spawn_and_wait_observes_the_exit_code() {
    let mut ex: Ex = Executor::new();
    let a = ex.spawn(b"a".to_vec(), TestTask::ReturnAfter { yields_left: 1, code: 7 });
    let b = ex.spawn(b"b".to_vec(), TestTask::Waiter { target: a, asked: false });
    let events = drive(&mut ex, 100);
    assert_eq!(done_code_of(&events, b), Some(7));
    assert!(!ex.has_tasks());
}

#[test]
fn completed_task_code_is_its_own() {
    let mut ex: Ex = Executor::new();
    let a = ex.spawn(b"a".to_vec(), TestTask::ReturnAfter { yields_left: 0, code: 42 });
    let events = drive(&mut ex, 10);
    assert_eq!(done_code_of(&events, a), Some(42));
    assert_eq!(ex.task_count(), 0);
}

#[test]
fn kill_with_default_handler_exits_minus_one() {
    // The shell's pattern: the waiter suspends on the foreground task first,
    // then the break path delivers SIGTERM.
    let mut ex: Ex = Executor::new();
    let a = ex.spawn(b"a".to_vec(), TestTask::Forever);
    let w = ex.spawn(b"w".to_vec(), TestTask::Waiter { target: a, asked: false });
    let k = ex.spawn(
        b"k".to_vec(),
        TestTask::Sender { target: a, signal: Signal::SIGTERM, sent: false },
    );
    let events = drive(&mut ex, 200);
    assert_eq!(done_code_of(&events, w), Some(-1));
    assert_eq!(done_code_of(&events, k), Some(0));
    assert!(!ex.has_tasks());
}

#[test]
fn sigkill_bypasses_an_installed_handler() {
    let mut ex: Ex = Executor::new();
    let a = ex.spawn(b"a".to_vec(), TestTask::IgnoreSignalsForever { installed: false });
    let w = ex.spawn(b"w".to_vec(), TestTask::Waiter { target: a, asked: false });
    let _k = ex.spawn(
        b"k".to_vec(),
        TestTask::Sender { target: a, signal: Signal::SIGKILL, sent: false },
    );
    let events = drive(&mut ex, 200);
    assert_eq!(done_code_of(&events, w), Some(-9));
}

#[test]
fn sigterm_is_swallowed_by_an_ignoring_handler() {
    let mut ex: Ex = Executor::new();
    let a = ex.spawn(b"a".to_vec(), TestTask::IgnoreSignalsForever { installed: false });
    let _k = ex.spawn(
        b"k".to_vec(),
        TestTask::Sender { target: a, signal: Signal::SIGTERM, sent: false },
    );
    // The target never dies, so the queue never drains.
    let _ = drive(&mut ex, 100);
    assert!(ex.is_running(a));
}

#[test]
fn sigstop_pauses_until_sigcont() {
    let mut ex: Ex = Executor::new();
    let a = ex.spawn(b"a".to_vec(), TestTask::Forever);
    assert!(ex.send_signal(a, Signal::SIGSTOP));
    // Dispatch a few laps: the signal is consumed, then no poll happens.
    let mut polls_while_paused = 0;
    for step in 0..10 {
        let (ev, _) = ex.dispatch_front(step);
        if step > 0 && ev.id == a && ev.polled.is_some() {
            polls_while_paused += 1;
        }
    }
    assert_eq!(polls_while_paused, 0);
    // SIGCONT resumes: the task is polled again.
    assert!(ex.send_signal(a, Signal::SIGCONT));
    let mut polled_after_cont = false;
    for step in 0..10 {
        let (ev, _) = ex.dispatch_front(step);
        if ev.id == a && ev.polled.is_some() {
            polled_after_cont = true;
        }
    }
    assert!(polled_after_cont);
}

#[test]
fn wait_on_own_id_is_error_pid() {
    let mut ex: Ex = Executor::new();
    let a = ex.spawn(b"a".to_vec(), TestTask::Waiter { target: 0, asked: false });
    assert_eq!(a, 0);
    let events = drive(&mut ex, 50);
    assert_eq!(done_code_of(&events, a), Some(-101));
}

#[test]
fn wait_on_unknown_id_is_not_exist() {
    let mut ex: Ex = Executor::new();
    let a = ex.spawn(b"a".to_vec(), TestTask::Waiter { target: 999, asked: false });
    let events = drive(&mut ex, 50);
    assert_eq!(done_code_of(&events, a), Some(-102));
}

#[test]
fn wait_on_already_exited_task_returns_promptly() {
    // The first waiter keeps the exited entry alive; the second registers
    // only after the exit code is set and must still observe it promptly.
    let mut ex: Ex = Executor::new();
    let a = ex.spawn(b"a".to_vec(), TestTask::ReturnAfter { yields_left: 1, code: 5 });
    let w1 = ex.spawn(b"w1".to_vec(), TestTask::Waiter { target: a, asked: false });
    let w2 = ex.spawn(
        b"w2".to_vec(),
        TestTask::DelayedWaiter { target: a, delay: 1, asked: false },
    );
    let events = drive(&mut ex, 100);
    assert_eq!(done_code_of(&events, w1), Some(5));
    assert_eq!(done_code_of(&events, w2), Some(5));
    assert!(!ex.has_tasks());
}

#[test]
fn kill_unknown_id_reports_false() {
    let mut ex: Ex = Executor::new();
    assert!(!ex.kill(7));
    let a = ex.spawn(b"a".to_vec(), TestTask::Forever);
    assert!(ex.kill(a));
}

#[test]
fn task_list_names_live_tasks_in_queue_order() {
    let mut ex: Ex = Executor::new();
    let a = ex.spawn(b"first".to_vec(), TestTask::Forever);
    let b = ex.spawn(b"second".to_vec(), TestTask::Forever);
    let list = ex.task_list();
    assert_eq!(list.len(), 2);
    assert_eq!(list[0], (a, b"first".to_vec()));
    assert_eq!(list[1], (b, b"second".to_vec()));
    assert!(ex.is_running(a));
    assert!(!ex.is_running(99));
    assert_eq!(ex.current_task_id(), None);
}

#[test]
fn ids_are_lowest_free_from_a_rolling_hint() {
    let mut ex: Ex = Executor::new();
    let a = ex.spawn(b"a".to_vec(), TestTask::Forever);
    let b = ex.spawn(b"b".to_vec(), TestTask::Forever);
    let c = ex.spawn(b"c".to_vec(), TestTask::Forever);
    assert_eq!((a, b, c), (0, 1, 2));
    // Live ids stay pairwise distinct as tasks come and go.
    assert!(ex.kill(b));
    let _ = drive(&mut ex, 6);
    let d = ex.spawn(b"d".to_vec(), TestTask::Forever);
    let list = ex.task_list();
    for i in 0..list.len() {
        for j in (i + 1)..list.len() {
            assert_ne!(list[i].0, list[j].0);
        }
    }
    assert!(list.iter().any(|t| t.0 == d));
}

#[test]
fn signal_ring_drops_oldest_droppable_when_full() {
    let mut ex: Ex = Executor::new();
    let a = ex.spawn(b"a".to_vec(), TestTask::IgnoreSignalsForever { installed: false });
    // Let the handler install itself.
    let (_, _) = ex.dispatch_front(0);
    // Fill the ring (capacity 3) with droppable signals, then send SIGKILL:
    // the oldest droppable entry makes room and SIGKILL still terminates.
    assert!(ex.send_signal(a, Signal::SIGUSR(1)));
    assert!(ex.send_signal(a, Signal::SIGUSR(2)));
    assert!(ex.send_signal(a, Signal::SIGUSR(3)));
    assert!(ex.send_signal(a, Signal::SIGKILL));
    let events = drive(&mut ex, 20);
    let mut saw_kill_exit = false;
    for ev in &events {
        if ev.id == a {
            for (sig, action) in ev.delivered.iter() {
                if *sig == Signal::SIGKILL {
                    assert_eq!(*action, SignalAction::Terminate(-9));
                    saw_kill_exit = true;
                }
            }
        }
    }
    assert!(saw_kill_exit);
    assert!(!ex.has_tasks());
}

/// A fixed-rate fake clock.
struct FakeTick {
    now: u32,
}

impl Driver for FakeTick {
    fn driver_init(&mut self) -> Result<(), DriverError> {
        Ok(())
    }
    fn driver_deinit(&mut self) -> Result<(), DriverError> {
        Ok(())
    }
}

impl SysTickDriver for FakeTick {
    fn get_system_ms(&mut self) -> u32 {
        self.now = self.now.wrapping_add(1);
        self.now
    }
    fn delay_ms(&mut self, _ms: u32) {}
}

#[test]
fn run_drains_the_queue() {
    let mut ex: Ex = Executor::new();
    ex.spawn(b"a".to_vec(), TestTask::ReturnAfter { yields_left: 3, code: 0 });
    ex.spawn(b"b".to_vec(), TestTask::ReturnAfter { yields_left: 5, code: 1 });
    let mut tick = FakeTick { now: 0 };
    let (drained, _) = ex.run(&mut tick, 1000);
    assert!(drained);
    assert_eq!(ex.task_count(), 0);
}

#[test]
fn run_stops_at_its_step_budget() {
    let mut ex: Ex = Executor::new();
    ex.spawn(b"a".to_vec(), TestTask::Forever);
    let mut tick = FakeTick { now: 0 };
    let (drained, _) = ex.run(&mut tick, 50);
    assert!(!drained);
    assert!(ex.has_tasks());
}

#[test]
fn default_policy_table() {
    assert_eq!(Ex::default_signal_handler(Signal::SIGINT), SignalAction::Terminate(-1));
    assert_eq!(Ex::default_signal_handler(Signal::SIGTERM), SignalAction::Terminate(-1));
    assert_eq!(Ex::default_signal_handler(Signal::SIGKILL), SignalAction::Terminate(-9));
    assert_eq!(Ex::default_signal_handler(Signal::SIGSTOP), SignalAction::Pause);
    assert_eq!(Ex::default_signal_handler(Signal::SIGCONT), SignalAction::Continue);
    assert_eq!(Ex::default_signal_handler(Signal::SIGUSR(3)), SignalAction::Ignore);
    assert_eq!(Ex::default_signal_handler(Signal::SIGNULL), SignalAction::Ignore);
}


#[test]
fn a_task_can_query_the_task_list() {
    let mut ex: Ex = Executor::new();
    ex.spawn(b"idle".to_vec(), TestTask::ReturnAfter { yields_left: 5, code: 0 });
    let lister = ex.spawn(b"lister".to_vec(), TestTask::Lister { asked: false });
    let events = drive(&mut ex, 100);
    // Both tasks were live when the list was taken.
    assert_eq!(done_code_of(&events, lister), Some(2));
}

#[test]
fn undroppable_signals_survive_a_full_ring() {
    let mut ex: Ex = Executor::new();
    let a = ex.spawn(b"a".to_vec(), TestTask::IgnoreSignalsForever { installed: false });
    let (_, _) = ex.dispatch_front(0);
    // Fill the ring with three SIGSTOPs, then offer a droppable signal: the
    // stops may not be discarded, so the newcomer is lost.
    assert!(ex.send_signal(a, Signal::SIGSTOP));
    assert!(ex.send_signal(a, Signal::SIGSTOP));
    assert!(ex.send_signal(a, Signal::SIGSTOP));
    assert!(ex.send_signal(a, Signal::SIGUSR(9)));
    let (ev, _) = ex.dispatch_front(1);
    assert_eq!(ev.id, a);
    assert_eq!(ev.delivered.len(), 3);
    for (sig, action) in ev.delivered.iter() {
        assert_eq!(*sig, Signal::SIGSTOP);
        assert_eq!(*action, SignalAction::Pause);
    }
}
