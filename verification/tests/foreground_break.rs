//! The break-to-foreground scenario: the console waits on a long-running
//! foreground command; a break (Ctrl-C) arriving on the tty side delivers
//! SIGTERM to the child, and the waiting console observes `Exited(-1)`.

use simple_os::builtin_cmds::PrefTask;
use simple_os::executor::{
    Continuation, Executor, ExitStatus, Reply, Signal, SignalAction, SignalHandler, Step,
    SyscallTag, TaskId,
};

struct PlainHandler;

impl SignalHandler for PlainHandler {
    fn on_signal(&self, _signal: Signal) -> SignalAction {
        SignalAction::Ignore
    }
}

/// The pieces of the scenario: the console spawns the command and its break
/// watcher, then waits; the watcher forwards the break as SIGTERM after a
/// while; the command itself counts scheduler laps forever.
enum ShellTask {
    Console { stage: u8, child: TaskId },
    BreakWatcher { target: TaskId, laps_until_break: u32 },
    Pref(PrefTask),
}

impl Continuation<PlainHandler> for ShellTask {
    fn poll(&mut self, now_ms: u32, reply: Reply) -> Step<Self, PlainHandler> {
        match self {
            ShellTask::Console { stage, child } => match *stage {
                0 => {
                    *stage = 1;
                    Step::Spawn(b"pref".to_vec(), ShellTask::Pref(PrefTask::new()))
                }
                1 => {
                    if let Reply::Spawned(id) = reply {
                        *child = id;
                        *stage = 2;
                        Step::Spawn(
                            b"tty".to_vec(),
                            ShellTask::BreakWatcher { target: id, laps_until_break: 50 },
                        )
                    } else {
                        Step::Yield
                    }
                }
                2 => {
                    *stage = 3;
                    Step::Wait(*child)
                }
                _ => match reply {
                    Reply::WaitResult(ExitStatus::Exited(code)) => Step::Done(code),
                    Reply::WaitResult(_) => Step::Done(-100),
                    _ => Step::Yield,
                },
            },
            ShellTask::BreakWatcher { target, laps_until_break } => {
                if *laps_until_break > 1 {
                    *laps_until_break -= 1;
                    Step::Yield
                } else if *laps_until_break == 1 {
                    *laps_until_break = 0;
                    Step::Kill(*target)
                } else {
                    Step::Done(0)
                }
            }
            ShellTask::Pref(pref) => {
                pref.step(now_ms);
                Step::Yield
            }
        }
    }
}

#[test]
fn break_kills_the_foreground_child() {
    let mut ex: Executor<ShellTask, PlainHandler> = Executor::new();
    let console = ex.spawn(b"console".to_vec(), ShellTask::Console { stage: 0, child: 0 });
    let mut console_code = None;
    let mut killer_found_target = None;
    let mut steps = 0u32;
    while ex.has_tasks() && steps < 10_000 {
        // Each dispatch advances the fake clock by ten milliseconds, so the
        // command runs a while before the break arrives.
        let (ev, _) = ex.dispatch_front(steps * 10);
        match ev.polled {
            Some(SyscallTag::Done(code)) if ev.id == console => {
                console_code = Some(code);
            }
            Some(SyscallTag::Killed(_, ok)) => {
                killer_found_target = Some(ok);
            }
            _ => {}
        }
        steps += 1;
    }
    // The break found its target, the child terminated under the default
    // policy with -1, and the waiting console observed exactly that.
    assert_eq!(killer_found_target, Some(true));
    assert_eq!(console_code, Some(-1));
}

#[test]
fn watcher_task_ends_after_its_kill() {
    // After the break is delivered, every task unwinds: the child dies with
    // SIGTERM, the console completes with the observed code, and the watcher
    // ends with its kill; the queue drains.
    let mut ex: Executor<ShellTask, PlainHandler> = Executor::new();
    ex.spawn(b"console".to_vec(), ShellTask::Console { stage: 0, child: 0 });
    let mut steps = 0u32;
    while ex.has_tasks() && steps < 10_000 {
        let (_, _) = ex.dispatch_front(steps);
        steps += 1;
    }
    assert_eq!(ex.task_count(), 0);
}

#[test]
fn pref_reports_once_a_second() {
    let mut pref = PrefTask::new();
    // Sixty laps within the first second: counting, no report.
    for lap in 0..60u32 {
        pref.step(lap * 10);
    }
    assert!(pref.take_output().is_empty());
    // The next lap crosses the 1000 ms window: one report with the count.
    pref.step(1000);
    assert_eq!(pref.take_output(), b"poll freq: 61 times/sec\r\n".to_vec());
    // Taking the output leaves the buffer empty and counting goes on.
    pref.step(1001);
    assert!(pref.take_output().is_empty());
}
