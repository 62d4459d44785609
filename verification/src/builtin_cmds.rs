//! The built-in command set: `reset`, `ps`, `kill <id>`, `free`, `pref` and
//! `panic`. Everything that can be decided from plain values is here, exact
//! and verified: verb recognition, argument validation, exit codes and the
//! text printed. The actions that touch the machine — resetting the CPU,
//! probing the heap, delivering the kill — are requested from the caller,
//! which holds the executor and the board.

use vstd::prelude::*;

use crate::bytes::{append_bytes, append_dec_u32, bytes_eq, dec_repr, parse_u16};
use crate::executor::{Continuation, ExitCode, Reply, Step, TaskId};

verus! {

/// The verbs the built-in command set owns.
#[derive(Clone, Copy, Debug, PartialEq, Eq, Structural)]
pub enum BuiltinVerb {
    /// `reset`: invoke the CPU reset hook.
    Reset,
    /// `ps`: print the task list.
    Ps,
    /// `kill <id>`: send SIGTERM to a task.
    Kill,
    /// `free`: probe the heap and print what is free.
    Free,
    /// `pref`: report how often the scheduler polls per second.
    Pref,
    /// `panic`: invoke the CPU panic hook.
    Panic,
    /// Anything else: not a built-in command.
    Unknown,
}

/// The verb a token names.
pub open spec fn verb_of(tok: Seq<u8>) -> BuiltinVerb {
    if tok == seq![114u8, 101u8, 115u8, 101u8, 116u8] {
        BuiltinVerb::Reset
    } else if tok == seq![112u8, 115u8] {
        BuiltinVerb::Ps
    } else if tok == seq![107u8, 105u8, 108u8, 108u8] {
        BuiltinVerb::Kill
    } else if tok == seq![102u8, 114u8, 101u8, 101u8] {
        BuiltinVerb::Free
    } else if tok == seq![112u8, 114u8, 101u8, 102u8] {
        BuiltinVerb::Pref
    } else if tok == seq![112u8, 97u8, 110u8, 105u8, 99u8] {
        BuiltinVerb::Panic
    } else {
        BuiltinVerb::Unknown
    }
}

/// One `id TAB name CRLF` row per task, front of the queue first.
pub open spec fn ps_rows(ts: Seq<(TaskId, Seq<u8>)>) -> Seq<u8>
    decreases ts.len(),
{
    if ts.len() == 0 {
        Seq::<u8>::empty()
    } else {
        dec_repr(ts[0].0 as int) + seq![9u8] + ts[0].1 + seq![13u8, 10u8] + ps_rows(ts.skip(1))
    }
}

/// The header of the task listing: `id TAB task CRLF`.
pub open spec fn ps_header() -> Seq<u8> {
    seq![105u8, 100u8, 9u8, 116u8, 97u8, 115u8, 107u8, 13u8, 10u8]
}


/// The usage line of `kill`.
pub open spec fn kill_usage_line() -> Seq<u8> {
    seq![85u8, 115u8, 97u8, 103u8, 101u8, 58u8, 32u8, 107u8, 105u8, 108u8, 108u8, 32u8, 60u8, 116u8, 97u8, 115u8, 107u8, 95u8, 105u8, 100u8, 62u8, 13u8, 10u8]
}

/// The notice printed when a kill is dispatched to an id.
pub open spec fn kill_notice_line(id: int) -> Seq<u8> {
    seq![75u8, 105u8, 108u8, 108u8, 101u8, 100u8, 32u8, 116u8, 97u8, 115u8, 107u8, 32u8, 119u8, 105u8, 116u8, 104u8, 32u8, 73u8, 68u8, 32u8] + dec_repr(id) + seq![13u8, 10u8]
}

/// The complaint printed for a malformed task id.
pub open spec fn kill_invalid_line(arg: Seq<u8>) -> Seq<u8> {
    seq![73u8, 110u8, 118u8, 97u8, 108u8, 105u8, 100u8, 32u8, 116u8, 97u8, 115u8, 107u8, 32u8, 73u8, 68u8, 58u8, 32u8] + arg + seq![13u8, 10u8]
}

/// The built-in command set.
pub struct BuiltinCmds {}

impl BuiltinCmds {
    /// The built-in command set carries no state.
    pub fn new() -> (r: BuiltinCmds) {
        BuiltinCmds {}
    }

    /// Recognize the verb of a command's first token.
    pub fn parse_verb(&self, tok: &Vec<u8>) -> (r: BuiltinVerb)
        ensures
            r == verb_of(tok@),
    {
        let reset: Vec<u8> = vec![114u8, 101u8, 115u8, 101u8, 116u8];
        let ps: Vec<u8> = vec![112u8, 115u8];
        let kill: Vec<u8> = vec![107u8, 105u8, 108u8, 108u8];
        let free: Vec<u8> = vec![102u8, 114u8, 101u8, 101u8];
        let pref: Vec<u8> = vec![112u8, 114u8, 101u8, 102u8];
        let panic_verb: Vec<u8> = vec![112u8, 97u8, 110u8, 105u8, 99u8];
        if bytes_eq(tok, &reset) {
            BuiltinVerb::Reset
        } else if bytes_eq(tok, &ps) {
            BuiltinVerb::Ps
        } else if bytes_eq(tok, &kill) {
            BuiltinVerb::Kill
        } else if bytes_eq(tok, &free) {
            BuiltinVerb::Free
        } else if bytes_eq(tok, &pref) {
            BuiltinVerb::Pref
        } else if bytes_eq(tok, &panic_verb) {
            BuiltinVerb::Panic
        } else {
            BuiltinVerb::Unknown
        }
    }

    /// `reset` always reports success; the caller invokes the CPU reset hook,
    /// which does not return.
    pub fn cmd_reset(&self, _args: &Vec<Vec<u8>>) -> (r: ExitCode)
        ensures
            r == 0,
    {
        0
    }

    /// `ps`: render the task listing — a header and one `id TAB name` row per
    /// task — and report success. The caller supplies the executor's task
    /// list.
    pub fn cmd_ps(&self, task_list: &Vec<(TaskId, Vec<u8>)>, out: &mut Vec<u8>) -> (r: ExitCode)
        ensures
            r == 0,
            final(out)@ == old(out)@ + ps_header() + ps_rows(
                task_list@.map_values(|p: (TaskId, Vec<u8>)| (p.0, p.1@)),
            ),
    {
        let ghost ts = task_list@.map_values(|p: (TaskId, Vec<u8>)| (p.0, p.1@));
        out.push(105);
        out.push(100);
        out.push(9);
        out.push(116);
        out.push(97);
        out.push(115);
        out.push(107);
        out.push(13);
        out.push(10);
        proof {
            assert(out@ =~= old(out)@ + ps_header());
        }
        let mut i: usize = 0;
        proof {
            assert(ts.skip(0) =~= ts);
            assert(out@ + ps_rows(ts) =~= old(out)@ + ps_header() + ps_rows(ts));
        }
        let ghost base = out@;
        while i < task_list.len()
            invariant
                i <= task_list@.len(),
                ts == task_list@.map_values(|p: (TaskId, Vec<u8>)| (p.0, p.1@)),
                base + ps_rows(ts) == old(out)@ + ps_header() + ps_rows(ts),
                out@ + ps_rows(ts.skip(i as int)) == base + ps_rows(ts),
            decreases task_list@.len() - i,
        {
            let ghost opre = out@;
            append_dec_u32(out, task_list[i].0 as u32);
            out.push(9);
            append_bytes(out, &task_list[i].1);
            out.push(13);
            out.push(10);
            proof {
                assert(ts.skip(i as int)[0] == ts[i as int]);
                assert(ts.skip(i as int).skip(1) =~= ts.skip(i + 1));
                assert(out@ =~= opre + dec_repr(ts[i as int].0 as int) + seq![9u8] + ts[i as int].1
                    + seq![13u8, 10u8]);
                assert(out@ + ps_rows(ts.skip(i + 1)) =~= opre + ps_rows(ts.skip(i as int)));
            }
            i += 1;
        }
        proof {
            assert(ps_rows(ts.skip(i as int)) =~= Seq::<u8>::empty());
            assert(out@ =~= out@ + ps_rows(ts.skip(i as int)));
            assert(out@ =~= old(out)@ + ps_header() + ps_rows(ts));
        }
        0
    }

    /// `kill <id>`: validate the argument. With no argument, print the usage
    /// line and report a usage error; with a malformed id, print the
    /// complaint and report an argument error; otherwise print the kill
    /// notice and hand the id back for the caller to SIGTERM.
    pub fn cmd_kill(&self, args: &Vec<Vec<u8>>, out: &mut Vec<u8>) -> (r: (ExitCode, Option<
        TaskId,
    >))
        ensures
            args@.len() < 2 ==> r.0 == 2 && r.1 is None && final(out)@ == old(out)@
                + kill_usage_line(),
            args@.len() >= 2 ==> match r.1 {
                Some(id) => r.0 == 0 && args@[1]@.len() > 0 && id == crate::bytes::dec_value(
                    args@[1]@,
                ) && final(out)@ == old(out)@ + kill_notice_line(id as int),
                None => r.0 == 1 && final(out)@ == old(out)@ + kill_invalid_line(args@[1]@),
            },
    {
        if args.len() < 2 {
            // "Usage: kill <task_id>"
            let msg: Vec<u8> = vec![
                85u8, 115u8, 97u8, 103u8, 101u8, 58u8, 32u8, 107u8, 105u8, 108u8, 108u8, 32u8,
                60u8, 116u8, 97u8, 115u8, 107u8, 95u8, 105u8, 100u8, 62u8, 13u8, 10u8,
            ];
            append_bytes(out, &msg);
            proof {
                assert(out@ =~= old(out)@ + kill_usage_line());
            }
            return (2, None);
        }
        let parsed = parse_u16(&args[1]);
        match parsed {
            Some(id) => {
                // "Killed task with ID <id>"
                let msg: Vec<u8> = vec![
                    75u8, 105u8, 108u8, 108u8, 101u8, 100u8, 32u8, 116u8, 97u8, 115u8, 107u8,
                    32u8, 119u8, 105u8, 116u8, 104u8, 32u8, 73u8, 68u8, 32u8,
                ];
                append_bytes(out, &msg);
                append_dec_u32(out, id as u32);
                out.push(13);
                out.push(10);
                proof {
                    assert(out@ =~= old(out)@ + kill_notice_line(id as int));
                }
                (0, Some(id))
            },
            None => {
                // "Invalid task ID: <arg>"
                let msg: Vec<u8> = vec![
                    73u8, 110u8, 118u8, 97u8, 108u8, 105u8, 100u8, 32u8, 116u8, 97u8, 115u8,
                    107u8, 32u8, 73u8, 68u8, 58u8, 32u8,
                ];
                append_bytes(out, &msg);
                append_bytes(out, &args[1]);
                out.push(13);
                out.push(10);
                proof {
                    assert(out@ =~= old(out)@ + kill_invalid_line(args@[1]@));
                }
                (1, None)
            },
        }
    }

    /// `panic`: the message handed to the CPU panic hook, which the caller
    /// invokes and which does not return.
    pub fn cmd_panic(&self, _args: &Vec<Vec<u8>>) -> (r: Vec<u8>)
        ensures
            r@ == seq![77u8, 65u8, 78u8, 85u8, 65u8, 76u8, 32u8, 80u8, 65u8, 78u8, 73u8, 67u8],
    {
        // "MANUAL PANIC"
        let msg: Vec<u8> = vec![
            77u8, 65u8, 78u8, 85u8, 65u8, 76u8, 32u8, 80u8, 65u8, 78u8, 73u8, 67u8,
        ];
        msg
    }

    /// The built-in help rows: one (syntax, description) pair per verb,
    /// `help|?` included.
    pub fn help(&self) -> (r: Vec<(Vec<u8>, Vec<u8>)>)
        ensures
            r@.len() == 7,
            r@[0].0@ == seq![104u8, 101u8, 108u8, 112u8, 124u8, 63u8],
            r@[1].0@ == seq![114u8, 101u8, 115u8, 101u8, 116u8],
            r@[2].0@ == seq![112u8, 115u8],
            r@[3].0@ == seq![107u8, 105u8, 108u8, 108u8],
            r@[4].0@ == seq![102u8, 114u8, 101u8, 101u8],
            r@[5].0@ == seq![112u8, 114u8, 101u8, 102u8],
            r@[6].0@ == seq![112u8, 97u8, 110u8, 105u8, 99u8],
    {
        let mut r: Vec<(Vec<u8>, Vec<u8>)> = Vec::new();
        // "help|?" - "Show this help message"
        r.push(
            (
                vec![104u8, 101u8, 108u8, 112u8, 124u8, 63u8],
                vec![
                    83u8, 104u8, 111u8, 119u8, 32u8, 116u8, 104u8, 105u8, 115u8, 32u8, 104u8,
                    101u8, 108u8, 112u8, 32u8, 109u8, 101u8, 115u8, 115u8, 97u8, 103u8, 101u8,
                ],
            ),
        );
        // "reset" - "Perform a system reset"
        r.push(
            (
                vec![114u8, 101u8, 115u8, 101u8, 116u8],
                vec![
                    80u8, 101u8, 114u8, 102u8, 111u8, 114u8, 109u8, 32u8, 97u8, 32u8, 115u8,
                    121u8, 115u8, 116u8, 101u8, 109u8, 32u8, 114u8, 101u8, 115u8, 101u8, 116u8,
                ],
            ),
        );
        // "ps" - "Show running tasks"
        r.push(
            (
                vec![112u8, 115u8],
                vec![
                    83u8, 104u8, 111u8, 119u8, 32u8, 114u8, 117u8, 110u8, 110u8, 105u8, 110u8,
                    103u8, 32u8, 116u8, 97u8, 115u8, 107u8, 115u8,
                ],
            ),
        );
        // "kill" - "Terminate a task"
        r.push(
            (
                vec![107u8, 105u8, 108u8, 108u8],
                vec![
                    84u8, 101u8, 114u8, 109u8, 105u8, 110u8, 97u8, 116u8, 101u8, 32u8, 97u8,
                    32u8, 116u8, 97u8, 115u8, 107u8,
                ],
            ),
        );
        // "free" - "Show free memory"
        r.push(
            (
                vec![102u8, 114u8, 101u8, 101u8],
                vec![
                    83u8, 104u8, 111u8, 119u8, 32u8, 102u8, 114u8, 101u8, 101u8, 32u8, 109u8,
                    101u8, 109u8, 111u8, 114u8, 121u8,
                ],
            ),
        );
        // "pref" - "Show task polling frequency"
        r.push(
            (
                vec![112u8, 114u8, 101u8, 102u8],
                vec![
                    83u8, 104u8, 111u8, 119u8, 32u8, 116u8, 97u8, 115u8, 107u8, 32u8, 112u8,
                    111u8, 108u8, 108u8, 105u8, 110u8, 103u8, 32u8, 102u8, 114u8, 101u8, 113u8,
                    117u8, 101u8, 110u8, 99u8, 121u8,
                ],
            ),
        );
        // "panic" - "Trigger a panic"
        r.push(
            (
                vec![112u8, 97u8, 110u8, 105u8, 99u8],
                vec![
                    84u8, 114u8, 105u8, 103u8, 103u8, 101u8, 114u8, 32u8, 97u8, 32u8, 112u8,
                    97u8, 110u8, 105u8, 99u8,
                ],
            ),
        );
        r
    }
}


/// The report line of `free`: `Free memory: N bytes`.
pub open spec fn free_report_line(total: int) -> Seq<u8> {
    seq![70u8, 114u8, 101u8, 101u8, 32u8, 109u8, 101u8, 109u8, 111u8, 114u8, 121u8, 58u8, 32u8] + dec_repr(total) + seq![32u8, 98u8, 121u8, 116u8, 101u8, 115u8, 13u8, 10u8]
}

impl BuiltinCmds {
    /// Render the `free` command's report for a probed total. The probing
    /// itself works on the raw allocator and stays with the board glue; the
    /// text is fixed here.
    pub fn free_report(&self, total: u32, out: &mut Vec<u8>) -> (r: ExitCode)
        ensures
            r == 0,
            final(out)@ == old(out)@ + free_report_line(total as int),
    {
        // "Free memory: "
        let prefix: Vec<u8> = vec![70u8, 114u8, 101u8, 101u8, 32u8, 109u8, 101u8, 109u8, 111u8, 114u8, 121u8, 58u8, 32u8];
        append_bytes(out, &prefix);
        append_dec_u32(out, total);
        // " bytes"
        let suffix: Vec<u8> = vec![32u8, 98u8, 121u8, 116u8, 101u8, 115u8, 13u8, 10u8];
        append_bytes(out, &suffix);
        proof {
            assert(out@ =~= old(out)@ + free_report_line(total as int));
        }
        0
    }
}

/// The `pref` command's body as a task: each poll counts one scheduler lap,
/// and once a second the lap count is reported and reset. It runs until it is
/// killed.
pub struct PrefTask {
    started: bool,
    count: u32,
    last_ms: u32,
    out: Vec<u8>,
}

/// One report line: `poll freq: N times/sec`.
pub open spec fn pref_report(n: int) -> Seq<u8> {
    seq![112u8, 111u8, 108u8, 108u8, 32u8, 102u8, 114u8, 101u8, 113u8, 58u8, 32u8] + dec_repr(n) + seq![32u8, 116u8, 105u8, 109u8, 101u8, 115u8, 47u8, 115u8, 101u8, 99u8, 13u8, 10u8]
}

impl PrefTask {
    /// Whether the first poll has set the report window's start.
    pub closed spec fn is_started(&self) -> bool {
        self.started
    }

    /// Polls counted since the last report.
    pub closed spec fn count_spec(&self) -> u32 {
        self.count
    }

    /// When the current report window began.
    pub closed spec fn last_ms_spec(&self) -> u32 {
        self.last_ms
    }

    /// Report lines produced and not yet taken.
    pub closed spec fn out_view(&self) -> Seq<u8> {
        self.out@
    }

    /// A fresh counter task: nothing counted, nothing reported.
    pub fn new() -> (r: PrefTask)
        ensures
            !r.is_started(),
            r.count_spec() == 0,
            r.out_view() == Seq::<u8>::empty(),
    {
        PrefTask { started: false, count: 0, last_ms: 0, out: Vec::new() }
    }

    /// Hand over the report lines produced so far; the buffer ends empty and
    /// the counting state is untouched.
    pub fn take_output(&mut self) -> (r: Vec<u8>)
        ensures
            r@ == old(self).out_view(),
            final(self).out_view() == Seq::<u8>::empty(),
            final(self).is_started() == old(self).is_started(),
            final(self).count_spec() == old(self).count_spec(),
            final(self).last_ms_spec() == old(self).last_ms_spec(),
    {
        let mut taken: Vec<u8> = Vec::new();
        core::mem::swap(&mut taken, &mut self.out);
        taken
    }

    /// Count one poll. The first poll opens the report window at `now_ms`;
    /// once 1000 ms (wrap-aware) have elapsed since the window began, a
    /// `poll freq: N times/sec` line is appended with the count taken, and
    /// the window starts over.
    pub fn step(&mut self, now_ms: u32)
        ensures
            final(self).is_started(),
            ({
                let window = if old(self).is_started() {
                    old(self).last_ms_spec()
                } else {
                    now_ms
                };
                let counted: int = if old(self).is_started() {
                    old(self).count_spec() as int
                } else {
                    0
                };
                let bumped: int = if counted == u32::MAX {
                    0
                } else {
                    counted + 1
                };
                if crate::sys::elapsed_ms(window, now_ms) >= 1000 {
                    &&& final(self).count_spec() == 0
                    &&& final(self).last_ms_spec() == now_ms
                    &&& final(self).out_view() == old(self).out_view() + pref_report(bumped)
                } else {
                    &&& final(self).count_spec() as int == bumped
                    &&& final(self).last_ms_spec() == window
                    &&& final(self).out_view() == old(self).out_view()
                }
            }),
    {
        if !self.started {
            self.started = true;
            self.last_ms = now_ms;
            self.count = 0;
        }
        self.count = self.count.wrapping_add(1);
        if now_ms.wrapping_sub(self.last_ms) >= 1000 {
            // "poll freq: "
            let msg: Vec<u8> = vec![
                112u8, 111u8, 108u8, 108u8, 32u8, 102u8, 114u8, 101u8, 113u8, 58u8, 32u8,
            ];
            append_bytes(&mut self.out, &msg);
            let n = self.count;
            append_dec_u32(&mut self.out, n);
            // " times/sec"
            let unit: Vec<u8> = vec![
                32u8, 116u8, 105u8, 109u8, 101u8, 115u8, 47u8, 115u8, 101u8, 99u8, 13u8, 10u8,
            ];
            append_bytes(&mut self.out, &unit);
            proof {
                assert(self.out@ =~= old(self).out@ + pref_report(n as int));
            }
            self.count = 0;
            self.last_ms = now_ms;
        }
    }
}

impl<H> Continuation<H> for PrefTask {
    /// The task never completes on its own: it yields forever until a signal
    /// terminates it.
    fn poll(&mut self, now_ms: u32, _reply: Reply) -> Step<Self, H> {
        self.step(now_ms);
        Step::Yield
    }
}

} // verus!
