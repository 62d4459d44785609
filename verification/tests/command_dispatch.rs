//! Command dispatch: the parser chain, the built-in command set, and the
//! console-to-command scenarios.

use simple_os::builtin_cmds::{BuiltinCmds, BuiltinVerb};
use simple_os::cmd::{
    command_invocations, foreground_action, is_help, CmdParser, ForegroundAction, ParserChain,
    NOT_FOUND,
};
use simple_os::console::{Console, ConsoleEvent};
use simple_os::executor::{Continuation, Executor, Reply, Signal, SignalAction, SignalHandler, Step};

struct NoHandler;

impl SignalHandler for NoHandler {
    fn on_signal(&self, _signal: Signal) -> SignalAction {
        SignalAction::Ignore
    }
}

enum IdleTask {
    Forever,
}

impl Continuation<NoHandler> for IdleTask {
    fn poll(&mut self, _now_ms: u32, _reply: Reply) -> Step<Self, NoHandler> {
        match self {
            IdleTask::Forever => Step::Yield,
        }
    }
}

#[test]
fn builtin_verbs_are_recognized() {
    let b = BuiltinCmds::new();
    assert_eq!(b.parse_verb(&b"reset".to_vec()), BuiltinVerb::Reset);
    assert_eq!(b.parse_verb(&b"ps".to_vec()), BuiltinVerb::Ps);
    assert_eq!(b.parse_verb(&b"kill".to_vec()), BuiltinVerb::Kill);
    assert_eq!(b.parse_verb(&b"free".to_vec()), BuiltinVerb::Free);
    assert_eq!(b.parse_verb(&b"pref".to_vec()), BuiltinVerb::Pref);
    assert_eq!(b.parse_verb(&b"panic".to_vec()), BuiltinVerb::Panic);
    assert_eq!(b.parse_verb(&b"psx".to_vec()), BuiltinVerb::Unknown);
    assert_eq!(b.parse_verb(&b"".to_vec()), BuiltinVerb::Unknown);
}

#[test]
fn kill_command_validates_its_argument() {
    let b = BuiltinCmds::new();
    let mut out = Vec::new();
    let (code, target) = b.cmd_kill(&vec![b"kill".to_vec()], &mut out);
    assert_eq!((code, target), (2, None));
    assert_eq!(out, b"Usage: kill <task_id>\r\n".to_vec());

    out.clear();
    let (code, target) = b.cmd_kill(&vec![b"kill".to_vec(), b"7".to_vec()], &mut out);
    assert_eq!((code, target), (0, Some(7)));
    assert_eq!(out, b"Killed task with ID 7\r\n".to_vec());

    out.clear();
    let (code, target) = b.cmd_kill(&vec![b"kill".to_vec(), b"7x".to_vec()], &mut out);
    assert_eq!((code, target), (1, None));
    assert_eq!(out, b"Invalid task ID: 7x\r\n".to_vec());
}

#[test]
fn ps_renders_the_task_list() {
    let b = BuiltinCmds::new();
    let mut out = Vec::new();
    let tasks = vec![(0u16, b"console".to_vec()), (3u16, b"ps".to_vec())];
    let code = b.cmd_ps(&tasks, &mut out);
    assert_eq!(code, 0);
    assert_eq!(out, b"id\ttask\r\n0\tconsole\r\n3\tps\r\n".to_vec());
}

#[test]
fn reset_and_panic_report_their_part() {
    let b = BuiltinCmds::new();
    assert_eq!(b.cmd_reset(&vec![b"reset".to_vec()]), 0);
    assert_eq!(b.cmd_panic(&vec![b"panic".to_vec()]), b"MANUAL PANIC".to_vec());
}

#[test]
fn help_rows_cover_every_verb() {
    let b = BuiltinCmds::new();
    let rows = b.help();
    assert_eq!(rows.len(), 7);
    assert_eq!(rows[0].0, b"help|?".to_vec());
    assert_eq!(rows[0].1, b"Show this help message".to_vec());
    assert_eq!(rows[1].0, b"reset".to_vec());
    assert_eq!(rows[2].0, b"ps".to_vec());
    assert_eq!(rows[3].0, b"kill".to_vec());
    assert_eq!(rows[4].0, b"free".to_vec());
    assert_eq!(rows[5].0, b"pref".to_vec());
    assert_eq!(rows[6].0, b"panic".to_vec());
}

#[test]
fn foreground_rule() {
    assert_eq!(foreground_action(false, false), ForegroundAction::Finished);
    assert_eq!(foreground_action(false, true), ForegroundAction::Finished);
    assert_eq!(foreground_action(true, true), ForegroundAction::KillChild);
    assert_eq!(foreground_action(true, false), ForegroundAction::KeepWaiting);
}

/// A parser owning exactly one verb, answering a fixed code.
struct OneVerb {
    verb: Vec<u8>,
    code: i8,
    syntax: Vec<u8>,
    blurb: Vec<u8>,
}

impl CmdParser for OneVerb {
    fn help(&self) -> Vec<(Vec<u8>, Vec<u8>)> {
        vec![(self.syntax.clone(), self.blurb.clone())]
    }

    fn parse(&mut self, args: &Vec<Vec<u8>>) -> i8 {
        if !args.is_empty() && args[0] == self.verb {
            self.code
        } else {
            NOT_FOUND
        }
    }
}

#[test]
fn first_recognizing_parser_wins() {
    let mut chain: ParserChain<OneVerb> = ParserChain::new();
    chain.add_commands(OneVerb {
        verb: b"hello".to_vec(),
        code: 0,
        syntax: b"hello".to_vec(),
        blurb: b"Greets".to_vec(),
    });
    chain.add_commands(OneVerb {
        verb: b"hello".to_vec(),
        code: 3,
        syntax: b"hello".to_vec(),
        blurb: b"Shadowed".to_vec(),
    });
    chain.add_commands(OneVerb {
        verb: b"bye".to_vec(),
        code: 1,
        syntax: b"bye".to_vec(),
        blurb: b"Parts".to_vec(),
    });
    let mut out = Vec::new();
    let (code, winner) = chain.resolve(&vec![b"hello".to_vec()], &mut out);
    assert_eq!((code, winner), (0, Some(0)));
    assert!(out.is_empty());
    let (code, winner) = chain.resolve(&vec![b"bye".to_vec()], &mut out);
    assert_eq!((code, winner), (1, Some(2)));
    let (code, winner) = chain.resolve(&vec![b"nope".to_vec(), b"x".to_vec()], &mut out);
    assert_eq!((code, winner), (NOT_FOUND, None));
    assert_eq!(out, b"Unknown command: nope x\r\n".to_vec());
}

#[test]
fn help_listing_concatenates_rows_in_order() {
    let mut chain: ParserChain<OneVerb> = ParserChain::new();
    chain.add_commands(OneVerb {
        verb: b"a".to_vec(),
        code: 0,
        syntax: b"a".to_vec(),
        blurb: b"First".to_vec(),
    });
    chain.add_commands(OneVerb {
        verb: b"b".to_vec(),
        code: 0,
        syntax: b"b <x>".to_vec(),
        blurb: b"Second".to_vec(),
    });
    let mut out = Vec::new();
    chain.help_listing(&mut out);
    assert_eq!(out, b"  a - First\r\n  b <x> - Second\r\n".to_vec());
}

#[test]
fn console_dispatch_runs_ps() {
    // Feed `p s \r` with only the built-in parser registered: the prompt is
    // shown, the line commits on `\r`, `ps` resolves to the task listing, and
    // the prompt returns.
    let mut console = Console::new();
    let mut ex: Executor<IdleTask, NoHandler> = Executor::new();
    ex.spawn(b"console".to_vec(), IdleTask::Forever);
    let builtin = BuiltinCmds::new();
    let mut out = Vec::new();
    console.show_prompt(&mut out);
    assert!(out.starts_with(b"> "));

    let mut committed = None;
    for &byte in b"ps\r" {
        if let ConsoleEvent::Committed(line) = console.handle_byte(byte, &mut out) {
            committed = Some(line);
        }
    }
    let line = committed.expect("the carriage return commits");
    let invocations = command_invocations(&line);
    assert_eq!(invocations, vec![vec![b"ps".to_vec()]]);
    for args in invocations.iter() {
        assert!(!is_help(&args[0]));
        assert_eq!(builtin.parse_verb(&args[0]), BuiltinVerb::Ps);
        let code = builtin.cmd_ps(&ex.task_list(), &mut out);
        assert_eq!(code, 0);
    }
    console.show_prompt(&mut out);
    let text = out.clone();
    // Echo, task listing, and the prompt again.
    let expected_tail = b"id\ttask\r\n0\tconsole\r\n> ";
    assert!(text.ends_with(expected_tail));
}

#[test]
fn chained_commands_run_in_order() {
    // Feed `help ; ps \r`: help output first, task listing second.
    let mut console = Console::new();
    let mut ex: Executor<IdleTask, NoHandler> = Executor::new();
    ex.spawn(b"console".to_vec(), IdleTask::Forever);
    let builtin = BuiltinCmds::new();
    let mut chain: ParserChain<OneVerb> = ParserChain::new();
    chain.add_commands(OneVerb {
        verb: b"unused".to_vec(),
        code: 0,
        syntax: b"help|?".to_vec(),
        blurb: b"Show this help message".to_vec(),
    });
    let mut out = Vec::new();
    let mut committed = None;
    for &byte in b"help ; ps\r" {
        if let ConsoleEvent::Committed(line) = console.handle_byte(byte, &mut out) {
            committed = Some(line);
        }
    }
    let invocations = command_invocations(&committed.unwrap());
    assert_eq!(invocations.len(), 2);
    out.clear();
    for args in invocations.iter() {
        if is_help(&args[0]) {
            chain.help_listing(&mut out);
        } else {
            let code = builtin.cmd_ps(&ex.task_list(), &mut out);
            assert_eq!(code, 0);
        }
    }
    let help_at = out
        .windows(6)
        .position(|w| w == b"help|?")
        .expect("help output present");
    let ps_at = out
        .windows(7)
        .position(|w| w == b"id\ttask")
        .expect("task listing present");
    assert!(help_at < ps_at);
}

#[test]
fn free_report_renders_the_total() {
    let b = BuiltinCmds::new();
    let mut out = Vec::new();
    assert_eq!(b.free_report(4096, &mut out), 0);
    assert_eq!(out, b"Free memory: 4096 bytes\r\n".to_vec());
}
