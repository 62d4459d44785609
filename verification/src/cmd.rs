//! Command dispatch: a committed line is split into `;`-separated commands,
//! each whitespace-tokenized; a chain of pluggable parsers resolves each
//! command in registration order, the first parser not answering the
//! "command not found" sentinel winning.

use vstd::prelude::*;

use crate::bytes::append_bytes;
use crate::executor::ExitCode;
use crate::parse::{split_spec, split_on, tokenize, tokenize_spec};

verus! {

/// The exit code a parser answers for a command it does not recognize.
pub const NOT_FOUND: i8 = 127;

/// A pluggable command parser: resolves a tokenized command to an exit code,
/// answering [`NOT_FOUND`] for commands that are not its own, and contributes
/// (syntax, description) rows to the help listing.
pub trait CmdParser {
    /// The parser's help rows.
    fn help(&self) -> Vec<(Vec<u8>, Vec<u8>)>;

    /// Run one command; the first token is the verb. Answer [`NOT_FOUND`]
    /// exactly for verbs this parser does not own.
    fn parse(&mut self, args: &Vec<Vec<u8>>) -> ExitCode;
}

/// The tokenizations of the `;`-separated pieces of a line, empty commands
/// dropped.
pub open spec fn nonempty_tokens(segs: Seq<Seq<u8>>) -> Seq<Seq<Seq<u8>>>
    decreases segs.len(),
{
    if segs.len() == 0 {
        Seq::<Seq<Seq<u8>>>::empty()
    } else {
        let t = tokenize_spec(segs[0]);
        let rest = nonempty_tokens(segs.skip(1));
        if t.len() > 0 {
            seq![t] + rest
        } else {
            rest
        }
    }
}

/// The command invocations of a committed line: split on `;`, each piece
/// tokenized on whitespace, empty invocations dropped.
pub open spec fn invocations_spec(line: Seq<u8>) -> Seq<Seq<Seq<u8>>> {
    nonempty_tokens(split_spec(line, 59))
}

/// The token lists of a byte-string list.
pub open spec fn deep_view2(v: Vec<Vec<u8>>) -> Seq<Seq<u8>> {
    v@.map_values(|x: Vec<u8>| x@)
}

/// The token lists of an invocation list.
pub open spec fn deep_view3(v: Vec<Vec<Vec<u8>>>) -> Seq<Seq<Seq<u8>>> {
    v@.map_values(|x: Vec<Vec<u8>>| deep_view2(x))
}

/// Split a committed line into its command invocations.
pub fn command_invocations(line: &Vec<u8>) -> (r: Vec<Vec<Vec<u8>>>)
    ensures
        deep_view3(r) == invocations_spec(line@),
{
    let segments = split_on(line, 59);
    let mut r: Vec<Vec<Vec<u8>>> = Vec::new();
    let mut i: usize = 0;
    let ghost segs = segments@.map_values(|x: Vec<u8>| x@);
    proof {
        assert(segs.skip(0) =~= segs);
        assert(deep_view3(r) =~= Seq::<Seq<Seq<u8>>>::empty());
    }
    while i < segments.len()
        invariant
            i <= segments@.len(),
            segs == segments@.map_values(|x: Vec<u8>| x@),
            invocations_spec(line@) == deep_view3(r) + nonempty_tokens(segs.skip(i as int)),
        decreases segments@.len() - i,
    {
        let toks = tokenize(&segments[i]);
        proof {
            assert(segs.skip(i as int)[0] == segs[i as int]);
            assert(segs.skip(i as int).skip(1) =~= segs.skip(i + 1));
        }
        if toks.len() > 0 {
            let ghost rpre = deep_view3(r);
            r.push(toks);
            proof {
                assert(deep_view3(r) =~= rpre + seq![tokenize_spec(segs[i as int])]);
            }
        }
        i += 1;
    }
    proof {
        assert(segs.skip(i as int) =~= Seq::<Seq<u8>>::empty());
        assert(deep_view3(r) + nonempty_tokens(segs.skip(i as int)) =~= deep_view3(r));
    }
    r
}

/// Whether a verb asks for the help listing: `help` or `?`.
pub fn is_help(tok: &Vec<u8>) -> (r: bool)
    ensures
        r == (tok@ == seq![104u8, 101u8, 108u8, 112u8] || tok@ == seq![63u8]),
{
    if tok.len() == 4 {
        let r = tok[0] == 104 && tok[1] == 101 && tok[2] == 108 && tok[3] == 112;
        proof {
            if r {
                assert(tok@ =~= seq![104u8, 101u8, 108u8, 112u8]);
            }
            assert(tok@.len() != 1);
        }
        r
    } else if tok.len() == 1 {
        let r = tok[0] == 63;
        proof {
            if r {
                assert(tok@ =~= seq![63u8]);
            }
            assert(tok@.len() != 4);
        }
        r
    } else {
        false
    }
}

/// What the console's foreground loop does on each lap while a child command
/// runs.
#[derive(Clone, Copy, Debug, PartialEq, Eq, Structural)]
pub enum ForegroundAction {
    /// The child has terminated: move on to the next command.
    Finished,
    /// A break (Ctrl-C) arrived: send SIGTERM to the child.
    KillChild,
    /// Nothing happened: yield and check again.
    KeepWaiting,
}

/// The foreground rule: a dead child finishes the wait; a break while the
/// child runs kills it; otherwise keep waiting.
pub fn foreground_action(child_running: bool, break_seen: bool) -> (r: ForegroundAction)
    ensures
        !child_running ==> r == ForegroundAction::Finished,
        child_running && break_seen ==> r == ForegroundAction::KillChild,
        child_running && !break_seen ==> r == ForegroundAction::KeepWaiting,
{
    if !child_running {
        ForegroundAction::Finished
    } else if break_seen {
        ForegroundAction::KillChild
    } else {
        ForegroundAction::KeepWaiting
    }
}

/// An ordered chain of command parsers; registration order is resolution
/// priority.
pub struct ParserChain<P> {
    parsers: Vec<P>,
}

impl<P: CmdParser> ParserChain<P> {
    /// The registered parsers, in registration (= resolution) order.
    pub closed spec fn parsers_view(&self) -> Seq<P> {
        self.parsers@
    }

    /// Number of registered parsers.
    pub closed spec fn len_spec(&self) -> int {
        self.parsers@.len() as int
    }

    /// An empty chain.
    pub fn new() -> (r: Self)
        ensures
            r.len_spec() == 0,
            r.parsers_view() == Seq::<P>::empty(),
    {
        let r = ParserChain { parsers: Vec::new() };
        proof {
            assert(r.parsers_view() =~= Seq::<P>::empty());
        }
        r
    }

    /// Register a parser at the back: everything registered earlier, and its
    /// order, is kept; parsers are never removed.
    pub fn add_commands(&mut self, parser: P)
        ensures
            final(self).len_spec() == old(self).len_spec() + 1,
            final(self).parsers_view() == old(self).parsers_view().push(parser),
    {
        self.parsers.push(parser);
    }

    /// Concatenate every parser's help rows, in registration order, each
    /// formatted as one `  syntax - description` line: the output grows by a
    /// concatenation of formatted rows.
    pub fn help_listing(&self, out: &mut Vec<u8>)
        ensures
            exists|rows: Seq<(Seq<u8>, Seq<u8>)>|
                final(out)@ == old(out)@ + #[trigger] render_rows(rows),
    {
        let ghost mut emitted: Seq<(Seq<u8>, Seq<u8>)> = Seq::empty();
        proof {
            assert(render_rows(emitted) =~= Seq::<u8>::empty());
            assert(out@ =~= old(out)@ + render_rows(emitted));
        }
        let mut i: usize = 0;
        while i < self.parsers.len()
            invariant
                i <= self.parsers@.len(),
                out@ == old(out)@ + render_rows(emitted),
            decreases self.parsers@.len() - i,
        {
            let rows = self.parsers[i].help();
            let mut j: usize = 0;
            while j < rows.len()
                invariant
                    j <= rows@.len(),
                    out@ == old(out)@ + render_rows(emitted),
                decreases rows@.len() - j,
            {
                help_row(&rows[j].0, &rows[j].1, out);
                proof {
                    lemma_render_rows_push(emitted, (rows@[j as int].0@, rows@[j as int].1@));
                    emitted = emitted.push((rows@[j as int].0@, rows@[j as int].1@));
                    assert(out@ =~= old(out)@ + render_rows(emitted));
                }
                j += 1;
            }
            i += 1;
        }
    }

    /// Resolve one command: ask each parser in order; the first exit code
    /// other than [`NOT_FOUND`] wins and is returned with the winner's index.
    /// When every parser declines, `Unknown command: ` and the command's
    /// tokens are printed and the result is [`NOT_FOUND`] with no index.
    pub fn resolve(&mut self, args: &Vec<Vec<u8>>, out: &mut Vec<u8>) -> (r: (ExitCode, Option<
        usize,
    >))
        ensures
            final(self).len_spec() == old(self).len_spec(),
            match r.1 {
                Some(i) => i < old(self).len_spec() && r.0 != NOT_FOUND && final(out)@ == old(
                    out,
                )@ && (forall|j: int|
                    i < j < old(self).len_spec() ==> final(self).parsers_view()[j] == old(
                        self,
                    ).parsers_view()[j]),
                None => r.0 == NOT_FOUND && final(out)@ == old(out)@ + unknown_command_line(
                    args@.map_values(|t: Vec<u8>| t@),
                ),
            },
    {
        let mut i: usize = 0;
        while i < self.parsers.len()
            invariant
                i <= self.parsers@.len(),
                self.parsers@.len() == old(self).len_spec(),
                forall|j: int|
                    i <= j < old(self).len_spec() ==> self.parsers@[j] == old(self).parsers_view()[
                    j],
                out@ == old(out)@,
            decreases self.parsers@.len() - i,
        {
            let code = self.parsers[i].parse(args);
            if code != NOT_FOUND {
                return (code, Some(i));
            }
            i += 1;
        }
        // "Unknown command: "
        let prefix: Vec<u8> = vec![
            85u8, 110u8, 107u8, 110u8, 111u8, 119u8, 110u8, 32u8, 99u8, 111u8, 109u8, 109u8,
            97u8, 110u8, 100u8, 58u8, 32u8,
        ];
        append_bytes(out, &prefix);
        let ghost ts = args@.map_values(|t: Vec<u8>| t@);
        let ghost base = out@;
        let mut j: usize = 0;
        while j < args.len()
            invariant
                j <= args@.len(),
                ts == args@.map_values(|t: Vec<u8>| t@),
                out@ == base + join_spaces(ts.take(j as int)),
            decreases args@.len() - j,
        {
            if j > 0 {
                out.push(32);
            }
            append_bytes(out, &args[j]);
            proof {
                lemma_join_spaces_push(ts.take(j as int), ts[j as int]);
                assert(ts.take(j as int).push(ts[j as int]) =~= ts.take(j + 1));
                if j == 0 {
                    assert(out@ =~= base + join_spaces(ts.take(1)));
                } else {
                    assert(out@ =~= base + (join_spaces(ts.take(j as int)) + seq![32u8] + ts[
                    j as int]));
                    assert(base + (join_spaces(ts.take(j as int)) + seq![32u8] + ts[j as int]) =~=
                    base + join_spaces(ts.take(j + 1)));
                }
            }
            j += 1;
        }
        out.push(13);
        out.push(10);
        proof {
            assert(ts.take(ts.len() as int) =~= ts);
            assert(out@ =~= old(out)@ + unknown_command_line(ts));
        }
        (NOT_FOUND, None)
    }
}



/// One formatted help row: two spaces, the syntax, ` - `, the description,
/// and a line ending.
pub open spec fn help_row_bytes(syntax: Seq<u8>, description: Seq<u8>) -> Seq<u8> {
    seq![32u8, 32u8] + syntax + seq![32u8, 45u8, 32u8] + description + seq![13u8, 10u8]
}

/// The concatenation of formatted help rows, in order.
pub open spec fn render_rows(rows: Seq<(Seq<u8>, Seq<u8>)>) -> Seq<u8>
    decreases rows.len(),
{
    if rows.len() == 0 {
        Seq::<u8>::empty()
    } else {
        help_row_bytes(rows[0].0, rows[0].1) + render_rows(rows.skip(1))
    }
}

/// Appending one more row appends its formatted bytes.
proof fn lemma_render_rows_push(rows: Seq<(Seq<u8>, Seq<u8>)>, row: (Seq<u8>, Seq<u8>))
    ensures
        render_rows(rows.push(row)) == render_rows(rows) + help_row_bytes(row.0, row.1),
    decreases rows.len(),
{
    reveal_with_fuel(render_rows, 3);
    if rows.len() == 0 {
        assert(rows.push(row)[0] == row);
        assert(rows.push(row).skip(1) =~= Seq::<(Seq<u8>, Seq<u8>)>::empty());
        assert(render_rows(rows.push(row)) =~= render_rows(rows) + help_row_bytes(row.0, row.1));
    } else {
        assert(rows.push(row)[0] == rows[0]);
        assert(rows.push(row).skip(1) =~= rows.skip(1).push(row));
        lemma_render_rows_push(rows.skip(1), row);
        assert(render_rows(rows.push(row)) =~= render_rows(rows) + help_row_bytes(row.0, row.1));
    }
}

/// Emit one formatted help row.
pub fn help_row(syntax: &Vec<u8>, description: &Vec<u8>, out: &mut Vec<u8>)
    ensures
        final(out)@ == old(out)@ + help_row_bytes(syntax@, description@),
{
    out.push(32);
    out.push(32);
    append_bytes(out, syntax);
    out.push(32);
    out.push(45);
    out.push(32);
    append_bytes(out, description);
    out.push(13);
    out.push(10);
    proof {
        assert(out@ =~= old(out)@ + help_row_bytes(syntax@, description@));
    }
}

/// The tokens joined with single spaces.
pub open spec fn join_spaces(tokens: Seq<Seq<u8>>) -> Seq<u8>
    decreases tokens.len(),
{
    if tokens.len() == 0 {
        Seq::<u8>::empty()
    } else if tokens.len() == 1 {
        tokens[0]
    } else {
        tokens[0] + seq![32u8] + join_spaces(tokens.skip(1))
    }
}

/// Joining after appending one token appends ` token` (or starts with it).
proof fn lemma_join_spaces_push(tokens: Seq<Seq<u8>>, t: Seq<u8>)
    ensures
        tokens.len() == 0 ==> join_spaces(tokens.push(t)) == t,
        tokens.len() > 0 ==> join_spaces(tokens.push(t)) == join_spaces(tokens) + seq![32u8] + t,
    decreases tokens.len(),
{
    if tokens.len() == 0 {
        assert(join_spaces(tokens.push(t)) == tokens.push(t)[0]);
    } else {
        assert(tokens.push(t).skip(1) =~= tokens.skip(1).push(t));
        lemma_join_spaces_push(tokens.skip(1), t);
        if tokens.len() == 1 {
            assert(join_spaces(tokens.push(t)) =~= tokens[0] + seq![32u8] + t);
            assert(join_spaces(tokens) + seq![32u8] + t =~= tokens[0] + seq![32u8] + t);
        } else {
            assert(join_spaces(tokens) + seq![32u8] + t =~= tokens[0] + seq![32u8] + (join_spaces(
                tokens.skip(1),
            ) + seq![32u8] + t));
        }
    }
}

/// The line printed when no parser recognizes a command: `Unknown command: `,
/// the tokens joined with spaces, and a line ending.
pub open spec fn unknown_command_line(tokens: Seq<Seq<u8>>) -> Seq<u8> {
    seq![
        85u8, 110u8, 107u8, 110u8, 111u8, 119u8, 110u8, 32u8, 99u8, 111u8, 109u8, 109u8, 97u8,
        110u8, 100u8, 58u8, 32u8,
    ] + join_spaces(tokens) + seq![13u8, 10u8]
}

} // verus!
