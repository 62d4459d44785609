//! The interactive console's line-editing state machine: a bounded current
//! line with cursor motion, a bounded history, and an ANSI escape-sequence
//! decoder. The machine consumes one input byte at a time and appends the
//! bytes it wants echoed to an output buffer; committing a line hands the
//! trimmed bytes back to the caller for dispatch.

use vstd::prelude::*;

use crate::bytes::{append_bytes, bytes_eq, clone_bytes};
use crate::parse::{lemma_trim_spec_len, trim, trim_spec};

verus! {

/// Most bytes a line may hold.
pub const LINE_BUFFER_SIZE: usize = 512;

/// Most lines the history may hold.
pub const HISTORY_SIZE: usize = 10;

/// Where the escape-sequence decoder stands.
#[derive(Clone, Copy, Debug, PartialEq, Eq, Structural)]
pub enum EscapeState {
    /// Ordinary input.
    Normal,
    /// An ESC byte was seen.
    Escape,
    /// ESC `[` was seen; the next byte selects a cursor or history action.
    Bracket,
}

/// What processing one input byte produced.
pub enum ConsoleEvent {
    /// Nothing for the caller to act on.
    Idle,
    /// A line was committed: these are its bytes, trimmed of surrounding
    /// whitespace (possibly empty).
    Committed(Vec<u8>),
}

/// Bytes that move the terminal cursor back `n` columns.
pub open spec fn backspaces(n: int) -> Seq<u8> {
    Seq::new(n as nat, |i: int| 8u8)
}

/// Bytes that clear the displayed line: carriage return, the ANSI
/// erase-to-end-of-line sequence, then the prompt.
pub open spec fn clear_bytes(prompt: Seq<u8>) -> Seq<u8> {
    seq![13u8, 27u8, 91u8, 75u8] + prompt
}

/// Bytes that repaint `line` and park the terminal cursor at `cursor`.
pub open spec fn redraw_bytes(line: Seq<u8>, cursor: int) -> Seq<u8> {
    line + backspaces(line.len() - cursor)
}

/// The history after committing `l`: empty lines and lines equal to the
/// newest entry are not recorded; at capacity the oldest entry is dropped.
pub open spec fn push_history(h: Seq<Seq<u8>>, l: Seq<u8>) -> Seq<Seq<u8>> {
    if l.len() == 0 {
        h
    } else if h.len() > 0 && h.last() == l {
        h
    } else if h.len() >= HISTORY_SIZE {
        h.skip(1).push(l)
    } else {
        h.push(l)
    }
}

/// History well-formedness: at most ten entries, each a nonempty line that
/// fits the line buffer, never two identical adjacent entries.
pub open spec fn history_wf(h: Seq<Seq<u8>>) -> bool {
    &&& h.len() <= HISTORY_SIZE
    &&& forall|i: int|
        0 <= i < h.len() ==> (#[trigger] h[i]).len() > 0 && h[i].len() <= LINE_BUFFER_SIZE
    &&& forall|i: int| 0 <= i < h.len() - 1 ==> (#[trigger] h[i]) != h[i + 1]
}

/// The line-editing state machine.
pub struct Console {
    prompt: Vec<u8>,
    history: Vec<Vec<u8>>,
    history_index: Option<usize>,
    current_line: Vec<u8>,
    cursor_pos: usize,
    escape_state: EscapeState,
}

impl Console {
    /// The history, oldest first, as byte strings.
    pub closed spec fn hist(&self) -> Seq<Seq<u8>> {
        self.history@.map_values(|v: Vec<u8>| v@)
    }

    /// The prompt bytes.
    pub closed spec fn prompt_view(&self) -> Seq<u8> {
        self.prompt@
    }

    /// The line being edited.
    pub closed spec fn line(&self) -> Seq<u8> {
        self.current_line@
    }

    /// The cursor position, in `[0, line.len()]`.
    pub closed spec fn cursor(&self) -> int {
        self.cursor_pos as int
    }

    /// Which history entry the user has recalled, if any.
    pub closed spec fn hist_idx(&self) -> Option<usize> {
        self.history_index
    }

    /// The escape decoder's state.
    pub closed spec fn esc(&self) -> EscapeState {
        self.escape_state
    }

    /// Console well-formedness: the cursor lies within the line, the line
    /// within its bound, the history within its rules, and a recalled index
    /// within the history.
    pub open spec fn wf(&self) -> bool {
        &&& self.cursor() <= self.line().len()
        &&& self.line().len() <= LINE_BUFFER_SIZE
        &&& history_wf(self.hist())
        &&& match self.hist_idx() {
            Some(i) => i < self.hist().len(),
            None => true,
        }
    }

    /// A console starts with the default `"> "` prompt, empty history and
    /// line, the cursor at zero, and the decoder in its ordinary state.
    pub fn new() -> (r: Console)
        ensures
            r.wf(),
            r.prompt_view() == seq![62u8, 32u8],
            r.hist() == Seq::<Seq<u8>>::empty(),
            r.hist_idx() is None,
            r.line() == Seq::<u8>::empty(),
            r.cursor() == 0,
            r.esc() == EscapeState::Normal,
    {
        let mut prompt: Vec<u8> = Vec::new();
        prompt.push(62);
        prompt.push(32);
        proof {
            assert(prompt@ =~= seq![62u8, 32u8]);
        }
        let r = Console {
            prompt,
            history: Vec::new(),
            history_index: None,
            current_line: Vec::new(),
            cursor_pos: 0,
            escape_state: EscapeState::Normal,
        };
        proof {
            assert(r.hist() =~= Seq::<Seq<u8>>::empty());
        }
        r
    }

    /// Replace the prompt; nothing else changes.
    pub fn set_prompt(&mut self, prompt: Vec<u8>)
        requires
            old(self).wf(),
        ensures
            final(self).wf(),
            final(self).prompt_view() == prompt@,
            final(self).hist() == old(self).hist(),
            final(self).hist_idx() == old(self).hist_idx(),
            final(self).line() == old(self).line(),
            final(self).cursor() == old(self).cursor(),
            final(self).esc() == old(self).esc(),
    {
        self.prompt = prompt;
    }

    /// Emit the prompt.
    pub fn show_prompt(&self, out: &mut Vec<u8>)
        ensures
            final(out)@ == old(out)@ + self.prompt_view(),
    {
        append_bytes(out, &self.prompt);
    }

    /// Emit the bytes that wipe the displayed line and reprint the prompt.
    /// The stored line is not changed.
    pub fn clear_current_line(&self, out: &mut Vec<u8>)
        ensures
            final(out)@ == old(out)@ + clear_bytes(self.prompt_view()),
    {
        out.push(13);
        out.push(27);
        out.push(91);
        out.push(75);
        append_bytes(out, &self.prompt);
        proof {
            assert(out@ =~= old(out)@ + clear_bytes(self.prompt_view()));
        }
    }

    /// Emit the bytes that repaint the stored line and park the cursor at its
    /// logical position.
    pub fn redraw_line(&self, out: &mut Vec<u8>)
        requires
            self.wf(),
        ensures
            final(out)@ == old(out)@ + redraw_bytes(self.line(), self.cursor()),
    {
        append_bytes(out, &self.current_line);
        let mut k: usize = self.cursor_pos;
        while k < self.current_line.len()
            invariant
                self.cursor_pos <= k <= self.current_line@.len(),
                out@ == old(out)@ + self.current_line@ + backspaces(k - self.cursor_pos),
            decreases self.current_line@.len() - k,
        {
            out.push(8);
            proof {
                assert(out@ =~= old(out)@ + self.current_line@ + backspaces(
                    k + 1 - self.cursor_pos,
                ));
            }
            k += 1;
        }
        proof {
            assert(out@ =~= old(out)@ + redraw_bytes(self.line(), self.cursor()));
        }
    }

    /// Record a committed line in the history, under the history's rules.
    pub fn add_to_history(&mut self, line: &Vec<u8>)
        requires
            old(self).wf(),
            line@.len() <= LINE_BUFFER_SIZE,
        ensures
            final(self).wf(),
            final(self).hist() == push_history(old(self).hist(), line@),
            final(self).prompt_view() == old(self).prompt_view(),
            final(self).hist_idx() == old(self).hist_idx(),
            final(self).line() == old(self).line(),
            final(self).cursor() == old(self).cursor(),
            final(self).esc() == old(self).esc(),
    {
        if line.len() == 0 {
            return ;
        }
        if self.history.len() > 0 {
            let same = bytes_eq(&self.history[self.history.len() - 1], line);
            if same {
                proof {
                    assert(self.hist().last() == line@);
                }
                return ;
            }
            proof {
                assert(self.hist().last() != line@);
            }
        }
        if self.history.len() >= HISTORY_SIZE {
            self.history.remove(0);
        }
        let copy = clone_bytes(line);
        self.history.push(copy);
        proof {
            assert(self.hist() =~= push_history(old(self).hist(), line@));
            assert forall|i: int| 0 <= i < self.hist().len() implies (#[trigger] self.hist()[
            i]).len() > 0 && self.hist()[i].len() <= LINE_BUFFER_SIZE by {
                if i < self.hist().len() - 1 {
                    let j = i + old(self).hist().len() - (self.hist().len() - 1);
                    assert(old(self).hist()[j].len() > 0 && old(self).hist()[j].len()
                        <= LINE_BUFFER_SIZE);
                }
            }
        }
    }

    /// Load history entry `index` into the line: wipe the display, replace
    /// the line, park the cursor at its end and repaint. Out of range, nothing
    /// happens.
    pub fn load_from_history(&mut self, index: usize, out: &mut Vec<u8>)
        requires
            old(self).wf(),
        ensures
            final(self).wf(),
            index < old(self).hist().len() ==> {
                &&& final(self).line() == old(self).hist()[index as int]
                &&& final(self).cursor() == final(self).line().len()
                &&& final(out)@ == old(out)@ + clear_bytes(old(self).prompt_view()) + old(self).hist()[index as int]
            },
            index >= old(self).hist().len() ==> *final(self) == *old(self) && final(out)@ == old(out)@,
            final(self).prompt_view() == old(self).prompt_view(),
            final(self).hist() == old(self).hist(),
            final(self).hist_idx() == old(self).hist_idx(),
            final(self).esc() == old(self).esc(),
    {
        if index < self.history.len() {
            self.clear_current_line(out);
            self.current_line = clone_bytes(&self.history[index]);
            self.cursor_pos = self.current_line.len();
            proof {
                assert(old(self).hist()[index as int].len() <= LINE_BUFFER_SIZE);
                assert(self.line() == old(self).hist()[index as int]);
            }
            self.redraw_line(out);
            proof {
                assert(backspaces(0) =~= Seq::<u8>::empty());
                assert(out@ =~= old(out)@ + clear_bytes(old(self).prompt_view()) + old(self).hist()[index as int]);
            }
        }
    }

    /// Move the cursor one column left, when it is not at the line's start.
    pub fn move_cursor_left(&mut self, out: &mut Vec<u8>)
        requires
            old(self).wf(),
        ensures
            final(self).wf(),
            old(self).cursor() > 0 ==> final(self).cursor() == old(self).cursor() - 1 && final(out)@ == old(out)@ + seq![8u8],
            old(self).cursor() == 0 ==> *final(self) == *old(self) && final(out)@ == old(out)@,
            final(self).prompt_view() == old(self).prompt_view(),
            final(self).hist() == old(self).hist(),
            final(self).hist_idx() == old(self).hist_idx(),
            final(self).line() == old(self).line(),
            final(self).esc() == old(self).esc(),
    {
        if self.cursor_pos > 0 {
            self.cursor_pos -= 1;
            out.push(8);
            proof {
                assert(out@ =~= old(out)@ + seq![8u8]);
            }
        }
    }

    /// Move the cursor one column right, when it is not at the line's end;
    /// the byte under the old position is re-echoed to advance the terminal.
    pub fn move_cursor_right(&mut self, out: &mut Vec<u8>)
        requires
            old(self).wf(),
        ensures
            final(self).wf(),
            old(self).cursor() < old(self).line().len() ==> final(self).cursor() == old(self).cursor() + 1 && final(out)@ == old(out)@ + seq![old(self).line()[old(self).cursor()]],
            old(self).cursor() == old(self).line().len() ==> *final(self) == *old(self) && final(out)@ == old(out)@,
            final(self).prompt_view() == old(self).prompt_view(),
            final(self).hist() == old(self).hist(),
            final(self).hist_idx() == old(self).hist_idx(),
            final(self).line() == old(self).line(),
            final(self).esc() == old(self).esc(),
    {
        if self.cursor_pos < self.current_line.len() {
            out.push(self.current_line[self.cursor_pos]);
            self.cursor_pos += 1;
            proof {
                assert(out@ =~= old(out)@ + seq![old(self).line()[old(self).cursor()]]);
            }
        }
    }

    /// Insert a byte at the cursor. A full line swallows the byte. At the
    /// line's end the byte is simply echoed; in the middle, the whole line is
    /// wiped and repainted.
    pub fn insert_char(&mut self, c: u8, out: &mut Vec<u8>)
        requires
            old(self).wf(),
        ensures
            final(self).wf(),
            old(self).line().len() >= LINE_BUFFER_SIZE ==> *final(self) == *old(self) && final(out)@ == old(out)@,
            old(self).line().len() < LINE_BUFFER_SIZE ==> {
                &&& final(self).line() == old(self).line().insert(old(self).cursor(), c)
                &&& final(self).cursor() == old(self).cursor() + 1
                &&& (old(self).cursor() == old(self).line().len() ==> final(out)@ == old(out)@
                    + seq![c])
                &&& (old(self).cursor() < old(self).line().len() ==> final(out)@ == old(out)@
                    + clear_bytes(old(self).prompt_view()) + redraw_bytes(
                    final(self).line(),
                    final(self).cursor(),
                ))
            },
            final(self).prompt_view() == old(self).prompt_view(),
            final(self).hist() == old(self).hist(),
            final(self).hist_idx() == old(self).hist_idx(),
            final(self).esc() == old(self).esc(),
    {
        if self.current_line.len() >= LINE_BUFFER_SIZE {
            return ;
        }
        if self.cursor_pos == self.current_line.len() {
            self.current_line.push(c);
            out.push(c);
            self.cursor_pos += 1;
            proof {
                assert(self.current_line@ =~= old(self).line().insert(old(self).cursor(), c));
                assert(out@ =~= old(out)@ + seq![c]);
            }
        } else {
            self.current_line.insert(self.cursor_pos, c);
            self.cursor_pos += 1;
            self.clear_current_line(out);
            self.redraw_line(out);
            proof {
                assert(out@ =~= old(out)@ + clear_bytes(old(self).prompt_view()) + redraw_bytes(
                    self.line(),
                    self.cursor(),
                ));
            }
        }
    }

    /// Delete the byte before the cursor, when there is one, and repaint the
    /// whole line.
    pub fn backspace(&mut self, out: &mut Vec<u8>)
        requires
            old(self).wf(),
        ensures
            final(self).wf(),
            old(self).cursor() == 0 ==> *final(self) == *old(self) && final(out)@ == old(out)@,
            old(self).cursor() > 0 ==> {
                &&& final(self).line() == old(self).line().remove(old(self).cursor() - 1)
                &&& final(self).cursor() == old(self).cursor() - 1
                &&& final(out)@ == old(out)@ + clear_bytes(old(self).prompt_view())
                    + redraw_bytes(final(self).line(), final(self).cursor())
            },
            final(self).prompt_view() == old(self).prompt_view(),
            final(self).hist() == old(self).hist(),
            final(self).hist_idx() == old(self).hist_idx(),
            final(self).esc() == old(self).esc(),
    {
        if self.cursor_pos > 0 {
            self.current_line.remove(self.cursor_pos - 1);
            self.cursor_pos -= 1;
            self.clear_current_line(out);
            self.redraw_line(out);
            proof {
                assert(out@ =~= old(out)@ + clear_bytes(old(self).prompt_view()) + redraw_bytes(
                    self.line(),
                    self.cursor(),
                ));
            }
        }
    }
}


impl Console {
    /// Feed one input byte through the state machine. Echo bytes are appended
    /// to `out`; a carriage return or newline commits the line and hands back
    /// its trimmed bytes. The caller runs the committed commands and then
    /// shows the prompt again with [`Console::show_prompt`].
    pub fn handle_byte(&mut self, b: u8, out: &mut Vec<u8>) -> (ev: ConsoleEvent)
        requires
            old(self).wf(),
        ensures
            final(self).wf(),
            final(self).prompt_view() == old(self).prompt_view(),
            match old(self).esc() {
                EscapeState::Normal => {
                    if b == 13 || b == 10 {
                        &&& (ev matches ConsoleEvent::Committed(l) && l@ == trim_spec(
                            old(self).line(),
                        ))
                        &&& final(out)@ == old(out)@ + seq![13u8, 10u8]
                        &&& final(self).line().len() == 0
                        &&& final(self).cursor() == 0
                        &&& final(self).hist_idx() is None
                        &&& final(self).hist() == push_history(
                            old(self).hist(),
                            trim_spec(old(self).line()),
                        )
                        &&& final(self).esc() == EscapeState::Normal
                    } else if b == 3 {
                        &&& ev is Idle
                        &&& final(out)@ == old(out)@ + seq![94u8, 67u8, 13u8, 10u8] + old(self).prompt_view()
                        &&& final(self).line().len() == 0
                        &&& final(self).cursor() == 0
                        &&& final(self).hist_idx() is None
                        &&& final(self).hist() == old(self).hist()
                        &&& final(self).esc() == EscapeState::Normal
                    } else if b == 8 || b == 127 {
                        &&& ev is Idle
                        &&& final(self).hist() == old(self).hist()
                        &&& final(self).hist_idx() == old(self).hist_idx()
                        &&& final(self).esc() == EscapeState::Normal
                        &&& (old(self).cursor() == 0 ==> final(self).line() == old(self).line()
                            && final(self).cursor() == 0 && final(out)@ == old(out)@)
                        &&& (old(self).cursor() > 0 ==> final(self).line() == old(self).line().remove(old(self).cursor() - 1) && final(self).cursor() == old(self).cursor() - 1 && final(out)@ == old(out)@ + clear_bytes(
                            old(self).prompt_view(),
                        ) + redraw_bytes(final(self).line(), final(self).cursor()))
                    } else if b == 27 {
                        &&& ev is Idle
                        &&& final(self).line() == old(self).line()
                        &&& final(self).cursor() == old(self).cursor()
                        &&& final(self).hist() == old(self).hist()
                        &&& final(self).hist_idx() == old(self).hist_idx()
                        &&& final(self).esc() == EscapeState::Escape
                        &&& final(out)@ == old(out)@
                    } else if b == 32 || (33 <= b && b <= 126) {
                        &&& ev is Idle
                        &&& final(self).hist() == old(self).hist()
                        &&& final(self).hist_idx() == old(self).hist_idx()
                        &&& final(self).esc() == EscapeState::Normal
                        &&& (old(self).line().len() >= LINE_BUFFER_SIZE ==> final(self).line()
                            == old(self).line() && final(self).cursor() == old(self).cursor()
                            && final(out)@ == old(out)@)
                        &&& (old(self).line().len() < LINE_BUFFER_SIZE ==> final(self).line()
                            == old(self).line().insert(old(self).cursor(), b) && final(self).cursor() == old(self).cursor() + 1)
                        &&& (old(self).line().len() < LINE_BUFFER_SIZE && old(self).cursor() == old(
                            self,
                        ).line().len() ==> final(out)@ == old(out)@ + seq![b])
                        &&& (old(self).line().len() < LINE_BUFFER_SIZE && old(self).cursor() < old(
                            self,
                        ).line().len() ==> final(out)@ == old(out)@ + clear_bytes(
                            old(self).prompt_view(),
                        ) + redraw_bytes(final(self).line(), final(self).cursor()))
                    } else {
                        &&& ev is Idle
                        &&& *final(self) == *old(self)
                        &&& final(out)@ == old(out)@
                    }
                },
                EscapeState::Escape => {
                    &&& ev is Idle
                    &&& final(self).line() == old(self).line()
                    &&& final(self).cursor() == old(self).cursor()
                    &&& final(self).hist() == old(self).hist()
                    &&& final(self).hist_idx() == old(self).hist_idx()
                    &&& final(out)@ == old(out)@
                    &&& final(self).esc() == (if b == 91 {
                        EscapeState::Bracket
                    } else {
                        EscapeState::Normal
                    })
                },
                EscapeState::Bracket => {
                    &&& ev is Idle
                    &&& final(self).esc() == EscapeState::Normal
                    &&& final(self).hist() == old(self).hist()
                    &&& if b == 65 {
                        if old(self).hist().len() == 0 {
                            &&& final(self).line() == old(self).line()
                            &&& final(self).cursor() == old(self).cursor()
                            &&& final(self).hist_idx() == old(self).hist_idx()
                            &&& final(out)@ == old(out)@
                        } else {
                            let ni = match old(self).hist_idx() {
                                None => old(self).hist().len() - 1,
                                Some(i) => if i > 0 {
                                    i - 1
                                } else {
                                    0
                                },
                            };
                            &&& final(self).hist_idx() == Some(ni as usize)
                            &&& final(self).line() == old(self).hist()[ni]
                            &&& final(self).cursor() == final(self).line().len()
                            &&& final(out)@ == old(out)@ + clear_bytes(old(self).prompt_view())
                                + old(self).hist()[ni]
                        }
                    } else if b == 66 {
                        match old(self).hist_idx() {
                            None => {
                                &&& final(self).line() == old(self).line()
                                &&& final(self).cursor() == old(self).cursor()
                                &&& final(self).hist_idx() is None
                                &&& final(out)@ == old(out)@
                            },
                            Some(i) => if i + 1 < old(self).hist().len() {
                                &&& final(self).hist_idx() == Some((i + 1) as usize)
                                &&& final(self).line() == old(self).hist()[i + 1]
                                &&& final(self).cursor() == final(self).line().len()
                                &&& final(out)@ == old(out)@ + clear_bytes(
                                    old(self).prompt_view(),
                                ) + old(self).hist()[i + 1]
                            } else {
                                &&& final(self).hist_idx() is None
                                &&& final(self).line().len() == 0
                                &&& final(self).cursor() == 0
                                &&& final(out)@ == old(out)@ + clear_bytes(old(self).prompt_view())
                            },
                        }
                    } else if b == 67 {
                        &&& final(self).hist_idx() == old(self).hist_idx()
                        &&& final(self).line() == old(self).line()
                        &&& (old(self).cursor() < old(self).line().len() ==> final(self).cursor()
                            == old(self).cursor() + 1 && final(out)@ == old(out)@ + seq![
                            old(self).line()[old(self).cursor()]])
                        &&& (old(self).cursor() == old(self).line().len() ==> final(self).cursor()
                            == old(self).cursor() && final(out)@ == old(out)@)
                    } else if b == 68 {
                        &&& final(self).hist_idx() == old(self).hist_idx()
                        &&& final(self).line() == old(self).line()
                        &&& (old(self).cursor() > 0 ==> final(self).cursor() == old(self).cursor()
                            - 1 && final(out)@ == old(out)@ + seq![8u8])
                        &&& (old(self).cursor() == 0 ==> final(self).cursor() == 0 && final(out)@
                            == old(out)@)
                    } else {
                        &&& final(self).hist_idx() == old(self).hist_idx()
                        &&& final(self).line() == old(self).line()
                        &&& final(self).cursor() == old(self).cursor()
                        &&& final(out)@ == old(out)@
                    }
                },
            },
    {
        match self.escape_state {
            EscapeState::Normal => {
                if b == 13 || b == 10 {
                    out.push(13);
                    out.push(10);
                    let trimmed = trim(&self.current_line);
                    proof {
                        lemma_trim_spec_len(self.current_line@);
                    }
                    self.add_to_history(&trimmed);
                    self.current_line = Vec::new();
                    self.cursor_pos = 0;
                    self.history_index = None;
                    proof {
                        assert(out@ =~= old(out)@ + seq![13u8, 10u8]);
                    }
                    ConsoleEvent::Committed(trimmed)
                } else if b == 3 {
                    out.push(94);
                    out.push(67);
                    out.push(13);
                    out.push(10);
                    self.show_prompt(out);
                    self.current_line = Vec::new();
                    self.cursor_pos = 0;
                    self.history_index = None;
                    proof {
                        assert(out@ =~= old(out)@ + seq![94u8, 67u8, 13u8, 10u8] + old(self).prompt_view());
                    }
                    ConsoleEvent::Idle
                } else if b == 8 || b == 127 {
                    self.backspace(out);
                    ConsoleEvent::Idle
                } else if b == 27 {
                    self.escape_state = EscapeState::Escape;
                    ConsoleEvent::Idle
                } else if b == 32 || (33 <= b && b <= 126) {
                    self.insert_char(b, out);
                    ConsoleEvent::Idle
                } else {
                    ConsoleEvent::Idle
                }
            },
            EscapeState::Escape => {
                if b == 91 {
                    self.escape_state = EscapeState::Bracket;
                } else {
                    self.escape_state = EscapeState::Normal;
                }
                ConsoleEvent::Idle
            },
            EscapeState::Bracket => {
                if b == 65 {
                    if self.history.len() > 0 {
                        let ni: usize = match self.history_index {
                            None => self.history.len() - 1,
                            Some(i) => if i > 0 {
                                i - 1
                            } else {
                                0
                            },
                        };
                        self.history_index = Some(ni);
                        self.load_from_history(ni, out);
                    }
                } else if b == 66 {
                    match self.history_index {
                        Some(i) => {
                            if i + 1 < self.history.len() {
                                self.history_index = Some(i + 1);
                                self.load_from_history(i + 1, out);
                            } else {
                                self.history_index = None;
                                self.clear_current_line(out);
                                self.current_line = Vec::new();
                                self.cursor_pos = 0;
                            }
                        },
                        None => {},
                    }
                } else if b == 67 {
                    self.move_cursor_right(out);
                } else if b == 68 {
                    self.move_cursor_left(out);
                }
                self.escape_state = EscapeState::Normal;
                ConsoleEvent::Idle
            },
        }
    }
}


/// A line appended byte by byte.
pub open spec fn push_all(l: Seq<u8>, bs: Seq<u8>) -> Seq<u8>
    decreases bs.len(),
{
    if bs.len() == 0 {
        l
    } else {
        push_all(l.push(bs[0]), bs.skip(1))
    }
}

/// A line with its last `n` bytes erased.
pub open spec fn drop_n(l: Seq<u8>, n: int) -> Seq<u8>
    decreases n,
{
    if n <= 0 || l.len() == 0 {
        l
    } else {
        drop_n(l.drop_last(), n - 1)
    }
}

/// Typing then erasing is a round trip: inserting `bs.len()` bytes at the end
/// of a line (each step exactly what [`Console::insert_char`] does with the
/// cursor at the end) and then backspacing as many times (each step exactly
/// what [`Console::backspace`] does there) restores the original line.
pub proof fn lemma_type_then_erase(l: Seq<u8>, bs: Seq<u8>)
    ensures
        drop_n(push_all(l, bs), bs.len() as int) == l,
    decreases bs.len(),
{
    if bs.len() > 0 {
        lemma_type_then_erase(l.push(bs[0]), bs.skip(1));
        let grown = push_all(l.push(bs[0]), bs.skip(1));
        assert(drop_n(grown, bs.skip(1).len() as int) == l.push(bs[0]));
        lemma_drop_n_once(grown, bs.skip(1).len() as int);
        assert(l.push(bs[0]).drop_last() =~= l);
    }
}

/// Erasing `n + 1` bytes is erasing `n` and then one more.
proof fn lemma_drop_n_once(l: Seq<u8>, n: int)
    requires
        n >= 0,
        drop_n(l, n).len() > 0,
    ensures
        drop_n(l, n + 1) == drop_n(l, n).drop_last(),
    decreases n,
{
    assert(l.len() > 0) by {
        if l.len() == 0 {
            assert(drop_n(l, n) == l);
        }
    }
    if n == 0 {
        assert(drop_n(l, 0) == l);
        assert(drop_n(l, 1) == drop_n(l.drop_last(), 0));
    } else {
        assert(drop_n(l, n) == drop_n(l.drop_last(), n - 1));
        lemma_drop_n_once(l.drop_last(), n - 1);
        assert(drop_n(l, n + 1) == drop_n(l.drop_last(), n));
    }
}

/// A backspace erases exactly the byte typing inserted: removing at the
/// insertion point undoes an insertion anywhere in the line.
pub proof fn lemma_insert_then_backspace(line: Seq<u8>, cursor: int, b: u8)
    requires
        0 <= cursor <= line.len(),
    ensures
        line.insert(cursor, b).remove(cursor) == line,
{
    assert(line.insert(cursor, b).remove(cursor) =~= line);
}


impl Console {
    /// The line being edited, as bytes.
    pub fn line_bytes(&self) -> (r: Vec<u8>)
        ensures
            r@ == self.line(),
    {
        clone_bytes(&self.current_line)
    }

    /// The cursor position within the line.
    pub fn cursor_position(&self) -> (r: usize)
        ensures
            r == self.cursor(),
    {
        self.cursor_pos
    }

    /// Number of history entries.
    pub fn history_len(&self) -> (r: usize)
        ensures
            r == self.hist().len(),
    {
        self.history.len()
    }

    /// One history entry, oldest first.
    pub fn history_entry(&self, index: usize) -> (r: Option<Vec<u8>>)
        ensures
            match r {
                Some(v) => index < self.hist().len() && v@ == self.hist()[index as int],
                None => index >= self.hist().len(),
            },
    {
        if index < self.history.len() {
            Some(clone_bytes(&self.history[index]))
        } else {
            None
        }
    }
}

} // verus!
