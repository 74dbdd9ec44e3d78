//! The state behind the developer console: its message history, filtered
//! by kind, and the history of entered lines navigated with the arrow keys.

use vstd::prelude::*;

use crate::support::str_eq;
use vstd::string::StrSliceExecFns;

verus! {

/// All messages that get sent to the console are tagged so they can be filtered.
#[derive(Debug, Clone, Copy, PartialEq, Eq, Structural)]
pub enum MessageKind {
    /// Help messages emitted by console usage.
    Help,
    /// Game messages like "you picked up a thing".
    Toast,
    /// Calls into the logging backend end up here.
    Log,
}

#[derive(Debug, Clone)]
pub struct Message {
    pub string: String,
    pub kind: MessageKind,
}

/// A key the console reacts to.
#[derive(Debug, Clone, Copy, PartialEq, Eq)]
pub enum ConsoleKey {
    Escape,
    Return,
    Up,
    Down,
    Other,
}

/// The console's state, apart from its terminal and its drawing.
#[derive(Debug)]
pub struct ConsoleState {
    pub messages: Vec<Message>,
    pub input_history: Vec<String>,
    pub input: String,
    pub input_history_pos: usize,
    pub defocus_textedit: bool,
    pub scroll_to_bottom: bool,
    pub cursor_to_end: bool,
    /// If `false`, messages tagged [`MessageKind::Log`] aren't drawn.
    pub draw_log: bool,
    /// If `false`, messages tagged [`MessageKind::Toast`] aren't drawn.
    pub draw_toast: bool,
}

/// Whether a message of `kind` survives clearing the kinds chosen.
pub open spec fn kept(kind: MessageKind, log: bool, toast: bool, help: bool) -> bool {
    !((kind == MessageKind::Log && log) || (kind == MessageKind::Toast && toast) || (kind == MessageKind::Help
        && help))
}

/// The messages of `m` that survive clearing the kinds chosen, in order.
pub open spec fn kept_messages(m: Seq<Message>, log: bool, toast: bool, help: bool) -> Seq<Message>
    decreases m.len(),
{
    if m.len() == 0 {
        Seq::empty()
    } else {
        let rest = kept_messages(m.drop_last(), log, toast, help);
        if kept(m.last().kind, log, toast, help) {
            rest.push(m.last())
        } else {
            rest
        }
    }
}

/// The history and the position in it after Return is pressed on `input`: a
/// line that is not empty and differs from the last one entered is recorded,
/// and the position moves past the end; otherwise both stay.
pub open spec fn after_return(history: Seq<String>, pos: usize, input: String) -> (Seq<String>, usize) {
    if input@.len() == 0 || (history.len() > 0 && history.last()@ == input@) {
        (history, pos)
    } else {
        (history.push(input), (history.len() + 1) as usize)
    }
}

/// Where Up moves in the history, and the line it puts into the input; `None`
/// at the start of the history, where Up does nothing.
pub open spec fn after_up(history: Seq<String>, pos: usize) -> Option<(usize, Seq<char>)> {
    if pos >= 1 {
        Some(((pos - 1) as usize, history[pos - 1]@))
    } else {
        None
    }
}

/// Pressing Up right after a line was submitted from the end of the history
/// puts that line back into the input, whether it was recorded anew or
/// repeated the last one.
pub proof fn law_return_then_up_recalls_line(history: Seq<String>, input: String)
    requires
        input@.len() > 0,
        history.len() < usize::MAX,
    ensures
        ({
            let (h, p) = after_return(history, history.len() as usize, input);
            after_up(h, p) == Some(((p - 1) as usize, input@))
        }),
{
    let (h, p) = after_return(history, history.len() as usize, input);
    if history.len() > 0 && history.last()@ == input@ {
        assert(h[p - 1] == history.last());
    } else {
        assert(h[p - 1] == input);
    }
}

impl ConsoleState {
    /// An empty console that draws every kind of message.
    pub fn new() -> (r: ConsoleState)
        ensures
            r.messages@.len() == 0,
            r.input_history@.len() == 0,
            r.input@.len() == 0,
            r.input_history_pos == 0,
            !r.defocus_textedit && !r.scroll_to_bottom && !r.cursor_to_end,
            r.draw_log && r.draw_toast,
    {
        ConsoleState {
            messages: Vec::new(),
            input_history: Vec::new(),
            input: String::new(),
            input_history_pos: 0,
            defocus_textedit: false,
            scroll_to_bottom: false,
            cursor_to_end: false,
            draw_log: true,
            draw_toast: true,
        }
    }

    /// Drops the messages of the kinds chosen; at least one must be.
    pub fn clear_message_history(&mut self, log: bool, toast: bool, help: bool)
        requires
            log || toast || help,
        ensures
            final(self).messages@ == kept_messages(old(self).messages@, log, toast, help),
            final(self).input_history == old(self).input_history,
            final(self).input == old(self).input,
            final(self).input_history_pos == old(self).input_history_pos,
    {
        let mut old_messages: Vec<Message> = Vec::new();
        std::mem::swap(&mut old_messages, &mut self.messages);
        let ghost all = old_messages@;
        let mut i: usize = 0;
        while i < old_messages.len()
            invariant
                i <= all.len(),
                all == old_messages@,
                all == old(self).messages@,
                self.messages@ == kept_messages(all.take(i as int), log, toast, help),
                self.input_history == old(self).input_history,
                self.input == old(self).input,
                self.input_history_pos == old(self).input_history_pos,
            decreases all.len() - i,
        {
            assert(all.take(i + 1).drop_last() =~= all.take(i as int));
            let k = old_messages[i].kind;
            let keep = !((k == MessageKind::Log && log) || (k == MessageKind::Toast && toast) || (k
                == MessageKind::Help && help));
            if keep {
                let m = Message { string: old_messages[i].string.clone(), kind: k };
                self.messages.push(m);
                assert(self.messages@.last() == all[i as int]);
            }
            i = i + 1;
        }
        assert(all.take(i as int) =~= all);
    }

    pub fn clear_input_history(&mut self)
        ensures
            final(self).input_history@.len() == 0,
            final(self).input_history_pos == 0,
            final(self).messages == old(self).messages,
            final(self).input == old(self).input,
    {
        self.input_history.clear();
        self.input_history_pos = 0;
    }

    /// Reacts to a pressed key. Escape gives up the text field's focus; Up and
    /// Down walk the history of entered lines, putting the one reached into
    /// the input; Return submits the input, giving back the line for the
    /// terminal to run (`None` if the input is empty).
    pub fn on_key(&mut self, key: ConsoleKey) -> (r: Option<String>)
        requires
            old(self).input_history_pos <= old(self).input_history@.len(),
        ensures
            final(self).input_history_pos <= final(self).input_history@.len(),
            final(self).messages == old(self).messages,
            key == ConsoleKey::Escape ==> final(self).defocus_textedit && r is None
                && final(self).input_history == old(self).input_history,
            key == ConsoleKey::Up ==> match after_up(old(self).input_history@, old(self).input_history_pos) {
                Some((pos, line)) => {
                    &&& final(self).input_history == old(self).input_history
                    &&& final(self).input_history_pos == pos
                    &&& final(self).input@ == line
                },
                None => *final(self) == *old(self),
            },
            key == ConsoleKey::Return ==> (final(self).input_history@, final(self).input_history_pos) == after_return(
                old(self).input_history@,
                old(self).input_history_pos,
                old(self).input,
            ),
            key == ConsoleKey::Up && old(self).input_history_pos >= 1 ==> {
                &&& final(self).input_history_pos == old(self).input_history_pos - 1
                &&& final(self).input@ == old(self).input_history@[old(self).input_history_pos - 1]@
                &&& final(self).cursor_to_end
                &&& r is None
            },
            key == ConsoleKey::Down && old(self).input_history_pos < old(self).input_history@.len() ==> {
                &&& final(self).input_history_pos == old(self).input_history_pos + 1
                &&& final(self).input@ == (if final(self).input_history_pos < old(self).input_history@.len() {
                    old(self).input_history@[final(self).input_history_pos as int]@
                } else {
                    Seq::<char>::empty()
                })
                &&& final(self).cursor_to_end
                &&& r is None
            },
            (key == ConsoleKey::Up && old(self).input_history_pos < 1) || (key == ConsoleKey::Down
                && old(self).input_history_pos >= old(self).input_history@.len()) || key == ConsoleKey::Other
                ==> *final(self) == *old(self) && r is None,
            key == ConsoleKey::Return ==> {
                &&& final(self).scroll_to_bottom
                &&& (old(self).input@.len() == 0 ==> {
                    &&& r is None
                    &&& final(self).input_history == old(self).input_history
                    &&& final(self).input_history_pos == old(self).input_history_pos
                    &&& final(self).input == old(self).input
                })
                &&& (old(self).input@.len() > 0 ==> {
                    &&& r matches Some(line) && line@ == old(self).input@
                    &&& final(self).input@.len() == 0
                    &&& if old(self).input_history@.len() > 0 && old(self).input_history@.last()@
                        == old(self).input@ {
                        &&& final(self).input_history == old(self).input_history
                        &&& final(self).input_history_pos == old(self).input_history_pos
                    } else {
                        &&& final(self).input_history@ == old(self).input_history@.push(old(self).input)
                        &&& final(self).input_history_pos == final(self).input_history@.len()
                    }
                })
            },
    {
        match key {
            ConsoleKey::Escape => {
                self.defocus_textedit = true;
                None
            },
            ConsoleKey::Return => self.submit(),
            ConsoleKey::Up => {
                if self.input_history_pos < 1 {
                    return None;
                }
                self.cursor_to_end = true;
                self.input_history_pos = self.input_history_pos - 1;
                self.input = self.input_history[self.input_history_pos].clone();
                None
            },
            ConsoleKey::Down => {
                if self.input_history_pos >= self.input_history.len() {
                    return None;
                }
                self.cursor_to_end = true;
                self.input_history_pos = self.input_history_pos + 1;
                if self.input_history_pos < self.input_history.len() {
                    self.input = self.input_history[self.input_history_pos].clone();
                } else {
                    self.input = String::new();
                }
                None
            },
            ConsoleKey::Other => None,
        }
    }

    fn submit(&mut self) -> (r: Option<String>)
        requires
            old(self).input_history_pos <= old(self).input_history@.len(),
        ensures
            final(self).input_history_pos <= final(self).input_history@.len(),
            final(self).messages == old(self).messages,
            final(self).scroll_to_bottom,
            old(self).input@.len() == 0 ==> {
                &&& r is None
                &&& final(self).input_history == old(self).input_history
                &&& final(self).input_history_pos == old(self).input_history_pos
                &&& final(self).input == old(self).input
            },
            old(self).input@.len() > 0 ==> {
                &&& r matches Some(line) && line@ == old(self).input@
                &&& final(self).input@.len() == 0
                &&& if old(self).input_history@.len() > 0 && old(self).input_history@.last()@ == old(self).input@ {
                    &&& final(self).input_history == old(self).input_history
                    &&& final(self).input_history_pos == old(self).input_history_pos
                } else {
                    &&& final(self).input_history@ == old(self).input_history@.push(old(self).input)
                    &&& final(self).input_history_pos == final(self).input_history@.len()
                }
            },
    {
        if self.input.as_str().unicode_len() == 0 {
            self.scroll_to_bottom = true;
            return None;
        }
        let n = self.input_history.len();
        let repeat = n > 0 && str_eq(self.input_history[n - 1].as_str(), self.input.as_str());
        if !repeat {
            self.input_history.push(self.input.clone());
            self.input_history_pos = self.input_history.len();
        }
        let mut line = String::new();
        std::mem::swap(&mut line, &mut self.input);
        self.scroll_to_bottom = true;
        Some(line)
    }
}

/// Collects the bytes the logging backend writes until a line ends.
#[derive(Debug)]
pub struct LineBuffer {
    pub buffer: Vec<u8>,
}

impl LineBuffer {
    pub fn new() -> (r: LineBuffer)
        ensures
            r.buffer@.len() == 0,
    {
        LineBuffer { buffer: Vec::new() }
    }

    /// Takes a write of `buf`, which must not be empty. A write that starts
    /// with a newline ends the line: what was buffered is handed back (for
    /// sending as a log message) and the buffer empties; the rest of such a
    /// write is dropped. Any other write is buffered.
    pub fn write(&mut self, buf: &[u8]) -> (r: Option<Vec<u8>>)
        requires
            buf@.len() > 0,
        ensures
            buf@[0] == 10 ==> (r matches Some(line) && line@ == old(self).buffer@ && final(self).buffer@.len() == 0),
            buf@[0] != 10 ==> r is None && final(self).buffer@ == old(self).buffer@ + buf@,
    {
        if buf[0] == 10 {
            let mut line: Vec<u8> = Vec::new();
            std::mem::swap(&mut line, &mut self.buffer);
            Some(line)
        } else {
            let mut i: usize = 0;
            let ghost start = self.buffer@;
            while i < buf.len()
                invariant
                    i <= buf@.len(),
                    self.buffer@ == start + buf@.take(i as int),
                decreases buf@.len() - i,
            {
                self.buffer.push(buf[i]);
                assert(buf@.take(i + 1) =~= buf@.take(i as int).push(buf@[i as int]));
                i = i + 1;
            }
            assert(buf@.take(i as int) =~= buf@);
            None
        }
    }

    /// Empties the buffer, handing back what was in it.
    pub fn flush(&mut self) -> (r: Vec<u8>)
        ensures
            r@ == old(self).buffer@,
            final(self).buffer@.len() == 0,
    {
        let mut line: Vec<u8> = Vec::new();
        std::mem::swap(&mut line, &mut self.buffer);
        line
    }
}

} // verus!
