//! The in-game command line: text entry with a cursor, a command history,
//! and the last lines of output.

use vstd::prelude::*;
use std::collections::VecDeque;
use crate::node::{cuts_inside_char, parse_command, Node, NodeRunner};
use crate::os_input::TextChar;
use crate::text::{char_utf8_len, chars_of, insert_char_at_byte, remove_char_at_byte, split_chars,
    string_from_chars, trim_end_chars};

verus! {

/// The most lines of output that are kept.
pub const OUTPUT_LINES: usize = 100;

/// The abstract state of a command line.
pub struct CommandLineState {
    /// -1 when not browsing the history, else the history entry shown
    pub history_index: int,
    /// the cursor, compared with the byte offsets of the command's characters
    pub cursor: int,
    /// earlier commands, latest first
    pub history: Seq<Seq<char>>,
    pub command: Seq<char>,
    /// output lines, latest first
    pub output: Seq<Seq<char>>,
    pub running: bool,
}

/// The keys the command line reacts to, as pressed this frame.
#[derive(Clone, Copy, Debug)]
pub struct CommandKeys {
    /// the key that opens and closes the command line
    pub toggle: bool,
    pub submit: bool,
    pub home: bool,
    pub end: bool,
    pub left: bool,
    pub right: bool,
    pub up: bool,
    pub down: bool,
}

/// The output after adding `line` as the latest line, dropping the oldest
/// line when the output is full.
pub open spec fn add_line(output: Seq<Seq<char>>, line: Seq<char>) -> Seq<Seq<char>> {
    seq![line] + if output.len() >= OUTPUT_LINES {
        output.drop_last()
    } else {
        output
    }
}

/// The output after adding each of `lines` in turn.
pub open spec fn add_lines(output: Seq<Seq<char>>, lines: Seq<Seq<char>>) -> Seq<Seq<char>>
    decreases lines.len(),
{
    if lines.len() == 0 {
        output
    } else {
        add_line(add_lines(output, lines.drop_last()), lines.last())
    }
}

/// The state after typing one character or backspace.
pub open spec fn type_one(st: CommandLineState, t: TextChar) -> CommandLineState {
    match t {
        TextChar::Char(c) => CommandLineState {
            command: crate::text::insert_at_byte(st.command, st.cursor, c),
            cursor: st.cursor + 1,
            history_index: -1,
            ..st
        },
        TextChar::Back => if st.cursor > 0 {
            CommandLineState {
                cursor: st.cursor - 1,
                command: crate::text::remove_at_byte(st.command, st.cursor - 1),
                history_index: -1,
                ..st
            }
        } else {
            CommandLineState { history_index: -1, ..st }
        },
    }
}

/// The state after typing each of `text` in turn.
pub open spec fn type_text(st: CommandLineState, text: Seq<TextChar>) -> CommandLineState
    decreases text.len(),
{
    if text.len() == 0 {
        st
    } else {
        type_one(type_text(st, text.drop_last()), text.last())
    }
}

/// The state after submitting the command: it is echoed to the output and
/// stored in the history without trailing whitespace, and the entry is cleared.
pub open spec fn submit(st: CommandLineState) -> CommandLineState {
    let trimmed = crate::text::trim_end(st.command);
    CommandLineState {
        output: add_line(st.output, seq!['→'] + trimmed),
        history: seq![trimmed] + st.history,
        history_index: -1,
        command: seq![],
        cursor: 0,
        ..st
    }
}

/// Home puts the cursor at the start.
pub open spec fn nav_home(st: CommandLineState, pressed: bool) -> CommandLineState {
    if pressed {
        CommandLineState { cursor: 0, ..st }
    } else {
        st
    }
}

/// End puts the cursor after the last character.
pub open spec fn nav_end(st: CommandLineState, pressed: bool) -> CommandLineState {
    if pressed {
        CommandLineState { cursor: st.command.len() as int, ..st }
    } else {
        st
    }
}

/// Left moves the cursor back unless it is at the start.
pub open spec fn nav_left(st: CommandLineState, pressed: bool) -> CommandLineState {
    if pressed && st.cursor > 0 {
        CommandLineState { cursor: st.cursor - 1, ..st }
    } else {
        st
    }
}

/// Right moves the cursor forward unless it is at the end.
pub open spec fn nav_right(st: CommandLineState, pressed: bool) -> CommandLineState {
    if pressed && st.cursor < st.command.len() {
        CommandLineState { cursor: st.cursor + 1, ..st }
    } else {
        st
    }
}

/// Up recalls the next older command, if there is one.
pub open spec fn nav_up(st: CommandLineState, pressed: bool) -> CommandLineState {
    if pressed && st.history_index + 1 < st.history.len() {
        CommandLineState {
            history_index: st.history_index + 1,
            command: st.history[st.history_index + 1],
            cursor: st.history[st.history_index + 1].len() as int,
            ..st
        }
    } else {
        st
    }
}

/// Down recalls the next newer command, or clears the entry after the newest.
pub open spec fn nav_down(st: CommandLineState, pressed: bool) -> CommandLineState {
    if pressed && st.history_index > 0 {
        CommandLineState {
            history_index: st.history_index - 1,
            command: st.history[st.history_index - 1],
            cursor: st.history[st.history_index - 1].len() as int,
            ..st
        }
    } else if pressed && st.history_index == 0 {
        CommandLineState { history_index: -1, command: seq![], cursor: 0, ..st }
    } else {
        st
    }
}

/// The state after the cursor keys of this frame, in the order home, end,
/// left, right, up (older history entry), down (newer history entry).
pub open spec fn navigate(st: CommandLineState, keys: CommandKeys) -> CommandLineState {
    nav_down(
        nav_up(
            nav_right(nav_left(nav_end(nav_home(st, keys.home), keys.end), keys.left), keys.right),
            keys.up,
        ),
        keys.down,
    )
}

/// The state after a frame, and the command to run if one was submitted.
pub open spec fn step_state(
    st: CommandLineState,
    keys: CommandKeys,
    text: Seq<TextChar>,
) -> (CommandLineState, Option<Seq<char>>) {
    if keys.toggle {
        (CommandLineState { running: !st.running, ..st }, None)
    } else if !st.running {
        (st, None)
    } else {
        let typed = type_text(st, text);
        if keys.submit {
            (navigate(submit(typed), keys), Some(typed.command))
        } else {
            (navigate(typed, keys), None)
        }
    }
}

/// The answer to the command `cmd` run on `root`: the root's reply to its
/// tokens, or why it is not a command.
pub open spec fn command_result<T: Node>(root: T, cmd: Seq<char>) -> Seq<char> {
    match parse_command(cmd) {
        Ok(ts) => root.node_reply(ts),
        Err(e) => e,
    }
}

/// Whether the command `cmd` can be run on `root`: reading it does not cut
/// inside a character, and when it is a command, running it on `root` ends.
pub open spec fn command_runs<T: Node>(root: T, cmd: Seq<char>) -> bool {
    &&& !cuts_inside_char(cmd)
    &&& parse_command(cmd) matches Ok(ts) ==> root.node_runs(ts)
}

/// Whether `after` is `root` after running the command `cmd` on it.
pub open spec fn command_changes<T: Node>(root: T, cmd: Seq<char>, after: T) -> bool {
    match parse_command(cmd) {
        Ok(ts) => root.node_changes(ts, &after),
        Err(_) => after == root,
    }
}

/// The text shown while the command line is open: the prompt and the
/// command with a cursor mark.
pub open spec fn prompt(st: CommandLineState) -> Seq<char> {
    seq!['→'] + crate::text::insert_at_byte(st.command, st.cursor, '■')
}

/// A command line: closed until toggled, then it takes typed text and runs
/// the submitted command.
pub struct CommandLine {
    history_index: isize,
    cursor: usize,
    history: Vec<String>,
    command: Vec<char>,
    output: VecDeque<String>,
    running: bool,
}

impl View for CommandLine {
    type V = CommandLineState;

    closed spec fn view(&self) -> CommandLineState {
        CommandLineState {
            history_index: self.history_index as int,
            cursor: self.cursor as int,
            history: self.history@.map_values(|s: String| s@),
            command: self.command@,
            output: self.output@.map_values(|s: String| s@),
            running: self.running,
        }
    }
}

/// The cursor never passes the end of the command, the history index names
/// a history entry or is -1, and the output holds at most the kept lines.
pub open spec fn state_wf(st: CommandLineState) -> bool {
    &&& 0 <= st.cursor <= st.command.len()
    &&& -1 <= st.history_index < st.history.len()
    &&& st.output.len() <= OUTPUT_LINES
}

impl CommandLine {
    pub closed spec fn wf(&self) -> bool {
        &&& state_wf(self@)
        &&& self.history@.len() < isize::MAX
    }

    /// A well formed command line keeps its cursor within the command and
    /// its history index within the history (or at -1); every operation
    /// keeps it well formed.
    pub proof fn law_cursor_and_history_index_in_range(&self)
        requires
            self.wf(),
        ensures
            0 <= self@.cursor <= self@.command.len(),
            -1 <= self@.history_index < self@.history.len(),
            state_wf(self@),
    {
    }

    /// How many more commands the history has room for.
    pub closed spec fn history_room(&self) -> int {
        isize::MAX - 1 - self.history@.len()
    }

    pub fn new() -> (c: Self)
        ensures
            c.wf(),
            c@.history_index == -1,
            c@.cursor == 0,
            c@.history.len() == 0,
            c@.command.len() == 0,
            c@.output.len() == 0,
            !c@.running,
    {
        let c = CommandLine {
            history_index: -1,
            cursor: 0,
            history: Vec::new(),
            command: Vec::new(),
            output: VecDeque::new(),
            running: false,
        };
        proof {
            assert(c@.history =~= Seq::<Seq<char>>::empty());
            assert(c@.output =~= Seq::<Seq<char>>::empty());
        }
        c
    }

    /// Adds a line of output as the latest line, dropping the oldest when full.
    pub fn output_add(&mut self, line: String)
        requires
            old(self).wf(),
        ensures
            final(self).wf(),
            final(self)@ == (CommandLineState { output: add_line(old(self)@.output, line@), ..old(self)@ }),
    {
        let ghost out = self.output@;
        if self.output.len() >= OUTPUT_LINES {
            self.output.pop_back();
        }
        self.output.push_front(line);
        proof {
            assert(self.output@.map_values(|s: String| s@) =~= add_line(
                out.map_values(|s: String| s@),
                line@,
            ));
        }
    }

    /// Adds every line of `result` (split at newlines) to the output.
    pub fn add_result(&mut self, result: &str)
        requires
            old(self).wf(),
        ensures
            final(self).wf(),
            final(self)@ == (CommandLineState {
                output: add_lines(old(self)@.output, crate::text::split_on(result@, '\n')),
                ..old(self)@
            }),
    {
        let chars = chars_of(result);
        let lines = split_chars(&chars, '\n');
        let ghost pieces = crate::text::split_on(result@, '\n');
        let mut i: usize = 0;
        while i < lines.len()
            invariant
                0 <= i <= lines@.len(),
                lines@.len() == pieces.len(),
                forall|k: int| 0 <= k < lines@.len() ==> #[trigger] lines@[k]@ == pieces[k],
                self.wf(),
                self@ == (CommandLineState {
                    output: add_lines(old(self)@.output, pieces.take(i as int)),
                    ..old(self)@
                }),
            decreases lines@.len() - i,
        {
            proof {
                assert(pieces.take(i + 1).drop_last() =~= pieces.take(i as int));
            }
            let line = string_from_chars(&lines[i]);
            self.output_add(line);
            i = i + 1;
        }
        proof {
            assert(pieces.take(pieces.len() as int) =~= pieces);
        }
    }

    /// The command line is currently in use.
    /// Therefore no other os_inputs should be accepted.
    pub fn block(&self) -> (r: bool)
        ensures
            r == self@.running,
    {
        self.running
    }

    /// The lines to show: the prompt line then the output, while the command
    /// line is open; nothing while it is closed.
    pub fn output(&self) -> (r: Vec<String>)
        ensures
            self@.running ==> r@.map_values(|s: String| s@) == seq![prompt(self@)] + self@.output,
            !self@.running ==> r@.len() == 0,
    {
        let mut result: Vec<String> = Vec::new();
        if self.running {
            let marked = insert_char_at_byte(&self.command, self.cursor, '■');
            let mut line: Vec<char> = Vec::new();
            line.push('→');
            let mut j: usize = 0;
            while j < marked.len()
                invariant
                    0 <= j <= marked@.len(),
                    line@ == seq!['→'] + marked@.take(j as int),
                decreases marked@.len() - j,
            {
                proof {
                    assert(marked@.take(j + 1) =~= marked@.take(j as int).push(marked@[j as int]));
                }
                line.push(marked[j]);
                j = j + 1;
            }
            proof {
                assert(marked@.take(marked@.len() as int) =~= marked@);
            }
            result.push(string_from_chars(&line));
            let mut k: usize = 0;
            while k < self.output.len()
                invariant
                    0 <= k <= self.output@.len(),
                    result@.len() == k + 1,
                    result@[0]@ == prompt(self@),
                    forall|q: int| 0 <= q < k ==> #[trigger] result@[q + 1]@ == self.output@[q]@,
                decreases self.output@.len() - k,
            {
                let s = self.output[k].clone();
                result.push(s);
                k = k + 1;
            }
            proof {
                let lhs = result@.map_values(|s: String| s@);
                let rhs = seq![prompt(self@)] + self@.output;
                assert forall|q: int| 0 <= q < lhs.len() implies lhs[q] == rhs[q] by {
                    if q > 0 {
                        assert(result@[(q - 1) + 1]@ == self.output@[q - 1]@);
                    }
                }
                assert(lhs =~= rhs);
            }
        }
        result
    }

    /// Takes one typed character or backspace.
    fn type_char(&mut self, t: TextChar)
        requires
            old(self).wf(),
        ensures
            final(self).wf(),
            final(self)@ == type_one(old(self)@, t),
            final(self).history@ == old(self).history@,
    {
        match t {
            TextChar::Char(c) => {
                let ghost before = self@;
                self.command = insert_char_at_byte(&self.command, self.cursor, c);
                proof {
                    lemma_insert_len(before.command, before.cursor, c);
                }
                let n = self.command.len();
                assert(self.cursor < n);
                self.cursor = self.cursor + 1;
            },
            TextChar::Back => {
                if self.cursor > 0 {
                    self.cursor = self.cursor - 1;
                    let ghost before = self.command@;
                    self.command = remove_char_at_byte(&self.command, self.cursor);
                    proof {
                        lemma_remove_len(before, self.cursor as int);
                    }
                }
            },
        }
        self.history_index = -1;
    }

    /// Echoes the command to the output, stores it in the history and clears
    /// the entry. Returns the command as typed.
    fn submit_command(&mut self) -> (run: String)
        requires
            old(self).wf(),
            old(self).history_room() > 0,
        ensures
            final(self).wf(),
            final(self)@ == submit(old(self)@),
            run@ == old(self)@.command,
    {
        let ghost typed = self@;
        let run = string_from_chars(&self.command);
        let trimmed = trim_end_chars(&self.command);
        let mut echo: Vec<char> = Vec::new();
        echo.push('→');
        let mut j: usize = 0;
        while j < trimmed.len()
            invariant
                0 <= j <= trimmed@.len(),
                echo@ == seq!['→'] + trimmed@.take(j as int),
            decreases trimmed@.len() - j,
        {
            proof {
                assert(trimmed@.take(j + 1) =~= trimmed@.take(j as int).push(trimmed@[j as int]));
            }
            echo.push(trimmed[j]);
            j = j + 1;
        }
        proof {
            assert(trimmed@.take(trimmed@.len() as int) =~= trimmed@);
        }
        self.output_add(string_from_chars(&echo));
        self.history.insert(0, string_from_chars(&trimmed));
        self.history_index = -1;
        self.command = Vec::new();
        self.cursor = 0;
        proof {
            assert(self@.history =~= seq![crate::text::trim_end(typed.command)] + typed.history);
            assert(self@.command =~= Seq::<char>::empty());
            assert(self@ == submit(typed));
        }
        run
    }

    fn key_home(&mut self, pressed: bool)
        requires
            old(self).wf(),
        ensures
            final(self).wf(),
            final(self)@ == nav_home(old(self)@, pressed),
    {
        if pressed {
            self.cursor = 0;
        }
    }

    fn key_end(&mut self, pressed: bool)
        requires
            old(self).wf(),
        ensures
            final(self).wf(),
            final(self)@ == nav_end(old(self)@, pressed),
    {
        if pressed {
            self.cursor = self.command.len();
        }
    }

    fn key_left(&mut self, pressed: bool)
        requires
            old(self).wf(),
        ensures
            final(self).wf(),
            final(self)@ == nav_left(old(self)@, pressed),
    {
        if pressed && self.cursor > 0 {
            self.cursor = self.cursor - 1;
        }
    }

    fn key_right(&mut self, pressed: bool)
        requires
            old(self).wf(),
        ensures
            final(self).wf(),
            final(self)@ == nav_right(old(self)@, pressed),
    {
        if pressed && self.cursor < self.command.len() {
            self.cursor = self.cursor + 1;
        }
    }

    fn key_up(&mut self, pressed: bool)
        requires
            old(self).wf(),
        ensures
            final(self).wf(),
            final(self)@ == nav_up(old(self)@, pressed),
    {
        if pressed && self.history_index + 1 < self.history.len() as isize {
            self.history_index = self.history_index + 1;
            let recalled = chars_of(self.history[self.history_index as usize].as_str());
            self.command = recalled;
            self.cursor = self.command.len();
        }
    }

    fn key_down(&mut self, pressed: bool)
        requires
            old(self).wf(),
        ensures
            final(self).wf(),
            final(self)@ == nav_down(old(self)@, pressed),
    {
        if pressed {
            if self.history_index > 0 {
                self.history_index = self.history_index - 1;
                let recalled = chars_of(self.history[self.history_index as usize].as_str());
                self.command = recalled;
                self.cursor = self.command.len();
            } else if self.history_index == 0 {
                self.history_index = -1;
                self.command = Vec::new();
                self.cursor = 0;
                proof {
                    assert(self.command@ =~= Seq::<char>::empty());
                }
            }
        }
    }

    /// Applies the cursor keys of a frame.
    fn navigate_keys(&mut self, keys: &CommandKeys)
        requires
            old(self).wf(),
        ensures
            final(self).wf(),
            final(self)@ == navigate(old(self)@, *keys),
    {
        self.key_home(keys.home);
        self.key_end(keys.end);
        self.key_left(keys.left);
        self.key_right(keys.right);
        self.key_up(keys.up);
        self.key_down(keys.down);
    }

    /// Runs the command `command` on `root` and adds its answer (or why it
    /// is not a command) to the output, line by line.
    pub fn run_command<T: Node>(&mut self, command: &str, root: &mut T)
        requires
            old(self).wf(),
            command_runs(*old(root), command@),
        ensures
            final(self).wf(),
            final(self)@ == (CommandLineState {
                output: add_lines(
                    old(self)@.output,
                    crate::text::split_on(command_result(*old(root), command@), '\n'),
                ),
                ..old(self)@
            }),
            command_changes(*old(root), command@, *final(root)),
    {
        let result = match NodeRunner::new(command) {
            Ok(runner) => root.node_step(runner),
            Err(msg) => msg,
        };
        self.add_result(result.as_str());
    }

    /// One frame of the command line with the data it walks, `root`: the
    /// typed text and the keys are taken (see `step`), and a submitted
    /// command is run on `root` with its answer added to the output.
    pub fn step_with<T: Node>(&mut self, keys: &CommandKeys, text: &[TextChar], root: &mut T)
        requires
            old(self).wf(),
            old(self).history_room() > 0,
            step_state(old(self)@, *keys, text@).1 matches Some(c) ==> command_runs(*old(root), c),
        ensures
            final(self).wf(),
            match step_state(old(self)@, *keys, text@).1 {
                Some(c) => {
                    &&& final(self)@ == (CommandLineState {
                        output: add_lines(
                            step_state(old(self)@, *keys, text@).0.output,
                            crate::text::split_on(command_result(*old(root), c), '\n'),
                        ),
                        ..step_state(old(self)@, *keys, text@).0
                    })
                    &&& command_changes(*old(root), c, *final(root))
                },
                None => final(self)@ == step_state(old(self)@, *keys, text@).0 && *final(root) == *old(root),
            },
    {
        match self.step(keys, text) {
            Some(command) => self.run_command(command.as_str(), root),
            None => {},
        }
    }

    /// Takes the typed text and the keys of one frame. Returns the command to
    /// run when one is submitted; its result is then added with `add_result`.
    pub fn step(&mut self, keys: &CommandKeys, text: &[TextChar]) -> (run: Option<String>)
        requires
            old(self).wf(),
            old(self).history_room() > 0,
        ensures
            final(self).wf(),
            final(self)@ == step_state(old(self)@, *keys, text@).0,
            run matches Some(s) ==> step_state(old(self)@, *keys, text@).1 == Some(s@),
            run is None ==> step_state(old(self)@, *keys, text@).1 is None,
    {
        if keys.toggle {
            self.running = !self.running;
            return None;
        }
        if !self.running {
            return None;
        }
        let ghost st0 = self@;
        let mut i: usize = 0;
        while i < text.len()
            invariant
                0 <= i <= text@.len(),
                self.wf(),
                old(self).history_room() > 0,
                self.history@ == old(self).history@,
                self@ == type_text(st0, text@.take(i as int)),
            decreases text@.len() - i,
        {
            proof {
                assert(text@.take(i + 1).drop_last() =~= text@.take(i as int));
            }
            self.type_char(text[i]);
            i = i + 1;
        }
        proof {
            assert(text@.take(text@.len() as int) =~= text@);
        }
        let mut run: Option<String> = None;
        if keys.submit {
            run = Some(self.submit_command());
        }
        self.navigate_keys(keys);
        run
    }
}

proof fn lemma_insert_len(s: Seq<char>, at: int, c: char)
    ensures
        crate::text::insert_at_byte(s, at, c).len() == s.len() + 1,
    decreases s.len(),
{
    if s.len() > 0 && at != 0 {
        lemma_insert_len(s.drop_first(), at - crate::text::utf8_len(s[0]), c);
    }
}

proof fn lemma_remove_len(s: Seq<char>, at: int)
    ensures
        crate::text::remove_at_byte(s, at).len() <= s.len(),
        crate::text::remove_at_byte(s, at).len() >= s.len() - 1,
    decreases s.len(),
{
    if s.len() > 0 && at != 0 {
        lemma_remove_len(s.drop_first(), at - crate::text::utf8_len(s[0]));
    }
}

/// Typing a character and then a backspace leaves the command as it was,
/// when the cursor is at a character boundary of the command.
pub proof fn law_backspace_undoes_typing(st: CommandLineState, c: char)
    requires
        crate::text::is_char_boundary(st.command, st.cursor),
    ensures
        type_one(type_one(st, TextChar::Char(c)), TextChar::Back).command == st.command,
        type_one(type_one(st, TextChar::Char(c)), TextChar::Back).cursor == st.cursor,
{
    crate::text::law_remove_undoes_insert(st.command, st.cursor, c);
}

} // verus!
