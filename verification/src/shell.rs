//! The input engine: the key-event state machine that owns the edit
//! buffer and cursor, the bounded history store with its navigation, and
//! the dispatch decision for an accepted command line.
//!
//! The engine handles one key event at a time and reports what the
//! embedding loop should do next: keep reading (and how much of the line
//! to repaint), run a finished command, or leave. Cursor positions count
//! characters, so edits never split a multi-byte character.

use crate::completion::{
    spec_applied, spec_candidates_ok, spec_completion_prefix, Completion, CompletionEnv,
};
use crate::config::{spec_lookup_alias, Config};
use crate::text::str_eq;
use crate::utils::{home_view, spec_is_builtin, spec_tokenize, spec_trim, Utils};
use vstd::prelude::*;

verus! {

/// A key event, as the embedding program decodes it from the terminal.
pub enum KeyEvent {
    Char(char),
    CtrlC,
    CtrlD,
    Enter,
    Backspace,
    Delete,
    Left,
    Right,
    Up,
    Down,
    Home,
    End,
    Tab,
    Other,
}

/// How much of the line must be repainted after a key was handled.
pub enum RedrawHint {
    NoChange,
    CursorOnly,
    FullLine,
}

/// What the embedding loop does with the outcome of one key.
pub enum KeyOutcome {
    Continue(RedrawHint),
    CommandReady(String),
    Exit,
}

/// What a submitted command line asks the embedding program to run.
pub enum CommandAction {
    Nothing,
    Alias(String),
    Builtin(String, Vec<String>),
    External(String, Vec<String>),
}

/// A completion state with no candidates and no session.
pub open spec fn completion_cleared(c: Completion) -> bool {
    &&& c.completions@.len() == 0
    &&& c.completion_index is None
    &&& c.completion_prefix@.len() == 0
    &&& c.original_input_before_completion@.len() == 0
    &&& c.completion_start_pos == 0
}

/// History after a line is accepted: an immediate repeat adds nothing,
/// otherwise the line is appended and the oldest entries give way while
/// the capacity is exceeded.
pub open spec fn spec_push_history(h: Seq<Seq<char>>, cmd: Seq<char>, cap: int) -> Seq<Seq<char>> {
    if h.len() > 0 && h.last() == cmd {
        h
    } else {
        let appended = h.push(cmd);
        if appended.len() > cap {
            appended.skip(appended.len() - cap)
        } else {
            appended
        }
    }
}

/// A line accepted into a full history evicts the oldest entry: the
/// stored log slides forward by one and the new line goes on the end.
pub proof fn lemma_history_eviction(h: Seq<Seq<char>>, cmd: Seq<char>, cap: int)
    requires
        cap >= 1,
        h.len() == cap,
        !(h.len() > 0 && h.last() == cmd),
    ensures
        spec_push_history(h, cmd, cap) == h.skip(1).push(cmd),
{
    let appended = h.push(cmd);
    assert(spec_push_history(h, cmd, cap) == appended.skip(1));
    assert(appended.skip(1) =~= h.skip(1).push(cmd));
}

/// A line that merely equals some earlier, non-adjacent entry is still
/// appended — only an immediate repeat is suppressed: afterwards the
/// newest entry is the accepted line, and the length grew by one unless
/// the capacity forced an eviction.
pub proof fn lemma_history_no_global_dedup(h: Seq<Seq<char>>, cmd: Seq<char>, cap: int)
    requires
        cap >= 1,
        h.len() > 0,
        h.last() != cmd,
    ensures
        spec_push_history(h, cmd, cap).last() == cmd,
        spec_push_history(h, cmd, cap).len() == if h.len() + 1 > cap {
            cap as nat
        } else {
            (h.len() + 1) as nat
        },
{
    let appended = h.push(cmd);
    if appended.len() > cap {
        assert(spec_push_history(h, cmd, cap) == appended.skip(appended.len() - cap));
        assert(appended.skip(appended.len() - cap).last() == appended.last());
    }
}

/// Accepting the same line twice in a row stores it once: the second
/// acceptance leaves the history exactly as the first left it.
pub proof fn lemma_history_repeat_suppressed(h: Seq<Seq<char>>, cmd: Seq<char>, cap: int)
    requires
        cap >= 0,
    ensures
        spec_push_history(spec_push_history(h, cmd, cap), cmd, cap) == spec_push_history(
            h,
            cmd,
            cap,
        ),
{
    let h1 = spec_push_history(h, cmd, cap);
    if h1.len() > 0 && h1.last() == cmd {
    } else if h.len() > 0 && h.last() == cmd {
        assert(h1 == h);
    } else {
        let appended = h.push(cmd);
        if appended.len() > cap {
            assert(h1 == appended.skip(appended.len() - cap));
            if cap > 0 {
                assert(h1.last() == appended.last());
                assert(false);
            } else {
                assert(h1.len() == 0);
                let appended2 = h1.push(cmd);
                assert(appended2.len() > cap);
                assert(spec_push_history(h1, cmd, cap) == appended2.skip(appended2.len() - cap));
                assert(appended2.skip(appended2.len() - cap) =~= h1);
            }
        } else {
            assert(h1 == appended);
            assert(h1.last() == cmd);
            assert(false);
        }
    }
}

/// The shell's interactive state: configuration, accepted commands oldest
/// first, the edit buffer with its cursor, the optional history-browsing
/// index, and the completion engine's state.
pub struct Shell {
    pub config: Config,
    pub history: Vec<String>,
    pub current_input: String,
    pub cursor_pos: usize,
    pub history_index: Option<usize>,
    pub completion: Completion,
}

/// The history-navigation transition for one Up (`up`) or Down press:
/// Up enters browsing at the newest entry or moves toward the oldest;
/// Down moves toward the newest and, past it, stops browsing and clears
/// the buffer. Out-of-range moves do nothing. `moved` says whether the
/// buffer changed and must be repainted.
///
/// Entering browsing overwrites the in-progress line without saving it, so
/// text typed on a fresh line is gone once Up is pressed; leaving browsing
/// past the newest entry deliberately ends on an empty buffer.
pub open spec fn spec_navigate(pre: Shell, post: Shell, up: bool, moved: bool) -> bool {
    &&& post.config == pre.config
    &&& post.history == pre.history
    &&& post.completion == pre.completion
    &&& {
        let n = pre.history@.len() as int;
        let hist = pre.history.deep_view();
        if n == 0 {
            !moved && post == pre
        } else {
            match pre.history_index {
                None => if up {
                    &&& moved
                    &&& post.history_index == Some((n - 1) as usize)
                    &&& post.current_input@ == hist[n - 1]
                    &&& post.cursor_pos == hist[n - 1].len()
                } else {
                    !moved && post == pre
                },
                Some(i) => if up {
                    if i > 0 {
                        &&& moved
                        &&& post.history_index == Some((i - 1) as usize)
                        &&& post.current_input@ == hist[i as int - 1]
                        &&& post.cursor_pos == hist[i as int - 1].len()
                    } else {
                        !moved && post == pre
                    }
                } else {
                    if (i as int) < n - 1 {
                        &&& moved
                        &&& post.history_index == Some((i + 1) as usize)
                        &&& post.current_input@ == hist[i as int + 1]
                        &&& post.cursor_pos == hist[i as int + 1].len()
                    } else {
                        &&& moved
                        &&& post.history_index is None
                        &&& post.current_input@.len() == 0
                        &&& post.cursor_pos == 0
                    }
                },
            }
        }
    }
}

/// The Tab transition. With no candidate list: classify the buffer,
/// generate candidates and, when some exist, start a session anchored
/// where the prefix begins and apply the first candidate. With an active
/// list: select the next candidate, wrapping around, and reapply against
/// the snapshot. `applied` says whether the buffer was rewritten.
pub open spec fn spec_tab(pre: Shell, post: Shell, env: &CompletionEnv, applied: bool) -> bool {
    &&& post.config == pre.config
    &&& post.history == pre.history
    &&& post.history_index == pre.history_index
    &&& if pre.completion.completions@.len() == 0 {
        let before = pre.current_input@.take(pre.cursor_pos as int);
        let prefix = spec_completion_prefix(before);
        &&& post.completion.completion_prefix@ == prefix
        &&& spec_candidates_ok(
            post.completion.completions.deep_view(),
            prefix,
            before,
            pre.config.aliases@,
            env.path_commands.deep_view(),
            pre.history.deep_view(),
            home_view(env.home),
            env.dirs@,
        )
        &&& if post.completion.completions@.len() == 0 {
            &&& !applied
            &&& post.current_input == pre.current_input
            &&& post.cursor_pos == pre.cursor_pos
            &&& post.completion.completion_index is None
            &&& post.completion.original_input_before_completion == pre
                .completion
                .original_input_before_completion
            &&& post.completion.completion_start_pos == pre.completion.completion_start_pos
        } else {
            let cand = post.completion.completions.deep_view()[0];
            let anchor = pre.cursor_pos - prefix.len();
            &&& applied
            &&& post.completion.completion_index == Some(0usize)
            &&& post.completion.original_input_before_completion@ == pre.current_input@
            &&& post.completion.completion_start_pos == anchor
            &&& post.current_input@ == spec_applied(
                pre.current_input@,
                anchor,
                prefix.len() as int,
                cand,
            )
            &&& post.cursor_pos == anchor + cand.len()
        }
    } else {
        let n = pre.completion.completions@.len() as int;
        let snap = pre.completion.original_input_before_completion@;
        let anchor = pre.completion.completion_start_pos as int;
        let plen = pre.completion.completion_prefix@.len() as int;
        &&& pre.completion.completion_index is Some
        &&& {
            let k = (pre.completion.completion_index->0 as int + 1) % n;
            let cand = pre.completion.completions.deep_view()[k];
            &&& applied
            &&& post.completion.completions == pre.completion.completions
            &&& post.completion.completion_prefix == pre.completion.completion_prefix
            &&& post.completion.original_input_before_completion == pre
                .completion
                .original_input_before_completion
            &&& post.completion.completion_start_pos == pre.completion.completion_start_pos
            &&& post.completion.completion_index == Some(k as usize)
            &&& post.current_input@ == spec_applied(snap, anchor, plen, cand)
            &&& post.cursor_pos == anchor + cand.len()
        }
    }
}

/// Cycling never compounds: what a Tab press on an active session leaves
/// in the buffer is computed from the session's snapshot alone, so two
/// shells sharing the same session state end with the same buffer no
/// matter what their buffers held — however often the current candidate
/// was already applied.
pub proof fn lemma_tab_applies_from_snapshot(
    pre1: Shell,
    pre2: Shell,
    post1: Shell,
    post2: Shell,
    env1: &CompletionEnv,
    env2: &CompletionEnv,
)
    requires
        pre1.completion == pre2.completion,
        pre1.completion.completions@.len() > 0,
        spec_tab(pre1, post1, env1, true),
        spec_tab(pre2, post2, env2, true),
    ensures
        post1.current_input@ == post2.current_input@,
        post1.cursor_pos == post2.cursor_pos,
        post1.completion.completion_index == post2.completion.completion_index,
{
}

impl Shell {
    /// The state invariant between key events: the cursor is a valid
    /// buffer position, a browsing index points into the history, the
    /// completion session is well formed, and a non-empty candidate list
    /// always has a selection.
    pub open spec fn wf(&self) -> bool {
        &&& self.cursor_pos <= self.current_input@.len()
        &&& (self.history_index is Some ==> (self.history_index->0 as int) < self.history@.len())
        &&& self.completion.wf()
        &&& (self.completion.completions@.len() > 0 ==> self.completion.completion_index is Some)
    }

    /// A fresh shell around a configuration: empty buffer, empty history,
    /// not browsing, no completion session.
    pub fn new(config: Config) -> (s: Shell)
        ensures
            s.config == config,
            s.history@.len() == 0,
            s.current_input@.len() == 0,
            s.cursor_pos == 0,
            s.history_index is None,
            completion_cleared(s.completion),
            s.wf(),
    {
        Shell {
            config,
            history: Vec::new(),
            current_input: String::new(),
            cursor_pos: 0,
            history_index: None,
            completion: Completion::new(),
        }
    }

    /// Records an accepted command: an immediate repeat of the last entry
    /// is dropped, and the oldest entries are evicted while the history
    /// exceeds the configured capacity.
    pub fn add_to_history(&mut self, command: String)
        ensures
            final(self).history.deep_view() == spec_push_history(
                old(self).history.deep_view(),
                command@,
                old(self).config.history_size as int,
            ),
            final(self).config == old(self).config,
            final(self).current_input == old(self).current_input,
            final(self).cursor_pos == old(self).cursor_pos,
            final(self).history_index == old(self).history_index,
            final(self).completion == old(self).completion,
    {
        let n = self.history.len();
        let is_repeat = if n > 0 {
            str_eq(self.history[n - 1].as_str(), command.as_str())
        } else {
            false
        };
        if is_repeat {
            return ;
        }
        let ghost appended = old(self).history.deep_view().push(command@);
        self.history.push(command);
        proof {
            assert(self.history.deep_view() =~= appended);
        }
        let cap = self.config.history_size;
        while self.history.len() > cap
            invariant
                self.history@.len() <= appended.len(),
                self.history.deep_view() == appended.skip(appended.len() - self.history@.len()),
                appended.len() == self.history@.len() || self.history@.len() >= cap,
                self.config == old(self).config,
                cap == self.config.history_size,
                self.current_input == old(self).current_input,
                self.cursor_pos == old(self).cursor_pos,
                self.history_index == old(self).history_index,
                self.completion == old(self).completion,
            decreases self.history@.len(),
        {
            let ghost pre = self.history.deep_view();
            self.history.remove(0);
            proof {
                assert(self.history.deep_view() =~= pre.skip(1));
                assert(pre.skip(1) =~= appended.skip(appended.len() - pre.len() + 1));
            }
        }
        proof {
            if appended.len() <= cap {
                assert(self.history.deep_view() =~= appended);
            }
        }
    }

    /// Handles one Up or Down press against the history; the result says
    /// whether the buffer changed and must be repainted.
    pub fn navigate_history(&mut self, up: bool) -> (moved: bool)
        requires
            old(self).wf(),
        ensures
            final(self).wf(),
            spec_navigate(*old(self), *final(self), up, moved),
    {
        let n = self.history.len();
        if n == 0 {
            return false;
        }
        match self.history_index {
            None => {
                if up {
                    let idx = n - 1;
                    self.history_index = Some(idx);
                    self.current_input = self.history[idx].clone();
                    self.cursor_pos = self.current_input.as_str().unicode_len();
                    true
                } else {
                    false
                }
            },
            Some(i) => {
                if up {
                    if i > 0 {
                        let idx = i - 1;
                        self.history_index = Some(idx);
                        self.current_input = self.history[idx].clone();
                        self.cursor_pos = self.current_input.as_str().unicode_len();
                        true
                    } else {
                        false
                    }
                } else {
                    if i < n - 1 {
                        let idx = i + 1;
                        self.history_index = Some(idx);
                        self.current_input = self.history[idx].clone();
                        self.cursor_pos = self.current_input.as_str().unicode_len();
                        true
                    } else {
                        self.history_index = None;
                        self.current_input = String::new();
                        self.cursor_pos = 0;
                        true
                    }
                }
            },
        }
    }

    /// Clears the buffer, cursor, browsing state and completion session,
    /// making the shell ready for the next line.
    pub fn reset_input(&mut self)
        ensures
            final(self).config == old(self).config,
            final(self).history == old(self).history,
            final(self).current_input@.len() == 0,
            final(self).cursor_pos == 0,
            final(self).history_index is None,
            completion_cleared(final(self).completion),
            final(self).wf(),
    {
        self.current_input = String::new();
        self.cursor_pos = 0;
        self.history_index = None;
        self.completion.reset();
    }

    /// Invalidates the completion session; any edit outside the
    /// completion engine must do this.
    pub fn reset_completion(&mut self)
        ensures
            final(self).config == old(self).config,
            final(self).history == old(self).history,
            final(self).current_input == old(self).current_input,
            final(self).cursor_pos == old(self).cursor_pos,
            final(self).history_index == old(self).history_index,
            completion_cleared(final(self).completion),
    {
        self.completion.reset();
    }

    /// Handles one Tab press; the result says whether the buffer was
    /// rewritten.
    pub fn handle_tab_completion(&mut self, env: &CompletionEnv) -> (applied: bool)
        requires
            old(self).wf(),
        ensures
            final(self).wf(),
            spec_tab(*old(self), *final(self), env, applied),
    {
        if self.completion.is_empty() {
            let cp = self.cursor_pos;
            self.completion.generate(
                self.current_input.as_str(),
                cp,
                &self.config,
                env,
                &self.history,
            );
            if self.completion.is_empty() {
                return false;
            }
            self.completion.start(self.current_input.as_str(), cp);
            let mut cur = self.cursor_pos;
            self.completion.apply(&mut self.current_input, &mut cur);
            self.cursor_pos = cur;
            true
        } else {
            self.completion.cycle_next();
            proof {
                vstd::std_specs::vec::axiom_spec_len(&old(self).completion.completions);
                let i = old(self).completion.completion_index->0 as int;
                let n = old(self).completion.completions@.len() as int;
                let k = (i + 1) % n;
                assert(0 <= k < n);
                assert(self.completion.completion_index->0 as int == k);
            }
            let mut cur = self.cursor_pos;
            self.completion.apply(&mut self.current_input, &mut cur);
            self.cursor_pos = cur;
            true
        }
    }

    /// Decides what an accepted command line means: records it in the
    /// history, then reports the alias expansion to re-submit, the builtin
    /// to run, or the external program to spawn. Blank lines and lines
    /// that tokenize to nothing ask for nothing.
    pub fn execute_command(&mut self, command: &str) -> (r: CommandAction)
        ensures
            final(self).config == old(self).config,
            final(self).current_input == old(self).current_input,
            final(self).cursor_pos == old(self).cursor_pos,
            final(self).history_index == old(self).history_index,
            final(self).completion == old(self).completion,
            ({
                let t = spec_trim(command@);
                if t.len() == 0 {
                    final(self).history == old(self).history && r is Nothing
                } else {
                    &&& final(self).history.deep_view() == spec_push_history(
                        old(self).history.deep_view(),
                        t,
                        old(self).config.history_size as int,
                    )
                    &&& {
                        let toks = spec_tokenize(t);
                        if toks.len() == 0 {
                            r is Nothing
                        } else {
                            match spec_lookup_alias(old(self).config.aliases@, toks[0]) {
                                Some(exp) => match r {
                                    CommandAction::Alias(a) => a@ == exp,
                                    _ => false,
                                },
                                None => if spec_is_builtin(toks[0]) {
                                    match r {
                                        CommandAction::Builtin(name, args) => name@ == toks[0]
                                            && args.deep_view() == toks.skip(1),
                                        _ => false,
                                    }
                                } else {
                                    match r {
                                        CommandAction::External(name, args) => name@ == toks[0]
                                            && args.deep_view() == toks.skip(1),
                                        _ => false,
                                    }
                                },
                            }
                        }
                    }
                }
            }),
    {
        let trimmed = Utils::trim(command);
        if trimmed.as_str().is_empty() {
            return CommandAction::Nothing;
        }
        self.add_to_history(trimmed.clone());
        let mut tokens = Utils::parse_command(trimmed.as_str());
        if tokens.len() == 0 {
            return CommandAction::Nothing;
        }
        match self.config.lookup_alias(tokens[0].as_str()) {
            Some(alias_command) => CommandAction::Alias(alias_command),
            None => {
                let name = tokens.remove(0);
                proof {
                    assert(tokens.deep_view() =~= spec_tokenize(trimmed@).skip(1));
                }
                if Utils::is_builtin(name.as_str()) {
                    CommandAction::Builtin(name, tokens)
                } else {
                    CommandAction::External(name, tokens)
                }
            },
        }
    }

    /// The state machine's single entry point: handles one key event and
    /// reports whether to keep reading, run the finished line, or leave.
    pub fn handle_key(&mut self, key: KeyEvent, env: &CompletionEnv) -> (r: KeyOutcome)
        requires
            old(self).wf(),
        ensures
            final(self).wf(),
            final(self).config == old(self).config,
            final(self).history == old(self).history,
            match key {
                KeyEvent::CtrlC => r is Exit && *final(self) == *old(self),
                KeyEvent::CtrlD => *final(self) == *old(self) && if old(
                    self,
                ).current_input@.len() == 0 {
                    r is Exit
                } else {
                    r == KeyOutcome::Continue(RedrawHint::NoChange)
                },
                KeyEvent::Enter => *final(self) == *old(self) && match r {
                    KeyOutcome::CommandReady(cmd) => cmd@ == old(self).current_input@,
                    _ => false,
                },
                KeyEvent::Char(c) => {
                    &&& r == KeyOutcome::Continue(RedrawHint::FullLine)
                    &&& final(self).current_input@ == old(self).current_input@.take(
                        old(self).cursor_pos as int,
                    ).push(c) + old(self).current_input@.skip(old(self).cursor_pos as int)
                    &&& final(self).cursor_pos == old(self).cursor_pos + 1
                    &&& final(self).history_index == old(self).history_index
                    &&& completion_cleared(final(self).completion)
                },
                KeyEvent::Backspace => {
                    &&& final(self).history_index == old(self).history_index
                    &&& completion_cleared(final(self).completion)
                    &&& if old(self).cursor_pos > 0 {
                        &&& r == KeyOutcome::Continue(RedrawHint::FullLine)
                        &&& final(self).current_input@ == old(self).current_input@.take(
                            old(self).cursor_pos - 1,
                        ) + old(self).current_input@.skip(old(self).cursor_pos as int)
                        &&& final(self).cursor_pos == old(self).cursor_pos - 1
                    } else {
                        &&& r == KeyOutcome::Continue(RedrawHint::NoChange)
                        &&& final(self).current_input == old(self).current_input
                        &&& final(self).cursor_pos == 0
                    }
                },
                KeyEvent::Delete => {
                    &&& final(self).history_index == old(self).history_index
                    &&& completion_cleared(final(self).completion)
                    &&& if old(self).cursor_pos < old(self).current_input@.len() {
                        &&& r == KeyOutcome::Continue(RedrawHint::FullLine)
                        &&& final(self).current_input@ == old(self).current_input@.take(
                            old(self).cursor_pos as int,
                        ) + old(self).current_input@.skip(old(self).cursor_pos + 1)
                        &&& final(self).cursor_pos == old(self).cursor_pos
                    } else {
                        &&& r == KeyOutcome::Continue(RedrawHint::NoChange)
                        &&& final(self).current_input == old(self).current_input
                        &&& final(self).cursor_pos == old(self).cursor_pos
                    }
                },
                KeyEvent::Left => {
                    &&& final(self).current_input == old(self).current_input
                    &&& final(self).completion == old(self).completion
                    &&& final(self).history_index == old(self).history_index
                    &&& if old(self).cursor_pos > 0 {
                        final(self).cursor_pos == old(self).cursor_pos - 1 && r
                            == KeyOutcome::Continue(RedrawHint::CursorOnly)
                    } else {
                        final(self).cursor_pos == 0 && r == KeyOutcome::Continue(
                            RedrawHint::NoChange,
                        )
                    }
                },
                KeyEvent::Right => {
                    &&& final(self).current_input == old(self).current_input
                    &&& final(self).completion == old(self).completion
                    &&& final(self).history_index == old(self).history_index
                    &&& if old(self).cursor_pos < old(self).current_input@.len() {
                        final(self).cursor_pos == old(self).cursor_pos + 1 && r
                            == KeyOutcome::Continue(RedrawHint::CursorOnly)
                    } else {
                        final(self).cursor_pos == old(self).cursor_pos && r
                            == KeyOutcome::Continue(RedrawHint::NoChange)
                    }
                },
                KeyEvent::Home => {
                    &&& final(self).current_input == old(self).current_input
                    &&& final(self).completion == old(self).completion
                    &&& final(self).history_index == old(self).history_index
                    &&& final(self).cursor_pos == 0
                    &&& r == KeyOutcome::Continue(RedrawHint::CursorOnly)
                },
                KeyEvent::End => {
                    &&& final(self).current_input == old(self).current_input
                    &&& final(self).completion == old(self).completion
                    &&& final(self).history_index == old(self).history_index
                    &&& final(self).cursor_pos == old(self).current_input@.len()
                    &&& r == KeyOutcome::Continue(RedrawHint::CursorOnly)
                },
                KeyEvent::Up => match r {
                    KeyOutcome::Continue(h) => (h is FullLine || h is NoChange) && spec_navigate(
                        *old(self),
                        *final(self),
                        true,
                        h is FullLine,
                    ),
                    _ => false,
                },
                KeyEvent::Down => match r {
                    KeyOutcome::Continue(h) => (h is FullLine || h is NoChange) && spec_navigate(
                        *old(self),
                        *final(self),
                        false,
                        h is FullLine,
                    ),
                    _ => false,
                },
                KeyEvent::Tab => match r {
                    KeyOutcome::Continue(h) => (h is FullLine || h is NoChange) && spec_tab(
                        *old(self),
                        *final(self),
                        env,
                        h is FullLine,
                    ),
                    _ => false,
                },
                KeyEvent::Other => *final(self) == *old(self) && r == KeyOutcome::Continue(
                    RedrawHint::NoChange,
                ),
            },
    {
        match key {
            KeyEvent::CtrlC => KeyOutcome::Exit,
            KeyEvent::CtrlD => {
                if self.current_input.as_str().is_empty() {
                    KeyOutcome::Exit
                } else {
                    KeyOutcome::Continue(RedrawHint::NoChange)
                }
            },
            KeyEvent::Enter => KeyOutcome::CommandReady(self.current_input.clone()),
            KeyEvent::Char(c) => {
                self.completion.reset();
                let n: usize = self.current_input.as_str().unicode_len();
                let head = self.current_input.as_str().substring_char(0, self.cursor_pos);
                let tail = self.current_input.as_str().substring_char(self.cursor_pos, n);
                let mut mid = String::from_str(head);
                mid.push(c);
                let newcur: usize = mid.as_str().unicode_len();
                self.current_input = mid.concat(tail);
                self.cursor_pos = newcur;
                KeyOutcome::Continue(RedrawHint::FullLine)
            },
            KeyEvent::Backspace => {
                self.completion.reset();
                if self.cursor_pos > 0 {
                    let n: usize = self.current_input.as_str().unicode_len();
                    let head = self.current_input.as_str().substring_char(0, self.cursor_pos - 1);
                    let tail = self.current_input.as_str().substring_char(self.cursor_pos, n);
                    self.current_input = String::from_str(head).concat(tail);
                    self.cursor_pos = self.cursor_pos - 1;
                    KeyOutcome::Continue(RedrawHint::FullLine)
                } else {
                    KeyOutcome::Continue(RedrawHint::NoChange)
                }
            },
            KeyEvent::Delete => {
                self.completion.reset();
                let n: usize = self.current_input.as_str().unicode_len();
                if self.cursor_pos < n {
                    let head = self.current_input.as_str().substring_char(0, self.cursor_pos);
                    let tail = self.current_input.as_str().substring_char(self.cursor_pos + 1, n);
                    self.current_input = String::from_str(head).concat(tail);
                    KeyOutcome::Continue(RedrawHint::FullLine)
                } else {
                    KeyOutcome::Continue(RedrawHint::NoChange)
                }
            },
            KeyEvent::Left => {
                if self.cursor_pos > 0 {
                    self.cursor_pos = self.cursor_pos - 1;
                    KeyOutcome::Continue(RedrawHint::CursorOnly)
                } else {
                    KeyOutcome::Continue(RedrawHint::NoChange)
                }
            },
            KeyEvent::Right => {
                let n: usize = self.current_input.as_str().unicode_len();
                if self.cursor_pos < n {
                    self.cursor_pos = self.cursor_pos + 1;
                    KeyOutcome::Continue(RedrawHint::CursorOnly)
                } else {
                    KeyOutcome::Continue(RedrawHint::NoChange)
                }
            },
            KeyEvent::Home => {
                self.cursor_pos = 0;
                KeyOutcome::Continue(RedrawHint::CursorOnly)
            },
            KeyEvent::End => {
                self.cursor_pos = self.current_input.as_str().unicode_len();
                KeyOutcome::Continue(RedrawHint::CursorOnly)
            },
            KeyEvent::Up => {
                let moved = self.navigate_history(true);
                if moved {
                    KeyOutcome::Continue(RedrawHint::FullLine)
                } else {
                    KeyOutcome::Continue(RedrawHint::NoChange)
                }
            },
            KeyEvent::Down => {
                let moved = self.navigate_history(false);
                if moved {
                    KeyOutcome::Continue(RedrawHint::FullLine)
                } else {
                    KeyOutcome::Continue(RedrawHint::NoChange)
                }
            },
            KeyEvent::Tab => {
                let applied = self.handle_tab_completion(env);
                if applied {
                    KeyOutcome::Continue(RedrawHint::FullLine)
                } else {
                    KeyOutcome::Continue(RedrawHint::NoChange)
                }
            },
            KeyEvent::Other => KeyOutcome::Continue(RedrawHint::NoChange),
        }
    }
}

} // verus!
