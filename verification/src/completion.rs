//! The tab-completion engine: classifies the cursor context as command or
//! path completion, generates the candidate list, and tracks the active
//! session used for cycling through candidates.
//!
//! The engine never touches the terminal or the filesystem. The embedding
//! program snapshots what generation may read — alias names, executable
//! names per `PATH` directory, directory listings and the home directory —
//! into a [`CompletionEnv`] and passes it in.

use crate::config::{AliasEntry, Config};
use crate::text::{
    insert_sorted, insert_sorted_unique, is_prefix_of, sorted, str_eq, str_starts_with,
    strictly_sorted,
};
use crate::utils::{home_view, spec_expand_tilde, spec_is_builtin, spec_tokenize, Utils};
use vstd::prelude::*;

verus! {

broadcast use vstd::seq_lib::group_to_multiset_ensures;

/// One filesystem directory entry, as handed in by the embedding program.
pub struct DirEntry {
    pub name: String,
    pub is_dir: bool,
}

/// The listing of one directory, keyed by the path the engine asks about.
pub struct DirListing {
    pub path: String,
    pub entries: Vec<DirEntry>,
}

/// A snapshot of everything candidate generation may read from outside:
/// the home directory, the names of executable regular files in each
/// `PATH` directory (in `PATH` order), and listings of the directories
/// path completion may consult. A directory missing from `dirs` simply
/// contributes no candidates, which is how unreadable directories are
/// swallowed.
pub struct CompletionEnv {
    pub home: Option<String>,
    pub path_commands: Vec<Vec<String>>,
    pub dirs: Vec<DirListing>,
}

/// The scanned slice ends in a space: the user has started a new argument.
pub open spec fn ends_with_space(s: Seq<char>) -> bool {
    s.len() > 0 && s[s.len() - 1] == ' '
}

/// Command mode: nothing typed yet, or a single token not yet finished.
pub open spec fn is_command_mode(before: Seq<char>) -> bool {
    let toks = spec_tokenize(before);
    toks.len() == 0 || (toks.len() == 1 && !ends_with_space(before))
}

/// The prefix completion tries to extend, for the buffer slice before the
/// cursor: the token being typed, or empty when a new one has not started.
pub open spec fn spec_completion_prefix(before: Seq<char>) -> Seq<char> {
    let toks = spec_tokenize(before);
    if is_command_mode(before) {
        if toks.len() > 0 {
            toks[0]
        } else {
            Seq::empty()
        }
    } else {
        if ends_with_space(before) {
            Seq::empty()
        } else {
            toks.last()
        }
    }
}

/// The first token of a history entry, if it has one.
pub open spec fn spec_first_token(cmd: Seq<char>) -> Option<Seq<char>> {
    let toks = spec_tokenize(cmd);
    if toks.len() > 0 {
        Some(toks[0])
    } else {
        None
    }
}

/// Membership in the command-mode candidate set: a builtin, an alias name,
/// an executable found in a `PATH` directory, or the first token of a
/// history entry — each filtered by the prefix.
pub open spec fn is_command_candidate(
    prefix: Seq<char>,
    aliases: Seq<AliasEntry>,
    path_cmds: Seq<Seq<Seq<char>>>,
    history: Seq<Seq<char>>,
    s: Seq<char>,
) -> bool {
    is_prefix_of(prefix, s) && (spec_is_builtin(s) || (exists|i: int|
        0 <= i < aliases.len() && (#[trigger] aliases[i]).name@ == s) || (exists|i: int, j: int|
        0 <= i < path_cmds.len() && 0 <= j < path_cmds[i].len() && #[trigger] path_cmds[i][j]
            == s) || (exists|i: int|
        0 <= i < history.len() && spec_first_token(#[trigger] history[i]) == Some(s)))
}

/// The index of the last `/`, if the sequence has one.
pub open spec fn spec_last_slash(p: Seq<char>) -> Option<int>
    decreases p.len(),
{
    if p.len() == 0 {
        None
    } else if p[p.len() - 1] == '/' {
        Some(p.len() - 1)
    } else {
        spec_last_slash(p.take(p.len() - 1))
    }
}

proof fn lemma_last_slash_bounds(p: Seq<char>)
    ensures
        spec_last_slash(p) is Some ==> {
            let k = spec_last_slash(p)->0;
            0 <= k < p.len() && p[k] == '/'
        },
    decreases p.len(),
{
    if p.len() > 0 && p[p.len() - 1] != '/' {
        lemma_last_slash_bounds(p.take(p.len() - 1));
    }
}

/// How a path prefix splits into the directory to scan and the file-name
/// filter: a prefix ending in `/` is itself the directory with an empty
/// filter; otherwise it splits at its last `/`, with `.` standing in for a
/// missing directory part.
pub open spec fn spec_split_path(p: Seq<char>) -> (Seq<char>, Seq<char>) {
    if p.len() > 0 && p[p.len() - 1] == '/' {
        (p, Seq::<char>::empty())
    } else {
        match spec_last_slash(p) {
            None => ("."@, p),
            Some(k) => if k == 0 {
                (p.take(1), p.skip(1))
            } else {
                (p.take(k), p.skip(k + 1))
            },
        }
    }
}

/// Whether a directory entry named `name` survives filtering by `filt`:
/// it must extend the filter, and dot-files stay hidden unless the filter
/// itself starts with a dot.
pub open spec fn spec_keep_entry(name: Seq<char>, filt: Seq<char>) -> bool {
    is_prefix_of(filt, name) && (!(name.len() > 0 && name[0] == '.') || (filt.len() > 0 && filt[0]
        == '.'))
}

/// A surviving entry rejoined with its directory: no separator after `.`,
/// a single `/` otherwise, and a trailing `/` marks a directory.
pub open spec fn spec_recombine(dir: Seq<char>, name: Seq<char>, is_dir: bool) -> Seq<char> {
    let base = if dir == "."@ {
        name
    } else if dir.len() > 0 && dir[dir.len() - 1] == '/' {
        dir + name
    } else {
        dir.push('/') + name
    };
    if is_dir {
        base.push('/')
    } else {
        base
    }
}

/// The entries of the listing for `path`, or nothing when no listing was
/// handed in for it.
pub open spec fn spec_dir_entries(dirs: Seq<DirListing>, path: Seq<char>) -> Seq<DirEntry>
    decreases dirs.len(),
{
    if dirs.len() == 0 {
        Seq::empty()
    } else if dirs[0].path@ == path {
        dirs[0].entries@
    } else {
        spec_dir_entries(dirs.skip(1), path)
    }
}

/// The path-mode results drawn from the first `n` entries, in listing
/// order, before sorting.
pub open spec fn spec_path_results(
    entries: Seq<DirEntry>,
    dir: Seq<char>,
    filt: Seq<char>,
    n: int,
) -> Seq<Seq<char>>
    decreases n,
{
    if n <= 0 {
        Seq::empty()
    } else {
        let prev = spec_path_results(entries, dir, filt, n - 1);
        if spec_keep_entry(entries[n - 1].name@, filt) {
            prev.push(spec_recombine(dir, entries[n - 1].name@, entries[n - 1].is_dir))
        } else {
            prev
        }
    }
}

/// Everything path mode yields for a prefix, before sorting: expand the
/// tilde, split off the directory, and filter its listing.
pub open spec fn spec_path_results_for(
    prefix: Seq<char>,
    home: Option<Seq<char>>,
    dirs: Seq<DirListing>,
) -> Seq<Seq<char>> {
    let expanded = spec_expand_tilde(prefix, home);
    let split = spec_split_path(expanded);
    let entries = spec_dir_entries(dirs, split.0);
    spec_path_results(entries, split.0, split.1, entries.len() as int)
}

/// What a finished candidate list looks like for the buffer slice before
/// the cursor. Command mode: strictly sorted, holding exactly the matching
/// commands. Path mode: sorted, holding exactly the surviving directory
/// entries. Either way the list is pinned down uniquely.
pub open spec fn spec_candidates_ok(
    completions: Seq<Seq<char>>,
    prefix: Seq<char>,
    before: Seq<char>,
    aliases: Seq<AliasEntry>,
    path_cmds: Seq<Seq<Seq<char>>>,
    history: Seq<Seq<char>>,
    home: Option<Seq<char>>,
    dirs: Seq<DirListing>,
) -> bool {
    if is_command_mode(before) {
        strictly_sorted(completions) && (forall|s: Seq<char>|
            #[trigger] completions.contains(s) <==> is_command_candidate(
                prefix,
                aliases,
                path_cmds,
                history,
                s,
            ))
    } else {
        sorted(completions) && completions.to_multiset() == spec_path_results_for(
            prefix,
            home,
            dirs,
        ).to_multiset()
    }
}

/// Adds `cand` to a strictly sorted candidate list when it extends the
/// prefix and is not already there.
fn add_candidate_if_match(out: &mut Vec<String>, cand: &str, prefix: &str)
    requires
        strictly_sorted(old(out).deep_view()),
    ensures
        strictly_sorted(final(out).deep_view()),
        forall|s: Seq<char>|
            #[trigger] final(out).deep_view().contains(s) <==> (old(out).deep_view().contains(s)
                || (s == cand@ && is_prefix_of(prefix@, s))),
{
    if str_starts_with(cand, prefix) {
        insert_sorted_unique(out, String::from_str(cand));
    }
}

/// The index of the last `/` in a string, if any.
fn last_slash(s: &str) -> (r: Option<usize>)
    ensures
        match r {
            Some(k) => spec_last_slash(s@) == Some(k as int),
            None => spec_last_slash(s@) is None,
        },
{
    let n: usize = s.unicode_len();
    let mut j: usize = n;
    proof {
        assert(s@.take(n as int) =~= s@);
    }
    while j > 0
        invariant
            j <= n,
            n == s@.len(),
            spec_last_slash(s@) == spec_last_slash(s@.take(j as int)),
        decreases j,
    {
        if s.get_char(j - 1) == '/' {
            return Some(j - 1);
        }
        j = j - 1;
        proof {
            assert(s@.take(j as int + 1).take(j as int) =~= s@.take(j as int));
        }
    }
    None
}

/// Splits an already-expanded path prefix into the directory to list and
/// the file-name filter.
fn split_path_prefix(expanded: &str) -> (r: (String, String))
    ensures
        r.0@ == spec_split_path(expanded@).0,
        r.1@ == spec_split_path(expanded@).1,
{
    let n: usize = expanded.unicode_len();
    if n > 0 && expanded.get_char(n - 1) == '/' {
        (String::from_str(expanded), String::new())
    } else {
        match last_slash(expanded) {
            None => (String::from_str("."), String::from_str(expanded)),
            Some(k) => {
                proof {
                    lemma_last_slash_bounds(expanded@);
                }
                if k == 0 {
                    let dir = String::from_str(expanded.substring_char(0, 1));
                    let filt = String::from_str(expanded.substring_char(1, n));
                    proof {
                        assert(dir@ =~= expanded@.take(1));
                        assert(filt@ =~= expanded@.skip(1));
                    }
                    (dir, filt)
                } else {
                    let dir = String::from_str(expanded.substring_char(0, k));
                    let filt = String::from_str(expanded.substring_char(k + 1, n));
                    proof {
                        assert(dir@ =~= expanded@.take(k as int));
                        assert(filt@ =~= expanded@.skip(k as int + 1));
                    }
                    (dir, filt)
                }
            },
        }
    }
}

/// Finds the handed-in listing for `path`.
fn lookup_dir(dirs: &Vec<DirListing>, path: &str) -> (r: Option<usize>)
    ensures
        match r {
            Some(i) => i < dirs@.len() && spec_dir_entries(dirs@, path@) == dirs@[i as int].entries@,
            None => spec_dir_entries(dirs@, path@) == Seq::<DirEntry>::empty(),
        },
{
    let n: usize = dirs.len();
    let mut i: usize = 0;
    proof {
        assert(dirs@.skip(0) =~= dirs@);
    }
    while i < n
        invariant
            i <= n,
            n == dirs@.len(),
            spec_dir_entries(dirs@, path@) == spec_dir_entries(dirs@.skip(i as int), path@),
        decreases n - i,
    {
        proof {
            assert(dirs@.skip(i as int)[0] == dirs@[i as int]);
            assert(dirs@.skip(i as int).skip(1) =~= dirs@.skip(i as int + 1));
        }
        if str_eq(dirs[i].path.as_str(), path) {
            return Some(i);
        }
        i = i + 1;
    }
    None
}

/// Rejoins a surviving entry with its directory.
fn recombine_path(dir: &str, name: &str, is_dir: bool) -> (r: String)
    ensures
        r@ == spec_recombine(dir@, name@, is_dir),
{
    let mut base: String = if str_eq(dir, ".") {
        String::from_str(name)
    } else {
        let dn: usize = dir.unicode_len();
        if dn > 0 && dir.get_char(dn - 1) == '/' {
            String::from_str(dir).concat(name)
        } else {
            let mut d = String::from_str(dir);
            d.push('/');
            d.concat(name)
        }
    };
    if is_dir {
        base.push('/');
    }
    base
}

/// The buffer after a completion is applied: the candidate replaces the
/// prefix at the anchor, always starting from the snapshot.
pub open spec fn spec_applied(
    snap: Seq<char>,
    anchor: int,
    prefix_len: int,
    cand: Seq<char>,
) -> Seq<char> {
    snap.take(anchor) + cand + snap.skip(anchor + prefix_len)
}

/// The state of tab completion: the candidate list, the selected index
/// while a session is active, the prefix being replaced, and the buffer
/// snapshot and anchor the replacement is relative to.
pub struct Completion {
    pub completions: Vec<String>,
    pub completion_index: Option<usize>,
    pub completion_prefix: String,
    pub original_input_before_completion: String,
    pub completion_start_pos: usize,
}

impl Completion {
    /// The session invariant: a selected candidate indexes into the list,
    /// and the replaced range lies inside the snapshot.
    pub open spec fn wf(&self) -> bool {
        self.completion_index is Some ==> {
            &&& (self.completion_index->0 as int) < self.completions@.len()
            &&& self.completion_start_pos + self.completion_prefix@.len()
                <= self.original_input_before_completion@.len()
        }
    }

    /// No candidates, no selection, nothing to restore.
    pub fn new() -> (c: Completion)
        ensures
            c.completions@.len() == 0,
            c.completion_index is None,
            c.completion_prefix@.len() == 0,
            c.original_input_before_completion@.len() == 0,
            c.completion_start_pos == 0,
            c.wf(),
    {
        Completion {
            completions: Vec::new(),
            completion_index: None,
            completion_prefix: String::new(),
            original_input_before_completion: String::new(),
            completion_start_pos: 0,
        }
    }

    /// Clears all session state; safe whether or not a session is active.
    pub fn reset(&mut self)
        ensures
            final(self).completions@.len() == 0,
            final(self).completion_index is None,
            final(self).completion_prefix@.len() == 0,
            final(self).original_input_before_completion@.len() == 0,
            final(self).completion_start_pos == 0,
            final(self).wf(),
    {
        self.completions = Vec::new();
        self.completion_index = None;
        self.completion_prefix = String::new();
        self.original_input_before_completion = String::new();
        self.completion_start_pos = 0;
    }

    /// Whether the candidate list is empty.
    pub fn is_empty(&self) -> (r: bool)
        ensures
            r == (self.completions@.len() == 0),
    {
        self.completions.is_empty()
    }

    /// A candidate summary is only worth showing when there is a choice.
    pub fn should_show_info(&self) -> (r: bool)
        ensures
            r == (self.completions@.len() > 1),
    {
        self.completions.len() > 1
    }

    /// Classifies the buffer slice before the cursor and rebuilds the
    /// candidate list from the handed-in sources. The selection, snapshot
    /// and anchor are left alone; `start` sets them.
    pub fn generate(
        &mut self,
        input: &str,
        cursor_pos: usize,
        config: &Config,
        env: &CompletionEnv,
        history: &Vec<String>,
    )
        requires
            cursor_pos <= input@.len(),
        ensures
            final(self).completion_index == old(self).completion_index,
            final(self).original_input_before_completion == old(
                self,
            ).original_input_before_completion,
            final(self).completion_start_pos == old(self).completion_start_pos,
            final(self).completion_prefix@ == spec_completion_prefix(
                input@.take(cursor_pos as int),
            ),
            final(self).completion_prefix@.len() <= cursor_pos,
            spec_candidates_ok(
                final(self).completions.deep_view(),
                final(self).completion_prefix@,
                input@.take(cursor_pos as int),
                config.aliases@,
                env.path_commands.deep_view(),
                history.deep_view(),
                home_view(env.home),
                env.dirs@,
            ),
    {
        let before = input.substring_char(0, cursor_pos);
        proof {
            assert(before@ =~= input@.take(cursor_pos as int));
            crate::utils::lemma_tokenize_token_len(before@);
        }
        let tokens = Utils::parse_command(before);
        let ends_space = cursor_pos > 0 && before.get_char(cursor_pos - 1) == ' ';
        if tokens.len() == 0 || (tokens.len() == 1 && !ends_space) {
            let prefix: String = if tokens.len() > 0 {
                tokens[0].clone()
            } else {
                String::new()
            };
            self.completions = get_command_completions(prefix.as_str(), config, env, history);
            self.completion_prefix = prefix;
        } else {
            let prefix: String = if ends_space {
                String::new()
            } else {
                tokens[tokens.len() - 1].clone()
            };
            self.completions = get_path_completions(prefix.as_str(), env);
            self.completion_prefix = prefix;
        }
    }

    /// Begins a session for the buffer the candidates were generated from:
    /// remembers the snapshot, anchors the replacement where the prefix
    /// starts, and selects the first candidate.
    pub fn start(&mut self, input: &str, cursor_pos: usize)
        requires
            old(self).completions@.len() > 0,
            cursor_pos <= input@.len(),
            old(self).completion_prefix@.len() <= input@.len(),
        ensures
            final(self).completions == old(self).completions,
            final(self).completion_prefix == old(self).completion_prefix,
            final(self).original_input_before_completion@ == input@,
            final(self).completion_start_pos == if old(self).completion_prefix@.len()
                <= cursor_pos {
                cursor_pos - old(self).completion_prefix@.len()
            } else {
                0
            },
            final(self).completion_index == Some(0usize),
            final(self).wf(),
    {
        self.original_input_before_completion = String::from_str(input);
        let prefix_len: usize = self.completion_prefix.as_str().unicode_len();
        self.completion_start_pos = if cursor_pos >= prefix_len {
            cursor_pos - prefix_len
        } else {
            0
        };
        self.completion_index = Some(0);
    }

    /// Replaces the prefix in the snapshot with the selected candidate and
    /// puts the cursor after it. The replacement always starts from the
    /// snapshot, so repeated application does not compound.
    pub fn apply(&self, input: &mut String, cursor_pos: &mut usize)
        requires
            self.wf(),
        ensures
            match self.completion_index {
                Some(i) => {
                    let snap = self.original_input_before_completion@;
                    let cand = self.completions.deep_view()[i as int];
                    let anchor = self.completion_start_pos as int;
                    &&& final(input)@ == spec_applied(
                        snap,
                        anchor,
                        self.completion_prefix@.len() as int,
                        cand,
                    )
                    &&& *final(cursor_pos) == anchor + cand.len()
                },
                None => final(input)@ == old(input)@ && *final(cursor_pos) == *old(cursor_pos),
            },
    {
        match self.completion_index {
            None => {},
            Some(idx) => {
                let snap = &self.original_input_before_completion;
                let snap_len: usize = snap.as_str().unicode_len();
                let plen: usize = self.completion_prefix.as_str().unicode_len();
                let start: usize = self.completion_start_pos;
                let cand = &self.completions[idx];
                let head = snap.as_str().substring_char(0, start);
                let tail = snap.as_str().substring_char(start + plen, snap_len);
                let mid = String::from_str(head).concat(cand.as_str());
                let newcur: usize = mid.as_str().unicode_len();
                *input = mid.concat(tail);
                *cursor_pos = newcur;
                proof {
                    assert(input@ =~= snap@.take(start as int)
                        + self.completions.deep_view()[idx as int] + snap@.skip(
                        start as int + plen as int,
                    ));
                }
            },
        }
    }

    /// Advances the selection to the next candidate, wrapping past the end;
    /// without an active session nothing happens.
    pub fn cycle_next(&mut self)
        requires
            old(self).wf(),
        ensures
            final(self).completions == old(self).completions,
            final(self).completion_prefix == old(self).completion_prefix,
            final(self).original_input_before_completion
                == old(self).original_input_before_completion,
            final(self).completion_start_pos == old(self).completion_start_pos,
            match old(self).completion_index {
                Some(i) => final(self).completion_index == Some(
                    (((i as int + 1) % old(self).completions@.len() as int)) as usize,
                ),
                None => final(self).completion_index is None,
            },
            final(self).wf(),
    {
        let len = self.completions.len();
        match self.completion_index {
            Some(current) => {
                proof {
                    assert(current < len);
                }
                let next = (current + 1) % len;
                self.completion_index = Some(next);
            },
            None => {},
        }
    }
}

/// The directory whose listing path completion would consult for this
/// buffer and cursor, so the embedding program knows what to hand in;
/// nothing when the cursor context asks for a command name instead.
pub fn completion_dir_query(input: &str, cursor_pos: usize, home: &Option<String>) -> (r: Option<
    String,
>)
    requires
        cursor_pos <= input@.len(),
    ensures
        match r {
            None => is_command_mode(input@.take(cursor_pos as int)),
            Some(d) => {
                let before = input@.take(cursor_pos as int);
                &&& !is_command_mode(before)
                &&& d@ == spec_split_path(
                    spec_expand_tilde(spec_completion_prefix(before), home_view(*home)),
                ).0
            },
        },
{
    let before = input.substring_char(0, cursor_pos);
    proof {
        assert(before@ =~= input@.take(cursor_pos as int));
    }
    let tokens = Utils::parse_command(before);
    let ends_space = cursor_pos > 0 && before.get_char(cursor_pos - 1) == ' ';
    if tokens.len() == 0 || (tokens.len() == 1 && !ends_space) {
        None
    } else {
        let prefix: String = if ends_space {
            String::new()
        } else {
            tokens[tokens.len() - 1].clone()
        };
        let expanded = Utils::expand_path(prefix.as_str(), home);
        let parts = split_path_prefix(expanded.as_str());
        Some(parts.0)
    }
}

/// Command-mode candidates: builtins, alias names, `PATH` executables and
/// history first-tokens that extend the prefix, sorted and deduplicated.
pub fn get_command_completions(
    prefix: &str,
    config: &Config,
    env: &CompletionEnv,
    history: &Vec<String>,
) -> (r: Vec<String>)
    ensures
        strictly_sorted(r.deep_view()),
        forall|s: Seq<char>|
            #[trigger] r.deep_view().contains(s) <==> is_command_candidate(
                prefix@,
                config.aliases@,
                env.path_commands.deep_view(),
                history.deep_view(),
                s,
            ),
{
    let mut out: Vec<String> = Vec::new();
    proof {
        assert(out.deep_view() =~= Seq::<Seq<char>>::empty());
    }
    add_candidate_if_match(&mut out, "cd", prefix);
    add_candidate_if_match(&mut out, "pwd", prefix);
    add_candidate_if_match(&mut out, "exit", prefix);
    add_candidate_if_match(&mut out, "help", prefix);
    add_candidate_if_match(&mut out, "alias", prefix);
    add_candidate_if_match(&mut out, "history", prefix);
    proof {
        assert(forall|s: Seq<char>|
            #[trigger] out.deep_view().contains(s) <==> (is_prefix_of(prefix@, s)
                && spec_is_builtin(s)));
    }

    let na: usize = config.aliases.len();
    let mut i: usize = 0;
    while i < na
        invariant
            i <= na,
            na == config.aliases@.len(),
            strictly_sorted(out.deep_view()),
            forall|s: Seq<char>|
                #[trigger] out.deep_view().contains(s) <==> (is_prefix_of(prefix@, s) && (
                spec_is_builtin(s) || (exists|i0: int|
                    0 <= i0 < i && (#[trigger] config.aliases@[i0]).name@ == s))),
        decreases na - i,
    {
        add_candidate_if_match(&mut out, config.aliases[i].name.as_str(), prefix);
        i = i + 1;
    }

    let nd: usize = env.path_commands.len();
    let mut d: usize = 0;
    while d < nd
        invariant
            d <= nd,
            nd == env.path_commands@.len(),
            strictly_sorted(out.deep_view()),
            forall|s: Seq<char>|
                #[trigger] out.deep_view().contains(s) <==> (is_prefix_of(prefix@, s) && (
                spec_is_builtin(s) || (exists|i0: int|
                    0 <= i0 < config.aliases@.len() && (#[trigger] config.aliases@[i0]).name@ == s)
                    || (exists|i0: int, j0: int|
                    0 <= i0 < d && 0 <= j0 < env.path_commands.deep_view()[i0].len()
                        && #[trigger] env.path_commands.deep_view()[i0][j0] == s))),
        decreases nd - d,
    {
        let nn: usize = env.path_commands[d].len();
        let mut j: usize = 0;
        while j < nn
            invariant
                j <= nn,
                d < nd,
                nd == env.path_commands@.len(),
                nn == env.path_commands@[d as int]@.len(),
                strictly_sorted(out.deep_view()),
                forall|s: Seq<char>|
                    #[trigger] out.deep_view().contains(s) <==> (is_prefix_of(prefix@, s) && (
                    spec_is_builtin(s) || (exists|i0: int|
                        0 <= i0 < config.aliases@.len() && (#[trigger] config.aliases@[i0]).name@
                            == s) || (exists|i0: int, j0: int|
                        0 <= i0 < d && 0 <= j0 < env.path_commands.deep_view()[i0].len()
                            && #[trigger] env.path_commands.deep_view()[i0][j0] == s) || (exists|
                        j0: int,
                    |
                        0 <= j0 < j && #[trigger] env.path_commands.deep_view()[d as int][j0]
                            == s))),
            decreases nn - j,
        {
            add_candidate_if_match(&mut out, env.path_commands[d][j].as_str(), prefix);
            proof {
                assert(env.path_commands.deep_view()[d as int][j as int] == env.path_commands@[
                    d as int]@[j as int]@);
            }
            j = j + 1;
        }
        d = d + 1;
    }

    let nh: usize = history.len();
    let mut h: usize = 0;
    while h < nh
        invariant
            h <= nh,
            nh == history@.len(),
            strictly_sorted(out.deep_view()),
            forall|s: Seq<char>|
                #[trigger] out.deep_view().contains(s) <==> (is_prefix_of(prefix@, s) && (
                spec_is_builtin(s) || (exists|i0: int|
                    0 <= i0 < config.aliases@.len() && (#[trigger] config.aliases@[i0]).name@ == s)
                    || (exists|i0: int, j0: int|
                    0 <= i0 < env.path_commands.deep_view().len() && 0 <= j0
                        < env.path_commands.deep_view()[i0].len()
                        && #[trigger] env.path_commands.deep_view()[i0][j0] == s) || (exists|
                    i0: int,
                |
                    0 <= i0 < h && spec_first_token(#[trigger] history.deep_view()[i0]) == Some(
                        s,
                    )))),
        decreases nh - h,
    {
        let cmd_tokens = Utils::parse_command(history[h].as_str());
        if cmd_tokens.len() > 0 {
            add_candidate_if_match(&mut out, cmd_tokens[0].as_str(), prefix);
            proof {
                assert(cmd_tokens.deep_view()[0] == spec_tokenize(history.deep_view()[h as int])[0]);
            }
        }
        h = h + 1;
    }
    out
}

/// Path-mode candidates: the surviving entries of the prefix's directory,
/// rejoined and sorted.
pub fn get_path_completions(prefix: &str, env: &CompletionEnv) -> (r: Vec<String>)
    ensures
        sorted(r.deep_view()),
        r.deep_view().to_multiset() == spec_path_results_for(
            prefix@,
            home_view(env.home),
            env.dirs@,
        ).to_multiset(),
{
    let expanded = Utils::expand_path(prefix, &env.home);
    let (dir, filt) = split_path_prefix(expanded.as_str());
    let mut out: Vec<String> = Vec::new();
    proof {
        assert(out.deep_view() =~= Seq::<Seq<char>>::empty());
    }
    match lookup_dir(&env.dirs, dir.as_str()) {
        None => {},
        Some(di) => {
            let ghost entries = spec_dir_entries(env.dirs@, dir@);
            let m: usize = env.dirs[di].entries.len();
            let mut i: usize = 0;
            while i < m
                invariant
                    i <= m,
                    di < env.dirs@.len(),
                    entries == spec_dir_entries(env.dirs@, dir@),
                    entries == env.dirs@[di as int].entries@,
                    m == entries.len(),
                    sorted(out.deep_view()),
                    out.deep_view().to_multiset() == spec_path_results(
                        entries,
                        dir@,
                        filt@,
                        i as int,
                    ).to_multiset(),
                decreases m - i,
            {
                let e = &env.dirs[di].entries[i];
                let name_hidden = e.name.as_str().unicode_len() > 0 && e.name.as_str().get_char(0)
                    == '.';
                let filt_dot = filt.as_str().unicode_len() > 0 && filt.as_str().get_char(0) == '.';
                if str_starts_with(e.name.as_str(), filt.as_str()) && (!name_hidden || filt_dot) {
                    let combined = recombine_path(dir.as_str(), e.name.as_str(), e.is_dir);
                    insert_sorted(&mut out, combined);
                }
                i = i + 1;
            }
        },
    }
    out
}

} // verus!
