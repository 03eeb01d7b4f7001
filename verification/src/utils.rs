//! Shell-independent helpers: the quote- and escape-aware tokenizer,
//! the fixed builtin-command set, and tilde expansion.

use vstd::prelude::*;

verus! {

/// Whitespace that separates tokens outside quotes.
pub open spec fn is_token_space(c: char) -> bool {
    c == ' ' || c == '\t'
}

/// The tokenizer, one scan step at a time. `esc` is a pending escape,
/// `in_q`/`qc` the open-quote state, `cur` the token being accumulated and
/// `acc` the tokens already flushed. At the end of the input a non-empty
/// `cur` is flushed; an unterminated quote or trailing escape just ends.
pub open spec fn tokenize_from(
    s: Seq<char>,
    i: int,
    esc: bool,
    in_q: bool,
    qc: char,
    cur: Seq<char>,
    acc: Seq<Seq<char>>,
) -> Seq<Seq<char>>
    decreases s.len() - i,
{
    if i < 0 || i >= s.len() {
        if cur.len() > 0 {
            acc.push(cur)
        } else {
            acc
        }
    } else {
        let c = s[i];
        if esc {
            tokenize_from(s, i + 1, false, in_q, qc, cur.push(c), acc)
        } else if c == '\\' {
            tokenize_from(s, i + 1, true, in_q, qc, cur, acc)
        } else if !in_q && (c == '"' || c == '\'') {
            tokenize_from(s, i + 1, false, true, c, cur, acc)
        } else if in_q && c == qc {
            tokenize_from(s, i + 1, false, false, qc, cur, acc)
        } else if !in_q && is_token_space(c) {
            if cur.len() > 0 {
                tokenize_from(s, i + 1, false, false, qc, Seq::empty(), acc.push(cur))
            } else {
                tokenize_from(s, i + 1, false, false, qc, cur, acc)
            }
        } else {
            tokenize_from(s, i + 1, false, in_q, qc, cur.push(c), acc)
        }
    }
}

/// The tokens of a command line: split on unquoted blanks, quotes group,
/// a backslash makes the next character literal.
pub open spec fn spec_tokenize(s: Seq<char>) -> Seq<Seq<char>> {
    tokenize_from(s, 0, false, false, '"', Seq::empty(), Seq::empty())
}

/// The fixed builtin-command names.
pub open spec fn spec_is_builtin(s: Seq<char>) -> bool {
    ||| s == "cd"@
    ||| s == "pwd"@
    ||| s == "exit"@
    ||| s == "help"@
    ||| s == "alias"@
    ||| s == "history"@
}

/// Whitespace that trimming strips from the ends of a command line.
pub open spec fn is_trim_space(c: char) -> bool {
    c == ' ' || c == '\t' || c == '\n' || c == '\r'
}

/// The sequence with leading whitespace stripped.
pub open spec fn spec_trim_start(s: Seq<char>) -> Seq<char>
    decreases s.len(),
{
    if s.len() > 0 && is_trim_space(s[0]) {
        spec_trim_start(s.skip(1))
    } else {
        s
    }
}

/// The sequence with trailing whitespace stripped.
pub open spec fn spec_trim_end(s: Seq<char>) -> Seq<char>
    decreases s.len(),
{
    if s.len() > 0 && is_trim_space(s.last()) {
        spec_trim_end(s.drop_last())
    } else {
        s
    }
}

/// The sequence with whitespace stripped from both ends.
pub open spec fn spec_trim(s: Seq<char>) -> Seq<char> {
    spec_trim_end(spec_trim_start(s))
}

/// The view of an optional home directory string.
pub open spec fn home_view(home: Option<String>) -> Option<Seq<char>> {
    match home {
        Some(h) => Some(h@),
        None => None,
    }
}

proof fn lemma_tokenize_from_token_len(
    s: Seq<char>,
    i: int,
    esc: bool,
    in_q: bool,
    qc: char,
    cur: Seq<char>,
    acc: Seq<Seq<char>>,
)
    requires
        0 <= i <= s.len(),
    ensures
        ({
            let r = tokenize_from(s, i, esc, in_q, qc, cur, acc);
            &&& r.len() >= acc.len()
            &&& forall|j: int| 0 <= j < acc.len() ==> r[j] == acc[j]
            &&& forall|j: int|
                acc.len() <= j < r.len() ==> (#[trigger] r[j]).len() <= cur.len() + (s.len() - i)
        }),
    decreases s.len() - i,
{
    if i >= s.len() {
    } else {
        let c = s[i];
        if esc {
            lemma_tokenize_from_token_len(s, i + 1, false, in_q, qc, cur.push(c), acc);
        } else if c == '\\' {
            lemma_tokenize_from_token_len(s, i + 1, true, in_q, qc, cur, acc);
        } else if !in_q && (c == '"' || c == '\'') {
            lemma_tokenize_from_token_len(s, i + 1, false, true, c, cur, acc);
        } else if in_q && c == qc {
            lemma_tokenize_from_token_len(s, i + 1, false, false, qc, cur, acc);
        } else if !in_q && is_token_space(c) {
            if cur.len() > 0 {
                lemma_tokenize_from_token_len(s, i + 1, false, false, qc, Seq::empty(), acc.push(cur));
            } else {
                lemma_tokenize_from_token_len(s, i + 1, false, false, qc, cur, acc);
            }
        } else {
            lemma_tokenize_from_token_len(s, i + 1, false, in_q, qc, cur.push(c), acc);
        }
    }
}

/// No token is longer than the line it was split from.
pub proof fn lemma_tokenize_token_len(s: Seq<char>)
    ensures
        forall|j: int|
            0 <= j < spec_tokenize(s).len() ==> (#[trigger] spec_tokenize(s)[j]).len() <= s.len(),
{
    lemma_tokenize_from_token_len(s, 0, false, false, '"', Seq::empty(), Seq::empty());
}

/// A leading `~` is replaced by the home directory, when one is known.
pub open spec fn spec_expand_tilde(p: Seq<char>, home: Option<Seq<char>>) -> Seq<char> {
    if p.len() > 0 && p[0] == '~' && home is Some {
        home->0 + p.skip(1)
    } else {
        p
    }
}

/// Whether trimming strips this character.
fn is_space_char(c: char) -> (r: bool)
    ensures
        r == is_trim_space(c),
{
    c == ' ' || c == '\t' || c == '\n' || c == '\r'
}

/// Pure helpers used across the shell core.
pub struct Utils;

impl Utils {
    /// Splits a command line into tokens, honoring quotes and escapes.
    pub fn parse_command(input: &str) -> (tokens: Vec<String>)
        ensures
            tokens.deep_view() == spec_tokenize(input@),
    {
        let n: usize = input.unicode_len();
        let mut tokens: Vec<String> = Vec::new();
        let mut current: String = String::new();
        let mut in_quotes: bool = false;
        let mut quote_char: char = '"';
        let mut escape_next: bool = false;
        let mut i: usize = 0;
        proof {
            assert(tokens.deep_view() =~= Seq::<Seq<char>>::empty());
        }
        while i < n
            invariant
                i <= n,
                n == input@.len(),
                spec_tokenize(input@) == tokenize_from(
                    input@,
                    i as int,
                    escape_next,
                    in_quotes,
                    quote_char,
                    current@,
                    tokens.deep_view(),
                ),
            decreases n - i,
        {
            let c = input.get_char(i);
            let ghost pre_tokens = tokens.deep_view();
            let ghost pre_current = current@;
            if escape_next {
                current.push(c);
                escape_next = false;
            } else if c == '\\' {
                escape_next = true;
            } else if !in_quotes && (c == '"' || c == '\'') {
                in_quotes = true;
                quote_char = c;
            } else if in_quotes && c == quote_char {
                in_quotes = false;
            } else if !in_quotes && (c == ' ' || c == '\t') {
                if !current.as_str().is_empty() {
                    tokens.push(current);
                    current = String::new();
                    proof {
                        assert(tokens.deep_view() =~= pre_tokens.push(pre_current));
                    }
                }
            } else {
                current.push(c);
            }
            i = i + 1;
        }
        if !current.as_str().is_empty() {
            let ghost pre_tokens = tokens.deep_view();
            let ghost pre_current = current@;
            tokens.push(current);
            proof {
                assert(tokens.deep_view() =~= pre_tokens.push(pre_current));
            }
        }
        tokens
    }

    /// Strips blanks, tabs and line ends from both ends of a command line.
    pub fn trim(s: &str) -> (r: String)
        ensures
            r@ == spec_trim(s@),
    {
        let n: usize = s.unicode_len();
        let mut i: usize = 0;
        proof {
            assert(s@.skip(0) =~= s@);
        }
        while i < n && is_space_char(s.get_char(i))
            invariant
                i <= n,
                n == s@.len(),
                spec_trim_start(s@) == spec_trim_start(s@.skip(i as int)),
            decreases n - i,
        {
            proof {
                assert(s@.skip(i as int).skip(1) =~= s@.skip(i as int + 1));
            }
            i = i + 1;
        }
        proof {
            if i == n {
                assert(s@.skip(i as int) =~= Seq::<char>::empty());
            }
            assert(spec_trim_start(s@) == s@.skip(i as int));
            assert(s@.subrange(i as int, n as int) =~= s@.skip(i as int));
        }
        let mut j: usize = n;
        while j > i && is_space_char(s.get_char(j - 1))
            invariant
                i <= j <= n,
                n == s@.len(),
                spec_trim_start(s@) == s@.skip(i as int),
                spec_trim_end(s@.skip(i as int)) == spec_trim_end(
                    s@.subrange(i as int, j as int),
                ),
            decreases j,
        {
            proof {
                assert(s@.subrange(i as int, j as int).drop_last() =~= s@.subrange(
                    i as int,
                    j as int - 1,
                ));
            }
            j = j - 1;
        }
        proof {
            if j == i {
                assert(s@.subrange(i as int, j as int) =~= Seq::<char>::empty());
            }
            assert(spec_trim(s@) == s@.subrange(i as int, j as int));
        }
        String::from_str(s.substring_char(i, j))
    }

    /// Whether a command name is one of the fixed builtins.
    pub fn is_builtin(command: &str) -> (r: bool)
        ensures
            r == spec_is_builtin(command@),
    {
        crate::text::str_eq(command, "cd") || crate::text::str_eq(command, "pwd")
            || crate::text::str_eq(command, "exit") || crate::text::str_eq(command, "help")
            || crate::text::str_eq(command, "alias") || crate::text::str_eq(command, "history")
    }

    /// Expands a leading `~` to the home directory handed in by the caller;
    /// without a known home the path is returned unchanged.
    pub fn expand_path(path: &str, home: &Option<String>) -> (r: String)
        ensures
            r@ == spec_expand_tilde(path@, home_view(*home)),
    {
        let n: usize = path.unicode_len();
        if n > 0 && path.get_char(0) == '~' {
            match home {
                Some(h) => {
                    let rest = path.substring_char(1, n);
                    let expanded = String::from_str(h.as_str()).concat(rest);
                    proof {
                        assert(expanded@ =~= spec_expand_tilde(path@, Some(h@)));
                    }
                    expanded
                },
                None => String::from_str(path),
            }
        } else {
            String::from_str(path)
        }
    }
}

} // verus!
