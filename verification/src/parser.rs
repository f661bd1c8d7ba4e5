//! The tokenizer and path resolution: turns one pipeline-stage's text into
//! an argument vector, and resolves a path argument component-wise against
//! the current working directory.
//!
//! Tokenization is a character-by-character state machine with five states.
//! Whitespace outside quotes separates tokens (runs collapse, empty tokens
//! are dropped); single quotes take everything literally; double quotes take
//! everything literally except `\"` and `\\`; a backslash outside quotes
//! escapes the next character. Input that ends inside a quote flushes the
//! partial token instead of failing.

use vstd::prelude::*;
use vstd::string::StrSliceExecFns;

use crate::text::concat_str;
use crate::text::is_space;
use crate::text::is_space_char;
use crate::text::push_char;
use crate::text::str_to_chars;

verus! {

/// The tokenizer's position relative to quoting and escaping.
#[derive(Clone, Copy, PartialEq, Eq, Structural, Debug)]
pub enum TokenizerState {
    /// Outside any quote.
    Unquoted,
    /// Between single quotes.
    SingleQuoted,
    /// Between double quotes.
    DoubleQuoted,
    /// Right after a backslash, outside quotes.
    EscapeUnquoted,
    /// Right after a backslash, between double quotes.
    EscapeInDoubleQuoted,
}

/// The state after consuming `c` in state `st`.
pub open spec fn tok_next_state(st: TokenizerState, c: char) -> TokenizerState {
    match st {
        TokenizerState::Unquoted => if c == '\'' {
            TokenizerState::SingleQuoted
        } else if c == '"' {
            TokenizerState::DoubleQuoted
        } else if c == '\\' {
            TokenizerState::EscapeUnquoted
        } else {
            TokenizerState::Unquoted
        },
        TokenizerState::SingleQuoted => if c == '\'' {
            TokenizerState::Unquoted
        } else {
            TokenizerState::SingleQuoted
        },
        TokenizerState::DoubleQuoted => if c == '"' {
            TokenizerState::Unquoted
        } else if c == '\\' {
            TokenizerState::EscapeInDoubleQuoted
        } else {
            TokenizerState::DoubleQuoted
        },
        TokenizerState::EscapeUnquoted => TokenizerState::Unquoted,
        TokenizerState::EscapeInDoubleQuoted => TokenizerState::DoubleQuoted,
    }
}

/// Executable mirror of [`tok_next_state`].
pub fn next_state(st: TokenizerState, c: char) -> (r: TokenizerState)
    ensures
        r == tok_next_state(st, c),
{
    match st {
        TokenizerState::Unquoted => if c == '\'' {
            TokenizerState::SingleQuoted
        } else if c == '"' {
            TokenizerState::DoubleQuoted
        } else if c == '\\' {
            TokenizerState::EscapeUnquoted
        } else {
            TokenizerState::Unquoted
        },
        TokenizerState::SingleQuoted => if c == '\'' {
            TokenizerState::Unquoted
        } else {
            TokenizerState::SingleQuoted
        },
        TokenizerState::DoubleQuoted => if c == '"' {
            TokenizerState::Unquoted
        } else if c == '\\' {
            TokenizerState::EscapeInDoubleQuoted
        } else {
            TokenizerState::DoubleQuoted
        },
        TokenizerState::EscapeUnquoted => TokenizerState::Unquoted,
        TokenizerState::EscapeInDoubleQuoted => TokenizerState::DoubleQuoted,
    }
}

/// One step of the tokenizer: from the state, the token being accumulated
/// and the tokens already emitted, consuming `c`.
pub open spec fn tok_step(
    st: TokenizerState,
    cur: Seq<char>,
    out: Seq<Seq<char>>,
    c: char,
) -> (TokenizerState, Seq<char>, Seq<Seq<char>>) {
    let next = tok_next_state(st, c);
    match st {
        TokenizerState::Unquoted => if is_space(c) {
            (next, Seq::empty(), if cur.len() > 0 { out.push(cur) } else { out })
        } else if c == '\'' || c == '"' || c == '\\' {
            (next, cur, out)
        } else {
            (next, cur.push(c), out)
        },
        TokenizerState::SingleQuoted => if c == '\'' {
            (next, cur, out)
        } else {
            (next, cur.push(c), out)
        },
        TokenizerState::DoubleQuoted => if c == '"' || c == '\\' {
            (next, cur, out)
        } else {
            (next, cur.push(c), out)
        },
        TokenizerState::EscapeUnquoted => (next, cur.push(c), out),
        TokenizerState::EscapeInDoubleQuoted => (
            next,
            if c == '"' || c == '\\' {
                cur.push(c)
            } else {
                cur.push('\\').push(c)
            },
            out,
        ),
    }
}

/// Runs the tokenizer over `s` from position `i` to the end, starting from
/// the given state, partial token and emitted tokens.
pub open spec fn tok_run(
    s: Seq<char>,
    i: int,
    st: TokenizerState,
    cur: Seq<char>,
    out: Seq<Seq<char>>,
) -> (TokenizerState, Seq<char>, Seq<Seq<char>>)
    decreases s.len() - i,
{
    if i < 0 || i >= s.len() {
        (st, cur, out)
    } else {
        let stepped = tok_step(st, cur, out, s[i]);
        tok_run(s, i + 1, stepped.0, stepped.1, stepped.2)
    }
}

/// The argument vector for the text `s`: the tokens the machine emits, with
/// a partial token at the end of input flushed as the final token.
pub open spec fn spec_tokenize(s: Seq<char>) -> Seq<Seq<char>> {
    let ran = tok_run(s, 0, TokenizerState::Unquoted, Seq::empty(), Seq::empty());
    if ran.1.len() > 0 {
        ran.2.push(ran.1)
    } else {
        ran.2
    }
}

/// Turns one pipeline-stage's text (with any redirection already removed)
/// into its argument vector.
pub fn parse_input(argument: &str) -> (arguments: Vec<String>)
    ensures
        arguments.deep_view() == spec_tokenize(argument@),
{
    let chars = str_to_chars(argument);
    let ghost s = argument@;
    let mut st = TokenizerState::Unquoted;
    let mut cur = String::new();
    let mut out: Vec<String> = Vec::new();
    let mut i: usize = 0;
    proof {
        assert(out.deep_view() =~= Seq::<Seq<char>>::empty());
    }
    while i < chars.len()
        invariant
            i <= chars@.len(),
            chars@ == s,
            tok_run(s, 0, TokenizerState::Unquoted, Seq::empty(), Seq::empty()) == tok_run(
                s,
                i as int,
                st,
                cur@,
                out.deep_view(),
            ),
        decreases chars.len() - i,
    {
        let c = chars[i];
        let ghost pre = (st, cur@, out.deep_view());
        match st {
            TokenizerState::Unquoted => {
                if is_space_char(c) {
                    if !cur.as_str().is_empty() {
                        out.push(cur);
                        cur = String::new();
                    }
                } else if c == '\'' {
                    st = TokenizerState::SingleQuoted;
                } else if c == '"' {
                    st = TokenizerState::DoubleQuoted;
                } else if c == '\\' {
                    st = TokenizerState::EscapeUnquoted;
                } else {
                    push_char(&mut cur, c);
                }
            },
            TokenizerState::SingleQuoted => {
                if c == '\'' {
                    st = TokenizerState::Unquoted;
                } else {
                    push_char(&mut cur, c);
                }
            },
            TokenizerState::DoubleQuoted => {
                if c == '"' {
                    st = TokenizerState::Unquoted;
                } else if c == '\\' {
                    st = TokenizerState::EscapeInDoubleQuoted;
                } else {
                    push_char(&mut cur, c);
                }
            },
            TokenizerState::EscapeUnquoted => {
                push_char(&mut cur, c);
                st = TokenizerState::Unquoted;
            },
            TokenizerState::EscapeInDoubleQuoted => {
                if c == '"' || c == '\\' {
                    push_char(&mut cur, c);
                } else {
                    push_char(&mut cur, '\\');
                    push_char(&mut cur, c);
                }
                st = TokenizerState::DoubleQuoted;
            },
        }
        proof {
            let stepped = tok_step(pre.0, pre.1, pre.2, s[i as int]);
            assert(st == stepped.0);
            assert(cur@ =~= stepped.1);
            assert(out.deep_view() =~= stepped.2);
        }
        i = i + 1;
    }
    let ghost ran = tok_run(s, 0, TokenizerState::Unquoted, Seq::empty(), Seq::empty());
    proof {
        assert(ran == (st, cur@, out.deep_view()));
    }
    if !cur.as_str().is_empty() {
        out.push(cur);
        proof {
            assert(out.deep_view() =~= ran.2.push(ran.1));
        }
    }
    out
}

/// Removing the last component of a path: everything from the last `/` on
/// is dropped; a path of one single `/` stays itself; a path without `/`
/// becomes empty.
pub open spec fn spec_path_pop(s: Seq<char>) -> Seq<char>
    decreases s.len(),
{
    if s.len() == 0 {
        s
    } else if s.last() == '/' {
        if s.len() == 1 {
            s
        } else {
            s.drop_last()
        }
    } else {
        spec_path_pop(s.drop_last())
    }
}

/// Appending one component to a path, with a `/` between unless the path is
/// empty or already ends in `/`.
pub open spec fn spec_path_push(base: Seq<char>, comp: Seq<char>) -> Seq<char> {
    if base.len() == 0 {
        comp
    } else if base.last() == '/' {
        base + comp
    } else {
        base + seq!['/'] + comp
    }
}

/// A path component that resolution acts on: neither empty nor the no-op `.`.
pub open spec fn is_real_component(c: Seq<char>) -> bool {
    c.len() > 0 && c != seq!['.']
}

/// Splits `s` on `/` from position `i` on, keeping only real components.
pub open spec fn comps_run(s: Seq<char>, i: int, cur: Seq<char>, acc: Seq<Seq<char>>) -> Seq<
    Seq<char>,
>
    decreases s.len() - i,
{
    if i < 0 || i >= s.len() {
        if is_real_component(cur) {
            acc.push(cur)
        } else {
            acc
        }
    } else if s[i] == '/' {
        comps_run(s, i + 1, Seq::empty(), if is_real_component(cur) {
            acc.push(cur)
        } else {
            acc
        })
    } else {
        comps_run(s, i + 1, cur.push(s[i]), acc)
    }
}

/// The components of a path text: the pieces between `/` separators, with
/// empty pieces and `.` dropped.
pub open spec fn path_components(s: Seq<char>) -> Seq<Seq<char>> {
    comps_run(s, 0, Seq::empty(), Seq::empty())
}

/// Folds the components over a base directory: `..` pops one component,
/// anything else is appended.
pub open spec fn resolve_components(base: Seq<char>, comps: Seq<Seq<char>>) -> Seq<char>
    decreases comps.len(),
{
    if comps.len() == 0 {
        base
    } else {
        let next = if comps[0] == seq!['.', '.'] {
            spec_path_pop(base)
        } else {
            spec_path_push(base, comps[0])
        };
        resolve_components(next, comps.skip(1))
    }
}

/// A path beginning with `/` replaces the base entirely; any other path is
/// resolved component-wise against it.
pub open spec fn spec_resolve_path(path: Seq<char>, base: Seq<char>) -> Seq<char> {
    if path.len() > 0 && path[0] == '/' {
        path
    } else {
        resolve_components(base, path_components(path))
    }
}

/// A leading `~` replaced with the home directory.
pub open spec fn spec_expand_tilde(path: Seq<char>, home: Seq<char>) -> Seq<char> {
    if path.len() > 0 && path[0] == '~' {
        home + path.skip(1)
    } else {
        path
    }
}

/// Removes the last component of `s`, as [`spec_path_pop`] says.
pub fn path_pop(s: &str) -> (r: String)
    ensures
        r@ == spec_path_pop(s@),
{
    let chars = str_to_chars(s);
    let n = chars.len();
    let mut j: usize = n;
    proof {
        assert(s@.take(n as int) =~= s@);
    }
    while j > 0 && chars[j - 1] != '/'
        invariant
            j <= n,
            chars@ == s@,
            n == s@.len(),
            spec_path_pop(s@) == spec_path_pop(s@.take(j as int)),
        decreases j,
    {
        proof {
            assert(s@.take(j as int).last() == s@[j - 1]);
            assert(s@.take(j as int).drop_last() =~= s@.take(j - 1 as int));
        }
        j = j - 1;
    }
    let mut out: Vec<char> = Vec::new();
    if j == 0 {
        proof {
            assert(s@.take(0) =~= Seq::<char>::empty());
            assert(out@ =~= spec_path_pop(s@));
        }
    } else if j == 1 {
        out.push('/');
        proof {
            assert(s@.take(1).last() == s@[0]);
            assert(out@ =~= s@.take(1));
        }
    } else {
        let mut k: usize = 0;
        while k < j - 1
            invariant
                2 <= j <= n,
                k <= j - 1,
                chars@ == s@,
                n == s@.len(),
                out@ == s@.take(k as int),
            decreases j - k,
        {
            out.push(chars[k]);
            k = k + 1;
            proof {
                assert(s@.take(k as int) =~= s@.take(k - 1 as int).push(s@[k - 1]));
            }
        }
        proof {
            assert(s@.take(j as int).last() == s@[j - 1]);
            assert(s@.take(j as int).drop_last() =~= s@.take(j - 1 as int));
        }
    }
    crate::text::chars_to_string(&out)
}

/// Appends one component to `base`, as [`spec_path_push`] says.
pub fn path_push(base: &str, comp: &str) -> (r: String)
    ensures
        r@ == spec_path_push(base@, comp@),
{
    let n = base.unicode_len();
    if n == 0 {
        comp.to_owned()
    } else if base.get_char(n - 1) == '/' {
        proof {
            assert(base@.last() == base@[n - 1]);
        }
        concat_str(base, comp)
    } else {
        proof {
            assert(base@.last() == base@[n - 1]);
        }
        let mut r = base.to_owned();
        push_char(&mut r, '/');
        r.append(comp);
        proof {
            assert(base@.push('/') =~= base@ + seq!['/']);
        }
        r
    }
}

/// Splits a path text into its real components, as [`path_components`] says.
pub fn split_components(path: &str) -> (comps: Vec<String>)
    ensures
        comps.deep_view() == path_components(path@),
{
    let chars = str_to_chars(path);
    let ghost s = path@;
    let mut cur = String::new();
    let mut acc: Vec<String> = Vec::new();
    let mut i: usize = 0;
    proof {
        assert(acc.deep_view() =~= Seq::<Seq<char>>::empty());
    }
    while i < chars.len()
        invariant
            i <= chars@.len(),
            chars@ == s,
            path_components(s) == comps_run(s, i as int, cur@, acc.deep_view()),
        decreases chars.len() - i,
    {
        let c = chars[i];
        let ghost pre_cur = cur@;
        let ghost pre_acc = acc.deep_view();
        if c == '/' {
            if is_real_component_exec(&cur) {
                acc.push(cur);
                proof {
                    assert(acc.deep_view() =~= pre_acc.push(pre_cur));
                }
            }
            cur = String::new();
        } else {
            push_char(&mut cur, c);
        }
        i = i + 1;
    }
    if is_real_component_exec(&cur) {
        let ghost pre_acc = acc.deep_view();
        let ghost pre_cur = cur@;
        acc.push(cur);
        proof {
            assert(acc.deep_view() =~= pre_acc.push(pre_cur));
        }
    }
    acc
}

/// Executable test for [`is_real_component`].
fn is_real_component_exec(c: &String) -> (r: bool)
    ensures
        r == is_real_component(c@),
{
    let s = c.as_str();
    let n = s.unicode_len();
    if n == 0 {
        false
    } else if n == 1 && s.get_char(0) == '.' {
        proof {
            assert(c@ =~= seq!['.']);
        }
        false
    } else {
        proof {
            assert(c@ != seq!['.']);
        }
        true
    }
}

/// Resolves a path text against a base directory, as [`spec_resolve_path`]
/// says: an absolute path is taken verbatim, a relative one is applied to
/// the base component by component.
pub fn resolve_path(path: &str, base: &str) -> (r: String)
    ensures
        r@ == spec_resolve_path(path@, base@),
{
    if path.unicode_len() > 0 && path.get_char(0) == '/' {
        return path.to_owned();
    }
    let comps = split_components(path);
    let ghost all = path_components(path@);
    let mut target = base.to_owned();
    let mut i: usize = 0;
    proof {
        assert(all.skip(0) =~= all);
    }
    while i < comps.len()
        invariant
            i <= comps@.len(),
            comps.deep_view() == all,
            spec_resolve_path(path@, base@) == resolve_components(target@, all.skip(i as int)),
        decreases comps.len() - i,
    {
        let ghost rest = all.skip(i as int);
        proof {
            assert(rest[0] == all[i as int]);
            assert(rest.skip(1) =~= all.skip(i + 1));
        }
        if is_dot_dot(&comps[i]) {
            target = path_pop(target.as_str());
        } else {
            target = path_push(target.as_str(), comps[i].as_str());
        }
        i = i + 1;
    }
    target
}

/// Whether the component is exactly `..`.
fn is_dot_dot(c: &String) -> (r: bool)
    ensures
        r == (c@ == seq!['.', '.']),
{
    let s = c.as_str();
    if s.unicode_len() == 2 && s.get_char(0) == '.' && s.get_char(1) == '.' {
        proof {
            assert(c@ =~= seq!['.', '.']);
        }
        true
    } else {
        proof {
            assert(c@ != seq!['.', '.']);
        }
        false
    }
}

/// Tilde-expands a path argument and resolves it against the current
/// directory. A leading `~` is replaced with the home directory; with no
/// home directory available that is an error and nothing else is.
pub fn parse_path(path: &str, current_dir: &str, home: Option<&str>) -> (r: Result<String, String>)
    ensures
        (r is Err) == (path@.len() > 0 && path@[0] == '~' && home is None),
        r matches Err(m) ==> m@ == "HOME directory not defined."@,
        r matches Ok(p) ==> p@ == spec_resolve_path(
            if path@.len() > 0 && path@[0] == '~' {
                spec_expand_tilde(path@, home.unwrap()@)
            } else {
                path@
            },
            current_dir@,
        ),
{
    let n = path.unicode_len();
    if n > 0 && path.get_char(0) == '~' {
        match home {
            None => Err("HOME directory not defined.".to_owned()),
            Some(h) => {
                let rest = path.substring_char(1, n);
                let expanded = concat_str(h, rest);
                proof {
                    assert(expanded@ =~= spec_expand_tilde(path@, h@));
                }
                Ok(resolve_path(expanded.as_str(), current_dir))
            },
        }
    } else {
        Ok(resolve_path(path, current_dir))
    }
}

} // verus!
