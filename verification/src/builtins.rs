//! The builtin commands' decision logic: `echo` with its escape
//! interpreter, `pwd`, `cd`'s path resolution and outcome, `type`, and the
//! rendering of `ls` listings. Each works on plain values; the filesystem
//! probes they need are answered outside and handed in.

use vstd::prelude::*;
use vstd::string::StrSliceExecFns;

use crate::order::sort_strings;
use crate::order::sorted_lex;
use crate::parser::parse_path;
use crate::parser::spec_expand_tilde;
use crate::parser::spec_resolve_path;
use crate::resolver::OSInstance;
use crate::shell::CommandOutput;
use crate::text::concat_str;
use crate::text::push_char;
use crate::text::spec_join;
use crate::text::str_to_chars;

verus! {

/// The names the shell answers to without an external program.
pub open spec fn is_builtin(name: Seq<char>) -> bool {
    ||| name == "cd"@
    ||| name == "echo"@
    ||| name == "exit"@
    ||| name == "history"@
    ||| name == "ls"@
    ||| name == "pwd"@
    ||| name == "type"@
}

/// Whether `name` is one of the shell's builtin commands.
pub fn is_builtin_name(name: &String) -> (r: bool)
    ensures
        r == is_builtin(name@),
{
    let cd = "cd".to_owned();
    let echo_name = "echo".to_owned();
    let exit_name = "exit".to_owned();
    let history_name = "history".to_owned();
    let ls_name = "ls".to_owned();
    let pwd_name = "pwd".to_owned();
    let type_word = "type".to_owned();
    name.eq(&cd) || name.eq(&echo_name) || name.eq(&exit_name) || name.eq(&history_name)
        || name.eq(&ls_name) || name.eq(&pwd_name) || name.eq(&type_word)
}

/// The builtin names, for the known-command set.
pub fn builtin_names() -> (r: Vec<String>)
    ensures
        r.deep_view() == seq!["cd"@, "echo"@, "exit"@, "history"@, "ls"@, "pwd"@, "type"@],
{
    let mut r: Vec<String> = Vec::new();
    r.push("cd".to_owned());
    r.push("echo".to_owned());
    r.push("exit".to_owned());
    r.push("history".to_owned());
    r.push("ls".to_owned());
    r.push("pwd".to_owned());
    r.push("type".to_owned());
    proof {
        assert(r.deep_view() =~= seq!["cd"@, "echo"@, "exit"@, "history"@, "ls"@, "pwd"@, "type"@]);
    }
    r
}

/// Prints the working directory.
pub fn pwd(current_dir: &str) -> (r: CommandOutput)
    ensures
        r.updated_dir is None,
        r.std_error is None,
        r.std_output matches Some(m) && m@ == current_dir@,
{
    CommandOutput::success(current_dir.to_owned())
}

/// An octal digit.
pub open spec fn is_octal_digit(c: char) -> bool {
    '0' as u32 <= c as u32 && c as u32 <= '7' as u32
}

/// A hexadecimal digit.
pub open spec fn is_hex_digit(c: char) -> bool {
    ||| ('0' as u32 <= c as u32 && c as u32 <= '9' as u32)
    ||| ('a' as u32 <= c as u32 && c as u32 <= 'f' as u32)
    ||| ('A' as u32 <= c as u32 && c as u32 <= 'F' as u32)
}

/// The numeric value of a digit (octal or hexadecimal).
pub open spec fn digit_val(c: char) -> int {
    if '0' as u32 <= c as u32 && c as u32 <= '9' as u32 {
        c as u32 - '0' as u32
    } else if 'a' as u32 <= c as u32 && c as u32 <= 'f' as u32 {
        c as u32 - 'a' as u32 + 10
    } else {
        c as u32 - 'A' as u32 + 10
    }
}

/// Where the escape interpreter stands in the text.
#[derive(Clone, Copy, PartialEq, Eq, Structural, Debug)]
pub enum EscapeState {
    /// Plain text.
    Normal,
    /// Right after a backslash.
    Escape,
    /// Inside the digits of an octal escape.
    Octal,
    /// Inside the digits of a hexadecimal escape.
    Hex,
    /// After a stop escape: the rest of the input produces nothing.
    Stopped,
}

/// A plain character: a backslash opens an escape, anything else is output.
pub open spec fn esc_normal(c: char, out: Seq<char>) -> (EscapeState, Seq<char>) {
    if c == '\\' {
        (EscapeState::Escape, out)
    } else {
        (EscapeState::Normal, out.push(c))
    }
}

/// The character an octal escape of value `v` produces: the value itself
/// when it fits a byte, else the zero character.
pub open spec fn octal_char(v: int) -> char {
    if v <= 255 {
        (v as u8) as char
    } else {
        (0 as u8) as char
    }
}

/// What a hexadecimal escape leaves behind: with no digits, the two
/// characters `\x` stand as they were; else the value's character.
pub open spec fn hex_flush(k: int, v: int, out: Seq<char>) -> Seq<char> {
    if k == 0 {
        out.push('\\').push('x')
    } else {
        out.push((v as u8) as char)
    }
}

/// One step of the escape interpreter: from the state, the digit count and
/// value being collected, consuming `c`.
pub open spec fn esc_step(st: EscapeState, k: int, v: int, c: char, out: Seq<char>) -> (
    EscapeState,
    int,
    int,
    Seq<char>,
) {
    match st {
        EscapeState::Normal => {
            let (m, o) = esc_normal(c, out);
            (m, 0, 0, o)
        },
        EscapeState::Escape => {
            if c == 'n' {
                (EscapeState::Normal, 0, 0, out.push('\n'))
            } else if c == 't' {
                (EscapeState::Normal, 0, 0, out.push('\t'))
            } else if c == '\\' {
                (EscapeState::Normal, 0, 0, out.push('\\'))
            } else if c == 'a' {
                (EscapeState::Normal, 0, 0, out.push('\x07'))
            } else if c == 'b' {
                (EscapeState::Normal, 0, 0, out.push('\x08'))
            } else if c == 'r' {
                (EscapeState::Normal, 0, 0, out.push('\r'))
            } else if c == 'c' {
                (EscapeState::Stopped, 0, 0, out)
            } else if c == '0' {
                (EscapeState::Octal, 0, 0, out)
            } else if c == 'x' {
                (EscapeState::Hex, 0, 0, out)
            } else {
                (EscapeState::Normal, 0, 0, out.push('\\').push(c))
            }
        },
        EscapeState::Octal => {
            if k < 3 && is_octal_digit(c) {
                (EscapeState::Octal, k + 1, v * 8 + digit_val(c), out)
            } else {
                let (m, o) = esc_normal(c, out.push(octal_char(v)));
                (m, 0, 0, o)
            }
        },
        EscapeState::Hex => {
            if k < 2 && is_hex_digit(c) {
                (EscapeState::Hex, k + 1, v * 16 + digit_val(c), out)
            } else {
                let (m, o) = esc_normal(c, hex_flush(k, v, out));
                (m, 0, 0, o)
            }
        },
        EscapeState::Stopped => (EscapeState::Stopped, 0, 0, out),
    }
}

/// What the interpreter still owes at the end of input: a pending backslash
/// or the collected escape value.
pub open spec fn esc_finish(st: EscapeState, k: int, v: int, out: Seq<char>) -> Seq<char> {
    match st {
        EscapeState::Normal => out,
        EscapeState::Escape => out.push('\\'),
        EscapeState::Octal => out.push(octal_char(v)),
        EscapeState::Hex => hex_flush(k, v, out),
        EscapeState::Stopped => out,
    }
}

/// Runs the escape interpreter over `s` from position `i` on.
pub open spec fn esc_run(
    s: Seq<char>,
    i: int,
    st: EscapeState,
    k: int,
    v: int,
    out: Seq<char>,
) -> Seq<char>
    decreases s.len() - i,
{
    if i < 0 || i >= s.len() {
        esc_finish(st, k, v, out)
    } else {
        let stepped = esc_step(st, k, v, s[i], out);
        esc_run(s, i + 1, stepped.0, stepped.1, stepped.2, stepped.3)
    }
}

/// The text with `echo`'s backslash escapes interpreted: `\n`, `\t`, `\\`,
/// `\a`, `\b`, `\r`, `\c` (stop), `\0` with up to three octal digits, `\x`
/// with up to two hexadecimal digits; any other escaped character keeps its
/// backslash.
pub open spec fn spec_interpret_escapes(s: Seq<char>) -> Seq<char> {
    esc_run(s, 0, EscapeState::Normal, 0, 0, Seq::empty())
}

/// Interprets `echo -e` backslash escapes, as [`spec_interpret_escapes`]
/// says.
pub fn interpret_escapes(input: &str) -> (r: String)
    ensures
        r@ == spec_interpret_escapes(input@),
{
    let chars = str_to_chars(input);
    let ghost s = input@;
    let mut st = EscapeState::Normal;
    let mut k: u32 = 0;
    let mut v: u32 = 0;
    let mut out = String::new();
    let mut i: usize = 0;
    while i < chars.len()
        invariant
            i <= chars@.len(),
            chars@ == s,
            st is Normal || st is Escape || st is Stopped ==> k == 0 && v == 0,
            st is Octal ==> k <= 3 && (k == 0 ==> v == 0) && (k <= 1 ==> v <= 7) && (k <= 2
                ==> v <= 63) && v <= 511,
            st is Hex ==> k <= 2 && (k == 0 ==> v == 0) && (k <= 1 ==> v <= 15) && v <= 255,
            spec_interpret_escapes(s) == esc_run(s, i as int, st, k as int, v as int, out@),
        decreases chars.len() - i,
    {
        let c = chars[i];
        let ghost pre = (st, k as int, v as int, out@);
        match st {
            EscapeState::Normal => {
                if c == '\\' {
                    st = EscapeState::Escape;
                } else {
                    push_char(&mut out, c);
                }
            },
            EscapeState::Escape => {
                if c == 'n' {
                    push_char(&mut out, '\n');
                    st = EscapeState::Normal;
                } else if c == 't' {
                    push_char(&mut out, '\t');
                    st = EscapeState::Normal;
                } else if c == '\\' {
                    push_char(&mut out, '\\');
                    st = EscapeState::Normal;
                } else if c == 'a' {
                    push_char(&mut out, '\x07');
                    st = EscapeState::Normal;
                } else if c == 'b' {
                    push_char(&mut out, '\x08');
                    st = EscapeState::Normal;
                } else if c == 'r' {
                    push_char(&mut out, '\r');
                    st = EscapeState::Normal;
                } else if c == 'c' {
                    st = EscapeState::Stopped;
                } else if c == '0' {
                    st = EscapeState::Octal;
                    k = 0;
                    v = 0;
                } else if c == 'x' {
                    st = EscapeState::Hex;
                    k = 0;
                    v = 0;
                } else {
                    push_char(&mut out, '\\');
                    push_char(&mut out, c);
                    st = EscapeState::Normal;
                }
            },
            EscapeState::Octal => {
                if k < 3 && is_octal_digit_char(c) {
                    k = k + 1;
                    v = v * 8 + (c as u32 - 48);
                } else {
                    push_char(&mut out, octal_char_exec(v));
                    if c == '\\' {
                        st = EscapeState::Escape;
                    } else {
                        push_char(&mut out, c);
                        st = EscapeState::Normal;
                    }
                    k = 0;
                    v = 0;
                }
            },
            EscapeState::Hex => {
                if k < 2 && is_hex_digit_char(c) {
                    k = k + 1;
                    v = v * 16 + hex_digit_val_char(c);
                } else {
                    if k == 0 {
                        push_char(&mut out, '\\');
                        push_char(&mut out, 'x');
                    } else {
                        push_char(&mut out, (v as u8) as char);
                    }
                    if c == '\\' {
                        st = EscapeState::Escape;
                    } else {
                        push_char(&mut out, c);
                        st = EscapeState::Normal;
                    }
                    k = 0;
                    v = 0;
                }
            },
            EscapeState::Stopped => {},
        }
        proof {
            let stepped = esc_step(pre.0, pre.1, pre.2, s[i as int], pre.3);
            assert(st == stepped.0);
            assert(k as int == stepped.1);
            match pre.0 {
                EscapeState::Normal => {
                    assert(v as int == stepped.2);
                },
                EscapeState::Escape => {
                    assert(v as int == stepped.2);
                },
                EscapeState::Octal => {
                    assert(v as int == stepped.2);
                },
                EscapeState::Hex => {
                    assert(v as int == stepped.2);
                },
                EscapeState::Stopped => {
                    assert(v as int == stepped.2);
                },
            }
            assert(out@ =~= stepped.3);
        }
        i = i + 1;
    }
    match st {
        EscapeState::Normal => {},
        EscapeState::Escape => {
            push_char(&mut out, '\\');
        },
        EscapeState::Octal => {
            push_char(&mut out, octal_char_exec(v));
        },
        EscapeState::Hex => {
            if k == 0 {
                push_char(&mut out, '\\');
                push_char(&mut out, 'x');
            } else {
                push_char(&mut out, (v as u8) as char);
            }
        },
        EscapeState::Stopped => {},
    }
    out
}

/// Executable test for [`is_octal_digit`].
fn is_octal_digit_char(c: char) -> (r: bool)
    ensures
        r == is_octal_digit(c),
{
    (c as u32) >= 48 && (c as u32) <= 55
}

/// Executable test for [`is_hex_digit`].
fn is_hex_digit_char(c: char) -> (r: bool)
    ensures
        r == is_hex_digit(c),
{
    let u = c as u32;
    (u >= 48 && u <= 57) || (u >= 97 && u <= 102) || (u >= 65 && u <= 70)
}

/// Executable mirror of [`digit_val`] for hexadecimal digits.
fn hex_digit_val_char(c: char) -> (r: u32)
    requires
        is_hex_digit(c),
    ensures
        r as int == digit_val(c),
        r <= 15,
{
    let u = c as u32;
    if u >= 48 && u <= 57 {
        u - 48
    } else if u >= 97 && u <= 102 {
        u - 97 + 10
    } else {
        u - 65 + 10
    }
}

/// Executable mirror of [`octal_char`].
fn octal_char_exec(v: u32) -> (r: char)
    ensures
        r == octal_char(v as int),
{
    if v <= 255 {
        (v as u8) as char
    } else {
        (0 as u8) as char
    }
}

/// What `echo` prints: its arguments joined with single spaces, with
/// backslash escapes interpreted when the first argument is `-e`.
pub open spec fn spec_echo_text(args: Seq<Seq<char>>) -> Seq<char> {
    if args.len() > 0 && args[0] == "-e"@ {
        spec_interpret_escapes(spec_join(args.skip(1), seq![' ']))
    } else {
        spec_join(args, seq![' '])
    }
}

/// The `echo` builtin: prints its arguments joined with spaces; with a
/// leading `-e`, backslash escapes in the remaining text are interpreted.
pub fn echo(arguments: &Vec<String>) -> (r: CommandOutput)
    ensures
        r.updated_dir is None,
        r.std_error is None,
        r.std_output matches Some(m) && m@ == spec_echo_text(arguments.deep_view()),
{
    let dash_e = "-e".to_owned();
    if arguments.len() > 0 && arguments[0].eq(&dash_e) {
        let mut rest: Vec<String> = Vec::new();
        let mut i: usize = 1;
        proof {
            assert(rest.deep_view() =~= arguments.deep_view().skip(1).take(0));
        }
        while i < arguments.len()
            invariant
                1 <= i <= arguments@.len(),
                rest.deep_view() == arguments.deep_view().skip(1).take(i - 1),
            decreases arguments.len() - i,
        {
            let ghost pre = rest.deep_view();
            rest.push(arguments[i].clone());
            proof {
                assert(rest.deep_view() =~= pre.push(arguments.deep_view()[i as int]));
                assert(arguments.deep_view().skip(1).take(i as int) =~= arguments.deep_view().skip(
                    1,
                ).take(i - 1).push(arguments.deep_view()[i as int]));
            }
            i = i + 1;
        }
        proof {
            assert(rest.deep_view() =~= arguments.deep_view().skip(1));
        }
        let text = crate::text::join_with(&rest, " ");
        proof {
            reveal_strlit(" ");
            assert(" "@ =~= seq![' ']);
        }
        CommandOutput::success(interpret_escapes(text.as_str()))
    } else {
        proof {
            reveal_strlit(" ");
            assert(" "@ =~= seq![' ']);
        }
        CommandOutput::success(crate::text::join_with(arguments, " "))
    }
}

/// Resolves `cd`'s path argument. With no argument there is nothing to do;
/// a leading `~` needs the home directory, and without one that is the
/// reported error.
pub fn cd_target(arguments: &Vec<String>, current_dir: &str, home: Option<&str>) -> (r: Result<
    Option<String>,
    String,
>)
    ensures
        arguments@.len() == 0 ==> (r matches Ok(t) && t is None),
        arguments@.len() > 0 ==> {
            let p = arguments.deep_view()[0];
            &&& (r is Err) == (p.len() > 0 && p[0] == '~' && home is None)
            &&& (r matches Err(m) ==> m@ == "HOME directory is not available"@)
            &&& (r matches Ok(t) ==> t matches Some(d) && d@ == spec_resolve_path(
                if p.len() > 0 && p[0] == '~' {
                    spec_expand_tilde(p, home.unwrap()@)
                } else {
                    p
                },
                current_dir@,
            ))
        },
{
    if arguments.len() == 0 {
        return Ok(None);
    }
    match parse_path(arguments[0].as_str(), current_dir, home) {
        Err(_) => Err("HOME directory is not available".to_owned()),
        Ok(target) => Ok(Some(target)),
    }
}

/// `cd`'s outcome once the target's existence is known: an existing target
/// becomes the new working directory; a missing one leaves the working
/// directory unchanged and reports the error.
pub fn cd(path_arg: &String, target: String, target_exists: bool) -> (r: CommandOutput)
    ensures
        target_exists ==> {
            &&& r.updated_dir matches Some(d) && d@ == target@
            &&& r.std_output is None
            &&& r.std_error is None
        },
        !target_exists ==> {
            &&& r.updated_dir is None
            &&& r.std_output is None
            &&& r.std_error matches Some(m) && m@ == "cd: "@ + path_arg@
                + ": No such file or directory"@
        },
{
    if target_exists {
        CommandOutput::path_update(target)
    } else {
        let mut message = concat_str("cd: ", path_arg.as_str());
        message.append(": No such file or directory");
        CommandOutput::failure(message)
    }
}

/// The `type` builtin: says whether the name is a builtin, an indexed or
/// working-directory executable (with its path), or unknown.
pub fn type_fn(
    arguments: &Vec<String>,
    os: &OSInstance,
    current_dir: &str,
    cwd_executables: &Vec<String>,
) -> (r: CommandOutput)
    ensures
        r.updated_dir is None,
        arguments@.len() == 0 ==> r.std_output is None && (r.std_error matches Some(m) && m@
            == ": not found"@),
        arguments@.len() > 0 ==> {
            let name = arguments.deep_view()[0];
            let found = os.spec_find_executable(
                name,
                current_dir@,
                cwd_executables.deep_view(),
            );
            if is_builtin(name) {
                r.std_error is None && (r.std_output matches Some(m) && m@ == name
                    + " is a shell builtin"@)
            } else if found is Some {
                r.std_error is None && (r.std_output matches Some(m) && m@ == name + " is "@
                    + found.unwrap())
            } else {
                r.std_output is None && (r.std_error matches Some(m) && m@ == name
                    + ": not found"@)
            }
        },
{
    if arguments.len() == 0 {
        return CommandOutput::failure(": not found".to_owned());
    }
    let name = &arguments[0];
    if is_builtin_name(name) {
        CommandOutput::success(concat_str(name.as_str(), " is a shell builtin"))
    } else {
        match os.find_executable(name, current_dir, cwd_executables) {
            Some(path) => {
                let mut message = concat_str(name.as_str(), " is ");
                message.append(path.as_str());
                CommandOutput::success(message)
            },
            None => CommandOutput::failure(concat_str(name.as_str(), ": not found")),
        }
    }
}

/// One entry of a directory listing handed to `ls`.
pub struct FileEntry {
    /// The entry's bare name.
    pub name: String,
    /// The entry is a directory.
    pub is_dir: bool,
    /// The entry is an executable file.
    pub is_executable: bool,
}

/// Directory names decorated for display: `[name]`, in listing order.
pub open spec fn decorated_dirs(es: Seq<FileEntry>) -> Seq<Seq<char>>
    decreases es.len(),
{
    if es.len() == 0 {
        Seq::empty()
    } else {
        let rest = decorated_dirs(es.drop_last());
        if es.last().is_dir {
            rest.push(seq!['['] + es.last().name@ + seq![']'])
        } else {
            rest
        }
    }
}

/// Executable names decorated for display: `*name`, in listing order.
pub open spec fn decorated_execs(es: Seq<FileEntry>) -> Seq<Seq<char>>
    decreases es.len(),
{
    if es.len() == 0 {
        Seq::empty()
    } else {
        let rest = decorated_execs(es.drop_last());
        if !es.last().is_dir && es.last().is_executable {
            rest.push(seq!['*'] + es.last().name@)
        } else {
            rest
        }
    }
}

/// The remaining entries' names, undecorated, in listing order.
pub open spec fn plain_entries(es: Seq<FileEntry>) -> Seq<Seq<char>>
    decreases es.len(),
{
    if es.len() == 0 {
        Seq::empty()
    } else {
        let rest = plain_entries(es.drop_last());
        if !es.last().is_dir && !es.last().is_executable {
            rest.push(es.last().name@)
        } else {
            rest
        }
    }
}

/// `out` is what `ls` shows for the entries: the decorated directories,
/// then the executables, then the rest, each group in lexicographic order,
/// one entry per line.
pub open spec fn spec_ls_rendered(es: Seq<FileEntry>, out: Seq<char>) -> bool {
    exists|d: Seq<Seq<char>>, x: Seq<Seq<char>>, o: Seq<Seq<char>>|
        {
            &&& sorted_lex(d) && d.to_multiset() == decorated_dirs(es).to_multiset()
            &&& sorted_lex(x) && x.to_multiset() == decorated_execs(es).to_multiset()
            &&& sorted_lex(o) && o.to_multiset() == plain_entries(es).to_multiset()
            &&& out == spec_join(d + x + o, seq!['\n'])
        }
}

/// Renders a directory listing the way `ls` prints it: directories in
/// brackets, executables starred, everything else bare; each group sorted.
pub fn ls(entries: &Vec<FileEntry>) -> (r: CommandOutput)
    ensures
        r.updated_dir is None,
        r.std_error is None,
        r.std_output matches Some(m) && spec_ls_rendered(entries@, m@),
{
    let mut dirs: Vec<String> = Vec::new();
    let mut execs: Vec<String> = Vec::new();
    let mut plain: Vec<String> = Vec::new();
    let mut i: usize = 0;
    proof {
        assert(entries@.take(0) =~= Seq::<FileEntry>::empty());
        assert(dirs.deep_view() =~= decorated_dirs(entries@.take(0)));
        assert(execs.deep_view() =~= decorated_execs(entries@.take(0)));
        assert(plain.deep_view() =~= plain_entries(entries@.take(0)));
    }
    while i < entries.len()
        invariant
            i <= entries@.len(),
            dirs.deep_view() == decorated_dirs(entries@.take(i as int)),
            execs.deep_view() == decorated_execs(entries@.take(i as int)),
            plain.deep_view() == plain_entries(entries@.take(i as int)),
        decreases entries.len() - i,
    {
        let e = &entries[i];
        let ghost pre_dirs = dirs.deep_view();
        let ghost pre_execs = execs.deep_view();
        let ghost pre_plain = plain.deep_view();
        if e.is_dir {
            let mut decorated = "[".to_owned();
            decorated.append(e.name.as_str());
            decorated.append("]");
            dirs.push(decorated);
            proof {
                reveal_strlit("[");
                reveal_strlit("]");
                assert("["@ =~= seq!['[']);
                assert("]"@ =~= seq![']']);
                assert(dirs.deep_view() =~= pre_dirs.push(
                    seq!['['] + entries@[i as int].name@ + seq![']'],
                ));
            }
        } else if e.is_executable {
            let mut decorated = "*".to_owned();
            decorated.append(e.name.as_str());
            execs.push(decorated);
            proof {
                reveal_strlit("*");
                assert("*"@ =~= seq!['*']);
                assert(execs.deep_view() =~= pre_execs.push(
                    seq!['*'] + entries@[i as int].name@,
                ));
            }
        } else {
            plain.push(e.name.clone());
            proof {
                assert(plain.deep_view() =~= pre_plain.push(entries@[i as int].name@));
            }
        }
        proof {
            assert(entries@.take(i + 1).drop_last() =~= entries@.take(i as int));
            assert(entries@.take(i + 1).last() == entries@[i as int]);
        }
        i = i + 1;
    }
    proof {
        assert(entries@.take(entries@.len() as int) =~= entries@);
    }
    let sorted_dirs = sort_strings(&dirs);
    let sorted_execs = sort_strings(&execs);
    let sorted_plain = sort_strings(&plain);
    let mut all: Vec<String> = Vec::new();
    append_strings(&mut all, &sorted_dirs);
    append_strings(&mut all, &sorted_execs);
    append_strings(&mut all, &sorted_plain);
    proof {
        assert(all.deep_view() =~= sorted_dirs.deep_view() + sorted_execs.deep_view()
            + sorted_plain.deep_view());
    }
    let joined = crate::text::join_with(&all, "\n");
    proof {
        reveal_strlit("\n");
        assert("\n"@ =~= seq!['\n']);
        assert(spec_ls_rendered(entries@, joined@));
    }
    CommandOutput::success(joined)
}

/// Appends every string of `src` to `dst`, in order.
fn append_strings(dst: &mut Vec<String>, src: &Vec<String>)
    ensures
        final(dst).deep_view() == old(dst).deep_view() + src.deep_view(),
{
    let mut i: usize = 0;
    proof {
        assert(dst.deep_view() =~= old(dst).deep_view() + src.deep_view().take(0));
    }
    while i < src.len()
        invariant
            i <= src@.len(),
            dst.deep_view() == old(dst).deep_view() + src.deep_view().take(i as int),
        decreases src.len() - i,
    {
        let ghost pre = dst.deep_view();
        dst.push(src[i].clone());
        proof {
            assert(dst.deep_view() =~= pre.push(src.deep_view()[i as int]));
            assert(old(dst).deep_view() + src.deep_view().take(i + 1) =~= pre.push(
                src.deep_view()[i as int],
            ));
        }
        i = i + 1;
    }
    proof {
        assert(src.deep_view().take(src@.len() as int) =~= src.deep_view());
    }
}

} // verus!
