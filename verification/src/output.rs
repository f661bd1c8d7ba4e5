//! Redirection parsing and output routing: where a stage's standard output
//! and standard error go — console, next stage, or a file — and what exactly
//! is written there.
//!
//! Redirection detection is quote-aware: the first `>` that stands outside
//! quotes and escapes determines the operator. A `>` directly followed by
//! another `>` appends instead of truncating; a `1` or `2` directly before
//! it selects the stream (`2` is standard error) and belongs to the
//! operator. Everything from the operator on is the target path, which is
//! trimmed, tilde-expanded and resolved against the current directory.

use vstd::prelude::*;
use vstd::string::StrSliceExecFns;

use crate::parser::TokenizerState;
use crate::parser::next_state;
use crate::parser::spec_expand_tilde;
use crate::parser::spec_resolve_path;
use crate::parser::tok_next_state;
use crate::parser::parse_path;
use crate::text::push_char;
use crate::text::spec_trim;
use crate::text::str_to_chars;
use crate::text::trim_chars;
use crate::text::chars_to_string;
use crate::text::concat_str;

verus! {

/// Where a stage's streams are routed.
#[derive(Debug)]
pub enum OutputProcessor {
    /// No redirection: output goes to the console or the next stage.
    Console,
    /// Standard output goes to the file at this path; the flag selects
    /// appending over truncating.
    StdoutToFile(String, bool),
    /// Standard error goes to the file at this path; the flag selects
    /// appending over truncating.
    StderrToFile(String, bool),
}

/// The position of the first `>` at or after `i` that the tokenizer would
/// see outside quotes and escapes, starting in state `st`.
pub open spec fn find_gt_from(s: Seq<char>, i: int, st: TokenizerState) -> Option<int>
    decreases s.len() - i,
{
    if i < 0 || i >= s.len() {
        None
    } else if st is Unquoted && s[i] == '>' {
        Some(i)
    } else {
        find_gt_from(s, i + 1, tok_next_state(st, s[i]))
    }
}

/// The position of the first unquoted, unescaped `>` in `s`, if any.
pub open spec fn first_unquoted_gt(s: Seq<char>) -> Option<int> {
    find_gt_from(s, 0, TokenizerState::Unquoted)
}

/// With the operator's `>` at `i`: whether the mode is append (`>>`).
pub open spec fn redirect_is_append(s: Seq<char>, i: int) -> bool {
    i + 1 < s.len() && s[i + 1] == '>'
}

/// With the operator's `>` at `i`: whether the target stream is standard
/// error (a `2` directly before the `>`), else standard output.
pub open spec fn redirect_is_stderr(s: Seq<char>, i: int) -> bool {
    i > 0 && s[i - 1] == '2'
}

/// With the operator's `>` at `i`: where the operator begins — a stream
/// digit directly before the `>` belongs to it.
pub open spec fn redirect_op_start(s: Seq<char>, i: int) -> int {
    if i > 0 && (s[i - 1] == '1' || s[i - 1] == '2') {
        i - 1
    } else {
        i
    }
}

/// With the operator's `>` at `i`: where the raw target path text begins.
pub open spec fn redirect_path_start(s: Seq<char>, i: int) -> int {
    if redirect_is_append(s, i) {
        i + 2
    } else {
        i + 1
    }
}

/// The stage text with the redirection operator and target removed; the
/// whole text when there is no redirection.
pub open spec fn spec_stage_left(s: Seq<char>) -> Seq<char> {
    match first_unquoted_gt(s) {
        None => s,
        Some(i) => s.take(redirect_op_start(s, i)),
    }
}

/// A redirection found in a stage's text, before path resolution.
pub struct RedirectTarget {
    /// The target stream is standard error rather than standard output.
    pub stderr: bool,
    /// Append to the file instead of truncating it.
    pub append: bool,
    /// The raw target path text, exactly as it follows the operator.
    pub path_text: String,
}

/// Splits a stage's text into the part before any redirection operator and
/// the redirection itself.
pub fn split_redirection(command: &str) -> (r: (String, Option<RedirectTarget>))
    ensures
        first_unquoted_gt(command@) is None ==> r.1 is None && r.0@ == command@,
        first_unquoted_gt(command@) matches Some(i) ==> r.1 matches Some(t) && t.stderr
            == redirect_is_stderr(command@, i) && t.append == redirect_is_append(command@, i)
            && t.path_text@ == command@.skip(redirect_path_start(command@, i)) && r.0@
            == command@.take(redirect_op_start(command@, i)),
{
    let chars = str_to_chars(command);
    let ghost s = command@;
    let n = chars.len();
    let mut st = TokenizerState::Unquoted;
    let mut i: usize = 0;
    while i < n && !(st == TokenizerState::Unquoted && chars[i] == '>')
        invariant
            i <= n,
            chars@ == s,
            n == s.len(),
            first_unquoted_gt(s) == find_gt_from(s, i as int, st),
        decreases n - i,
    {
        st = next_state(st, chars[i]);
        i = i + 1;
    }
    if i == n {
        return (command.to_owned(), None);
    }
    proof {
        assert(first_unquoted_gt(s) == Some(i as int));
    }
    let append = i + 1 < n && chars[i + 1] == '>';
    let stderr = i > 0 && chars[i - 1] == '2';
    let op_start = if i > 0 && (chars[i - 1] == '1' || chars[i - 1] == '2') {
        i - 1
    } else {
        i
    };
    let path_from = if append {
        i + 2
    } else {
        i + 1
    };
    let left = command.substring_char(0, op_start).to_owned();
    let path_text = command.substring_char(path_from, n).to_owned();
    proof {
        assert(left@ =~= s.take(redirect_op_start(s, i as int)));
        assert(path_text@ =~= s.skip(redirect_path_start(s, i as int)));
    }
    (left, Some(RedirectTarget { stderr, append, path_text }))
}

/// The view of an optional string slice.
pub open spec fn opt_view(h: Option<&str>) -> Option<Seq<char>> {
    match h {
        None => None,
        Some(s) => Some(s@),
    }
}

/// The trimmed raw target path of the redirection whose `>` stands at `i`.
pub open spec fn spec_redirect_raw_path(s: Seq<char>, i: int) -> Seq<char> {
    spec_trim(s.skip(redirect_path_start(s, i)))
}

/// Whether resolving the redirection target needs a home directory that is
/// not available.
pub open spec fn spec_redirect_needs_home(s: Seq<char>, i: int, home: Option<Seq<char>>) -> bool {
    let raw = spec_redirect_raw_path(s, i);
    raw.len() > 0 && raw[0] == '~' && home is None
}

/// The resolved target path of the redirection whose `>` stands at `i`.
pub open spec fn spec_redirect_path(
    s: Seq<char>,
    i: int,
    cwd: Seq<char>,
    home: Option<Seq<char>>,
) -> Seq<char> {
    let raw = spec_redirect_raw_path(s, i);
    spec_resolve_path(
        if raw.len() > 0 && raw[0] == '~' {
            spec_expand_tilde(raw, home.unwrap())
        } else {
            raw
        },
        cwd,
    )
}

/// The processor a redirection whose `>` stands at `i` selects: the right
/// stream, the resolved target path, and the append mode.
pub open spec fn spec_redirect_is_stderr_case(
    s: Seq<char>,
    i: int,
    cwd: Seq<char>,
    home: Option<Seq<char>>,
    p: OutputProcessor,
) -> bool {
    let path = spec_redirect_path(s, i, cwd, home);
    let append = redirect_is_append(s, i);
    if redirect_is_stderr(s, i) {
        p matches OutputProcessor::StderrToFile(f, a) && f@ == path && a == append
    } else {
        p matches OutputProcessor::StdoutToFile(f, a) && f@ == path && a == append
    }
}

/// Reads a stage's text and decides where its output goes: to the console
/// when no redirection operator is present, else to the resolved target
/// file of the first unquoted `>`.
pub fn define_output_processor(command: &str, current_dir: &str, home: Option<&str>) -> (r: Result<
    OutputProcessor,
    String,
>)
    ensures
        first_unquoted_gt(command@) is None ==> (r matches Ok(p) && p is Console),
        first_unquoted_gt(command@) matches Some(i) ==> {
            &&& (r is Err) == spec_redirect_needs_home(command@, i, opt_view(home))
            &&& (r matches Err(m) ==> m@ == "Invalid redirect output operation: "@
                + "HOME directory not defined."@)
            &&& (r matches Ok(p) ==> spec_redirect_is_stderr_case(
                command@,
                i,
                current_dir@,
                opt_view(home),
                p,
            ))
        },
{
    let (_, redirect) = split_redirection(command);
    match redirect {
        None => Ok(OutputProcessor::Console),
        Some(target) => {
            let raw_chars = str_to_chars(target.path_text.as_str());
            let trimmed_chars = trim_chars(&raw_chars);
            let trimmed = chars_to_string(&trimmed_chars);
            match parse_path(trimmed.as_str(), current_dir, home) {
                Err(message) => Err(
                    concat_str("Invalid redirect output operation: ", message.as_str()),
                ),
                Ok(path) => {
                    if target.stderr {
                        Ok(OutputProcessor::StderrToFile(path, target.append))
                    } else {
                        Ok(OutputProcessor::StdoutToFile(path, target.append))
                    }
                },
            }
        },
    }
}

/// `s` with every trailing newline removed.
pub open spec fn spec_trim_newlines(s: Seq<char>) -> Seq<char>
    decreases s.len(),
{
    if s.len() > 0 && s.last() == '\n' {
        spec_trim_newlines(s.drop_last())
    } else {
        s
    }
}

proof fn lemma_trim_newlines_take(s: Seq<char>, j: int)
    requires
        0 <= j <= s.len(),
        forall|k: int| j <= k < s.len() ==> s[k] == '\n',
        j > 0 ==> s[j - 1] != '\n',
    ensures
        spec_trim_newlines(s) == s.take(j),
    decreases s.len(),
{
    if j == s.len() {
        if s.len() > 0 && s.last() == '\n' {
            lemma_trim_newlines_take(s.drop_last(), j - 1);
            assert(s.drop_last().take(j - 1) =~= s.take(j - 1));
        } else {
            assert(s.take(j) =~= s);
        }
    } else {
        assert(s.last() == '\n');
        lemma_trim_newlines_take(s.drop_last(), j);
        assert(s.drop_last().take(j) =~= s.take(j));
    }
}

/// Removes every trailing newline of `s`.
pub fn trim_end_newlines(s: &str) -> (r: String)
    ensures
        r@ == spec_trim_newlines(s@),
{
    let chars = str_to_chars(s);
    let n = chars.len();
    let mut j: usize = n;
    while j > 0 && chars[j - 1] == '\n'
        invariant
            j <= n,
            chars@ == s@,
            n == s@.len(),
            forall|k: int| j <= k < n ==> s@[k] == '\n',
        decreases j,
    {
        j = j - 1;
    }
    proof {
        lemma_trim_newlines_take(s@, j as int);
    }
    let sub = s.substring_char(0, j);
    sub.to_owned()
}

/// What file content to write: empty output stays empty, anything else is
/// normalized to end with exactly one trailing newline.
pub open spec fn spec_normalized_content(content: Option<Seq<char>>) -> Seq<char> {
    match content {
        None => Seq::empty(),
        Some(s) => if s.len() == 0 {
            s
        } else {
            spec_trim_newlines(s).push('\n')
        },
    }
}

/// Normalizes content headed for a redirection file: absent or empty
/// content becomes empty, anything else ends with exactly one newline.
pub fn ensure_trailing_newline(content: Option<String>) -> (r: String)
    ensures
        r@ == spec_normalized_content(match content {
            None => None,
            Some(s) => Some(s@),
        }),
{
    match content {
        None => String::new(),
        Some(s) => {
            if s.as_str().is_empty() {
                s
            } else {
                let mut r = trim_end_newlines(s.as_str());
                push_char(&mut r, '\n');
                r
            }
        },
    }
}

/// One pending write to a redirection target file.
pub struct FileWrite {
    /// The resolved target path.
    pub path: String,
    /// The normalized content to write.
    pub content: String,
    /// Append to the file rather than truncate it.
    pub append: bool,
}

/// Everything a stage's realized output asks of the outside world: lines
/// for the console, in order, and at most one file write.
pub struct OutputPlan {
    /// Lines to print on the console, in order.
    pub console: Vec<String>,
    /// The write to a redirection target, if the stage had one.
    pub file_write: Option<FileWrite>,
}

/// Routes a stage's realized output per its redirection target. Untargeted
/// standard output surfaces on the console only for the pipeline's last
/// stage (earlier stages feed the next stage instead); a redirected stream
/// is written to its file; the stream a redirection leaves untargeted still
/// prints under the same last-stage rule for standard output, and always
/// for standard error.
pub fn process_output(
    output_processor: &OutputProcessor,
    std_output: Option<String>,
    std_error: Option<String>,
    is_last: bool,
) -> (plan: OutputPlan)
    ensures
        output_processor is Console ==> {
            &&& plan.file_write is None
            &&& plan.console.deep_view() == console_lines_spec(
                match std_output {
                    None => None,
                    Some(s) => Some(s@),
                },
                match std_error {
                    None => None,
                    Some(s) => Some(s@),
                },
                is_last,
            )
        },
        output_processor matches OutputProcessor::StdoutToFile(f, a) ==> {
            &&& plan.file_write matches Some(w) && w.path@ == f@ && w.append == a && w.content@
                == spec_normalized_content(
                match std_output {
                    None => None,
                    Some(s) => Some(s@),
                },
            )
            &&& plan.console.deep_view() == err_line_spec(
                match std_error {
                    None => None,
                    Some(s) => Some(s@),
                },
            )
        },
        output_processor matches OutputProcessor::StderrToFile(f, a) ==> {
            &&& plan.file_write matches Some(w) && w.path@ == f@ && w.append == a && w.content@
                == spec_normalized_content(
                match std_error {
                    None => None,
                    Some(s) => Some(s@),
                },
            )
            &&& plan.console.deep_view() == out_line_spec(
                match std_output {
                    None => None,
                    Some(s) => Some(s@),
                },
                is_last,
            )
        },
{
    match output_processor {
        OutputProcessor::Console => {
            let mut console: Vec<String> = Vec::new();
            proof {
                assert(console.deep_view() =~= Seq::<Seq<char>>::empty());
            }
            if is_last {
                match std_output {
                    Some(msg) => {
                        let ghost pre = console.deep_view();
                        console.push(trim_end_newlines(msg.as_str()));
                        proof {
                            assert(console.deep_view() =~= pre.push(spec_trim_newlines(msg@)));
                        }
                    },
                    None => {},
                }
            }
            match std_error {
                Some(msg) => {
                    let ghost pre = console.deep_view();
                    let ghost m = msg@;
                    console.push(msg);
                    proof {
                        assert(console.deep_view() =~= pre.push(m));
                    }
                },
                None => {},
            }
            OutputPlan { console, file_write: None }
        },
        OutputProcessor::StdoutToFile(path, append) => {
            let mut console: Vec<String> = Vec::new();
            proof {
                assert(console.deep_view() =~= Seq::<Seq<char>>::empty());
            }
            match std_error {
                Some(msg) => {
                    let ghost pre = console.deep_view();
                    let ghost m = msg@;
                    console.push(msg);
                    proof {
                        assert(console.deep_view() =~= pre.push(m));
                    }
                },
                None => {},
            }
            let content = ensure_trailing_newline(std_output);
            OutputPlan {
                console,
                file_write: Some(FileWrite { path: path.clone(), content, append: *append }),
            }
        },
        OutputProcessor::StderrToFile(path, append) => {
            let mut console: Vec<String> = Vec::new();
            proof {
                assert(console.deep_view() =~= Seq::<Seq<char>>::empty());
            }
            if is_last {
                match std_output {
                    Some(msg) => {
                        let ghost pre = console.deep_view();
                        let ghost m = msg@;
                        console.push(msg);
                        proof {
                            assert(console.deep_view() =~= pre.push(m));
                        }
                    },
                    None => {},
                }
            }
            let content = ensure_trailing_newline(std_error);
            OutputPlan {
                console,
                file_write: Some(FileWrite { path: path.clone(), content, append: *append }),
            }
        },
    }
}

/// The console lines of an unredirected stage: its standard output, with
/// trailing newlines trimmed, when it is the last stage; then its standard
/// error.
pub open spec fn console_lines_spec(
    std_output: Option<Seq<char>>,
    std_error: Option<Seq<char>>,
    is_last: bool,
) -> Seq<Seq<char>> {
    let with_out: Seq<Seq<char>> = if is_last && std_output is Some {
        seq![spec_trim_newlines(std_output.unwrap())]
    } else {
        seq![]
    };
    match std_error {
        Some(e) => with_out.push(e),
        None => with_out,
    }
}

/// The console lines when standard output goes to a file: just the error.
pub open spec fn err_line_spec(std_error: Option<Seq<char>>) -> Seq<Seq<char>> {
    match std_error {
        Some(e) => seq![e],
        None => seq![],
    }
}

/// The console lines when standard error goes to a file: standard output,
/// for the last stage only.
pub open spec fn out_line_spec(std_output: Option<Seq<char>>, is_last: bool) -> Seq<Seq<char>> {
    if is_last && std_output is Some {
        seq![std_output.unwrap()]
    } else {
        seq![]
    }
}

/// The content of a redirection target file after one write: truncating
/// replaces the file, appending adds at its end.
pub open spec fn file_after_write(prior: Seq<char>, content: Seq<char>, append: bool) -> Seq<char> {
    if append {
        prior + content
    } else {
        content
    }
}

/// Executable mirror of [`file_after_write`], for replaying writes.
pub fn apply_write(prior: &str, content: &str, append: bool) -> (r: String)
    ensures
        r@ == file_after_write(prior@, content@, append),
{
    if append {
        concat_str(prior, content)
    } else {
        content.to_owned()
    }
}

/// Writing the same content twice with truncation leaves exactly one copy:
/// the file ends up as the content itself, whatever it held before.
pub proof fn lemma_truncating_write_idempotent(prior: Seq<char>, content: Seq<char>)
    ensures
        file_after_write(file_after_write(prior, content, false), content, false) == content,
        file_after_write(prior, content, false) == content,
{
}

/// Two appending writes of the same content accumulate independently: the
/// content appears twice after the prior contents.
pub proof fn lemma_appending_writes_accumulate(prior: Seq<char>, content: Seq<char>)
    ensures
        file_after_write(file_after_write(prior, content, true), content, true) == prior + content
            + content,
{
}

} // verus!
