//! The pipeline orchestrator's decisions: splitting a submitted line into
//! stages on unquoted `|`, parsing one stage into arguments and redirection,
//! deciding how a stage's process is wired, dispatching a command name to a
//! builtin, an external executable, or a not-found report, and decoding a
//! child's captured output.

use vstd::prelude::*;
use vstd::string::StrSliceExecFns;
use vstd::utf8::decode_utf8;
use vstd::utf8::valid_utf8;

use crate::builtins::is_builtin;
use crate::builtins::is_builtin_name;
use crate::output::OutputProcessor;
use crate::output::define_output_processor;
use crate::output::first_unquoted_gt;
use crate::output::opt_view;
use crate::output::spec_redirect_is_stderr_case;
use crate::output::spec_redirect_needs_home;
use crate::output::spec_stage_left;
use crate::output::split_redirection;
use crate::parser::TokenizerState;
use crate::parser::next_state;
use crate::parser::parse_input;
use crate::parser::spec_tokenize;
use crate::parser::tok_next_state;
use crate::resolver::OSInstance;
use crate::text::concat_str;
use crate::text::push_char;
use crate::text::spec_trim;
use crate::text::str_to_chars;
use crate::text::trim_chars;

verus! {

/// Splits `s` from position `i` on into stage texts at every `|` that the
/// tokenizer sees outside quotes and escapes.
pub open spec fn pipe_run(
    s: Seq<char>,
    i: int,
    st: TokenizerState,
    cur: Seq<char>,
    acc: Seq<Seq<char>>,
) -> Seq<Seq<char>>
    decreases s.len() - i,
{
    if i < 0 || i >= s.len() {
        acc.push(cur)
    } else if st is Unquoted && s[i] == '|' {
        pipe_run(s, i + 1, st, Seq::empty(), acc.push(cur))
    } else {
        pipe_run(s, i + 1, tok_next_state(st, s[i]), cur.push(s[i]), acc)
    }
}

/// The stage texts of a submitted line: the pieces between unquoted `|`
/// separators, kept verbatim.
pub open spec fn spec_split_pipeline(s: Seq<char>) -> Seq<Seq<char>> {
    pipe_run(s, 0, TokenizerState::Unquoted, Seq::empty(), Seq::empty())
}

/// Whether any stage text is empty once trimmed — a user error that
/// discards the whole line.
pub open spec fn has_empty_stage(stages: Seq<Seq<char>>) -> bool {
    exists|i: int| 0 <= i < stages.len() && spec_trim(#[trigger] stages[i]).len() == 0
}

/// Splits a submitted line into its pipeline stages on unquoted `|`. A
/// stage that is empty after trimming is a reported error, and the whole
/// line is discarded.
pub fn split_pipeline(line: &str) -> (r: Result<Vec<String>, String>)
    ensures
        (r is Err) == has_empty_stage(spec_split_pipeline(line@)),
        r matches Err(m) ==> m@ == "Invalid pipeline: empty stage"@,
        r matches Ok(v) ==> v.deep_view() == spec_split_pipeline(line@),
{
    let chars = str_to_chars(line);
    let ghost s = line@;
    let mut st = TokenizerState::Unquoted;
    let mut cur = String::new();
    let mut acc: Vec<String> = Vec::new();
    let mut i: usize = 0;
    proof {
        assert(acc.deep_view() =~= Seq::<Seq<char>>::empty());
    }
    while i < chars.len()
        invariant
            i <= chars@.len(),
            chars@ == s,
            spec_split_pipeline(s) == pipe_run(s, i as int, st, cur@, acc.deep_view()),
        decreases chars.len() - i,
    {
        let c = chars[i];
        let ghost pre_cur = cur@;
        let ghost pre_acc = acc.deep_view();
        if st == TokenizerState::Unquoted && c == '|' {
            acc.push(cur);
            cur = String::new();
            proof {
                assert(acc.deep_view() =~= pre_acc.push(pre_cur));
            }
        } else {
            st = next_state(st, c);
            push_char(&mut cur, c);
        }
        i = i + 1;
    }
    let ghost pre_acc = acc.deep_view();
    let ghost pre_cur = cur@;
    acc.push(cur);
    proof {
        assert(acc.deep_view() =~= pre_acc.push(pre_cur));
        assert(acc.deep_view() == spec_split_pipeline(s));
    }
    let mut j: usize = 0;
    while j < acc.len()
        invariant
            j <= acc@.len(),
            s == line@,
            acc.deep_view() == spec_split_pipeline(s),
            forall|t: int| 0 <= t < j ==> spec_trim(#[trigger] acc.deep_view()[t]).len() != 0,
        decreases acc.len() - j,
    {
        let stage_chars = str_to_chars(acc[j].as_str());
        let trimmed = trim_chars(&stage_chars);
        if trimmed.len() == 0 {
            proof {
                assert(spec_trim(spec_split_pipeline(s)[j as int]).len() == 0);
                assert(has_empty_stage(spec_split_pipeline(s)));
            }
            return Err("Invalid pipeline: empty stage".to_owned());
        }
        j = j + 1;
    }
    proof {
        assert(!has_empty_stage(spec_split_pipeline(s))) by {
            if has_empty_stage(spec_split_pipeline(s)) {
                let t = choose|t: int|
                    0 <= t < spec_split_pipeline(s).len() && spec_trim(
                        #[trigger] spec_split_pipeline(s)[t],
                    ).len() == 0;
                assert(spec_trim(acc.deep_view()[t]).len() != 0);
            }
        }
    }
    Ok(acc)
}

/// One parsed pipeline stage: its argument vector and where its output
/// goes.
pub struct Stage {
    /// The decoded arguments; index 0 names the command.
    pub arguments: Vec<String>,
    /// The stage's output routing.
    pub processor: OutputProcessor,
}

/// Parses one stage's raw text: the redirection is extracted first, the
/// rest is tokenized into the argument vector.
pub fn parse_stage(command: &str, current_dir: &str, home: Option<&str>) -> (r: Result<
    Stage,
    String,
>)
    ensures
        (r is Err) == (first_unquoted_gt(command@) matches Some(i) && spec_redirect_needs_home(
            command@,
            i,
            opt_view(home),
        )),
        r matches Err(m) ==> m@ == "Invalid redirect output operation: "@
            + "HOME directory not defined."@,
        r matches Ok(st) ==> {
            &&& st.arguments.deep_view() == spec_tokenize(spec_stage_left(command@))
            &&& (first_unquoted_gt(command@) is None ==> st.processor is Console)
            &&& (first_unquoted_gt(command@) matches Some(i) ==> spec_redirect_is_stderr_case(
                command@,
                i,
                current_dir@,
                opt_view(home),
                st.processor,
            ))
        },
{
    let (left, _) = split_redirection(command);
    match define_output_processor(command, current_dir, home) {
        Err(message) => Err(message),
        Ok(processor) => {
            let arguments = parse_input(left.as_str());
            Ok(Stage { arguments, processor })
        },
    }
}

/// How one external stage's process is wired, per the orchestrator's rule:
/// text from the previous stage is piped into its stdin, and its output is
/// captured unless it is the last stage with no redirection, which streams
/// straight to the terminal.
pub struct SpawnPlan {
    /// Feed the stage captured text through a pipe on stdin; otherwise the
    /// child inherits the terminal's stdin.
    pub stdin_piped: bool,
    /// Capture stdout and stderr through pipes; otherwise the child
    /// inherits the terminal's streams.
    pub capture_output: bool,
}

/// Decides the wiring for stage `stage_index` of `stage_count`.
pub fn plan_spawn(
    stage_index: usize,
    stage_count: usize,
    has_redirect: bool,
    has_piped_input: bool,
) -> (r: SpawnPlan)
    requires
        stage_index < stage_count,
    ensures
        r.stdin_piped == has_piped_input,
        r.capture_output == !(stage_index == stage_count - 1 && !has_redirect),
{
    SpawnPlan {
        stdin_piped: has_piped_input,
        capture_output: !(stage_index == stage_count - 1 && !has_redirect),
    }
}

/// What the next stage receives on piped stdin: a stage that is neither
/// the pipeline's last nor redirecting its standard output hands its
/// captured standard output on unchanged; the last stage, and one whose
/// standard output goes to a file, hand nothing on.
pub fn next_stage_input(
    processor: &OutputProcessor,
    std_output: Option<String>,
    is_last: bool,
) -> (r: Option<String>)
    ensures
        is_last ==> r is None,
        !is_last && processor is StdoutToFile ==> r is None,
        !is_last && !(processor is StdoutToFile) ==> r == std_output,
{
    if is_last {
        None
    } else {
        match processor {
            OutputProcessor::StdoutToFile(_, _) => None,
            _ => std_output,
        }
    }
}

/// Where a stage's command name leads.
pub enum Dispatch {
    /// The name is one of the shell's builtins.
    Builtin,
    /// An external executable at this resolved path.
    External(String),
    /// Nothing answers to the name; the stage reports this message.
    NotFound(String),
}

/// Dispatches a stage's command name: builtins win, then the resolver; an
/// unresolved name yields the stage-local not-found report.
pub fn dispatch_stage(
    name: &String,
    os: &OSInstance,
    current_dir: &str,
    cwd_executables: &Vec<String>,
) -> (r: Dispatch)
    ensures
        is_builtin(name@) ==> r is Builtin,
        !is_builtin(name@) ==> {
            let found = os.spec_find_executable(name@, current_dir@, cwd_executables.deep_view());
            &&& (found is Some ==> (r matches Dispatch::External(p) && p@ == found.unwrap()))
            &&& (found is None ==> (r matches Dispatch::NotFound(m) && m@ == name@
                + ": not found"@))
        },
{
    if is_builtin_name(name) {
        Dispatch::Builtin
    } else {
        match os.find_executable(name, current_dir, cwd_executables) {
            Some(path) => Dispatch::External(path),
            None => Dispatch::NotFound(concat_str(name.as_str(), ": not found")),
        }
    }
}

/// Relies on `String::from_utf8`: returns the decoded string exactly when
/// the bytes are valid UTF-8.
#[verifier::external_body]
fn utf8_to_string(bytes: Vec<u8>) -> (r: Option<String>)
    ensures
        (r is Some) == valid_utf8(bytes@),
        r matches Some(s) ==> s@ == decode_utf8(bytes@),
{
    match String::from_utf8(bytes) {
        Ok(s) => Some(s),
        Err(_) => None,
    }
}

/// Decodes a child process's captured stream: bytes that are not valid
/// UTF-8, or decode to nothing, yield no text.
pub fn parse_output_std(std_out: Vec<u8>) -> (r: Option<String>)
    ensures
        (r is Some) == (valid_utf8(std_out@) && decode_utf8(std_out@).len() > 0),
        r matches Some(s) ==> s@ == decode_utf8(std_out@),
{
    match utf8_to_string(std_out) {
        None => None,
        Some(text) => {
            if text.as_str().is_empty() {
                None
            } else {
                Some(text)
            }
        },
    }
}

} // verus!
