use vshell::OutputProcessor;
use vshell::output::apply_write;
use vshell::output::ensure_trailing_newline;
use vshell::output::process_output;
use vshell::output::trim_end_newlines;

#[test]
fn content_is_normalized_to_one_trailing_newline() {
    assert_eq!(ensure_trailing_newline(None), "".to_string());
    assert_eq!(ensure_trailing_newline(Some("".to_string())), "".to_string());
    assert_eq!(ensure_trailing_newline(Some("a".to_string())), "a\n".to_string());
    assert_eq!(ensure_trailing_newline(Some("a\n".to_string())), "a\n".to_string());
    assert_eq!(ensure_trailing_newline(Some("a\n\n\n".to_string())), "a\n".to_string());
}

#[test]
fn trailing_newlines_are_trimmed_for_console_output() {
    assert_eq!(trim_end_newlines("hi\n\n"), "hi".to_string());
    assert_eq!(trim_end_newlines("hi"), "hi".to_string());
}

#[test]
fn truncating_the_same_content_twice_leaves_one_copy() {
    let content = ensure_trailing_newline(Some("report".to_string()));
    let once = apply_write("old stuff", content.as_str(), false);
    let twice = apply_write(once.as_str(), content.as_str(), false);
    assert_eq!(once, twice);
    assert_eq!(twice, "report\n".to_string());
}

#[test]
fn appending_the_same_content_twice_accumulates() {
    let content = ensure_trailing_newline(Some("report".to_string()));
    let once = apply_write("", content.as_str(), true);
    let twice = apply_write(once.as_str(), content.as_str(), true);
    assert_eq!(twice, "report\nreport\n".to_string());
}

#[test]
fn console_stage_prints_stdout_only_when_last() {
    let not_last = process_output(
        &OutputProcessor::Console,
        Some("mid\n".to_string()),
        None,
        false,
    );
    assert!(not_last.console.is_empty());

    let last = process_output(&OutputProcessor::Console, Some("end\n".to_string()), None, true);
    assert_eq!(last.console, vec!["end".to_string()]);
}

#[test]
fn console_stage_always_prints_stderr() {
    let plan = process_output(
        &OutputProcessor::Console,
        None,
        Some("oops".to_string()),
        false,
    );
    assert_eq!(plan.console, vec!["oops".to_string()]);
}

#[test]
fn stdout_redirection_writes_the_file_and_prints_stderr() {
    let plan = process_output(
        &OutputProcessor::StdoutToFile("/tmp/out".to_string(), true),
        Some("data".to_string()),
        Some("warn".to_string()),
        true,
    );
    assert_eq!(plan.console, vec!["warn".to_string()]);
    let w = plan.file_write.unwrap();
    assert_eq!(w.path, "/tmp/out".to_string());
    assert_eq!(w.content, "data\n".to_string());
    assert!(w.append);
}

#[test]
fn stderr_redirection_writes_the_file_and_prints_stdout_when_last() {
    let plan = process_output(
        &OutputProcessor::StderrToFile("/tmp/err".to_string(), false),
        Some("shown".to_string()),
        Some("logged".to_string()),
        true,
    );
    assert_eq!(plan.console, vec!["shown".to_string()]);
    let w = plan.file_write.unwrap();
    assert_eq!(w.path, "/tmp/err".to_string());
    assert_eq!(w.content, "logged\n".to_string());
    assert!(!w.append);
}
