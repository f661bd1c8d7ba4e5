use vshell::OutputProcessor;
use vshell::output::process_output;
use vshell::pipeline::Dispatch;
use vshell::pipeline::dispatch_stage;
use vshell::pipeline::next_stage_input;
use vshell::pipeline::parse_output_std;
use vshell::pipeline::parse_stage;
use vshell::pipeline::plan_spawn;
use vshell::pipeline::split_pipeline;
use vshell::resolver::DirListing;
use vshell::resolver::OSInstance;

#[test]
fn splits_on_unquoted_pipe() {
    let stages = split_pipeline("printf hi | cat").unwrap();
    assert_eq!(stages, vec!["printf hi ".to_string(), " cat".to_string()]);
}

#[test]
fn quoted_pipe_is_literal() {
    let stages = split_pipeline("echo 'a|b'").unwrap();
    assert_eq!(stages, vec!["echo 'a|b'".to_string()]);
}

#[test]
fn empty_stage_is_rejected() {
    let r = split_pipeline("ls | | wc");
    assert_eq!(r.unwrap_err(), "Invalid pipeline: empty stage".to_string());
}

#[test]
fn blank_line_is_one_empty_stage() {
    assert!(split_pipeline("   ").is_err());
}

#[test]
fn piped_stdout_feeds_next_stage_and_prints_once() {
    // `printf hi | cat`: stage 0's captured stdout becomes stage 1's stdin;
    // the console shows exactly `hi` once.
    let stages = split_pipeline("printf hi | cat").unwrap();
    assert_eq!(stages.len(), 2);

    let first = parse_stage(&stages[0], "/work", None).unwrap();
    assert_eq!(first.arguments, vec!["printf".to_string(), "hi".to_string()]);

    // Stage 0 is not last: its output is captured, never printed.
    let plan0 = plan_spawn(0, 2, false, false);
    assert!(plan0.capture_output);
    assert!(!plan0.stdin_piped);
    let routed0 = process_output(&first.processor, Some("hi".to_string()), None, false);
    assert!(routed0.console.is_empty());
    assert!(routed0.file_write.is_none());

    // Stage 0's captured stdout becomes stage 1's stdin, unchanged.
    let handed = next_stage_input(&first.processor, Some("hi".to_string()), false);
    assert_eq!(handed, Some("hi".to_string()));

    let second = parse_stage(&stages[1], "/work", None).unwrap();
    assert_eq!(second.arguments, vec!["cat".to_string()]);
    let plan1 = plan_spawn(1, 2, false, handed.is_some());
    assert!(plan1.stdin_piped);
    assert!(!plan1.capture_output);

    // Stage 1 is last and unredirected: its stdout reaches the console
    // and feeds nothing further.
    let routed1 = process_output(&second.processor, Some("hi".to_string()), None, true);
    assert_eq!(routed1.console, vec!["hi".to_string()]);
    assert!(routed1.file_write.is_none());
    assert_eq!(next_stage_input(&second.processor, Some("hi".to_string()), true), None);
}

#[test]
fn redirected_stdout_feeds_nothing_to_the_next_stage() {
    let to_file = OutputProcessor::StdoutToFile("/tmp/out".to_string(), false);
    assert_eq!(next_stage_input(&to_file, Some("text".to_string()), false), None);
    let to_err_file = OutputProcessor::StderrToFile("/tmp/err".to_string(), false);
    assert_eq!(
        next_stage_input(&to_err_file, Some("text".to_string()), false),
        Some("text".to_string())
    );
}

#[test]
fn dispatch_prefers_builtins() {
    let os = OSInstance::new(&vec![DirListing {
        path: "/bin".to_string(),
        executables: vec!["echo".to_string()],
    }]);
    let r = dispatch_stage(&"echo".to_string(), &os, "/work", &Vec::new());
    assert!(matches!(r, Dispatch::Builtin));
}

#[test]
fn dispatch_resolves_externals() {
    let os = OSInstance::new(&vec![DirListing {
        path: "/bin".to_string(),
        executables: vec!["grep".to_string()],
    }]);
    let r = dispatch_stage(&"grep".to_string(), &os, "/work", &Vec::new());
    match r {
        Dispatch::External(p) => assert_eq!(p, "/bin/grep".to_string()),
        _ => panic!("expected an external dispatch"),
    }
}

#[test]
fn dispatch_reports_unknown_names() {
    let os = OSInstance::new(&Vec::new());
    let r = dispatch_stage(&"nosuch".to_string(), &os, "/work", &Vec::new());
    match r {
        Dispatch::NotFound(m) => assert_eq!(m, "nosuch: not found".to_string()),
        _ => panic!("expected a not-found dispatch"),
    }
}

#[test]
fn child_output_decoding() {
    assert_eq!(parse_output_std(b"hi\n".to_vec()), Some("hi\n".to_string()));
    assert_eq!(parse_output_std(Vec::new()), None);
    assert_eq!(parse_output_std(vec![0xff, 0xfe]), None);
}

#[test]
fn three_stages_split_in_order() {
    let stages = split_pipeline("a | b | c").unwrap();
    assert_eq!(
        stages,
        vec!["a ".to_string(), " b ".to_string(), " c".to_string()]
    );
}
