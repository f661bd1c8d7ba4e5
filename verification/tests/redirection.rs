use vshell::OutputProcessor;
use vshell::output::define_output_processor;
use vshell::output::split_redirection;
use vshell::parser::parse_path;
use vshell::pipeline::parse_stage;

#[test]
fn stdout_truncate_target_and_residual_argv() {
    let stage = parse_stage("ls > out.txt", "/work", Some("/home/u")).unwrap();
    assert_eq!(stage.arguments, vec!["ls".to_string()]);
    match stage.processor {
        OutputProcessor::StdoutToFile(path, append) => {
            assert_eq!(path, "/work/out.txt".to_string());
            assert!(!append);
        }
        _ => panic!("expected a stdout redirection"),
    }
}

#[test]
fn double_gt_means_append() {
    let p = define_output_processor("ls >> log", "/work", None).unwrap();
    match p {
        OutputProcessor::StdoutToFile(path, append) => {
            assert_eq!(path, "/work/log".to_string());
            assert!(append);
        }
        _ => panic!("expected a stdout redirection"),
    }
}

#[test]
fn two_gt_redirects_stderr() {
    let p = define_output_processor("cmd 2> err.txt", "/work", None).unwrap();
    match p {
        OutputProcessor::StderrToFile(path, append) => {
            assert_eq!(path, "/work/err.txt".to_string());
            assert!(!append);
        }
        _ => panic!("expected a stderr redirection"),
    }
}

#[test]
fn one_gt_redirects_stdout_and_leaves_argv_clean() {
    let stage = parse_stage("cmd 1> out", "/work", None).unwrap();
    assert_eq!(stage.arguments, vec!["cmd".to_string()]);
    match stage.processor {
        OutputProcessor::StdoutToFile(path, append) => {
            assert_eq!(path, "/work/out".to_string());
            assert!(!append);
        }
        _ => panic!("expected a stdout redirection"),
    }
}

#[test]
fn no_redirection_routes_to_console() {
    let p = define_output_processor("echo hi", "/work", None).unwrap();
    assert!(matches!(p, OutputProcessor::Console));
}

#[test]
fn quoted_gt_is_not_an_operator() {
    let stage = parse_stage("echo '>' done", "/work", None).unwrap();
    assert_eq!(
        stage.arguments,
        vec!["echo".to_string(), ">".to_string(), "done".to_string()]
    );
    assert!(matches!(stage.processor, OutputProcessor::Console));
}

#[test]
fn escaped_gt_is_not_an_operator() {
    let stage = parse_stage("echo \\> x", "/work", None).unwrap();
    assert_eq!(
        stage.arguments,
        vec!["echo".to_string(), ">".to_string(), "x".to_string()]
    );
    assert!(matches!(stage.processor, OutputProcessor::Console));
}

#[test]
fn split_keeps_raw_path_text() {
    let (left, target) = split_redirection("ls -la > out.txt");
    assert_eq!(left, "ls -la ".to_string());
    let target = target.unwrap();
    assert!(!target.stderr);
    assert!(!target.append);
    assert_eq!(target.path_text, " out.txt".to_string());
}

#[test]
fn tilde_target_without_home_is_an_error() {
    let r = define_output_processor("ls > ~/out", "/work", None);
    assert_eq!(
        r.unwrap_err(),
        "Invalid redirect output operation: HOME directory not defined.".to_string()
    );
}

#[test]
fn tilde_target_resolves_against_home() {
    let p = define_output_processor("ls > ~/out", "/work", Some("/home/u")).unwrap();
    match p {
        OutputProcessor::StdoutToFile(path, _) => assert_eq!(path, "/home/u/out".to_string()),
        _ => panic!("expected a stdout redirection"),
    }
}

#[test]
fn parse_path_resolves_relative_components() {
    let r = parse_path("../x/./y", "/a/b", None).unwrap();
    assert_eq!(r, "/a/x/y".to_string());
}

#[test]
fn parse_path_takes_absolute_paths_verbatim() {
    let r = parse_path("/etc/hosts", "/a/b", None).unwrap();
    assert_eq!(r, "/etc/hosts".to_string());
}

#[test]
fn parse_path_reports_missing_home() {
    let r = parse_path("~/x", "/a", None);
    assert_eq!(r.unwrap_err(), "HOME directory not defined.".to_string());
}

#[test]
fn parse_path_expands_leading_tilde() {
    let r = parse_path("~/x", "/a", Some("/home/u")).unwrap();
    assert_eq!(r, "/home/u/x".to_string());
}

#[test]
fn parse_path_pop_stops_at_root() {
    let r = parse_path("../../..", "/a", None).unwrap();
    assert_eq!(r, "/".to_string());
}

#[test]
fn operator_without_spaces_still_splits() {
    let stage = parse_stage("ls>f", "/work", None).unwrap();
    assert_eq!(stage.arguments, vec!["ls".to_string()]);
    match stage.processor {
        OutputProcessor::StdoutToFile(path, append) => {
            assert_eq!(path, "/work/f".to_string());
            assert!(!append);
        }
        _ => panic!("expected a stdout redirection"),
    }
}

#[test]
fn stderr_append_operator() {
    let p = define_output_processor("cmd 2>> err.log", "/w", None).unwrap();
    match p {
        OutputProcessor::StderrToFile(path, append) => {
            assert_eq!(path, "/w/err.log".to_string());
            assert!(append);
        }
        _ => panic!("expected a stderr redirection"),
    }
}

#[test]
fn one_gt_gt_appends_to_stdout_target() {
    let p = define_output_processor("cmd 1>> out.log", "/w", None).unwrap();
    match p {
        OutputProcessor::StdoutToFile(path, append) => {
            assert_eq!(path, "/w/out.log".to_string());
            assert!(append);
        }
        _ => panic!("expected a stdout redirection"),
    }
}
