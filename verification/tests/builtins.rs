use vshell::builtins::FileEntry;
use vshell::builtins::builtin_names;
use vshell::builtins::cd;
use vshell::builtins::cd_target;
use vshell::builtins::echo;
use vshell::builtins::interpret_escapes;
use vshell::builtins::ls;
use vshell::builtins::pwd;
use vshell::builtins::type_fn;
use vshell::resolver::DirListing;
use vshell::resolver::OSInstance;

fn args(list: &[&str]) -> Vec<String> {
    list.iter().map(|a| a.to_string()).collect()
}

#[test]
fn echo_joins_arguments_with_single_spaces() {
    let r = echo(&args(&["hello", "world"]));
    assert_eq!(r.std_output, Some("hello world".to_string()));
    assert_eq!(r.std_error, None);
    assert_eq!(r.updated_dir, None);
}

#[test]
fn echo_with_no_arguments_prints_an_empty_line() {
    let r = echo(&Vec::new());
    assert_eq!(r.std_output, Some("".to_string()));
}

#[test]
fn echo_e_interprets_escapes() {
    let r = echo(&args(&["-e", "a\\tb\\nc"]));
    assert_eq!(r.std_output, Some("a\tb\nc".to_string()));
}

#[test]
fn escape_interpreter_cases() {
    assert_eq!(interpret_escapes("a\\nb"), "a\nb".to_string());
    assert_eq!(interpret_escapes("a\\\\b"), "a\\b".to_string());
    assert_eq!(interpret_escapes("bell\\a"), "bell\x07".to_string());
    assert_eq!(interpret_escapes("x\\cy z"), "x".to_string());
    assert_eq!(interpret_escapes("\\0101bc"), "Abc".to_string());
    assert_eq!(interpret_escapes("\\x41bc"), "Abc".to_string());
    assert_eq!(interpret_escapes("\\xzz"), "\\xzz".to_string());
    assert_eq!(interpret_escapes("\\q"), "\\q".to_string());
    assert_eq!(interpret_escapes("tail\\"), "tail\\".to_string());
}

#[test]
fn pwd_prints_the_working_directory() {
    let r = pwd("/work/dir");
    assert_eq!(r.std_output, Some("/work/dir".to_string()));
    assert_eq!(r.updated_dir, None);
}

#[test]
fn cd_to_existing_target_updates_the_directory() {
    let target = cd_target(&args(&[".."]), "/a/b", None).unwrap().unwrap();
    assert_eq!(target, "/a".to_string());
    let r = cd(&"..".to_string(), target, true);
    assert_eq!(r.updated_dir, Some("/a".to_string()));
    assert_eq!(r.std_error, None);
}

#[test]
fn cd_to_missing_target_reports_and_keeps_the_directory() {
    // The working directory is left unchanged and the error is surfaced.
    let target = cd_target(&args(&["nosuch"]), "/a", None).unwrap().unwrap();
    let r = cd(&"nosuch".to_string(), target, false);
    assert_eq!(r.updated_dir, None);
    assert_eq!(
        r.std_error,
        Some("cd: nosuch: No such file or directory".to_string())
    );
}

#[test]
fn cd_without_arguments_does_nothing() {
    let r = cd_target(&Vec::new(), "/a", None).unwrap();
    assert_eq!(r, None);
}

#[test]
fn cd_with_tilde_needs_a_home_directory() {
    let r = cd_target(&args(&["~/x"]), "/a", None);
    assert_eq!(r.unwrap_err(), "HOME directory is not available".to_string());
    let ok = cd_target(&args(&["~/x"]), "/a", Some("/home/u")).unwrap().unwrap();
    assert_eq!(ok, "/home/u/x".to_string());
}

#[test]
fn type_reports_builtins_executables_and_unknowns() {
    let os = OSInstance::new(&vec![DirListing {
        path: "/bin".to_string(),
        executables: vec!["grep".to_string()],
    }]);
    let none: Vec<String> = Vec::new();

    let b = type_fn(&args(&["cd"]), &os, "/work", &none);
    assert_eq!(b.std_output, Some("cd is a shell builtin".to_string()));

    let x = type_fn(&args(&["grep"]), &os, "/work", &none);
    assert_eq!(x.std_output, Some("grep is /bin/grep".to_string()));

    let u = type_fn(&args(&["nosuch"]), &os, "/work", &none);
    assert_eq!(u.std_error, Some("nosuch: not found".to_string()));

    let missing = type_fn(&Vec::new(), &os, "/work", &none);
    assert_eq!(missing.std_error, Some(": not found".to_string()));
}

#[test]
fn builtin_names_are_sorted_and_complete() {
    assert_eq!(
        builtin_names(),
        args(&["cd", "echo", "exit", "history", "ls", "pwd", "type"])
    );
}

#[test]
fn ls_groups_and_sorts_entries() {
    let entries = vec![
        FileEntry { name: "zeta".to_string(), is_dir: false, is_executable: false },
        FileEntry { name: "beta".to_string(), is_dir: true, is_executable: false },
        FileEntry { name: "run".to_string(), is_dir: false, is_executable: true },
        FileEntry { name: "alpha".to_string(), is_dir: true, is_executable: false },
        FileEntry { name: "main".to_string(), is_dir: false, is_executable: false },
    ];
    let r = ls(&entries);
    assert_eq!(
        r.std_output,
        Some("[alpha]\n[beta]\n*run\nmain\nzeta".to_string())
    );
}

#[test]
fn octal_escape_overflow_yields_the_zero_character() {
    assert_eq!(interpret_escapes("\\0777x"), "\0x".to_string());
}

#[test]
fn octal_escape_with_no_digits_yields_the_zero_character() {
    assert_eq!(interpret_escapes("\\0z"), "\0z".to_string());
}
