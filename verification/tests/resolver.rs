use vshell::resolver::DirListing;
use vshell::resolver::OSInstance;

fn listing(path: &str, names: &[&str]) -> DirListing {
    DirListing {
        path: path.to_string(),
        executables: names.iter().map(|n| n.to_string()).collect(),
    }
}

#[test]
fn resolution_searches_every_directory() {
    // `foo` present only in /bin still resolves through /usr/bin:/bin.
    let os = OSInstance::new(&vec![listing("/usr/bin", &["ls"]), listing("/bin", &["foo"])]);
    let r = os.find_executable(&"foo".to_string(), "/work", &Vec::new());
    assert_eq!(r, Some("/bin/foo".to_string()));
}

#[test]
fn first_directory_wins_on_duplicates() {
    let os = OSInstance::new(&vec![listing("/usr/bin", &["foo"]), listing("/bin", &["foo"])]);
    let r = os.find_executable(&"foo".to_string(), "/work", &Vec::new());
    assert_eq!(r, Some("/usr/bin/foo".to_string()));
}

#[test]
fn working_directory_executable_wins_over_index() {
    let os = OSInstance::new(&vec![listing("/bin", &["tool"])]);
    let cwd_execs = vec!["tool".to_string()];
    let r = os.find_executable(&"tool".to_string(), "/work", &cwd_execs);
    assert_eq!(r, Some("/work/tool".to_string()));
}

#[test]
fn unknown_names_resolve_to_nothing() {
    let os = OSInstance::new(&vec![listing("/bin", &["ls"])]);
    let r = os.find_executable(&"nosuch".to_string(), "/work", &Vec::new());
    assert_eq!(r, None);
}

#[test]
fn known_commands_list_names_once() {
    let os = OSInstance::new(&vec![listing("/usr/bin", &["foo", "bar"]), listing("/bin", &["foo"])]);
    assert_eq!(os.get_know_commands(), vec!["foo".to_string(), "bar".to_string()]);
}
