use vshell::order::sort_strings;
use vshell::order::str_le;

fn names(list: &[&str]) -> Vec<String> {
    list.iter().map(|n| n.to_string()).collect()
}

#[test]
fn comparison_is_lexicographic() {
    assert!(str_le(&"abc".to_string(), &"abd".to_string()));
    assert!(!str_le(&"abd".to_string(), &"abc".to_string()));
    assert!(str_le(&"ab".to_string(), &"abc".to_string()));
    assert!(!str_le(&"abc".to_string(), &"ab".to_string()));
    assert!(str_le(&"".to_string(), &"a".to_string()));
    assert!(str_le(&"same".to_string(), &"same".to_string()));
}

#[test]
fn sorting_orders_and_keeps_every_string() {
    let sorted = sort_strings(&names(&["pear", "apple", "fig", "apple"]));
    assert_eq!(sorted, names(&["apple", "apple", "fig", "pear"]));
}

#[test]
fn sorting_an_empty_vector_gives_an_empty_vector() {
    let sorted = sort_strings(&Vec::new());
    assert!(sorted.is_empty());
}

#[test]
fn command_output_constructors() {
    let ok = vshell::CommandOutput::success("out".to_string());
    assert_eq!(ok.std_output, Some("out".to_string()));
    assert_eq!(ok.std_error, None);
    assert_eq!(ok.updated_dir, None);

    let bad = vshell::CommandOutput::failure("err".to_string());
    assert_eq!(bad.std_error, Some("err".to_string()));
    assert_eq!(bad.std_output, None);

    let nothing = vshell::CommandOutput::empty();
    assert_eq!(nothing.std_output, None);
    assert_eq!(nothing.std_error, None);
    assert_eq!(nothing.updated_dir, None);

    let moved = vshell::CommandOutput::path_update("/new".to_string());
    assert_eq!(moved.updated_dir, Some("/new".to_string()));
}
