use vshell::history::HistoryRequest;
use vshell::history::HistoryStore;
use vshell::history::fmt_usize;
use vshell::history::history_request;
use vshell::history::parse_usize;

fn store_with(lines: &[&str]) -> HistoryStore {
    let mut h = HistoryStore::new();
    for l in lines {
        h.push(l.to_string());
    }
    h
}

#[test]
fn listing_of_last_two_continues_numbering() {
    // After `ls`, `cd ..`, `pwd`: `history 2` prints `2 cd ..` then `3 pwd`.
    let h = store_with(&["ls", "cd ..", "pwd"]);
    assert_eq!(h.listing(Some(2)), "2 cd ..\n3 pwd\n".to_string());
}

#[test]
fn listing_without_count_numbers_from_one() {
    let h = store_with(&["ls", "pwd"]);
    assert_eq!(h.listing(None), "1 ls\n2 pwd\n".to_string());
}

#[test]
fn listing_count_larger_than_log_shows_everything() {
    let h = store_with(&["ls"]);
    assert_eq!(h.listing(Some(10)), "1 ls\n".to_string());
}

#[test]
fn decimal_formatting() {
    assert_eq!(fmt_usize(0), "0".to_string());
    assert_eq!(fmt_usize(7), "7".to_string());
    assert_eq!(fmt_usize(10), "10".to_string());
    assert_eq!(fmt_usize(90125), "90125".to_string());
}

#[test]
fn decimal_parsing() {
    assert_eq!(parse_usize(&"0".to_string()), Some(0));
    assert_eq!(parse_usize(&"42".to_string()), Some(42));
    assert_eq!(parse_usize(&"".to_string()), None);
    assert_eq!(parse_usize(&"1x".to_string()), None);
    assert_eq!(parse_usize(&"-3".to_string()), None);
    assert_eq!(parse_usize(&"99999999999999999999999999".to_string()), None);
}

#[test]
fn load_takes_non_empty_lines() {
    let mut h = store_with(&["old"]);
    h.load("ls\n\ncd ..\r\npwd\n");
    assert_eq!(h.entries(), &vec!["ls".to_string(), "cd ..".to_string(), "pwd".to_string()]);
}

#[test]
fn save_renders_one_entry_per_line() {
    let h = store_with(&["ls", "pwd"]);
    assert_eq!(h.save_content(), "ls\npwd\n".to_string());
}

#[test]
fn save_of_empty_history_is_empty() {
    let h = HistoryStore::new();
    assert_eq!(h.save_content(), "".to_string());
}

#[test]
fn append_flushes_only_the_new_tail() {
    let mut h = store_with(&["a", "b"]);
    assert_eq!(h.append_content(), "a\nb\n".to_string());
    h.push("c".to_string());
    assert_eq!(h.append_content(), "c\n".to_string());
    assert_eq!(h.append_content(), "".to_string());
}

#[test]
fn round_trip_through_save_and_load() {
    let h = store_with(&["ls", "cd ..", "pwd"]);
    let mut again = HistoryStore::new();
    again.load(h.save_content().as_str());
    assert_eq!(again.entries(), h.entries());
}

#[test]
fn request_without_arguments_lists_everything() {
    let r = history_request(&Vec::new());
    assert!(matches!(r, HistoryRequest::List(None)));
}

#[test]
fn request_with_count() {
    let r = history_request(&vec!["2".to_string()]);
    assert!(matches!(r, HistoryRequest::List(Some(2))));
}

#[test]
fn request_flags() {
    match history_request(&vec!["-r".to_string(), "f.txt".to_string()]) {
        HistoryRequest::Load(p) => assert_eq!(p, "f.txt".to_string()),
        _ => panic!("expected a load request"),
    }
    match history_request(&vec!["-w".to_string(), "f.txt".to_string()]) {
        HistoryRequest::Save(p) => assert_eq!(p, "f.txt".to_string()),
        _ => panic!("expected a save request"),
    }
    match history_request(&vec!["-a".to_string(), "f.txt".to_string()]) {
        HistoryRequest::Append(p) => assert_eq!(p, "f.txt".to_string()),
        _ => panic!("expected an append request"),
    }
}

#[test]
fn append_without_path_is_rejected() {
    match history_request(&vec!["-a".to_string()]) {
        HistoryRequest::Rejected(m) => assert_eq!(m, "Missing history append path".to_string()),
        _ => panic!("expected a rejection"),
    }
}

#[test]
fn unparsable_count_is_rejected() {
    match history_request(&vec!["two".to_string()]) {
        HistoryRequest::Rejected(m) => {
            assert_eq!(m, "Failed to parse history argument: two".to_string())
        }
        _ => panic!("expected a rejection"),
    }
}

#[test]
fn listing_of_empty_history_is_empty() {
    let h = HistoryStore::new();
    assert_eq!(h.listing(None), "".to_string());
    assert_eq!(h.listing(Some(3)), "".to_string());
}
