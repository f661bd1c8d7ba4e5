use vshell::editor::Editor;
use vshell::editor::EditorEffect;
use vshell::editor::KeyInput;
use vshell::editor::build_lcp;

fn names(list: &[&str]) -> Vec<String> {
    list.iter().map(|n| n.to_string()).collect()
}

fn type_text(ed: &mut Editor, text: &str, commands: &Vec<String>, history: &Vec<String>) {
    for c in text.chars() {
        ed.handle_key(KeyInput::Character(c), commands, history);
    }
}

#[test]
fn completion_on_shared_single_letter() {
    // Buffer "c" against {cd, cat, cp}: the longest common prefix is "c"
    // itself, with a bell first and the full sorted list on the second
    // consecutive tab.
    let commands = names(&["cd", "cat", "cp"]);
    let history = Vec::new();
    let mut ed = Editor::new(0);
    type_text(&mut ed, "c", &commands, &history);

    let first = ed.handle_key(KeyInput::Tab, &commands, &history);
    assert!(matches!(first, EditorEffect::Bell));
    assert_eq!(ed.line(), "c".to_string());

    let second = ed.handle_key(KeyInput::Tab, &commands, &history);
    match second {
        EditorEffect::ShowMatches(list) => {
            assert_eq!(list, names(&["cat", "cd", "cp"]));
        }
        _ => panic!("expected the sorted match list"),
    }
    assert_eq!(ed.line(), "c".to_string());
}

#[test]
fn completion_extends_to_longest_common_prefix() {
    let commands = names(&["catalog", "catnip"]);
    let history = Vec::new();
    let mut ed = Editor::new(0);
    type_text(&mut ed, "c", &commands, &history);
    let eff = ed.handle_key(KeyInput::Tab, &commands, &history);
    assert!(matches!(eff, EditorEffect::Bell));
    assert_eq!(ed.line(), "cat".to_string());
    assert_eq!(ed.cursor(), 3);
}

#[test]
fn unique_completion_appends_a_space() {
    let commands = names(&["grep", "cat"]);
    let history = Vec::new();
    let mut ed = Editor::new(0);
    type_text(&mut ed, "gr", &commands, &history);
    let eff = ed.handle_key(KeyInput::Tab, &commands, &history);
    assert!(matches!(eff, EditorEffect::Redraw));
    assert_eq!(ed.line(), "grep ".to_string());
    assert_eq!(ed.cursor(), 5);
}

#[test]
fn zero_matches_ring_the_bell_and_change_nothing() {
    let commands = names(&["ls"]);
    let history = Vec::new();
    let mut ed = Editor::new(0);
    type_text(&mut ed, "zz", &commands, &history);
    let eff = ed.handle_key(KeyInput::Tab, &commands, &history);
    assert!(matches!(eff, EditorEffect::Bell));
    assert_eq!(ed.line(), "zz".to_string());
}

#[test]
fn a_key_between_tabs_breaks_the_consecutive_pair() {
    let commands = names(&["cd", "cp"]);
    let history = Vec::new();
    let mut ed = Editor::new(0);
    type_text(&mut ed, "c", &commands, &history);
    ed.handle_key(KeyInput::Tab, &commands, &history);
    ed.handle_key(KeyInput::Left, &commands, &history);
    ed.handle_key(KeyInput::Right, &commands, &history);
    // This tab counts as a first tab again: bell, no list.
    let eff = ed.handle_key(KeyInput::Tab, &commands, &history);
    assert!(matches!(eff, EditorEffect::Bell));
}

#[test]
fn build_lcp_never_shortens_the_buffer() {
    let matches = names(&["cd", "cat", "cp"]);
    let lcp = build_lcp(&matches, &"c".to_string());
    assert_eq!(lcp, "c".to_string());
}

#[test]
fn insertion_at_cursor_and_clamped_moves() {
    let commands = Vec::new();
    let history = Vec::new();
    let mut ed = Editor::new(0);
    type_text(&mut ed, "ac", &commands, &history);
    ed.handle_key(KeyInput::Left, &commands, &history);
    ed.handle_key(KeyInput::Character('b'), &commands, &history);
    assert_eq!(ed.line(), "abc".to_string());
    assert_eq!(ed.cursor(), 2);
    ed.handle_key(KeyInput::Right, &commands, &history);
    ed.handle_key(KeyInput::Right, &commands, &history);
    assert_eq!(ed.cursor(), 3);
    ed.handle_key(KeyInput::Left, &commands, &history);
    ed.handle_key(KeyInput::Left, &commands, &history);
    ed.handle_key(KeyInput::Left, &commands, &history);
    ed.handle_key(KeyInput::Left, &commands, &history);
    assert_eq!(ed.cursor(), 0);
}

#[test]
fn backspace_deletes_before_cursor_only() {
    let commands = Vec::new();
    let history = Vec::new();
    let mut ed = Editor::new(0);
    type_text(&mut ed, "ab", &commands, &history);
    ed.handle_key(KeyInput::Backspace, &commands, &history);
    assert_eq!(ed.line(), "a".to_string());
    ed.handle_key(KeyInput::Backspace, &commands, &history);
    ed.handle_key(KeyInput::Backspace, &commands, &history);
    assert_eq!(ed.line(), "".to_string());
    assert_eq!(ed.cursor(), 0);
}

#[test]
fn up_recalls_newest_first_and_wraps_past_oldest() {
    let commands = Vec::new();
    let history = names(&["first", "second", "third"]);
    let mut ed = Editor::new(history.len());
    ed.handle_key(KeyInput::Up, &commands, &history);
    assert_eq!(ed.line(), "third".to_string());
    ed.handle_key(KeyInput::Up, &commands, &history);
    assert_eq!(ed.line(), "second".to_string());
    ed.handle_key(KeyInput::Up, &commands, &history);
    assert_eq!(ed.line(), "first".to_string());
    // Past the oldest, recall wraps around to the newest again.
    ed.handle_key(KeyInput::Up, &commands, &history);
    assert_eq!(ed.line(), "third".to_string());
}

#[test]
fn up_with_no_history_is_silent() {
    let commands = Vec::new();
    let history = Vec::new();
    let mut ed = Editor::new(0);
    let eff = ed.handle_key(KeyInput::Up, &commands, &history);
    assert!(matches!(eff, EditorEffect::Silent));
    assert_eq!(ed.line(), "".to_string());
}

#[test]
fn paste_inserts_at_cursor_and_drops_line_breaks() {
    let commands = Vec::new();
    let history = Vec::new();
    let mut ed = Editor::new(0);
    type_text(&mut ed, "ad", &commands, &history);
    ed.handle_key(KeyInput::Left, &commands, &history);
    ed.handle_paste("b\r\nc");
    assert_eq!(ed.line(), "abcd".to_string());
    assert_eq!(ed.cursor(), 3);
}
