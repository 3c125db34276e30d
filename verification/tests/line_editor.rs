use minilang::editor::{blank, dedup, Action, Key, LineEditor};
use minilang::io::Point;

fn editor_after(prompt: u16, text: &str) -> LineEditor {
    let mut ed = LineEditor::new();
    ed.begin(prompt);
    for c in text.chars() {
        ed.press(Key::Char(c));
    }
    ed
}

fn strings(words: &[&str]) -> Vec<String> {
    words.iter().map(|w| w.to_string()).collect()
}

#[test]
fn a_new_editor_is_empty() {
    let ed = LineEditor::new();
    assert_eq!(ed.line(), "");
    assert_eq!(ed.cursor(), Point::new(1, 1));
    assert!(ed.history().is_empty());
    assert!(!ed.overwrites());
    assert!(ed.words().complete(b"").is_empty());
}

#[test]
fn a_line_begins_after_the_prompt() {
    let mut ed = editor_after(4, "old");
    ed.press(Key::Enter);
    ed.begin(7);
    assert_eq!(ed.line(), "");
    assert_eq!(ed.cursor(), Point::new(7, 2));
    assert_eq!(ed.history(), &strings(&["old"]));
}

#[test]
fn typing_appends_and_echoes() {
    let mut ed = LineEditor::new();
    ed.begin(4);
    match ed.press(Key::Char('a')) {
        Action::Echo { at, c } => {
            assert_eq!(at, Point::new(5, 1));
            assert_eq!(c, 'a');
        }
        other => panic!("told to {:?}", other),
    }
    assert_eq!(ed.line(), "a");
    assert_eq!(ed.cursor(), Point::new(5, 1));
    match ed.press(Key::Char('b')) {
        Action::Echo { at, c } => {
            assert_eq!(at, Point::new(6, 1));
            assert_eq!(c, 'b');
        }
        other => panic!("told to {:?}", other),
    }
    assert_eq!(ed.line(), "ab");
    let ed = editor_after(2, "fn f() { }");
    assert_eq!(ed.line(), "fn f() { }");
    assert_eq!(ed.cursor(), Point::new(12, 1));
}

#[test]
fn the_cursor_moves_within_the_line() {
    let mut ed = editor_after(4, "abc");
    assert_eq!(ed.cursor().x, 7);
    assert!(matches!(ed.press(Key::Right), Action::Flush));
    assert_eq!(ed.cursor().x, 7);
    match ed.press(Key::Left) {
        Action::Cursor { at } => assert_eq!(at, Point::new(7, 1)),
        other => panic!("told to {:?}", other),
    }
    assert_eq!(ed.cursor().x, 6);
    ed.press(Key::Left);
    ed.press(Key::Left);
    assert_eq!(ed.cursor().x, 4);
    assert!(matches!(ed.press(Key::Left), Action::Flush));
    assert_eq!(ed.cursor().x, 4);
    match ed.press(Key::Right) {
        Action::Cursor { at } => assert_eq!(at, Point::new(6, 1)),
        other => panic!("told to {:?}", other),
    }
    assert_eq!(ed.cursor().x, 5);
    assert_eq!(ed.line(), "abc");
}

#[test]
fn typing_within_the_line_puts_the_character_before_the_cursor() {
    let mut ed = editor_after(0, "abd");
    ed.press(Key::Left);
    match ed.press(Key::Char('c')) {
        Action::EchoBefore { at, c, tail } => {
            assert_eq!(at, Point::new(3, 1));
            assert_eq!(c, 'c');
            assert_eq!(tail, "d");
        }
        other => panic!("told to {:?}", other),
    }
    assert_eq!(ed.line(), "abcd");
    assert_eq!(ed.cursor().x, 3);
    for _ in 0..3 {
        ed.press(Key::Left);
    }
    match ed.press(Key::Char('>')) {
        Action::EchoBefore { at, c, tail } => {
            assert_eq!(at, Point::new(1, 1));
            assert_eq!(c, '>');
            assert_eq!(tail, "abcd");
        }
        other => panic!("told to {:?}", other),
    }
    assert_eq!(ed.line(), ">abcd");
}

#[test]
fn in_the_overwriting_mode_a_character_replaces_the_one_under_the_cursor() {
    let mut ed = editor_after(3, "abc");
    assert!(matches!(ed.press(Key::Insert), Action::Flush));
    assert!(ed.overwrites());
    ed.press(Key::Left);
    ed.press(Key::Left);
    match ed.press(Key::Char('x')) {
        Action::Overwrite { at, c } => {
            assert_eq!(at, Point::new(5, 1));
            assert_eq!(c, 'x');
        }
        other => panic!("told to {:?}", other),
    }
    assert_eq!(ed.line(), "axc");
    assert_eq!(ed.cursor().x, 5);
    // At the end of the line a character is appended in either mode.
    ed.press(Key::Right);
    assert!(matches!(ed.press(Key::Char('d')), Action::Echo { .. }));
    assert_eq!(ed.line(), "axcd");
    ed.press(Key::Insert);
    assert!(!ed.overwrites());
}

#[test]
fn backspace_takes_the_character_before_the_cursor() {
    let mut ed = editor_after(2, "abc");
    match ed.press(Key::Backspace) {
        Action::Redraw { line, at } => {
            assert_eq!(line, "ab");
            assert_eq!(at, Point::new(5, 1));
        }
        other => panic!("told to {:?}", other),
    }
    assert_eq!(ed.line(), "ab");
    assert_eq!(ed.cursor().x, 4);
    ed.press(Key::Left);
    ed.press(Key::Backspace);
    assert_eq!(ed.line(), "b");
    assert_eq!(ed.cursor().x, 2);
    assert!(matches!(ed.press(Key::Backspace), Action::Flush));
    assert_eq!(ed.line(), "b");
    assert_eq!(ed.cursor().x, 2);
    let mut ed = editor_after(2, "");
    assert!(matches!(ed.press(Key::Backspace), Action::Flush));
    assert_eq!(ed.line(), "");
}

#[test]
fn delete_takes_the_character_under_the_cursor() {
    let mut ed = editor_after(2, "abc");
    assert!(matches!(ed.press(Key::Delete), Action::Flush));
    assert_eq!(ed.line(), "abc");
    ed.press(Key::Left);
    ed.press(Key::Left);
    match ed.press(Key::Delete) {
        Action::RedrawTail { line, at } => {
            assert_eq!(line, "ac");
            assert_eq!(at, Point::new(4, 1));
        }
        other => panic!("told to {:?}", other),
    }
    assert_eq!(ed.line(), "ac");
    assert_eq!(ed.cursor().x, 3);
    ed.press(Key::Delete);
    assert_eq!(ed.line(), "a");
    assert!(matches!(ed.press(Key::Delete), Action::Flush));
}

#[test]
fn enter_ends_the_line_and_moves_down() {
    let mut ed = editor_after(2, "x = 1");
    assert!(matches!(ed.press(Key::Enter), Action::Done));
    assert_eq!(ed.history(), &strings(&["x = 1"]));
    assert_eq!(ed.cursor().y, 2);
    assert_eq!(ed.line(), "x = 1");
    assert_eq!(ed.finish(), "x = 1");
}

#[test]
fn control_c_asks_to_leave_and_other_keys_do_nothing() {
    let mut ed = editor_after(2, "ab");
    assert!(matches!(ed.press(Key::Ctrl('c')), Action::Exit));
    assert!(matches!(ed.press(Key::Ctrl('x')), Action::Flush));
    assert!(matches!(ed.press(Key::Alt('c')), Action::Flush));
    assert!(matches!(ed.press(Key::Other), Action::Skip));
    assert_eq!(ed.line(), "ab");
    assert_eq!(ed.cursor(), Point::new(4, 1));
}

fn entered(lines: &[&str]) -> LineEditor {
    let mut ed = LineEditor::new();
    for l in lines {
        ed.begin(2);
        for c in l.chars() {
            ed.press(Key::Char(c));
        }
        ed.press(Key::Enter);
        ed.finish();
    }
    ed.begin(2);
    ed
}

#[test]
fn up_and_down_walk_the_history() {
    let mut ed = entered(&["one", "two", "three"]);
    match ed.press(Key::Up) {
        Action::Redraw { line, at } => {
            assert_eq!(line, "three");
            assert_eq!(at, Point::new(8, 4));
        }
        other => panic!("told to {:?}", other),
    }
    assert_eq!(ed.line(), "three");
    assert_eq!(ed.cursor().x, 7);
    ed.press(Key::Up);
    assert_eq!(ed.line(), "two");
    ed.press(Key::Up);
    assert_eq!(ed.line(), "one");
    ed.press(Key::Up);
    assert_eq!(ed.line(), "one");
    match ed.press(Key::Down) {
        Action::Redraw { line, at } => {
            assert_eq!(line, "two");
            assert_eq!(at, Point::new(6, 4));
        }
        other => panic!("told to {:?}", other),
    }
    ed.press(Key::Down);
    assert_eq!(ed.line(), "three");
    ed.press(Key::Down);
    assert_eq!(ed.line(), "");
    assert_eq!(ed.cursor().x, 2);
    ed.press(Key::Down);
    assert_eq!(ed.line(), "");
    assert_eq!(ed.history(), &strings(&["one", "two", "three"]));
}

#[test]
fn a_line_under_way_is_kept_when_the_history_is_entered() {
    let mut ed = entered(&["one"]);
    ed.press(Key::Char('d'));
    ed.press(Key::Char('r'));
    ed.press(Key::Up);
    assert_eq!(ed.line(), "one");
    assert_eq!(ed.history(), &strings(&["one", "dr"]));
    ed.press(Key::Down);
    assert_eq!(ed.line(), "dr");
    ed.press(Key::Down);
    assert_eq!(ed.line(), "");
}

#[test]
fn without_a_history_up_and_down_do_nothing() {
    let mut ed = editor_after(2, "ab");
    assert!(matches!(ed.press(Key::Up), Action::Flush));
    assert!(matches!(ed.press(Key::Down), Action::Flush));
    assert_eq!(ed.line(), "ab");
}

#[test]
fn finishing_a_line_learns_its_words() {
    let mut ed = editor_after(2, "total = price*count + 42 + x1");
    ed.press(Key::Enter);
    assert_eq!(ed.finish(), "total = price*count + 42 + x1");
    assert_eq!(ed.words().complete(b"t"), strings(&["total"]));
    assert_eq!(ed.words().complete(b"p"), strings(&["price"]));
    assert_eq!(ed.words().complete(b"c"), strings(&["count"]));
    assert_eq!(ed.words().complete(b"x"), strings(&["x1"]));
    // Numbers are no words.
    assert!(ed.words().complete(b"4").is_empty());
}

#[test]
fn tab_offers_the_completions_of_the_line() {
    let mut ed = entered(&["print printer", "pr"]);
    for c in "pri".chars() {
        ed.press(Key::Char(c));
    }
    match ed.press(Key::Tab) {
        Action::Completions(found) => assert_eq!(found, strings(&["print", "printer"])),
        other => panic!("told to {:?}", other),
    }
    assert_eq!(ed.line(), "pri");
    let mut ed = entered(&["ab abc abd"]);
    ed.press(Key::Char('a'));
    match ed.press(Key::Tab) {
        Action::Completions(found) => assert_eq!(found, strings(&["ab", "abc", "ab", "abd"])),
        other => panic!("told to {:?}", other),
    }
    let mut ed = entered(&[]);
    ed.press(Key::Char('z'));
    assert!(matches!(ed.press(Key::Tab), Action::Completions(found) if found.is_empty()));
}

#[test]
fn blank_lines_leave_the_history() {
    let mut ed = entered(&["one", "", "   ", "two", " \t "]);
    assert_eq!(ed.history(), &strings(&["one", "two"]));
    ed.press(Key::Up);
    assert_eq!(ed.line(), "two");
}

#[test]
fn the_cursor_is_brought_within_the_line() {
    let mut ed = entered(&["long line"]);
    ed.press(Key::Up);
    assert_eq!(ed.cursor().x, 11);
    ed.begin(5);
    // A prompt wider than the cursor column pushes the cursor along.
    assert_eq!(ed.cursor().x, 5);
    ed.press(Key::Other);
    assert_eq!(ed.cursor().x, 5);
}

#[test]
fn characters_beyond_ascii_are_taken_without_failure() {
    let mut ed = LineEditor::new();
    ed.begin(2);
    for c in "é=ø".chars() {
        ed.press(Key::Char(c));
    }
    ed.press(Key::Left);
    ed.press(Key::Char('x'));
    ed.press(Key::Backspace);
    ed.press(Key::Delete);
    ed.press(Key::Up);
    ed.press(Key::Enter);
    let line = ed.finish();
    assert_eq!(ed.history().len(), 1);
    assert_eq!(ed.history()[0], line);
}

#[test]
fn repeated_words_are_dropped() {
    assert_eq!(dedup(strings(&["a", "a", "b", "a", "a", "a", "c", "c"])), strings(&["a", "b", "a", "c"]));
    assert_eq!(dedup(strings(&[])), strings(&[]));
    assert_eq!(dedup(strings(&["x"])), strings(&["x"]));
    assert_eq!(dedup(strings(&["x", "y"])), strings(&["x", "y"]));
}

#[test]
fn blank_lines_are_told() {
    assert!(blank(&"".to_string()));
    assert!(blank(&"  \t\r\n ".to_string()));
    assert!(!blank(&" a ".to_string()));
    assert!(!blank(&"\u{a0}".to_string()));
}
