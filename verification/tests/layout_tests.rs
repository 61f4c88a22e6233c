use tuipe::layout::{test_cursor, Color, StyledSpan};
use tuipe::options::{Difficulty, Language, TestType};
use tuipe::session::{Key, State, Tuipe};

fn started(list: &[&str]) -> Tuipe {
    let mut t = Tuipe::new(Some((Language::English, TestType::Words10, Difficulty::Normal, false)), true, "v".to_string());
    t.restart_test(list.iter().map(|s| s.to_string()).collect());
    t
}

fn texts(line: &Vec<StyledSpan>) -> Vec<(String, Color)> {
    line.iter().map(|s| (s.text.clone(), s.color)).collect()
}

fn s(t: &str, c: Color) -> (String, Color) {
    (t.to_string(), c)
}

#[test]
fn fresh_test_is_one_gray_line() {
    let t = started(&["ab", "cd"]);
    let (lines, cursor) = t.create_test_lines(20).unwrap();
    assert_eq!(lines.len(), 1);
    assert_eq!(
        texts(&lines[0]),
        vec![
            s("a", Color::DarkGray),
            s("b", Color::DarkGray),
            s(" ", Color::Reset),
            s("cd", Color::DarkGray),
            s(" ", Color::Reset),
        ]
    );
    assert_eq!(cursor, (0, 0));
}

#[test]
fn typed_characters_are_coloured() {
    let mut t = started(&["ab", "cd"]);
    t.handle_key(Key::Char('a'), 0);
    t.handle_key(Key::Char('x'), 0);
    t.handle_key(Key::Char('y'), 0);
    let (lines, cursor) = t.create_test_lines(20).unwrap();
    assert_eq!(
        texts(&lines[0]),
        vec![
            s("a", Color::Reset),
            s("b", Color::Red),
            s("y", Color::Red),
            s(" ", Color::Reset),
            s("cd", Color::DarkGray),
            s(" ", Color::Reset),
        ]
    );
    // The cursor is past the word, after the extra character.
    assert_eq!(cursor, (0, 3));
}

#[test]
fn correct_previous_word_is_one_span() {
    let mut t = started(&["ab", "cd"]);
    for c in "ab c".chars() {
        t.handle_key(Key::Char(c), 0);
    }
    let (lines, cursor) = t.create_test_lines(20).unwrap();
    assert_eq!(
        texts(&lines[0]),
        vec![
            s("ab", Color::Reset),
            s(" ", Color::Reset),
            s("c", Color::Reset),
            s("d", Color::DarkGray),
            s(" ", Color::Reset),
        ]
    );
    assert_eq!(cursor, (0, 4));
}

#[test]
fn words_wrap_to_width() {
    let mut t = started(&["aaa", "bbb", "ccc", "ddd"]);
    let (lines, cursor) = t.create_test_lines(8).unwrap();
    assert_eq!(lines.len(), 2);
    assert_eq!(cursor, (0, 0));
    for c in "aaa bbb ccc".chars() {
        t.handle_key(Key::Char(c), 0);
    }
    // Once the cursor is on the second line, only the line before it is kept.
    let (lines, cursor) = t.create_test_lines(8).unwrap();
    assert_eq!(lines.len(), 2);
    assert_eq!(texts(&lines[0])[0], s("aaa", Color::Reset));
    assert_eq!(cursor, (1, 3));
}

#[test]
fn wide_characters_take_two_columns() {
    let t = started(&["日本", "x"]);
    let (lines, _) = t.create_test_lines(4).unwrap();
    // "日本" and its space take five columns, so "x" starts a new line.
    assert_eq!(lines.len(), 2);
    let cursor = test_cursor(&lines, 0, 0, 4, 10, 20).unwrap();
    // The first line is 5 wide: offset (4 / 2) - (5 / 2) saturates at 0.
    assert_eq!(cursor, (11, 20));
}

#[test]
fn cursor_is_centred() {
    let t = started(&["ab", "cd"]);
    let (lines, (row, col)) = t.create_test_lines(98).unwrap();
    // The line "ab cd " is 6 wide: offset 49 - 3 = 46.
    assert_eq!(test_cursor(&lines, row, col, 98, 1, 5), Some((48, 5)));
    assert_eq!(test_cursor(&lines, row, col, 98, u16::MAX, 5), None);
}

#[test]
fn plain_colouring_marks_untyped_reached_chars_red() {
    let mut t = started(&["ab", "cd"]);
    t.handle_key(Key::Char('a'), 0);
    let line = t.create_render_string(0).unwrap();
    // The cursor is at the second character: it counts as reached.
    assert_eq!(
        texts(&line),
        vec![
            s("a", Color::Reset),
            s("b", Color::Red),
            s(" ", Color::Reset),
            s("cd", Color::DarkGray),
            s(" ", Color::Reset),
        ]
    );
}

#[test]
fn plain_lines_keep_every_line() {
    let mut t = started(&["aaa", "bbb", "ccc", "ddd"]);
    for c in "aaa bbb ccc".chars() {
        t.handle_key(Key::Char(c), 0);
    }
    let (lines, cursor) = t.create_render_lines(8, 0).unwrap();
    assert_eq!(lines.len(), 2);
    assert_eq!(texts(&lines[0])[0], s("a", Color::Reset));
    assert_eq!(cursor, (1, 3));
    let (lines, _) = t.create_render_lines(4, 0).unwrap();
    assert_eq!(lines.len(), 4);
}

#[test]
fn plain_renderings_leave_an_unfinished_test_running() {
    let mut t = started(&["ab", "cd"]);
    t.handle_key(Key::Char('a'), 100);
    t.create_render_lines(20, 900).unwrap();
    t.create_render_string(950).unwrap();
    assert_eq!(t.state(), State::Typing);
    assert!(!t.stats().time_is_set);
}

#[test]
fn plain_lines_finish_a_test_whose_input_equals_the_words() {
    let mut t = started(&["ab", "cd"]);
    for c in "ab cd".chars() {
        t.handle_key(Key::Char(c), 100);
    }
    let before = t.create_test_lines(20).unwrap();
    let (lines, cursor) = t.create_render_lines(20, 1600).unwrap();
    assert_eq!(lines.len(), 1);
    assert_eq!(t.state(), State::TestFinished);
    let stats = t.stats();
    assert!(stats.time_is_set);
    assert_eq!(stats.time, 1500);
    assert_eq!(stats.typed_words, 2);
    assert_eq!(stats.typed_characters, 5);
    // Finishing the test does not change what is laid out; the input still
    // equals the words, so the statistics are taken again.
    let (again, again_cursor) = t.create_render_lines(20, 1700).unwrap();
    assert_eq!(texts(&again[0]), texts(&lines[0]));
    assert_eq!(again_cursor, cursor);
    assert_eq!(t.create_test_lines(20).unwrap().1, before.1);
    assert_eq!(t.stats().time, 1600);
}

#[test]
fn plain_string_finishes_a_test_whose_input_equals_the_words() {
    let mut t = started(&["ab", "cd"]);
    for c in "ab cd".chars() {
        t.handle_key(Key::Char(c), 200);
    }
    let line = t.create_render_string(700).unwrap();
    assert_eq!(texts(&line)[0], s("a", Color::Reset));
    assert_eq!(t.state(), State::TestFinished);
    assert_eq!(t.stats().time, 500);
}

fn joined(line: &Vec<StyledSpan>) -> String {
    line.iter().map(|s| s.text.as_str()).collect()
}

#[test]
fn plain_string_text_is_words_extras_and_spaces() {
    let mut t = started(&["ab", "cd", "ef"]);
    for c in "abx c".chars() {
        t.handle_key(Key::Char(c), 0);
    }
    let line = t.create_render_string(0).unwrap();
    assert_eq!(joined(&line), "abx cd ef ");
}

#[test]
fn wrapped_lines_fit_unless_one_word() {
    let list = ["aa", "bbb", "c", "dddddddddd", "ee", "f"];
    let width: u16 = 7;
    let t = started(&list);
    let mut plain = started(&list);
    let (lines, _) = plain.create_render_lines(width, 0).unwrap();
    let texts_of: Vec<String> = lines.iter().map(joined).collect();
    assert_eq!(texts_of, vec!["aa bbb ", "c ", "dddddddddd ", "ee f "]);
    for (i, line) in texts_of.iter().enumerate() {
        let one_word = line.trim_end().split(' ').count() == 1;
        assert!(line.len() <= width as usize || one_word);
        if i + 1 < texts_of.len() {
            // The next line's first word would not have fitted here.
            let first = texts_of[i + 1].split(' ').next().unwrap();
            assert!(line.len() + first.len() + 1 > width as usize);
        }
    }
    // The typing screen keeps from the line before the cursor's line on.
    let (test_lines, _) = t.create_test_lines(width).unwrap();
    assert_eq!(joined(&test_lines[0]), "aa bbb ");
}
