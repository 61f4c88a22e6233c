use tuipe::options::{Difficulty, Language, TestType};
use tuipe::session::{Action, Key, State, Test, Tuipe};

fn words(list: &[&str]) -> Vec<String> {
    list.iter().map(|s| s.to_string()).collect()
}

fn started(difficulty: Difficulty, ttype: TestType, list: &[&str]) -> Tuipe {
    let mut t = Tuipe::new(Some((Language::English, ttype, difficulty, false)), true, "1.0".to_string());
    t.restart_test(words(list));
    t
}

fn type_text(t: &mut Tuipe, text: &str, now: u128) {
    for c in text.chars() {
        assert!(t.accepts_key(now));
        t.handle_key(Key::Char(c), now);
    }
}

#[test]
fn new_uses_loaded_settings() {
    let t = Tuipe::new(Some((Language::English1k, TestType::Time60, Difficulty::Master, true)), true, "2.1".to_string());
    assert_eq!(t.state(), State::MainMenu);
    assert!(!t.should_exit());
    assert_eq!(t.language(), Language::English1k);
    assert_eq!(t.test().ttype, TestType::Time60);
    assert_eq!(t.test().difficulty, Difficulty::Master);
    assert!(t.test().capitals);
    assert_eq!(t.version(), "2.1");
    assert_eq!(t.menu_selection(), 0);
}

#[test]
fn new_defaults_and_missing_database() {
    let t = Tuipe::new(None, false, "UNKNOWN".to_string());
    assert!(t.should_exit());
    assert_eq!(t.language(), Language::English);
    assert_eq!(t.test(), Test::new());
    assert_eq!(t.test().ttype, TestType::Words10);
    assert_eq!(t.test().difficulty, Difficulty::Expert);
}

#[test]
fn main_menu_navigation_wraps() {
    let mut t = Tuipe::new(None, true, "v".to_string());
    assert_eq!(t.handle_key(Key::Char('k'), 0), Action::Nothing);
    assert_eq!(t.menu_selection(), 5);
    t.handle_key(Key::Char('j'), 0);
    assert_eq!(t.menu_selection(), 0);
    t.handle_key(Key::Char('j'), 0);
    t.handle_key(Key::Char('j'), 0);
    assert_eq!(t.menu_selection(), 2);
    t.handle_key(Key::Enter, 0);
    assert_eq!(t.state(), State::LanguageSelector);
    assert_eq!(t.menu_selection(), 0);
    t.handle_key(Key::Char('k'), 0);
    assert_eq!(t.menu_selection(), 4);
    t.handle_key(Key::Enter, 0);
    assert_eq!(t.language(), Language::English25k);
    assert_eq!(t.state(), State::MainMenu);
}

#[test]
fn main_menu_start_asks_for_words() {
    let mut t = Tuipe::new(None, true, "v".to_string());
    assert_eq!(t.handle_key(Key::Enter, 0), Action::RestartTest);
    assert_eq!(t.state(), State::MainMenu);
    t.restart_test(words(&["one", "two"]));
    assert_eq!(t.state(), State::Typing);
    assert_eq!(t.word_index(), 0);
    assert_eq!(t.input(), &vec![String::new()]);
}

#[test]
fn option_screens() {
    let mut t = Tuipe::new(None, true, "v".to_string());
    for _ in 0..3 {
        t.handle_key(Key::Char('j'), 0);
    }
    t.handle_key(Key::Enter, 0);
    assert_eq!(t.state(), State::DifficultySelector);
    t.handle_key(Key::Char('j'), 0);
    t.handle_key(Key::Char('j'), 0);
    t.handle_key(Key::Enter, 0);
    assert_eq!(t.test().difficulty, Difficulty::Master);
    assert_eq!(t.state(), State::MainMenu);
    t.handle_key(Key::Char('j'), 0);
    t.handle_key(Key::Enter, 0);
    assert_eq!(t.state(), State::TestTypeSelector);
    t.handle_key(Key::Char('k'), 0);
    t.handle_key(Key::Enter, 0);
    assert_eq!(t.test().ttype, TestType::Time60);
    assert_eq!(t.state(), State::OptMenu);
    t.handle_key(Key::Char('j'), 0);
    t.handle_key(Key::Char('j'), 0);
    t.handle_key(Key::Char('j'), 0);
    t.handle_key(Key::Enter, 0);
    assert_eq!(t.state(), State::CapitalizationSelector);
    t.handle_key(Key::Enter, 0);
    assert!(t.test().capitals);
    t.handle_key(Key::Enter, 0);
    assert!(!t.test().capitals);
    t.handle_key(Key::Esc, 0);
    assert_eq!(t.state(), State::OptMenu);
    t.handle_key(Key::Esc, 0);
    assert_eq!(t.state(), State::MainMenu);
}

#[test]
fn q_quits_from_menus_but_is_typed_in_a_test() {
    let mut t = Tuipe::new(None, true, "v".to_string());
    t.handle_key(Key::Char('q'), 0);
    assert!(t.should_exit());
    let mut t = started(Difficulty::Normal, TestType::Words10, &["quit", "now"]);
    t.handle_key(Key::Char('q'), 5);
    assert!(!t.should_exit());
    assert_eq!(t.input()[0], "q");
}

#[test]
fn typing_whole_test_finishes_with_stats() {
    let mut t = started(Difficulty::Expert, TestType::Words10, &["ab", "cd"]);
    type_text(&mut t, "ab", 1000);
    assert!(t.test().is_started);
    assert_eq!(t.test().start_time, 1000);
    t.handle_key(Key::Char(' '), 1500);
    assert_eq!(t.tick(1500), Action::Nothing);
    type_text(&mut t, "cd", 2000);
    assert_eq!(t.tick(13000), Action::SaveResults);
    assert_eq!(t.state(), State::TestFinished);
    let s = t.stats();
    assert!(s.time_is_set);
    assert_eq!(s.time, 12000);
    assert_eq!(s.typed_words, 2);
    assert_eq!(s.typed_characters, 5);
    assert_eq!(s.raw_characters, 5);
    assert_eq!(s.correct_keystrokes, 4);
    assert_eq!(s.incorrect_keystrokes, 0);
    assert_eq!(t.tick(14000), Action::Nothing);
    t.set_save_result(false);
    assert!(!t.save_success());
    assert_eq!(t.handle_key(Key::Tab, 15000), Action::RestartTest);
}

#[test]
fn space_after_last_word_finishes() {
    let mut t = started(Difficulty::Normal, TestType::Words10, &["ab", "cd"]);
    type_text(&mut t, "ab cx ", 10);
    assert_eq!(t.word_index(), 2);
    assert_eq!(t.tick(2010), Action::SaveResults);
    assert_eq!(t.state(), State::TestFinished);
    let s = t.stats();
    assert_eq!(s.typed_words, 2);
    // "ab" and its space, "cd" wrong: one space, two raw characters.
    assert_eq!(s.typed_characters, 3);
    assert_eq!(s.raw_characters, 5);
    assert_eq!(s.incorrect_keystrokes, 2);
}

#[test]
fn expert_ends_on_wrong_word() {
    let mut t = started(Difficulty::Expert, TestType::Words10, &["ab", "cd", "ef"]);
    type_text(&mut t, "ax", 100);
    assert_eq!(t.state(), State::Typing);
    assert_eq!(t.test().incorrect_chars, 1);
    t.handle_key(Key::Char(' '), 400);
    assert_eq!(t.state(), State::TestInterrupted);
    assert!(t.stats().time_is_set);
    assert_eq!(t.stats().time, 300);
    assert_eq!(t.tick(500), Action::Nothing);
    assert_eq!(t.handle_key(Key::Esc, 600), Action::Nothing);
    assert_eq!(t.state(), State::MainMenu);
}

#[test]
fn master_ends_on_wrong_char() {
    let mut t = started(Difficulty::Master, TestType::Words10, &["ab", "cd"]);
    type_text(&mut t, "a", 100);
    assert_eq!(t.state(), State::Typing);
    t.handle_key(Key::Char('z'), 250);
    assert_eq!(t.state(), State::TestInterrupted);
    assert_eq!(t.stats().time, 150);
}

#[test]
fn normal_counts_mistakes() {
    let mut t = started(Difficulty::Normal, TestType::Words10, &["ab", "cd"]);
    type_text(&mut t, "xb cd", 0);
    assert_eq!(t.test().correct_chars, 3);
    assert_eq!(t.test().incorrect_chars, 2);
    assert_eq!(t.state(), State::Typing);
}

#[test]
fn backspace_undoes_char_and_space() {
    let mut t = started(Difficulty::Normal, TestType::Words10, &["abc", "de"]);
    type_text(&mut t, "ab", 0);
    t.handle_key(Key::Backspace, 0);
    assert_eq!(t.input()[0], "a");
    assert_eq!(t.character_index(), 1);
    type_text(&mut t, "bc ", 0);
    assert_eq!(t.word_index(), 1);
    t.handle_key(Key::Backspace, 0);
    assert_eq!(t.word_index(), 0);
    assert_eq!(t.input(), &vec!["abc".to_string()]);
    assert_eq!(t.character_index(), 3);
    t.handle_key(Key::Backspace, 0);
    t.handle_key(Key::Backspace, 0);
    t.handle_key(Key::Backspace, 0);
    assert_eq!(t.input()[0], "");
    t.handle_key(Key::Backspace, 0);
    assert_eq!(t.character_index(), 0);
    assert_eq!(t.word_index(), 0);
}

#[test]
fn timed_test_ends_at_limit() {
    let mut t = started(Difficulty::Normal, TestType::Time10, &["ab", "cd", "ef"]);
    assert!(t.test().is_timed);
    assert_eq!(t.test().time_limit, 10);
    type_text(&mut t, "a", 5000);
    assert!(!t.check_is_test_done(14999));
    assert!(t.check_is_test_done(15000));
    assert_eq!(t.tick(14999), Action::Nothing);
    assert_eq!(t.tick(15000), Action::SaveResults);
    assert_eq!(t.state(), State::TestFinished);
}

#[test]
fn tab_and_esc_while_typing() {
    let mut t = started(Difficulty::Normal, TestType::Words25, &["ab", "cd"]);
    assert_eq!(t.handle_key(Key::Tab, 0), Action::RestartTest);
    assert_eq!(t.state(), State::Typing);
    t.handle_key(Key::Esc, 0);
    assert_eq!(t.state(), State::MainMenu);
    t.handle_key(Key::Char('j'), 0);
    t.handle_key(Key::Char('j'), 0);
    t.handle_key(Key::Char('j'), 0);
    t.handle_key(Key::Char('j'), 0);
    t.handle_key(Key::Char('j'), 0);
    t.handle_key(Key::Enter, 0);
    assert_eq!(t.state(), State::StatsScreen);
    t.handle_key(Key::Other, 0);
    assert_eq!(t.state(), State::StatsScreen);
    t.handle_key(Key::Esc, 0);
    assert_eq!(t.state(), State::MainMenu);
}

#[test]
fn set_final_stats_without_save() {
    let mut t = started(Difficulty::Normal, TestType::Words10, &["ab", "cd"]);
    type_text(&mut t, "ab", 10);
    assert_eq!(t.set_final_stats(false, 30), Action::Nothing);
    assert_eq!(t.stats().time, 20);
    assert_eq!(t.stats().typed_words, 1);
    assert_eq!(t.stats().typed_characters, 2);
    assert_eq!(t.set_final_stats(true, 40), Action::SaveResults);
}

#[test]
fn keys_need_no_clock_on_normal_difficulty() {
    let mut t = started(Difficulty::Normal, TestType::Words10, &["ab", "cd"]);
    type_text(&mut t, "a", 1000);
    // The clock went back: on Normal difficulty no key reads it.
    assert!(t.accepts_key(10));
    t.handle_key(Key::Char('b'), 10);
    assert_eq!(t.input()[0], "ab");
}

#[test]
fn keys_need_the_clock_where_they_can_end_the_test() {
    let mut t = started(Difficulty::Expert, TestType::Words10, &["ab", "cd"]);
    type_text(&mut t, "a", 1000);
    assert!(!t.accepts_key(10));
    assert!(t.accepts_key(1000));
}

#[test]
fn tick_reads_the_clock_only_while_it_may_finish() {
    let mut t = started(Difficulty::Normal, TestType::Words10, &["ab", "cd"]);
    type_text(&mut t, "a", 1000);
    assert!(!t.tick_reads_clock());
    assert_eq!(t.tick(0), Action::Nothing);
    type_text(&mut t, "b cd", 1000);
    assert!(t.tick_reads_clock());
    assert_eq!(t.tick(1200), Action::SaveResults);
    assert!(!t.tick_reads_clock());

    let mut timed = started(Difficulty::Normal, TestType::Time10, &["ab", "cd"]);
    assert!(!timed.tick_reads_clock());
    type_text(&mut timed, "a", 1000);
    assert!(timed.tick_reads_clock());
}

#[test]
fn end_screen_keys_also_apply_while_typing() {
    let mut t = started(Difficulty::Normal, TestType::Words10, &["ab", "cd"]);
    assert_eq!(t.end_screen_input(Key::Tab), Action::RestartTest);
    assert_eq!(t.state(), State::Typing);
    assert_eq!(t.end_screen_input(Key::Esc), Action::Nothing);
    assert_eq!(t.state(), State::MainMenu);
}

#[test]
fn ascii_typing_keeps_cursor_at_word_end() {
    let mut t = started(Difficulty::Normal, TestType::Words10, &["abc", "de", "f"]);
    let keys = [
        Key::Char('a'),
        Key::Char('x'),
        Key::Backspace,
        Key::Char('b'),
        Key::Char(' '),
        Key::Backspace,
        Key::Backspace,
        Key::Char('b'),
        Key::Char('c'),
        Key::Char('q'),
        Key::Char(' '),
        Key::Char('d'),
        Key::Backspace,
        Key::Backspace,
        Key::Backspace,
        Key::Other,
    ];
    for key in keys {
        assert!(t.accepts_key(5));
        t.handle_key(key, 5);
        let wi = t.word_index();
        assert_eq!(t.input().len(), wi + 1);
        assert_eq!(t.character_index(), t.input()[wi].chars().count());
    }
    assert_eq!(t.input(), &words(&["abc"]));
}

#[test]
fn backspace_undoes_a_char_that_ended_the_test() {
    let mut t = started(Difficulty::Master, TestType::Words10, &["ab", "cd"]);
    type_text(&mut t, "x", 5);
    assert_eq!(t.state(), State::TestInterrupted);
    // Through the keys a backspace no longer edits after the test ended.
    t.handle_key(Key::Backspace, 5);
    assert_eq!(t.input()[0], "x");
}
