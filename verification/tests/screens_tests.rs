use tuipe::layout::{Color, StyledSpan};
use tuipe::options::{Difficulty, Language, TestType};
use tuipe::session::{Key, Tuipe};

fn texts(lines: &Vec<StyledSpan>) -> Vec<(String, Color)> {
    lines.iter().map(|s| (s.text.clone(), s.color)).collect()
}

#[test]
fn main_menu_screen() {
    let mut t = Tuipe::new(Some((Language::English5k, TestType::Time30, Difficulty::Master, true)), true, "0.3".to_string());
    t.handle_key(Key::Char('j'), 0);
    let lines = texts(&t.render_main_menu());
    assert_eq!(lines.len(), 21);
    assert_eq!(lines[0], ("Tuipe".to_string(), Color::Magenta));
    assert_eq!(lines[3], ("Test type: 30 Seconds".to_string(), Color::LightCyan));
    assert_eq!(lines[4], ("Language: English 5k".to_string(), Color::LightCyan));
    assert_eq!(lines[5], ("Difficulty: Master".to_string(), Color::LightCyan));
    assert_eq!(lines[6], ("Capital letters: true".to_string(), Color::LightCyan));
    assert_eq!(lines[8], ("Start test".to_string(), Color::Reset));
    assert_eq!(lines[9], ("> Select test type".to_string(), Color::Blue));
    assert_eq!(lines[16], ("Move: j/k".to_string(), Color::DarkGray));
    assert_eq!(lines[20], ("version: 0.3".to_string(), Color::DarkGray));
}

#[test]
fn selector_screens() {
    let t = Tuipe::new(None, true, "v".to_string());
    let d = texts(&t.render_difficulty_selector());
    assert_eq!(d[0], ("Available difficulties:".to_string(), Color::Green));
    assert_eq!(d[2], ("> Normal".to_string(), Color::Blue));
    assert_eq!(d[4], ("Master".to_string(), Color::Reset));
    assert_eq!(d.last().unwrap(), &("Back: Esc".to_string(), Color::DarkGray));
    let l = texts(&t.render_language_selector());
    assert_eq!(l.len(), 2 + 5 + 6);
    let tt = texts(&t.render_test_type_selector());
    assert_eq!(tt[7], ("60 Seconds".to_string(), Color::Reset));
    let o = texts(&t.render_opt_menu());
    assert_eq!(o[5], ("Capital letters".to_string(), Color::Reset));
    let c = texts(&t.render_opt_capitals());
    assert_eq!(c[0], ("Current capitalization: false".to_string(), Color::Green));
    assert_eq!(c.len(), 8);
}
