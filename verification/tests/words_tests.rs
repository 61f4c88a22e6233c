use tuipe::options::{Language, TestType};
use tuipe::words::{accept_draw, ascii_upper, capitalize, get_words_as_vector, parse_word_list, word_file_path};

#[test]
fn parses_word_files() {
    let v = parse_word_list("[\"The\", \"quick\", \"fox\"]").unwrap();
    assert_eq!(v, vec!["The".to_string(), "quick".to_string(), "fox".to_string()]);
    assert_eq!(parse_word_list("[]").unwrap(), Vec::<String>::new());
    assert!(parse_word_list("{\"a\": 1}").is_none());
    assert!(parse_word_list("[1, 2]").is_none());
    assert!(parse_word_list("not json").is_none());
}

#[test]
fn word_file_paths() {
    assert_eq!(word_file_path("/usr/share/tuipe", &Language::English), "/usr/share/tuipe/languages/english.json");
    assert_eq!(word_file_path("/d", &Language::English25k), "/d/languages/english_25k.json");
    assert_eq!(word_file_path("", &Language::English1k), "/languages/english_1k.json");
}

#[test]
fn draws_lower_case_words_without_repeats() {
    let pool: Vec<String> = vec!["Alpha".into(), "BETA".into(), "gamma".into()];
    for ttype in [TestType::Words10, TestType::Words50, TestType::Time60] {
        let w = get_words_as_vector(&pool, &ttype, false);
        assert_eq!(w.len(), ttype.word_count());
        for (i, word) in w.iter().enumerate() {
            assert!(["alpha", "beta", "gamma"].contains(&word.as_str()));
            if i > 0 {
                assert_ne!(&w[i - 1], word);
            }
        }
    }
}

#[test]
fn capitals_only_change_case() {
    let pool: Vec<String> = vec!["abcdefghijklmnop".into(), "qrstuvwxyz".into()];
    let w = get_words_as_vector(&pool, &TestType::Time60, true);
    assert_eq!(w.len(), 500);
    let mut saw_upper = false;
    for word in &w {
        let lower = word.to_lowercase();
        assert!(lower == "abcdefghijklmnop" || lower == "qrstuvwxyz");
        saw_upper |= word.chars().any(|c| c.is_ascii_uppercase());
    }
    assert!(saw_upper);
}

#[test]
fn degenerate_pools_stop_early() {
    let w = get_words_as_vector(&vec!["Same".to_string(), "sAME".to_string()], &TestType::Words10, false);
    assert_eq!(w, vec!["same".to_string()]);
    let w = get_words_as_vector(&Vec::new(), &TestType::Words10, false);
    assert!(w.is_empty());
    let w = get_words_as_vector(&vec![String::new()], &TestType::Words10, false);
    assert!(w.is_empty());
}

#[test]
fn ascii_uppercase() {
    assert_eq!(ascii_upper('a'), 'A');
    assert_eq!(ascii_upper('z'), 'Z');
    assert_eq!(ascii_upper('A'), 'A');
    assert_eq!(ascii_upper('é'), 'é');
    assert_eq!(ascii_upper('1'), '1');
}

#[test]
fn rare_different_word_is_still_found() {
    // Almost every draw hits the previous word here, so the words that may
    // follow it are listed and drawn from.
    let mut pool: Vec<String> = vec!["a".to_string(); 2000];
    pool.push("B".to_string());
    let w = get_words_as_vector(&pool, &TestType::Words50, false);
    assert_eq!(w.len(), 50);
    for (i, word) in w.iter().enumerate() {
        assert!(word == "a" || word == "b");
        if i > 0 {
            assert_ne!(&w[i - 1], word);
        }
    }
}

#[test]
fn large_pool_draws_full_test() {
    let pool: Vec<String> = (0..25000).map(|i| format!("w{}", i)).collect();
    let w = get_words_as_vector(&pool, &TestType::Time60, false);
    assert_eq!(w.len(), 500);
    assert!(w.iter().all(|x| x.starts_with('w')));
}

#[test]
fn capitalize_follows_the_drawn_letters() {
    assert_eq!(capitalize(&"abc".to_string(), &vec![true, false, true]), "AbC");
    assert_eq!(capitalize(&"abc".to_string(), &vec![false, false, false]), "abc");
    assert_eq!(capitalize(&"a1é".to_string(), &vec![true, true, true]), "A1é");
    assert_eq!(capitalize(&String::new(), &vec![]), "");
}

#[test]
fn accept_draw_keeps_only_a_different_word() {
    let lowered: Vec<String> = vec!["a".into(), "b".into(), "a".into()];
    assert_eq!(accept_draw(&lowered, &"a".to_string(), 0), None);
    assert_eq!(accept_draw(&lowered, &"a".to_string(), 1), Some(1));
    assert_eq!(accept_draw(&lowered, &"b".to_string(), 2), Some(2));
    assert_eq!(accept_draw(&lowered, &String::new(), 1), Some(1));
}
