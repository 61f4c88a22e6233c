use tuipe::options::{
    settings_from_names, Difficulty, Language, MainMenu, OptMenu, TestType, DIFFICULTY_COUNT,
    LANGUAGE_COUNT, TEST_TYPE_COUNT,
};

#[test]
fn difficulty_from_index_and_names() {
    assert_eq!(Difficulty::from_index(0), Difficulty::Normal);
    assert_eq!(Difficulty::from_index(1), Difficulty::Expert);
    assert_eq!(Difficulty::from_index(2), Difficulty::Master);
    assert_eq!(Difficulty::from_index(3), Difficulty::Normal);
    assert_eq!(Difficulty::from_index(usize::MAX), Difficulty::Normal);
    assert_eq!(Difficulty::as_vec(), vec!["Normal", "Expert", "Master"]);
    assert_eq!(Difficulty::Master.as_string(), "Master");
    assert_eq!(Difficulty::from_string("Expert"), Difficulty::Expert);
    assert_eq!(Difficulty::from_string("expert"), Difficulty::Normal);
    assert_eq!(Difficulty::from_string(""), Difficulty::Normal);
}

#[test]
fn difficulty_round_trip() {
    for i in 0..DIFFICULTY_COUNT {
        let d = Difficulty::from_index(i);
        assert_eq!(Difficulty::from_string(d.as_string()), d);
        assert_eq!(Difficulty::as_vec()[i], d.as_string());
    }
}

#[test]
fn test_type_values() {
    assert_eq!(TestType::Words10.word_count(), 10);
    assert_eq!(TestType::Words25.word_count(), 25);
    assert_eq!(TestType::Words50.word_count(), 50);
    assert_eq!(TestType::Time10.word_count(), 250);
    assert_eq!(TestType::Time30.word_count(), 250);
    assert_eq!(TestType::Time60.word_count(), 500);
    assert_eq!(TestType::Words50.is_timed(), (false, 0));
    assert_eq!(TestType::Time10.is_timed(), (true, 10));
    assert_eq!(TestType::Time30.is_timed(), (true, 30));
    assert_eq!(TestType::Time60.is_timed(), (true, 60));
    assert_eq!(TestType::from_index(4), TestType::Time30);
    assert_eq!(TestType::from_index(6), TestType::Words10);
    assert_eq!(TestType::from_string("60 Seconds"), TestType::Time60);
    assert_eq!(TestType::from_string("60 seconds"), TestType::Words10);
}

#[test]
fn test_type_round_trip() {
    for i in 0..TEST_TYPE_COUNT {
        let t = TestType::from_index(i);
        assert_eq!(TestType::from_string(t.as_string()), t);
        assert_eq!(TestType::as_vec()[i], t.as_string());
    }
    assert_eq!(
        TestType::as_vec(),
        vec!["10 Words", "25 Words", "50 Words", "10 Seconds", "30 Seconds", "60 Seconds"]
    );
}

#[test]
fn language_round_trip() {
    for i in 0..LANGUAGE_COUNT {
        let l = Language::from_index(i);
        assert_eq!(Language::from_string(l.as_string()), l);
        assert_eq!(Language::as_vec()[i], l.as_string());
    }
    assert_eq!(Language::from_index(9), Language::English);
    assert_eq!(Language::from_string("English 25k"), Language::English25k);
    assert_eq!(Language::from_string("German"), Language::English);
}

#[test]
fn menu_from_index() {
    assert_eq!(MainMenu::from_index(0), MainMenu::StartTest);
    assert_eq!(MainMenu::from_index(4), MainMenu::SelectCapitalization);
    assert_eq!(MainMenu::from_index(5), MainMenu::ViewStats);
    assert_eq!(MainMenu::from_index(6), MainMenu::StartTest);
    assert_eq!(OptMenu::from_index(3), OptMenu::Capitals);
    assert_eq!(OptMenu::from_index(4), OptMenu::TestType);
}

#[test]
fn settings_from_saved_names() {
    assert_eq!(
        settings_from_names("English 5k", "30 Seconds", "Master", true),
        (Language::English5k, TestType::Time30, Difficulty::Master, true)
    );
    assert_eq!(
        settings_from_names("x", "y", "z", false),
        (Language::English, TestType::Words10, Difficulty::Normal, false)
    );
    let (l, t, d, c) = (Language::English10k, TestType::Words25, Difficulty::Expert, true);
    assert_eq!(settings_from_names(l.as_string(), t.as_string(), d.as_string(), c), (l, t, d, c));
}
