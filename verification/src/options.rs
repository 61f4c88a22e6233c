use vstd::prelude::*;
use crate::text::str_eq;

verus! {

/// The difficulty of a typing test.
///
/// On `Normal` every mistake is only counted, on `Expert` finishing a word
/// with a typo ends the test, and on `Master` every wrong character ends it.
#[derive(Clone, Copy, Debug, PartialEq, Eq, Structural)]
pub enum Difficulty {
    Normal,
    Expert,
    Master,
}

/// The kind of a typing test: a fixed number of words, or a time limit.
#[derive(Clone, Copy, Debug, PartialEq, Eq, Structural)]
pub enum TestType {
    Words10,
    Words25,
    Words50,
    Time10,
    Time30,
    Time60,
}

/// The word list a test draws its words from.
#[derive(Clone, Copy, Debug, PartialEq, Eq, Structural)]
pub enum Language {
    English,
    English1k,
    English5k,
    English10k,
    English25k,
}

/// The entries of the main menu, in the order they are shown.
#[derive(Clone, Copy, Debug, PartialEq, Eq, Structural)]
pub enum MainMenu {
    StartTest,
    SelectTestType,
    SelectLanguage,
    SelectDifficulty,
    SelectCapitalization,
    ViewStats,
}

/// The entries of the options menu, in the order they are shown.
#[derive(Clone, Copy, Debug, PartialEq, Eq, Structural)]
pub enum OptMenu {
    TestType,
    Difficulty,
    Language,
    Capitals,
}

/// The number of difficulties.
pub const DIFFICULTY_COUNT: usize = 3;

/// The number of test types.
pub const TEST_TYPE_COUNT: usize = 6;

/// The number of languages.
pub const LANGUAGE_COUNT: usize = 5;

/// The number of main menu entries.
pub const MAIN_MENU_COUNT: usize = 6;

/// The number of options menu entries.
pub const OPT_MENU_COUNT: usize = 4;

// ---------------------------------------------------------------------------
// Difficulty
// ---------------------------------------------------------------------------

impl Difficulty {
    /// The entry shown at position `index` of the difficulty list; any
    /// other index gives `Normal`.
    pub open spec fn spec_from_index(index: int) -> Difficulty {
        if index == 1 {
            Difficulty::Expert
        } else if index == 2 {
            Difficulty::Master
        } else {
            Difficulty::Normal
        }
    }

    /// The position of this difficulty in the difficulty list.
    pub open spec fn index(self) -> int {
        match self {
            Difficulty::Normal => 0,
            Difficulty::Expert => 1,
            Difficulty::Master => 2,
        }
    }

    /// The name under which this difficulty is shown and saved.
    pub open spec fn name(self) -> Seq<char> {
        match self {
            Difficulty::Normal => "Normal"@,
            Difficulty::Expert => "Expert"@,
            Difficulty::Master => "Master"@,
        }
    }

    /// The difficulty a saved name stands for; an unknown name gives `Normal`.
    pub open spec fn spec_from_name(s: Seq<char>) -> Difficulty {
        if s == "Expert"@ {
            Difficulty::Expert
        } else if s == "Master"@ {
            Difficulty::Master
        } else {
            Difficulty::Normal
        }
    }

    /// The names of all difficulties, in list order.
    pub fn as_vec() -> (r: Vec<&'static str>)
        ensures
            r@.len() == DIFFICULTY_COUNT,
            forall|i: int| 0 <= i < r@.len() ==> r@[i]@ == Self::spec_from_index(i).name(),
    {
        vec!["Normal", "Expert", "Master"]
    }

    /// The difficulty at list position `index`, `Normal` when out of range.
    pub fn from_index(index: usize) -> (r: Self)
        ensures
            r == Self::spec_from_index(index as int),
    {
        match index {
            0 => Difficulty::Normal,
            1 => Difficulty::Expert,
            2 => Difficulty::Master,
            _ => Difficulty::Normal,
        }
    }

    /// The name of this difficulty.
    pub fn as_string(&self) -> (r: &'static str)
        ensures
            r@ == self.name(),
    {
        match self {
            Difficulty::Normal => "Normal",
            Difficulty::Expert => "Expert",
            Difficulty::Master => "Master",
        }
    }

    /// The difficulty named by `s`, `Normal` when the name is unknown.
    pub fn from_string(s: &str) -> (r: Self)
        ensures
            r == Self::spec_from_name(s@),
    {
        proof {
            lemma_difficulty_names_distinct();
        }
        if str_eq(s, "Normal") {
            Difficulty::Normal
        } else if str_eq(s, "Expert") {
            Difficulty::Expert
        } else if str_eq(s, "Master") {
            Difficulty::Master
        } else {
            Difficulty::Normal
        }
    }
}

// ---------------------------------------------------------------------------
// TestType
// ---------------------------------------------------------------------------

impl TestType {
    /// The entry shown at position `index` of the test type list; any other
    /// index gives `Words10`.
    pub open spec fn spec_from_index(index: int) -> TestType {
        if index == 1 {
            TestType::Words25
        } else if index == 2 {
            TestType::Words50
        } else if index == 3 {
            TestType::Time10
        } else if index == 4 {
            TestType::Time30
        } else if index == 5 {
            TestType::Time60
        } else {
            TestType::Words10
        }
    }

    /// The position of this test type in the test type list.
    pub open spec fn index(self) -> int {
        match self {
            TestType::Words10 => 0,
            TestType::Words25 => 1,
            TestType::Words50 => 2,
            TestType::Time10 => 3,
            TestType::Time30 => 4,
            TestType::Time60 => 5,
        }
    }

    /// The name under which this test type is shown and saved.
    pub open spec fn name(self) -> Seq<char> {
        match self {
            TestType::Words10 => "10 Words"@,
            TestType::Words25 => "25 Words"@,
            TestType::Words50 => "50 Words"@,
            TestType::Time10 => "10 Seconds"@,
            TestType::Time30 => "30 Seconds"@,
            TestType::Time60 => "60 Seconds"@,
        }
    }

    /// The test type a saved name stands for; an unknown name gives `Words10`.
    pub open spec fn spec_from_name(s: Seq<char>) -> TestType {
        if s == "25 Words"@ {
            TestType::Words25
        } else if s == "50 Words"@ {
            TestType::Words50
        } else if s == "10 Seconds"@ {
            TestType::Time10
        } else if s == "30 Seconds"@ {
            TestType::Time30
        } else if s == "60 Seconds"@ {
            TestType::Time60
        } else {
            TestType::Words10
        }
    }

    /// How many words a test of this type draws.
    pub open spec fn spec_word_count(self) -> usize {
        match self {
            TestType::Words10 => 10,
            TestType::Words25 => 25,
            TestType::Words50 => 50,
            TestType::Time10 => 250,
            TestType::Time30 => 250,
            TestType::Time60 => 500,
        }
    }

    /// Whether a test of this type is timed, and its time limit in seconds
    /// (zero for a word test).
    pub open spec fn spec_is_timed(self) -> (bool, usize) {
        match self {
            TestType::Words10 => (false, 0),
            TestType::Words25 => (false, 0),
            TestType::Words50 => (false, 0),
            TestType::Time10 => (true, 10),
            TestType::Time30 => (true, 30),
            TestType::Time60 => (true, 60),
        }
    }

    /// How many words a test of this type draws.
    pub fn word_count(&self) -> (r: usize)
        ensures
            r == self.spec_word_count(),
    {
        match self {
            TestType::Words10 => 10,
            TestType::Words25 => 25,
            TestType::Words50 => 50,
            TestType::Time10 => 250,
            TestType::Time30 => 250,
            TestType::Time60 => 500,
        }
    }

    /// Whether a test of this type is timed, and its limit in seconds.
    pub fn is_timed(&self) -> (r: (bool, usize))
        ensures
            r == self.spec_is_timed(),
    {
        match self {
            TestType::Words10 => (false, 0),
            TestType::Words25 => (false, 0),
            TestType::Words50 => (false, 0),
            TestType::Time10 => (true, 10),
            TestType::Time30 => (true, 30),
            TestType::Time60 => (true, 60),
        }
    }

    /// The test type at list position `index`, `Words10` when out of range.
    pub fn from_index(index: usize) -> (r: Self)
        ensures
            r == Self::spec_from_index(index as int),
    {
        match index {
            0 => TestType::Words10,
            1 => TestType::Words25,
            2 => TestType::Words50,
            3 => TestType::Time10,
            4 => TestType::Time30,
            5 => TestType::Time60,
            _ => TestType::Words10,
        }
    }

    /// The name of this test type.
    pub fn as_string(&self) -> (r: &'static str)
        ensures
            r@ == self.name(),
    {
        match self {
            TestType::Words10 => "10 Words",
            TestType::Words25 => "25 Words",
            TestType::Words50 => "50 Words",
            TestType::Time10 => "10 Seconds",
            TestType::Time30 => "30 Seconds",
            TestType::Time60 => "60 Seconds",
        }
    }

    /// The test type named by `s`, `Words10` when the name is unknown.
    pub fn from_string(s: &str) -> (r: Self)
        ensures
            r == Self::spec_from_name(s@),
    {
        proof {
            lemma_test_type_names_distinct();
        }
        if str_eq(s, "10 Words") {
            TestType::Words10
        } else if str_eq(s, "25 Words") {
            TestType::Words25
        } else if str_eq(s, "50 Words") {
            TestType::Words50
        } else if str_eq(s, "10 Seconds") {
            TestType::Time10
        } else if str_eq(s, "30 Seconds") {
            TestType::Time30
        } else if str_eq(s, "60 Seconds") {
            TestType::Time60
        } else {
            TestType::Words10
        }
    }

    /// The names of all test types, in list order.
    pub fn as_vec() -> (r: Vec<&'static str>)
        ensures
            r@.len() == TEST_TYPE_COUNT,
            forall|i: int| 0 <= i < r@.len() ==> r@[i]@ == Self::spec_from_index(i).name(),
    {
        vec!["10 Words", "25 Words", "50 Words", "10 Seconds", "30 Seconds", "60 Seconds"]
    }
}

// ---------------------------------------------------------------------------
// Language
// ---------------------------------------------------------------------------

impl Language {
    /// The entry shown at position `index` of the language list; any other
    /// index gives `English`.
    pub open spec fn spec_from_index(index: int) -> Language {
        if index == 1 {
            Language::English1k
        } else if index == 2 {
            Language::English5k
        } else if index == 3 {
            Language::English10k
        } else if index == 4 {
            Language::English25k
        } else {
            Language::English
        }
    }

    /// The position of this language in the language list.
    pub open spec fn index(self) -> int {
        match self {
            Language::English => 0,
            Language::English1k => 1,
            Language::English5k => 2,
            Language::English10k => 3,
            Language::English25k => 4,
        }
    }

    /// The name under which this language is shown and saved.
    pub open spec fn name(self) -> Seq<char> {
        match self {
            Language::English => "English"@,
            Language::English1k => "English 1k"@,
            Language::English5k => "English 5k"@,
            Language::English10k => "English 10k"@,
            Language::English25k => "English 25k"@,
        }
    }

    /// The language a saved name stands for; an unknown name gives `English`.
    pub open spec fn spec_from_name(s: Seq<char>) -> Language {
        if s == "English 1k"@ {
            Language::English1k
        } else if s == "English 5k"@ {
            Language::English5k
        } else if s == "English 10k"@ {
            Language::English10k
        } else if s == "English 25k"@ {
            Language::English25k
        } else {
            Language::English
        }
    }

    /// The language at list position `index`, `English` when out of range.
    pub fn from_index(index: usize) -> (r: Self)
        ensures
            r == Self::spec_from_index(index as int),
    {
        match index {
            0 => Language::English,
            1 => Language::English1k,
            2 => Language::English5k,
            3 => Language::English10k,
            4 => Language::English25k,
            _ => Language::English,
        }
    }

    /// The names of all languages, in list order.
    pub fn as_vec() -> (r: Vec<&'static str>)
        ensures
            r@.len() == LANGUAGE_COUNT,
            forall|i: int| 0 <= i < r@.len() ==> r@[i]@ == Self::spec_from_index(i).name(),
    {
        vec!["English", "English 1k", "English 5k", "English 10k", "English 25k"]
    }

    /// The name of this language.
    pub fn as_string(&self) -> (r: &'static str)
        ensures
            r@ == self.name(),
    {
        match self {
            Language::English => "English",
            Language::English1k => "English 1k",
            Language::English5k => "English 5k",
            Language::English10k => "English 10k",
            Language::English25k => "English 25k",
        }
    }

    /// The language named by `s`, `English` when the name is unknown.
    pub fn from_string(s: &str) -> (r: Self)
        ensures
            r == Self::spec_from_name(s@),
    {
        proof {
            lemma_language_names_distinct();
        }
        if str_eq(s, "English") {
            Language::English
        } else if str_eq(s, "English 1k") {
            Language::English1k
        } else if str_eq(s, "English 5k") {
            Language::English5k
        } else if str_eq(s, "English 10k") {
            Language::English10k
        } else if str_eq(s, "English 25k") {
            Language::English25k
        } else {
            Language::English
        }
    }
}

// ---------------------------------------------------------------------------
// Menus
// ---------------------------------------------------------------------------

impl MainMenu {
    /// The main menu entry at position `index`; any other index gives
    /// `StartTest`.
    pub open spec fn spec_from_index(index: int) -> MainMenu {
        if index == 1 {
            MainMenu::SelectTestType
        } else if index == 2 {
            MainMenu::SelectLanguage
        } else if index == 3 {
            MainMenu::SelectDifficulty
        } else if index == 4 {
            MainMenu::SelectCapitalization
        } else if index == 5 {
            MainMenu::ViewStats
        } else {
            MainMenu::StartTest
        }
    }

    /// The main menu entry at position `index`, `StartTest` when out of range.
    pub fn from_index(index: usize) -> (r: Self)
        ensures
            r == Self::spec_from_index(index as int),
    {
        match index {
            0 => MainMenu::StartTest,
            1 => MainMenu::SelectTestType,
            2 => MainMenu::SelectLanguage,
            3 => MainMenu::SelectDifficulty,
            4 => MainMenu::SelectCapitalization,
            5 => MainMenu::ViewStats,
            _ => MainMenu::StartTest,
        }
    }
}

impl OptMenu {
    /// The options menu entry at position `index`; any other index gives
    /// `TestType`.
    pub open spec fn spec_from_index(index: int) -> OptMenu {
        if index == 1 {
            OptMenu::Difficulty
        } else if index == 2 {
            OptMenu::Language
        } else if index == 3 {
            OptMenu::Capitals
        } else {
            OptMenu::TestType
        }
    }

    /// The options menu entry at position `index`, `TestType` when out of
    /// range.
    pub fn from_index(index: usize) -> (r: Self)
        ensures
            r == Self::spec_from_index(index as int),
    {
        match index {
            0 => OptMenu::TestType,
            1 => OptMenu::Difficulty,
            2 => OptMenu::Language,
            3 => OptMenu::Capitals,
            _ => OptMenu::TestType,
        }
    }
}

/// The difficulty names differ from each other.
pub proof fn lemma_difficulty_names_distinct()
    ensures
        "Normal"@ != "Expert"@,
        "Normal"@ != "Master"@,
        "Expert"@ != "Master"@,
{
    reveal_strlit("Normal");
    reveal_strlit("Expert");
    reveal_strlit("Master");
    assert("Normal"@[0] != "Expert"@[0]);
    assert("Normal"@[0] != "Master"@[0]);
    assert("Expert"@[0] != "Master"@[0]);
}

/// The test type names differ from each other.
pub proof fn lemma_test_type_names_distinct()
    ensures
        "10 Words"@ != "25 Words"@,
        "10 Words"@ != "50 Words"@,
        "10 Words"@ != "10 Seconds"@,
        "10 Words"@ != "30 Seconds"@,
        "10 Words"@ != "60 Seconds"@,
        "25 Words"@ != "50 Words"@,
        "25 Words"@ != "10 Seconds"@,
        "25 Words"@ != "30 Seconds"@,
        "25 Words"@ != "60 Seconds"@,
        "50 Words"@ != "10 Seconds"@,
        "50 Words"@ != "30 Seconds"@,
        "50 Words"@ != "60 Seconds"@,
        "10 Seconds"@ != "30 Seconds"@,
        "10 Seconds"@ != "60 Seconds"@,
        "30 Seconds"@ != "60 Seconds"@,
{
    reveal_strlit("10 Words");
    reveal_strlit("25 Words");
    reveal_strlit("50 Words");
    reveal_strlit("10 Seconds");
    reveal_strlit("30 Seconds");
    reveal_strlit("60 Seconds");
    assert("10 Words"@[0] != "25 Words"@[0]);
    assert("10 Words"@[0] != "50 Words"@[0]);
    assert("10 Words"@.len() != "10 Seconds"@.len());
    assert("10 Words"@[0] != "30 Seconds"@[0]);
    assert("10 Words"@[0] != "60 Seconds"@[0]);
    assert("25 Words"@[0] != "50 Words"@[0]);
    assert("25 Words"@[0] != "10 Seconds"@[0]);
    assert("25 Words"@[0] != "30 Seconds"@[0]);
    assert("25 Words"@[0] != "60 Seconds"@[0]);
    assert("50 Words"@[0] != "10 Seconds"@[0]);
    assert("50 Words"@[0] != "30 Seconds"@[0]);
    assert("50 Words"@[0] != "60 Seconds"@[0]);
    assert("10 Seconds"@[0] != "30 Seconds"@[0]);
    assert("10 Seconds"@[0] != "60 Seconds"@[0]);
    assert("30 Seconds"@[0] != "60 Seconds"@[0]);
}

/// The language names differ from each other.
pub proof fn lemma_language_names_distinct()
    ensures
        "English"@ != "English 1k"@,
        "English"@ != "English 5k"@,
        "English"@ != "English 10k"@,
        "English"@ != "English 25k"@,
        "English 1k"@ != "English 5k"@,
        "English 1k"@ != "English 10k"@,
        "English 1k"@ != "English 25k"@,
        "English 5k"@ != "English 10k"@,
        "English 5k"@ != "English 25k"@,
        "English 10k"@ != "English 25k"@,
{
    reveal_strlit("English");
    reveal_strlit("English 1k");
    reveal_strlit("English 5k");
    reveal_strlit("English 10k");
    reveal_strlit("English 25k");
    assert("English"@.len() != "English 1k"@.len());
    assert("English"@.len() != "English 5k"@.len());
    assert("English"@.len() != "English 10k"@.len());
    assert("English"@.len() != "English 25k"@.len());
    assert("English 1k"@.len() != "English 10k"@.len());
    assert("English 1k"@.len() != "English 25k"@.len());
    assert("English 5k"@.len() != "English 10k"@.len());
    assert("English 5k"@.len() != "English 25k"@.len());
    assert("English 1k"@[8] != "English 5k"@[8]);
    assert("English 10k"@[8] != "English 25k"@[8]);
}

// ---------------------------------------------------------------------------
// Laws
// ---------------------------------------------------------------------------

/// A difficulty's saved name reads back as the same difficulty, and its list
/// position selects it again.
pub proof fn lemma_difficulty_round_trip(d: Difficulty)
    ensures
        Difficulty::spec_from_name(d.name()) == d,
        0 <= d.index() < DIFFICULTY_COUNT,
        Difficulty::spec_from_index(d.index()) == d,
{
    lemma_difficulty_names_distinct();
}

/// A test type's saved name reads back as the same test type, and its list
/// position selects it again.
pub proof fn lemma_test_type_round_trip(t: TestType)
    ensures
        TestType::spec_from_name(t.name()) == t,
        0 <= t.index() < TEST_TYPE_COUNT,
        TestType::spec_from_index(t.index()) == t,
{
    lemma_test_type_names_distinct();
}

/// A language's saved name reads back as the same language, and its list
/// position selects it again.
pub proof fn lemma_language_round_trip(l: Language)
    ensures
        Language::spec_from_name(l.name()) == l,
        0 <= l.index() < LANGUAGE_COUNT,
        Language::spec_from_index(l.index()) == l,
{
    lemma_language_names_distinct();
}

/// Exactly the three time-based test types are timed, each with a positive
/// limit; a word test has a zero limit; every test type draws at least ten
/// words.
pub proof fn lemma_test_type_timing(t: TestType)
    ensures
        t.spec_is_timed().0 <==> t.index() >= 3,
        !t.spec_is_timed().0 ==> t.spec_is_timed().1 == 0,
        t.spec_is_timed().0 ==> t.spec_is_timed().1 > 0,
        t.spec_word_count() >= 10,
{
}


/// The settings that a saved configuration names: language, test type and
/// difficulty by their names (unknown names give the defaults), and whether
/// capital letters are used.
pub fn settings_from_names(language: &str, test_type: &str, difficulty: &str, capitals: bool) -> (r: (
    Language,
    TestType,
    Difficulty,
    bool,
))
    ensures
        r == (
            Language::spec_from_name(language@),
            TestType::spec_from_name(test_type@),
            Difficulty::spec_from_name(difficulty@),
            capitals,
        ),
{
    (
        Language::from_string(language),
        TestType::from_string(test_type),
        Difficulty::from_string(difficulty),
        capitals,
    )
}

/// Saving the settings by their names and reading the names back gives the
/// same settings.
pub proof fn lemma_settings_round_trip(l: Language, t: TestType, d: Difficulty, capitals: bool)
    ensures
        (
            Language::spec_from_name(l.name()),
            TestType::spec_from_name(t.name()),
            Difficulty::spec_from_name(d.name()),
            capitals,
        ) == (l, t, d, capitals),
{
    lemma_language_round_trip(l);
    lemma_test_type_round_trip(t);
    lemma_difficulty_round_trip(d);
}

} // verus!
