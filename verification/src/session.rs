use vstd::prelude::*;
use crate::options::{Difficulty, Language, MainMenu, OptMenu, TestType, DIFFICULTY_COUNT, LANGUAGE_COUNT, MAIN_MENU_COUNT, OPT_MENU_COUNT, TEST_TYPE_COUNT};
use vstd::utf8::{is_ascii_chars, is_ascii_chars_encode_utf8};
use crate::text::{byte_len, char_count, nth, nth_char, push_char, string_byte_len, take_chars, take_prefix};

verus! {

/// The screen the application is on.
#[derive(Clone, Copy, Debug, PartialEq, Eq, Structural)]
pub enum State {
    MainMenu,
    OptMenu,
    LanguageSelector,
    TestTypeSelector,
    DifficultySelector,
    CapitalizationSelector,
    StatsScreen,
    Typing,
    TestFinished,
    TestInterrupted,
}

/// A key press, as the session sees it.
#[derive(Clone, Copy, Debug, PartialEq, Eq, Structural)]
pub enum Key {
    Char(char),
    Enter,
    Esc,
    Tab,
    Backspace,
    Other,
}

/// Work that the session asks its caller to do after a step.
#[derive(Clone, Copy, Debug, PartialEq, Eq, Structural)]
pub enum Action {
    /// Nothing to do.
    Nothing,
    /// Draw a fresh list of words and hand it to `Tuipe::restart_test`.
    RestartTest,
    /// Store the final statistics and report the outcome with
    /// `Tuipe::set_save_result`.
    SaveResults,
}

/// The settings and progress of the current typing test.
#[derive(Clone, Copy, Debug, PartialEq, Eq, Structural)]
pub struct Test {
    pub ttype: TestType,
    pub difficulty: Difficulty,
    pub capitals: bool,
    pub is_started: bool,
    /// Milliseconds since the epoch at the first typed character.
    pub start_time: u128,
    pub is_timed: bool,
    /// Time limit in seconds of a timed test.
    pub time_limit: usize,
    /// Characters typed correctly, counted as they were typed.
    pub correct_chars: usize,
    /// Characters and words typed wrongly, counted as they were typed.
    pub incorrect_chars: usize,
}

impl Test {
    /// The settings a fresh application starts with.
    pub open spec fn spec_new() -> Test {
        Test {
            ttype: TestType::Words10,
            difficulty: Difficulty::Expert,
            capitals: false,
            is_started: false,
            start_time: 0,
            is_timed: false,
            time_limit: 0,
            correct_chars: 0,
            incorrect_chars: 0,
        }
    }

    /// The settings a fresh application starts with.
    pub fn new() -> (r: Self)
        ensures
            r == Self::spec_new(),
    {
        Test {
            ttype: TestType::Words10,
            difficulty: Difficulty::Expert,
            capitals: false,
            is_started: false,
            start_time: 0,
            is_timed: false,
            time_limit: 0,
            correct_chars: 0,
            incorrect_chars: 0,
        }
    }
}

/// The results of a finished test, as whole numbers. Words per minute and
/// accuracy are the quotients that the screens show:
/// `typed_characters / 5 * 60 / (time / 1000)`,
/// `raw_characters / 5 * 60 / (time / 1000)` and
/// `correct_keystrokes / (correct_keystrokes + incorrect_keystrokes)`.
#[derive(Clone, Copy, Debug, PartialEq, Eq, Structural)]
pub struct FinalStats {
    /// Duration of the test in milliseconds.
    pub time: u128,
    pub time_is_set: bool,
    /// Words typed, the last (unfinished) one included.
    pub typed_words: usize,
    /// Characters of correctly typed words plus the spaces between words.
    pub typed_characters: u128,
    /// `typed_characters` plus the characters of wrongly typed words, each
    /// counted up to the length of the shorter of the two words.
    pub raw_characters: u128,
    pub correct_keystrokes: usize,
    pub incorrect_keystrokes: usize,
}

impl FinalStats {
    /// Statistics before any test has finished.
    pub open spec fn spec_new() -> FinalStats {
        FinalStats {
            time: 0,
            time_is_set: false,
            typed_words: 0,
            typed_characters: 0,
            raw_characters: 0,
            correct_keystrokes: 0,
            incorrect_keystrokes: 0,
        }
    }

    /// Statistics before any test has finished.
    pub fn new() -> (r: Self)
        ensures
            r == Self::spec_new(),
    {
        FinalStats {
            time: 0,
            time_is_set: false,
            typed_words: 0,
            typed_characters: 0,
            raw_characters: 0,
            correct_keystrokes: 0,
            incorrect_keystrokes: 0,
        }
    }
}

/// The whole state of the application.
pub struct Tuipe {
    version: String,
    state: State,
    should_exit: bool,
    language: Language,
    save_success: bool,
    menu_selection: usize,
    test: Test,
    stats: FinalStats,
    input: Vec<String>,
    input_buffer: Vec<u8>,
    character_index: usize,
    word_index: usize,
    words: Vec<String>,
}

/// The abstract state of a `Tuipe`: every field, strings as character
/// sequences.
#[verifier::ext_equal]
pub struct TuipeModel {
    pub version: Seq<char>,
    pub state: State,
    pub should_exit: bool,
    pub language: Language,
    pub save_success: bool,
    pub menu_selection: usize,
    pub test: Test,
    pub stats: FinalStats,
    /// What was typed for each word so far; the last entry is the word being
    /// typed.
    pub input: Seq<Seq<char>>,
    pub input_buffer: Seq<u8>,
    pub character_index: usize,
    pub word_index: usize,
    /// The words of the current test.
    pub words: Seq<Seq<char>>,
}

/// The character sequences of a list of strings.
pub open spec fn strings_view(v: Seq<String>) -> Seq<Seq<char>> {
    v.map_values(|s: String| s@)
}

impl View for Tuipe {
    type V = TuipeModel;

    closed spec fn view(&self) -> TuipeModel {
        TuipeModel {
            version: self.version@,
            state: self.state,
            should_exit: self.should_exit,
            language: self.language,
            save_success: self.save_success,
            menu_selection: self.menu_selection,
            test: self.test,
            stats: self.stats,
            input: strings_view(self.input@),
            input_buffer: self.input_buffer@,
            character_index: self.character_index,
            word_index: self.word_index,
            words: strings_view(self.words@),
        }
    }
}

/// Counts over the first `n` typed words: characters of correctly typed
/// words plus one space per word, characters of wrongly typed words up to
/// the shorter length, and the number of words.
pub open spec fn word_stats(words: Seq<Seq<char>>, input: Seq<Seq<char>>, n: int) -> (int, int, int)
    decreases n,
{
    if n <= 0 {
        (0, 0, 0)
    } else {
        let prev = word_stats(words, input, n - 1);
        let typed = input[n - 1];
        let actual = words[n - 1];
        if actual == typed {
            (prev.0 + typed.len() + 1, prev.1, prev.2 + 1)
        } else if typed.len() < actual.len() {
            (prev.0 + 1, prev.1 + typed.len(), prev.2 + 1)
        } else {
            (prev.0 + 1, prev.1 + actual.len(), prev.2 + 1)
        }
    }
}

/// The next entry of a menu with `count` entries when moving up (wrapping
/// to the bottom).
pub open spec fn menu_up(selection: usize, count: usize) -> usize {
    ((selection + count - 1) % (count as int)) as usize
}

/// The next entry of a menu with `count` entries when moving down (wrapping
/// to the top).
pub open spec fn menu_down(selection: usize, count: usize) -> usize {
    ((selection + 1) % (count as int)) as usize
}

impl TuipeModel {
    /// The shape every state of the application keeps.
    pub open spec fn wf(self) -> bool {
        &&& self.input.len() == self.word_index + 1
        &&& self.input_buffer.len() >= self.input.len()
        &&& self.words.len() >= 1
        &&& self.words.len() <= usize::MAX
        &&& self.word_index <= self.words.len()
        &&& self.menu_selection < MAIN_MENU_COUNT
        &&& self.state == State::Typing ==> self.words.len() >= 2 && !self.stats.time_is_set
    }

    /// A key can be handled: a running test has a word left to type, no
    /// counter is at its maximum, and where a key can end the test (on
    /// Expert and Master difficulty) the clock has not gone back past the
    /// test's start.
    pub open spec fn can_take_key(self, now: u128) -> bool {
        &&& self.wf()
        &&& self.state == State::Typing ==> self.word_index < self.words.len()
        &&& self.state == State::Typing && self.test.difficulty != Difficulty::Normal ==> now
            >= self.test.start_time
        &&& self.test.correct_chars < usize::MAX
        &&& self.test.incorrect_chars < usize::MAX
        &&& self.character_index < usize::MAX
    }

    /// Every word has been passed, or the last word is typed exactly.
    pub open spec fn done_by_words(self) -> bool {
        let n = self.words.len();
        ||| n > 1 && n < self.input.len()
        ||| n > 1 && n == self.input.len() && self.words[n - 1] == self.input[n - 1]
    }

    /// A timed test is running, so its time limit is checked against the
    /// clock.
    pub open spec fn timer_running(self) -> bool {
        self.test.is_timed && self.test.is_started
    }

    /// Checking whether the test is over reads the elapsed time only for a
    /// running timed test not already over by its words; there the clock
    /// must not have gone back past the test's start.
    pub open spec fn clock_ok_for_check(self, now: u128) -> bool {
        !self.done_by_words() && self.timer_running() ==> now >= self.test.start_time
    }

    /// The check before each frame reads the elapsed time only while no
    /// statistics are set and the test is over by its words or runs a timer;
    /// there the clock must not have gone back past the test's start.
    pub open spec fn clock_ok_for_tick(self, now: u128) -> bool {
        !self.stats.time_is_set && (self.done_by_words() || self.timer_running()) ==> now
            >= self.test.start_time
    }

    /// The statistics of the test as it stands at time `now`.
    pub open spec fn final_stats(self, now: u128) -> FinalStats {
        let n = if self.input.len() < self.words.len() {
            self.input.len() as int
        } else {
            self.words.len() as int
        };
        let counts = word_stats(self.words, self.input, n);
        FinalStats {
            time: (now - self.test.start_time) as u128,
            time_is_set: true,
            typed_words: counts.2 as usize,
            typed_characters: (counts.0 - 1) as u128,
            raw_characters: (counts.0 - 1 + counts.1) as u128,
            correct_keystrokes: self.test.correct_chars,
            incorrect_keystrokes: self.test.incorrect_chars,
        }
    }

    /// Whether the running test is over at time `now`: every word has been
    /// passed, the last word is typed exactly, or the time limit is reached.
    pub open spec fn test_done(self, now: u128) -> bool {
        ||| self.done_by_words()
        ||| self.timer_running() && now - self.test.start_time >= self.test.time_limit * 1000
    }

    /// The check the plain renderings make first at time `now`: when the
    /// input equals the words, the test is finished with its statistics
    /// taken at `now`.
    pub open spec fn render_end_step(self, now: u128) -> TuipeModel {
        if self.words == self.input {
            TuipeModel { stats: self.final_stats(now), state: State::TestFinished, ..self }
        } else {
            self
        }
    }

    /// The state after a typed character `c` at time `now`.
    pub open spec fn after_enter_char(self, c: char, now: u128) -> TuipeModel {
        let wi = self.word_index as int;
        let ci = self.character_index as int;
        let m1 = if !self.test.is_started {
            TuipeModel { test: Test { is_started: true, start_time: now, ..self.test }, ..self }
        } else {
            self
        };
        let typed = m1.input[wi].push(c);
        let m2 = TuipeModel { input: m1.input.update(wi, typed), ..m1 };
        let m3 = if nth(typed, ci) != nth(self.words[wi], ci) {
            if self.test.difficulty == Difficulty::Master {
                TuipeModel { state: State::TestInterrupted, stats: m2.final_stats(now), ..m2 }
            } else {
                TuipeModel {
                    test: Test { incorrect_chars: (m2.test.incorrect_chars + 1) as usize, ..m2.test },
                    ..m2
                }
            }
        } else {
            TuipeModel {
                test: Test { correct_chars: (m2.test.correct_chars + 1) as usize, ..m2.test },
                ..m2
            }
        };
        TuipeModel { character_index: (ci + 1) as usize, ..m3 }
    }

    /// The state after a space (moving on to the next word) at time `now`.
    pub open spec fn after_add_word(self, now: u128) -> TuipeModel {
        let wi = self.word_index as int;
        let wb = byte_len(self.words[wi]);
        let ib = byte_len(self.input[wi]);
        let m1 = if wb > ib {
            TuipeModel { input_buffer: self.input_buffer.update(wi, (wb - ib) as u8), ..self }
        } else {
            self
        };
        let m2 = if self.words[wi] != self.input[wi] {
            if self.test.difficulty == Difficulty::Master || self.test.difficulty
                == Difficulty::Expert {
                TuipeModel { state: State::TestInterrupted, stats: m1.final_stats(now), ..m1 }
            } else {
                TuipeModel {
                    test: Test { incorrect_chars: (m1.test.incorrect_chars + 1) as usize, ..m1.test },
                    ..m1
                }
            }
        } else {
            m1
        };
        TuipeModel {
            character_index: 0,
            word_index: (wi + 1) as usize,
            input: m2.input.push(Seq::empty()),
            input_buffer: m2.input_buffer.push(0),
            ..m2
        }
    }

    /// The state after a backspace: delete the character before the cursor,
    /// or at the start of a word go back to the previous word.
    pub open spec fn after_delete_char(self) -> TuipeModel {
        let wi = self.word_index as int;
        let ci = self.character_index as int;
        if ci == 0 {
            if wi > 0 {
                let input = self.input.take(self.input.len() - 1);
                TuipeModel {
                    input: input,
                    word_index: (wi - 1) as usize,
                    character_index: byte_len(input[wi - 1]),
                    ..self
                }
            } else {
                self
            }
        } else {
            TuipeModel {
                input: self.input.update(wi, take_chars(self.input[wi], ci - 1)),
                character_index: (ci - 1) as usize,
                ..self
            }
        }
    }

    /// The same state on another screen.
    pub open spec fn goto(self, state: State) -> TuipeModel {
        TuipeModel { state: state, ..self }
    }

    /// The same state with the quit flag raised.
    pub open spec fn quit(self) -> TuipeModel {
        TuipeModel { should_exit: true, ..self }
    }

    /// The same state with another menu entry selected.
    pub open spec fn select(self, selection: usize) -> TuipeModel {
        TuipeModel { menu_selection: selection, ..self }
    }

    /// Key handling on the main menu.
    pub open spec fn main_menu_step(self, key: Key) -> (TuipeModel, Action) {
        match key {
            Key::Char('k') => (self.select(menu_up(self.menu_selection, MAIN_MENU_COUNT)), Action::Nothing),
            Key::Char('j') => (self.select(menu_down(self.menu_selection, MAIN_MENU_COUNT)), Action::Nothing),
            Key::Enter => match MainMenu::spec_from_index(self.menu_selection as int) {
                MainMenu::StartTest => (self.select(0), Action::RestartTest),
                MainMenu::SelectTestType => (self.goto(State::TestTypeSelector).select(0), Action::Nothing),
                MainMenu::SelectLanguage => (self.goto(State::LanguageSelector).select(0), Action::Nothing),
                MainMenu::SelectDifficulty => (self.goto(State::DifficultySelector).select(0), Action::Nothing),
                MainMenu::SelectCapitalization => (self.goto(State::CapitalizationSelector).select(0), Action::Nothing),
                MainMenu::ViewStats => (self.goto(State::StatsScreen).select(0), Action::Nothing),
            },
            Key::Char('q') => (self.quit(), Action::Nothing),
            _ => (self, Action::Nothing),
        }
    }

    /// Key handling on the options menu.
    pub open spec fn opt_menu_step(self, key: Key) -> TuipeModel {
        match key {
            Key::Char('k') => self.select(menu_up(self.menu_selection, OPT_MENU_COUNT)),
            Key::Char('j') => self.select(menu_down(self.menu_selection, OPT_MENU_COUNT)),
            Key::Esc => self.goto(State::MainMenu),
            Key::Enter => match OptMenu::spec_from_index(self.menu_selection as int) {
                OptMenu::TestType => self.goto(State::TestTypeSelector).select(0),
                OptMenu::Difficulty => self.goto(State::DifficultySelector).select(0),
                OptMenu::Language => self.goto(State::LanguageSelector).select(0),
                OptMenu::Capitals => self.goto(State::CapitalizationSelector).select(0),
            },
            Key::Char('q') => self.quit(),
            _ => self,
        }
    }

    /// Key handling on the difficulty list.
    pub open spec fn difficulty_step(self, key: Key) -> TuipeModel {
        match key {
            Key::Char('k') => self.select(menu_up(self.menu_selection, DIFFICULTY_COUNT)),
            Key::Char('j') => self.select(menu_down(self.menu_selection, DIFFICULTY_COUNT)),
            Key::Enter => TuipeModel {
                test: Test {
                    difficulty: Difficulty::spec_from_index(self.menu_selection as int),
                    ..self.test
                },
                ..self
            }.goto(State::MainMenu).select(0),
            Key::Char('q') => self.quit(),
            Key::Esc => self.goto(State::MainMenu),
            _ => self,
        }
    }

    /// Key handling on the test type list.
    pub open spec fn test_type_step(self, key: Key) -> TuipeModel {
        match key {
            Key::Char('k') => self.select(menu_up(self.menu_selection, TEST_TYPE_COUNT)),
            Key::Char('j') => self.select(menu_down(self.menu_selection, TEST_TYPE_COUNT)),
            Key::Enter => TuipeModel {
                test: Test { ttype: TestType::spec_from_index(self.menu_selection as int), ..self.test },
                ..self
            }.goto(State::OptMenu).select(0),
            Key::Char('q') => self.quit(),
            Key::Esc => self.goto(State::OptMenu),
            _ => self,
        }
    }

    /// Key handling on the language list.
    pub open spec fn language_step(self, key: Key) -> TuipeModel {
        match key {
            Key::Char('k') => self.select(menu_up(self.menu_selection, LANGUAGE_COUNT)),
            Key::Char('j') => self.select(menu_down(self.menu_selection, LANGUAGE_COUNT)),
            Key::Enter => TuipeModel {
                language: Language::spec_from_index(self.menu_selection as int),
                ..self
            }.goto(State::MainMenu).select(0),
            Key::Char('q') => self.quit(),
            Key::Esc => self.goto(State::MainMenu),
            _ => self,
        }
    }

    /// Key handling on the capital letters screen.
    pub open spec fn capitals_step(self, key: Key) -> TuipeModel {
        match key {
            Key::Enter => TuipeModel {
                test: Test { capitals: !self.test.capitals, ..self.test },
                ..self
            },
            Key::Char('q') => self.quit(),
            Key::Esc => self.goto(State::OptMenu),
            _ => self,
        }
    }

    /// Key handling on the statistics screen.
    pub open spec fn stats_step(self, key: Key) -> TuipeModel {
        match key {
            Key::Esc => self.goto(State::MainMenu),
            Key::Char('q') => self.quit(),
            _ => self,
        }
    }

    /// Key handling on the screens after a test.
    pub open spec fn end_screen_step(self, key: Key) -> (TuipeModel, Action) {
        match key {
            Key::Tab => (self, Action::RestartTest),
            Key::Esc => (self.goto(State::MainMenu), Action::Nothing),
            Key::Char('q') => (self.quit(), Action::Nothing),
            _ => (self, Action::Nothing),
        }
    }

    /// Key handling while typing, at time `now`.
    pub open spec fn typing_step(self, key: Key, now: u128) -> (TuipeModel, Action) {
        match key {
            Key::Char(' ') => (self.after_add_word(now), Action::Nothing),
            Key::Char(c) => (self.after_enter_char(c, now), Action::Nothing),
            Key::Backspace => (self.after_delete_char(), Action::Nothing),
            Key::Esc => (self.goto(State::MainMenu), Action::Nothing),
            Key::Tab => (self, Action::RestartTest),
            _ => (self, Action::Nothing),
        }
    }

    /// Key handling on whatever screen is shown, at time `now`.
    pub open spec fn key_step(self, key: Key, now: u128) -> (TuipeModel, Action) {
        match self.state {
            State::StatsScreen => (self.stats_step(key), Action::Nothing),
            State::TestTypeSelector => (self.test_type_step(key), Action::Nothing),
            State::LanguageSelector => (self.language_step(key), Action::Nothing),
            State::DifficultySelector => (self.difficulty_step(key), Action::Nothing),
            State::CapitalizationSelector => (self.capitals_step(key), Action::Nothing),
            State::MainMenu => self.main_menu_step(key),
            State::OptMenu => (self.opt_menu_step(key), Action::Nothing),
            State::TestFinished => self.end_screen_step(key),
            State::TestInterrupted => self.end_screen_step(key),
            State::Typing => self.typing_step(key, now),
        }
    }

    /// The check made before each frame at time `now`: a test that is over
    /// gets its statistics and the finished screen, and asks for them to be
    /// saved.
    pub open spec fn tick_step(self, now: u128) -> (TuipeModel, Action) {
        if !self.stats.time_is_set && self.test_done(now) {
            (
                TuipeModel { stats: self.final_stats(now), state: State::TestFinished, ..self },
                Action::SaveResults,
            )
        } else {
            (self, Action::Nothing)
        }
    }

    /// A fresh application: the loaded settings (defaults when none could be
    /// loaded), the main menu, and a request to quit when the results
    /// database is not usable.
    pub open spec fn initial(
        config: Option<(Language, TestType, Difficulty, bool)>,
        database_ok: bool,
        version: Seq<char>,
    ) -> TuipeModel {
        let base = Test::spec_new();
        let language = match config {
            Some(c) => c.0,
            None => Language::English,
        };
        let test = match config {
            Some(c) => Test { ttype: c.1, difficulty: c.2, capitals: c.3, ..base },
            None => base,
        };
        TuipeModel {
            version: version,
            state: State::MainMenu,
            should_exit: !database_ok,
            language: language,
            save_success: true,
            menu_selection: 0,
            test: test,
            stats: FinalStats::spec_new(),
            input: seq![Seq::empty()],
            input_buffer: seq![0u8],
            character_index: 0,
            word_index: 0,
            words: seq![Seq::empty()],
        }
    }

    /// A new test with the given words.
    pub open spec fn restarted(self, words: Seq<Seq<char>>) -> TuipeModel {
        let timing = self.test.ttype.spec_is_timed();
        TuipeModel {
            state: State::Typing,
            save_success: true,
            test: Test {
                is_timed: timing.0,
                time_limit: timing.1,
                is_started: false,
                start_time: 0,
                correct_chars: 0,
                incorrect_chars: 0,
                ..self.test
            },
            stats: FinalStats::spec_new(),
            input: seq![Seq::empty()],
            input_buffer: seq![0u8],
            character_index: 0,
            word_index: 0,
            words: words,
            ..self
        }
    }
}


/// The counts of `word_stats` grow by at least one per word, and the word
/// count is the number of words.
proof fn lemma_word_stats_counts(words: Seq<Seq<char>>, input: Seq<Seq<char>>, n: int)
    requires
        n >= 0,
    ensures
        word_stats(words, input, n).0 >= n,
        word_stats(words, input, n).1 >= 0,
        word_stats(words, input, n).2 == n,
    decreases n,
{
    if n > 0 {
        lemma_word_stats_counts(words, input, n - 1);
    }
}

proof fn lemma_stats_bound(idx: int, len: int, total: int, m: int)
    requires
        0 <= idx,
        idx + 1 <= m,
        0 <= len <= m,
        0 <= total <= idx * (m + 1),
    ensures
        total + len + 1 <= (idx + 1) * (m + 1),
        (idx + 1) * (m + 1) <= m * (m + 1),
{
    assert((idx + 1) * (m + 1) == idx * (m + 1) + (m + 1)) by (nonlinear_arith);
    assert((idx + 1) * (m + 1) <= m * (m + 1)) by (nonlinear_arith)
        requires
            idx + 1 <= m,
            m >= 0,
    ;
}

proof fn lemma_usize_square_fits()
    ensures
        (usize::MAX as int) * (usize::MAX as int + 1) <= u128::MAX,
{
    let m = usize::MAX as int;
    assert(m <= 0xffff_ffff_ffff_ffff);
    assert(m * (m + 1) <= 0xffff_ffff_ffff_ffff * 0x1_0000_0000_0000_0000) by (nonlinear_arith)
        requires
            0 <= m <= 0xffff_ffff_ffff_ffff,
    ;
}

impl Tuipe {
    /// A fresh application: `config` holds the loaded settings (language,
    /// test type, difficulty, capital letters) if they could be loaded, and
    /// `database_ok` tells whether the results database is usable; when it
    /// is not, the application asks to quit at once.
    pub fn new(
        config: Option<(Language, TestType, Difficulty, bool)>,
        database_ok: bool,
        version: String,
    ) -> (r: Self)
        ensures
            r@ == TuipeModel::initial(config, database_ok, version@),
            r@.wf(),
    {
        let mut test_struct = Test::new();
        let mut test_lang = Language::English;
        match config {
            Some((lang, ttype, diff, caps)) => {
                test_lang = lang;
                test_struct.ttype = ttype;
                test_struct.difficulty = diff;
                test_struct.capitals = caps;
            },
            None => {},
        }
        let r = Tuipe {
            version: version,
            state: State::MainMenu,
            should_exit: !database_ok,
            language: test_lang,
            save_success: true,
            menu_selection: 0,
            test: test_struct,
            stats: FinalStats::new(),
            input: vec![String::new()],
            input_buffer: vec![0],
            character_index: 0,
            word_index: 0,
            words: vec![String::new()],
        };
        assert(r@.input =~= seq![Seq::<char>::empty()]);
        assert(r@.words =~= seq![Seq::<char>::empty()]);
        r
    }

    /// Starts a new test with `words`: the typing screen, the timing of the
    /// current test type, no input and cleared counters and statistics.
    pub fn restart_test(&mut self, words: Vec<String>)
        requires
            old(self)@.wf(),
            words.len() >= 2,
        ensures
            final(self)@ == old(self)@.restarted(strings_view(words@)),
            final(self)@.wf(),
    {
        self.state = State::Typing;
        self.save_success = true;
        let (is_timed, time_limit) = self.test.ttype.is_timed();
        self.test.is_timed = is_timed;
        self.test.time_limit = time_limit;
        self.test.is_started = false;
        self.test.start_time = 0;
        self.test.correct_chars = 0;
        self.test.incorrect_chars = 0;
        self.stats = FinalStats::new();
        self.input = vec![String::new()];
        self.input_buffer = vec![0];
        self.character_index = 0;
        self.word_index = 0;
        self.words = words;
        assert(self@.input =~= seq![Seq::<char>::empty()]);
    }

    /// Records whether saving the results of the last test succeeded.
    pub fn set_save_result(&mut self, ok: bool)
        ensures
            final(self)@ == (TuipeModel { save_success: ok, ..old(self)@ }),
    {
        self.save_success = ok;
    }

    /// The statistics of the test as it stands at time `now`.
    fn compute_stats(&self, now: u128) -> (r: FinalStats)
        requires
            self@.wf(),
            now >= self@.test.start_time,
        ensures
            r == self@.final_stats(now),
    {
        let ghost m = self@;
        let n = if self.input.len() < self.words.len() {
            self.input.len()
        } else {
            self.words.len()
        };
        let mut correct: u128 = 0;
        let mut raw: u128 = 0;
        let mut typed: usize = 0;
        let mut idx: usize = 0;
        proof {
            lemma_usize_square_fits();
        }
        while idx < n
            invariant
                m == self@,
                n == (if m.input.len() < m.words.len() { m.input.len() } else { m.words.len() }),
                n <= self.input.len(),
                n <= self.words.len(),
                idx <= n,
                correct == word_stats(m.words, m.input, idx as int).0,
                raw == word_stats(m.words, m.input, idx as int).1,
                typed == word_stats(m.words, m.input, idx as int).2,
                correct + raw <= idx * (usize::MAX + 1),
                (usize::MAX as int) * (usize::MAX as int + 1) <= u128::MAX,
            decreases n - idx,
        {
            proof {
                lemma_word_stats_counts(m.words, m.input, idx as int);
            }
            let word = &self.input[idx];
            let input_word_len = char_count(word);
            let actual_word = &self.words[idx];
            let actual_len = char_count(actual_word);
            proof {
                lemma_stats_bound(
                    idx as int,
                    input_word_len as int,
                    (correct + raw) as int,
                    usize::MAX as int,
                );
                assert(m.input[idx as int] == word@);
                assert(m.words[idx as int] == actual_word@);
            }
            if *actual_word == *word {
                correct = correct + input_word_len as u128;
            } else {
                if input_word_len < actual_len {
                    raw = raw + input_word_len as u128;
                } else {
                    raw = raw + actual_len as u128;
                }
            }
            typed = typed + 1;
            correct = correct + 1;
            idx = idx + 1;
        }
        proof {
            lemma_word_stats_counts(m.words, m.input, n as int);
        }
        FinalStats {
            time: now - self.test.start_time,
            time_is_set: true,
            typed_words: typed,
            typed_characters: correct - 1,
            raw_characters: correct - 1 + raw,
            correct_keystrokes: self.test.correct_chars,
            incorrect_keystrokes: self.test.incorrect_chars,
        }
    }

    /// Sets the statistics of the test as it stands at time `now`, and asks
    /// for them to be saved when `save` is set.
    pub fn set_final_stats(&mut self, save: bool, now: u128) -> (act: Action)
        requires
            old(self)@.wf(),
            now >= old(self)@.test.start_time,
        ensures
            final(self)@ == (TuipeModel { stats: old(self)@.final_stats(now), ..old(self)@ }),
            act == (if save {
                Action::SaveResults
            } else {
                Action::Nothing
            }),
    {
        self.stats = self.compute_stats(now);
        if save {
            Action::SaveResults
        } else {
            Action::Nothing
        }
    }

    /// Whether every word has been passed, or the last word is typed exactly.
    fn words_done(&self) -> (r: bool)
        requires
            self@.wf(),
        ensures
            r == self@.done_by_words(),
    {
        let words_len = self.words.len();
        if words_len > 1 {
            if words_len < self.input.len() {
                return true;
            }
            if words_len == self.input.len() {
                if self.words[words_len - 1] == self.input[words_len - 1] {
                    return true;
                }
            }
        }
        false
    }

    /// Whether `tick` reads the elapsed time of the test: while no
    /// statistics are set and the test is over by its words or runs a timer.
    /// There the clock must not have gone back past the test's start.
    pub fn tick_reads_clock(&self) -> (r: bool)
        requires
            self@.wf(),
        ensures
            r == (!self@.stats.time_is_set && (self@.done_by_words() || self@.timer_running())),
    {
        !self.stats.time_is_set && (self.words_done() || (self.test.is_timed
            && self.test.is_started))
    }

    /// Whether the running test is over at time `now`.
    pub fn check_is_test_done(&self, now: u128) -> (r: bool)
        requires
            self@.wf(),
            self@.clock_ok_for_check(now),
        ensures
            r == self@.test_done(now),
    {
        if self.words_done() {
            return true;
        }
        if self.test.is_timed && self.test.is_started {
            let elapsed = now - self.test.start_time;
            if elapsed >= (self.test.time_limit as u128) * 1000 {
                return true;
            }
        }
        false
    }

    /// The check made before each frame at time `now`: a finished test gets
    /// its statistics and the finished screen, and asks for them to be saved.
    pub fn tick(&mut self, now: u128) -> (act: Action)
        requires
            old(self)@.wf(),
            old(self)@.clock_ok_for_tick(now),
        ensures
            final(self)@ == old(self)@.tick_step(now).0,
            act == old(self)@.tick_step(now).1,
            final(self)@.wf(),
            final(self)@.state == State::Typing ==> final(self)@.word_index < final(self)@.words.len(),
    {
        if !self.stats.time_is_set && self.check_is_test_done(now) {
            let act = self.set_final_stats(true, now);
            self.state = State::TestFinished;
            act
        } else {
            Action::Nothing
        }
    }

    /// Whether the input equals the words of the test.
    fn input_is_words(&self) -> (r: bool)
        ensures
            r == (self@.words == self@.input),
    {
        if self.words.len() != self.input.len() {
            proof {
                assert(self@.words.len() != self@.input.len());
            }
            return false;
        }
        let mut i: usize = 0;
        while i < self.words.len()
            invariant
                self.words.len() == self.input.len(),
                i <= self.words.len(),
                forall|j: int| 0 <= j < i ==> self@.words[j] == self@.input[j],
            decreases self.words.len() - i,
        {
            assert(self@.words[i as int] == self.words@[i as int]@);
            assert(self@.input[i as int] == self.input@[i as int]@);
            if self.words[i] != self.input[i] {
                return false;
            }
            i = i + 1;
        }
        assert(self@.words =~= self@.input);
        true
    }

    /// The check the plain renderings make first at time `now`: when the
    /// input equals the words, the test is finished with its statistics
    /// taken at `now`.
    pub(crate) fn end_if_all_typed(&mut self, now: u128)
        requires
            old(self)@.wf(),
            old(self)@.words == old(self)@.input ==> now >= old(self)@.test.start_time,
        ensures
            final(self)@ == old(self)@.render_end_step(now),
            final(self)@.wf(),
    {
        if self.input_is_words() {
            self.set_final_stats(false, now);
            self.state = State::TestFinished;
        }
    }

    /// Enters a typed character at time `now`.
    fn enter_char(&mut self, new_char: char, now: u128)
        requires
            old(self)@.can_take_key(now),
            old(self)@.state == State::Typing,
        ensures
            final(self)@ == old(self)@.after_enter_char(new_char, now),
            final(self)@.wf(),
    {
        if !self.test.is_started {
            self.test.is_started = true;
            self.test.start_time = now;
        }
        let ghost m1 = self@;
        let wi = self.word_index;
        let mut typed = self.input[wi].clone();
        push_char(&mut typed, new_char);
        self.input.set(wi, typed);
        let ghost m2 = self@;
        assert(m2.input =~= m1.input.update(wi as int, m1.input[wi as int].push(new_char)));
        let ci = self.character_index;
        let got = nth_char(&self.input[wi], ci);
        let want = nth_char(&self.words[wi], ci);
        let same = match (got, want) {
            (Some(a), Some(b)) => a == b,
            (None, None) => true,
            _ => false,
        };
        if !same {
            if self.test.difficulty == Difficulty::Master {
                self.state = State::TestInterrupted;
                self.set_final_stats(false, now);
            } else {
                self.test.incorrect_chars = self.test.incorrect_chars + 1;
            }
        } else {
            self.test.correct_chars = self.test.correct_chars + 1;
        }
        self.character_index = self.character_index + 1;
    }

    /// Moves on to the next word at time `now`.
    fn add_word(&mut self, now: u128)
        requires
            old(self)@.can_take_key(now),
            old(self)@.state == State::Typing,
        ensures
            final(self)@ == old(self)@.after_add_word(now),
            final(self)@.wf(),
    {
        let w_idx = self.word_index;
        assert(w_idx < self.words.len());
        let word_bytes = string_byte_len(&self.words[w_idx]);
        let input_bytes = string_byte_len(&self.input[w_idx]);
        if word_bytes > input_bytes {
            let buffer_count = (word_bytes - input_bytes) as u8;
            self.input_buffer.set(w_idx, buffer_count);
        }
        if self.words[w_idx] != self.input[w_idx] {
            if self.test.difficulty == Difficulty::Master || self.test.difficulty
                == Difficulty::Expert {
                self.state = State::TestInterrupted;
                self.set_final_stats(false, now);
            } else {
                self.test.incorrect_chars = self.test.incorrect_chars + 1;
            }
        }
        assert(self.word_index == w_idx && w_idx < self.words.len());
        let ghost m2 = self@;
        self.character_index = 0;
        self.word_index = self.word_index + 1;
        self.input.push(String::new());
        self.input_buffer.push(0);
        assert(self@.input =~= m2.input.push(Seq::empty()));
    }

    /// Deletes the character before the cursor, or at the start of a word
    /// goes back to the previous word.
    fn delete_char(&mut self)
        requires
            old(self)@.wf(),
        ensures
            final(self)@ == old(self)@.after_delete_char(),
            final(self)@.wf(),
    {
        if self.character_index == 0 {
            if self.word_index > 0 {
                let new_length = self.input.len().saturating_sub(1);
                self.input.truncate(new_length);
                self.word_index = self.word_index - 1;
                self.character_index = string_byte_len(&self.input[self.word_index]);
            }
        } else {
            let wi = self.word_index;
            let kept = take_prefix(&self.input[wi], self.character_index - 1);
            self.input.set(wi, kept);
            self.character_index = self.character_index - 1;
        }
    }

    /// Key handling on the main menu.
    pub fn main_menu_input(&mut self, key: Key) -> (act: Action)
        requires
            old(self)@.wf(),
        ensures
            final(self)@ == old(self)@.main_menu_step(key).0,
            act == old(self)@.main_menu_step(key).1,
            final(self)@.wf(),
    {
        match key {
            Key::Char('k') => {
                self.menu_selection = (self.menu_selection + MAIN_MENU_COUNT - 1) % MAIN_MENU_COUNT;
                Action::Nothing
            },
            Key::Char('j') => {
                self.menu_selection = (self.menu_selection + 1) % MAIN_MENU_COUNT;
                Action::Nothing
            },
            Key::Enter => {
                let act = match MainMenu::from_index(self.menu_selection) {
                    MainMenu::StartTest => Action::RestartTest,
                    MainMenu::SelectTestType => {
                        self.state = State::TestTypeSelector;
                        Action::Nothing
                    },
                    MainMenu::SelectLanguage => {
                        self.state = State::LanguageSelector;
                        Action::Nothing
                    },
                    MainMenu::SelectDifficulty => {
                        self.state = State::DifficultySelector;
                        Action::Nothing
                    },
                    MainMenu::SelectCapitalization => {
                        self.state = State::CapitalizationSelector;
                        Action::Nothing
                    },
                    MainMenu::ViewStats => {
                        self.state = State::StatsScreen;
                        Action::Nothing
                    },
                };
                self.menu_selection = 0;
                act
            },
            Key::Char('q') => {
                self.should_exit = true;
                Action::Nothing
            },
            _ => Action::Nothing,
        }
    }

    /// Key handling on the options menu.
    pub fn opt_menu_controls(&mut self, key: Key)
        requires
            old(self)@.wf(),
        ensures
            final(self)@ == old(self)@.opt_menu_step(key),
            final(self)@.wf(),
    {
        match key {
            Key::Char('k') => {
                self.menu_selection = (self.menu_selection + OPT_MENU_COUNT - 1) % OPT_MENU_COUNT;
            },
            Key::Char('j') => {
                self.menu_selection = (self.menu_selection + 1) % OPT_MENU_COUNT;
            },
            Key::Esc => self.state = State::MainMenu,
            Key::Enter => {
                match OptMenu::from_index(self.menu_selection) {
                    OptMenu::TestType => self.state = State::TestTypeSelector,
                    OptMenu::Difficulty => self.state = State::DifficultySelector,
                    OptMenu::Language => self.state = State::LanguageSelector,
                    OptMenu::Capitals => self.state = State::CapitalizationSelector,
                }
                self.menu_selection = 0;
            },
            Key::Char('q') => self.should_exit = true,
            _ => {},
        }
    }

    /// Key handling on the difficulty list.
    pub fn difficulty_selector_input(&mut self, key: Key)
        requires
            old(self)@.wf(),
        ensures
            final(self)@ == old(self)@.difficulty_step(key),
            final(self)@.wf(),
    {
        match key {
            Key::Char('k') => {
                self.menu_selection = (self.menu_selection + DIFFICULTY_COUNT - 1) % DIFFICULTY_COUNT;
            },
            Key::Char('j') => {
                self.menu_selection = (self.menu_selection + 1) % DIFFICULTY_COUNT;
            },
            Key::Enter => {
                self.test.difficulty = Difficulty::from_index(self.menu_selection);
                self.state = State::MainMenu;
                self.menu_selection = 0;
            },
            Key::Char('q') => self.should_exit = true,
            Key::Esc => self.state = State::MainMenu,
            _ => {},
        }
    }

    /// Key handling on the test type list.
    pub fn test_type_selector_input(&mut self, key: Key)
        requires
            old(self)@.wf(),
        ensures
            final(self)@ == old(self)@.test_type_step(key),
            final(self)@.wf(),
    {
        match key {
            Key::Char('k') => {
                self.menu_selection = (self.menu_selection + TEST_TYPE_COUNT - 1) % TEST_TYPE_COUNT;
            },
            Key::Char('j') => {
                self.menu_selection = (self.menu_selection + 1) % TEST_TYPE_COUNT;
            },
            Key::Enter => {
                self.test.ttype = TestType::from_index(self.menu_selection);
                self.state = State::OptMenu;
                self.menu_selection = 0;
            },
            Key::Char('q') => self.should_exit = true,
            Key::Esc => self.state = State::OptMenu,
            _ => {},
        }
    }

    /// Key handling on the language list.
    pub fn language_selector_input(&mut self, key: Key)
        requires
            old(self)@.wf(),
        ensures
            final(self)@ == old(self)@.language_step(key),
            final(self)@.wf(),
    {
        match key {
            Key::Char('k') => {
                self.menu_selection = (self.menu_selection + LANGUAGE_COUNT - 1) % LANGUAGE_COUNT;
            },
            Key::Char('j') => {
                self.menu_selection = (self.menu_selection + 1) % LANGUAGE_COUNT;
            },
            Key::Enter => {
                self.language = Language::from_index(self.menu_selection);
                self.state = State::MainMenu;
                self.menu_selection = 0;
            },
            Key::Char('q') => self.should_exit = true,
            Key::Esc => self.state = State::MainMenu,
            _ => {},
        }
    }

    /// Key handling on the capital letters screen.
    pub fn input_opt_capitals(&mut self, key: Key)
        requires
            old(self)@.wf(),
        ensures
            final(self)@ == old(self)@.capitals_step(key),
            final(self)@.wf(),
    {
        match key {
            Key::Enter => {
                self.test.capitals = !self.test.capitals;
            },
            Key::Char('q') => self.should_exit = true,
            Key::Esc => self.state = State::OptMenu,
            _ => {},
        }
    }

    /// Key handling on the statistics screen.
    pub fn stats_screen_input(&mut self, key: Key)
        requires
            old(self)@.wf(),
        ensures
            final(self)@ == old(self)@.stats_step(key),
            final(self)@.wf(),
    {
        match key {
            Key::Esc => self.state = State::MainMenu,
            Key::Char('q') => self.should_exit = true,
            _ => {},
        }
    }

    /// Key handling on the screens after a test.
    pub fn end_screen_input(&mut self, key: Key) -> (act: Action)
        requires
            old(self)@.wf(),
        ensures
            final(self)@ == old(self)@.end_screen_step(key).0,
            act == old(self)@.end_screen_step(key).1,
            final(self)@.wf(),
    {
        match key {
            Key::Tab => Action::RestartTest,
            Key::Esc => {
                self.state = State::MainMenu;
                Action::Nothing
            },
            Key::Char('q') => {
                self.should_exit = true;
                Action::Nothing
            },
            _ => Action::Nothing,
        }
    }

    /// Key handling while typing, at time `now`.
    pub fn typing_test_input(&mut self, key: Key, now: u128) -> (act: Action)
        requires
            old(self)@.can_take_key(now),
            old(self)@.state == State::Typing,
        ensures
            final(self)@ == old(self)@.typing_step(key, now).0,
            act == old(self)@.typing_step(key, now).1,
            final(self)@.wf(),
    {
        match key {
            Key::Char(' ') => {
                self.add_word(now);
                Action::Nothing
            },
            Key::Char(to_insert) => {
                self.enter_char(to_insert, now);
                Action::Nothing
            },
            Key::Backspace => {
                self.delete_char();
                Action::Nothing
            },
            Key::Esc => {
                self.state = State::MainMenu;
                Action::Nothing
            },
            Key::Tab => Action::RestartTest,
            _ => Action::Nothing,
        }
    }

    /// Key handling on whatever screen is shown, at time `now`.
    pub fn handle_key(&mut self, key: Key, now: u128) -> (act: Action)
        requires
            old(self)@.can_take_key(now),
        ensures
            final(self)@ == old(self)@.key_step(key, now).0,
            act == old(self)@.key_step(key, now).1,
            final(self)@.wf(),
    {
        match self.state {
            State::StatsScreen => {
                self.stats_screen_input(key);
                Action::Nothing
            },
            State::TestTypeSelector => {
                self.test_type_selector_input(key);
                Action::Nothing
            },
            State::LanguageSelector => {
                self.language_selector_input(key);
                Action::Nothing
            },
            State::DifficultySelector => {
                self.difficulty_selector_input(key);
                Action::Nothing
            },
            State::CapitalizationSelector => {
                self.input_opt_capitals(key);
                Action::Nothing
            },
            State::MainMenu => self.main_menu_input(key),
            State::OptMenu => {
                self.opt_menu_controls(key);
                Action::Nothing
            },
            State::TestFinished => self.end_screen_input(key),
            State::TestInterrupted => self.end_screen_input(key),
            State::Typing => self.typing_test_input(key, now),
        }
    }

    /// Whether `handle_key` can take a key at time `now`.
    pub fn accepts_key(&self, now: u128) -> (r: bool)
        requires
            self@.wf(),
        ensures
            r == self@.can_take_key(now),
    {
        let typing = self.state == State::Typing;
        (!typing || self.word_index < self.words.len()) && (!typing || self.test.difficulty
            == Difficulty::Normal || now >= self.test.start_time) && self.test.correct_chars
            < usize::MAX && self.test.incorrect_chars < usize::MAX && self.character_index
            < usize::MAX
    }

    /// The screen shown.
    pub fn state(&self) -> (r: State)
        ensures
            r == self@.state,
    {
        self.state
    }

    /// Whether the application should quit.
    pub fn should_exit(&self) -> (r: bool)
        ensures
            r == self@.should_exit,
    {
        self.should_exit
    }

    /// The selected language.
    pub fn language(&self) -> (r: Language)
        ensures
            r == self@.language,
    {
        self.language
    }

    /// The settings and progress of the current test.
    pub fn test(&self) -> (r: Test)
        ensures
            r == self@.test,
    {
        self.test
    }

    /// The statistics of the last finished test.
    pub fn stats(&self) -> (r: FinalStats)
        ensures
            r == self@.stats,
    {
        self.stats
    }

    /// Whether saving the last results succeeded.
    pub fn save_success(&self) -> (r: bool)
        ensures
            r == self@.save_success,
    {
        self.save_success
    }

    /// The selected menu entry.
    pub fn menu_selection(&self) -> (r: usize)
        ensures
            r == self@.menu_selection,
    {
        self.menu_selection
    }

    /// The version shown on the main menu.
    pub fn version(&self) -> (r: &String)
        ensures
            r@ == self@.version,
    {
        &self.version
    }

    /// The words of the current test.
    pub fn words(&self) -> (r: &Vec<String>)
        ensures
            strings_view(r@) == self@.words,
    {
        &self.words
    }

    /// What was typed for each word so far.
    pub fn input(&self) -> (r: &Vec<String>)
        ensures
            strings_view(r@) == self@.input,
    {
        &self.input
    }

    /// The index of the word being typed.
    pub fn word_index(&self) -> (r: usize)
        ensures
            r == self@.word_index,
    {
        self.word_index
    }

    /// The cursor position inside the word being typed.
    pub fn character_index(&self) -> (r: usize)
        ensures
            r == self@.character_index,
    {
        self.character_index
    }
}


// ---------------------------------------------------------------------------
// Laws
// ---------------------------------------------------------------------------

/// Where moving up and down a menu leads.
proof fn lemma_menu_values(selection: usize, count: usize)
    requires
        0 < count,
        selection < count,
    ensures
        menu_down(selection, count) == (if selection + 1 < count {
            selection + 1
        } else {
            0
        }),
        menu_up(selection, count) == (if selection > 0 {
            selection - 1
        } else {
            count - 1
        }),
{
    let c = count as int;
    let sel = selection as int;
    if sel + 1 < c {
        vstd::arithmetic::div_mod::lemma_small_mod((sel + 1) as nat, c as nat);
    } else {
        vstd::arithmetic::div_mod::lemma_mod_self_0(c);
    }
    if sel > 0 {
        vstd::arithmetic::div_mod::lemma_mod_add_multiples_vanish(sel - 1, c);
        vstd::arithmetic::div_mod::lemma_small_mod((sel - 1) as nat, c as nat);
        assert(sel + c - 1 == c + (sel - 1));
    } else {
        vstd::arithmetic::div_mod::lemma_small_mod((c - 1) as nat, c as nat);
    }
}

/// Moving down a menu and then up again comes back to the same entry.
pub proof fn lemma_menu_down_up(selection: usize, count: usize)
    requires
        0 < count <= MAIN_MENU_COUNT,
        selection < count,
    ensures
        menu_down(selection, count) < count,
        menu_up(selection, count) < count,
        menu_up(menu_down(selection, count), count) == selection,
        menu_down(menu_up(selection, count), count) == selection,
{
    lemma_menu_values(selection, count);
    lemma_menu_values(menu_down(selection, count), count);
    lemma_menu_values(menu_up(selection, count), count);
}

/// Entering a character at the end of the current word and deleting it
/// again gives back the same input, word and cursor, whatever the character
/// and whether or not it ended the test. Through the keys the same holds of
/// every character but the space (which moves on to the next word), unless
/// the character ended a test on Master difficulty, after which a backspace
/// no longer edits.
pub proof fn lemma_backspace_undoes_char(m: TuipeModel, c: char, now: u128)
    requires
        m.word_index < m.words.len(),
        m.word_index < m.input.len(),
        m.character_index < usize::MAX,
        m.character_index == m.input[m.word_index as int].len(),
    ensures
        ({
            let back = m.after_enter_char(c, now).after_delete_char();
            &&& back.input == m.input
            &&& back.word_index == m.word_index
            &&& back.character_index == m.character_index
        }),
        m.state == State::Typing ==> ({
            let after = m.typing_step(Key::Char(c), now).0;
            c != ' ' && after.state == State::Typing ==> {
                let back = after.typing_step(Key::Backspace, now).0;
                &&& back.input == m.input
                &&& back.word_index == m.word_index
                &&& back.character_index == m.character_index
            }
        }),
{
    let wi = m.word_index as int;
    let after = m.after_enter_char(c, now);
    assert(after.input[wi] == m.input[wi].push(c));
    let back = after.after_delete_char();
    assert(back.input[wi] =~= m.input[wi]);
    assert(back.input =~= m.input);
}

/// Moving on to the next word and deleting at its start comes back to the
/// previous word with the same input, the cursor after its last byte,
/// whether or not the move ended the test. Through the keys the same holds
/// unless the move ended the test.
pub proof fn lemma_backspace_undoes_space(m: TuipeModel, now: u128)
    requires
        m.wf(),
        m.word_index < m.words.len(),
    ensures
        ({
            let back = m.after_add_word(now).after_delete_char();
            &&& back.input == m.input
            &&& back.word_index == m.word_index
            &&& back.character_index == byte_len(m.input[m.word_index as int])
        }),
        m.state == State::Typing ==> ({
            let after = m.typing_step(Key::Char(' '), now).0;
            after.state == State::Typing ==> {
                let back = after.typing_step(Key::Backspace, now).0;
                &&& back.input == m.input
                &&& back.word_index == m.word_index
                &&& back.character_index == byte_len(m.input[m.word_index as int])
            }
        }),
{
    let after = m.after_add_word(now);
    assert(after.input == m.input.push(Seq::empty()));
    assert(after.word_index == m.word_index + 1);
    assert(after.character_index == 0);
    assert(after.input.take(after.input.len() - 1) =~= m.input);
}

/// Every typed word is ASCII text whose length fits a `usize`.
pub open spec fn typed_ascii(input: Seq<Seq<char>>) -> bool {
    forall|i: int|
        0 <= i < input.len() ==> is_ascii_chars(#[trigger] input[i]) && input[i].len() <= usize::MAX
}

/// While a test runs on ASCII text, every key keeps one input entry per word
/// reached, the cursor at the end of the word being typed, and the typed
/// text ASCII (for a cursor below the counter's maximum).
pub proof fn lemma_cursor_stays_at_word_end(m: TuipeModel, key: Key, now: u128)
    requires
        m.state == State::Typing,
        m.input.len() == m.word_index + 1,
        m.input_buffer.len() > m.word_index,
        m.word_index < m.words.len(),
        m.words.len() <= usize::MAX,
        m.character_index < usize::MAX,
        m.character_index == m.input[m.word_index as int].len(),
        typed_ascii(m.input),
        key matches Key::Char(c) ==> '\0' <= c <= '\u{7f}',
    ensures
        ({
            let n = m.typing_step(key, now).0;
            &&& n.input.len() == n.word_index + 1
            &&& n.input_buffer.len() > n.word_index
            &&& n.word_index <= n.words.len()
            &&& n.character_index == n.input[n.word_index as int].len()
            &&& typed_ascii(n.input)
        }),
{
    let wi = m.word_index as int;
    let n = m.typing_step(key, now).0;
    match key {
        Key::Char(c) => {
            if c == ' ' {
                assert(n.input == m.input.push(Seq::<char>::empty()));
                assert forall|i: int| 0 <= i < n.input.len() implies is_ascii_chars(
                    #[trigger] n.input[i],
                ) && n.input[i].len() <= usize::MAX by {
                    if i < m.input.len() {
                        assert(n.input[i] == m.input[i]);
                    }
                }
            } else {
                let typed = m.input[wi].push(c);
                assert(n.input == m.input.update(wi, typed));
                assert(is_ascii_chars(m.input[wi]));
                assert(is_ascii_chars(typed)) by {
                    assert forall|j: int| 0 <= j < typed.len() implies '\0' <= #[trigger] typed[j]
                        <= '\u{7f}' by {
                        if j < m.input[wi].len() {
                            assert(typed[j] == m.input[wi][j]);
                        }
                    }
                }
            }
        },
        Key::Backspace => {
            if m.character_index == 0 {
                if wi > 0 {
                    let input = m.input.take(m.input.len() - 1);
                    assert(input[wi - 1] == m.input[wi - 1]);
                    assert(is_ascii_chars(m.input[wi - 1]));
                    is_ascii_chars_encode_utf8(m.input[wi - 1]);
                    assert forall|i: int| 0 <= i < n.input.len() implies is_ascii_chars(
                        #[trigger] n.input[i],
                    ) && n.input[i].len() <= usize::MAX by {
                        assert(n.input[i] == m.input[i]);
                    }
                }
            } else {
                let kept = take_chars(m.input[wi], m.character_index - 1);
                assert(kept == m.input[wi].take(m.character_index - 1));
                assert(is_ascii_chars(m.input[wi]));
                assert forall|i: int| 0 <= i < n.input.len() implies is_ascii_chars(
                    #[trigger] n.input[i],
                ) && n.input[i].len() <= usize::MAX by {
                    if i == wi {
                        assert forall|j: int| 0 <= j < kept.len() implies '\0' <= #[trigger] kept[j]
                            <= '\u{7f}' by {
                            assert(kept[j] == m.input[wi][j]);
                        }
                    } else {
                        assert(n.input[i] == m.input[i]);
                    }
                }
            }
        },
        _ => {},
    }
}

/// On Normal difficulty no key ends a running test early.
pub proof fn lemma_normal_never_interrupts(m: TuipeModel, key: Key, now: u128)
    requires
        m.can_take_key(now),
        m.state == State::Typing,
        m.test.difficulty == Difficulty::Normal,
    ensures
        m.typing_step(key, now).0.state != State::TestInterrupted,
{
}

/// On Expert difficulty a typed character never ends the test, and moving on
/// from a wrongly typed word does.
pub proof fn lemma_expert_interrupts_on_wrong_word(m: TuipeModel, key: Key, now: u128)
    requires
        m.can_take_key(now),
        m.state == State::Typing,
        m.test.difficulty == Difficulty::Expert,
    ensures
        key != Key::Char(' ') ==> m.typing_step(key, now).0.state != State::TestInterrupted,
        m.words[m.word_index as int] != m.input[m.word_index as int] ==> m.typing_step(
            Key::Char(' '),
            now,
        ).0.state == State::TestInterrupted,
{
}

/// On Master difficulty a character that does not match the word ends the
/// test, with the statistics set at that moment.
pub proof fn lemma_master_interrupts_on_wrong_char(m: TuipeModel, c: char, now: u128)
    requires
        m.can_take_key(now),
        m.state == State::Typing,
        m.test.difficulty == Difficulty::Master,
        c != ' ',
        nth(m.input[m.word_index as int].push(c), m.character_index as int) != nth(
            m.words[m.word_index as int],
            m.character_index as int,
        ),
    ensures
        m.typing_step(Key::Char(c), now).0.state == State::TestInterrupted,
        m.typing_step(Key::Char(c), now).0.stats.time_is_set,
{
}

/// Outside a running test, `q` asks the application to quit.
pub proof fn lemma_q_quits_outside_test(m: TuipeModel, now: u128)
    requires
        m.can_take_key(now),
        m.state != State::Typing,
    ensures
        m.key_step(Key::Char('q'), now).0.should_exit,
        m.key_step(Key::Char('q'), now).1 == Action::Nothing,
{
}

/// A test whose words were all typed correctly has no characters of wrong
/// words: its raw character count equals its typed character count.
pub proof fn lemma_all_correct_no_raw_extra(words: Seq<Seq<char>>, input: Seq<Seq<char>>, n: int)
    requires
        0 <= n <= words.len(),
        n <= input.len(),
        forall|i: int| 0 <= i < n ==> words[i] == input[i],
    ensures
        word_stats(words, input, n).1 == 0,
    decreases n,
{
    if n > 0 {
        lemma_all_correct_no_raw_extra(words, input, n - 1);
    }
}


/// The raw character count of a result is never below its typed character
/// count, and the word count is the number of words both lists have (for
/// counts that fit the result's integer types).
pub proof fn lemma_raw_at_least_typed(m: TuipeModel, now: u128)
    requires
        m.wf(),
        ({
            let n = if m.input.len() < m.words.len() {
                m.input.len() as int
            } else {
                m.words.len() as int
            };
            word_stats(m.words, m.input, n).0 + word_stats(m.words, m.input, n).1 <= u128::MAX
        }),
    ensures
        m.final_stats(now).raw_characters >= m.final_stats(now).typed_characters,
        m.final_stats(now).typed_words == (if m.input.len() < m.words.len() {
            m.input.len()
        } else {
            m.words.len()
        }),
{
    let n = if m.input.len() < m.words.len() {
        m.input.len() as int
    } else {
        m.words.len() as int
    };
    lemma_word_stats_counts(m.words, m.input, n);
}

/// The total length of the first `n` strings of `v`.
pub open spec fn total_len(v: Seq<Seq<char>>, n: int) -> int
    decreases n,
{
    if n <= 0 {
        0
    } else {
        total_len(v, n - 1) + v[n - 1].len()
    }
}

/// How each word adds to the statistics: a correctly typed word adds its
/// length and a space to the typed characters and nothing to the raw extra;
/// a wrongly typed word adds only its space to the typed characters and to
/// the raw extra the smaller of its typed length and its real length; every
/// word counts once. So the raw extra never exceeds what was typed, nor the
/// length of the words.
pub proof fn lemma_word_stats_counts_each_word(words: Seq<Seq<char>>, input: Seq<Seq<char>>, n: int)
    requires
        0 <= n,
    ensures
        ({
            let before = word_stats(words, input, n);
            let after = word_stats(words, input, n + 1);
            let extra = after.1 - before.1;
            &&& after.2 == before.2 + 1
            &&& input[n] == words[n] ==> after.0 == before.0 + input[n].len() + 1 && extra == 0
            &&& input[n] != words[n] ==> {
                &&& after.0 == before.0 + 1
                &&& extra <= input[n].len()
                &&& extra <= words[n].len()
                &&& extra == input[n].len() || extra == words[n].len()
            }
        }),
        word_stats(words, input, n).1 <= total_len(input, n),
        word_stats(words, input, n).1 <= total_len(words, n),
    decreases n,
{
    if n > 0 {
        lemma_word_stats_counts_each_word(words, input, n - 1);
    }
}

/// Keystroke counting while typing at the end of the word (on Normal and
/// Expert difficulty): a character that is the word's character at the
/// cursor counts as correct; any other character, also one typed past the
/// end of the word, counts as incorrect; exactly one of the two counts
/// grows. On Master difficulty a wrong character ends the test instead,
/// with the counts unchanged.
pub proof fn lemma_keystroke_counts(m: TuipeModel, c: char, now: u128)
    requires
        m.word_index < m.words.len(),
        m.word_index < m.input.len(),
        m.character_index == m.input[m.word_index as int].len(),
        m.test.correct_chars < usize::MAX,
        m.test.incorrect_chars < usize::MAX,
    ensures
        ({
            let r = m.after_enter_char(c, now);
            let word = m.words[m.word_index as int];
            let ci = m.character_index as int;
            let right = ci < word.len() && word[ci] == c;
            &&& right ==> r.test.correct_chars == m.test.correct_chars + 1
                && r.test.incorrect_chars == m.test.incorrect_chars && r.state == m.state
            &&& !right && m.test.difficulty != Difficulty::Master ==> r.test.incorrect_chars
                == m.test.incorrect_chars + 1 && r.test.correct_chars == m.test.correct_chars
                && r.state == m.state
            &&& !right && m.test.difficulty == Difficulty::Master ==> r.state
                == State::TestInterrupted && r.stats.time_is_set && r.test.correct_chars
                == m.test.correct_chars && r.test.incorrect_chars == m.test.incorrect_chars
            &&& ci >= word.len() && m.test.difficulty != Difficulty::Master ==> r.test.incorrect_chars
                == m.test.incorrect_chars + 1
        }),
{
    let wi = m.word_index as int;
    let typed = m.input[wi].push(c);
    assert(typed[m.character_index as int] == c);
}

/// When the test is over by its words: with more than one word, once every
/// word has been passed; with the last word reached and not passed, exactly
/// when it is typed as it is (a typo of the right length does not end the
/// test). Otherwise only the time limit of a running timed test ends it,
/// and a check before a frame that finds the test not over changes nothing.
pub proof fn lemma_test_over_by_words(m: TuipeModel, now: u128)
    ensures
        m.words.len() > 1 && m.input.len() == m.words.len() ==> (m.done_by_words() <==> m.input[m.words.len() - 1]
            == m.words[m.words.len() - 1]),
        m.words.len() > 1 && m.input.len() > m.words.len() ==> m.done_by_words(),
        m.input.len() < m.words.len() || m.words.len() <= 1 ==> !m.done_by_words(),
        !m.done_by_words() ==> (m.test_done(now) <==> m.test.is_timed && m.test.is_started && now
            - m.test.start_time >= m.test.time_limit * 1000),
        !m.test_done(now) ==> m.tick_step(now) == (m, Action::Nothing),
{
}

/// Moving on to the next word (space): the word index grows by one, a new
/// empty word is started with the cursor at its start, and what was typed so
/// far is kept. A word typed as it is changes no count and never ends the
/// test. A wrongly typed word counts one incorrect keystroke on Normal
/// difficulty and ends the test, with its statistics, on Expert and Master.
/// Where the typed word is shorter in bytes than the word, the missing byte
/// count is recorded for it.
pub proof fn lemma_space_moves_on(m: TuipeModel, now: u128)
    requires
        m.word_index < m.words.len(),
        m.word_index < m.input.len(),
        m.word_index < m.input_buffer.len(),
        m.words.len() <= usize::MAX,
        m.test.incorrect_chars < usize::MAX,
    ensures
        ({
            let r = m.after_add_word(now);
            let wi = m.word_index as int;
            let right = m.input[wi] == m.words[wi];
            &&& r.word_index == m.word_index + 1
            &&& r.character_index == 0
            &&& r.input == m.input.push(Seq::<char>::empty())
            &&& r.input_buffer.len() == m.input_buffer.len() + 1
            &&& r.input_buffer[r.input_buffer.len() - 1] == 0
            &&& byte_len(m.words[wi]) > byte_len(m.input[wi]) ==> r.input_buffer[wi] as int
                == (byte_len(m.words[wi]) - byte_len(m.input[wi])) as u8
            &&& r.test.correct_chars == m.test.correct_chars
            &&& right ==> r.test == m.test && r.state == m.state
            &&& !right && m.test.difficulty == Difficulty::Normal ==> r.test.incorrect_chars
                == m.test.incorrect_chars + 1 && r.state == m.state
            &&& !right && m.test.difficulty != Difficulty::Normal ==> r.state
                == State::TestInterrupted && r.stats.time_is_set && r.test.incorrect_chars
                == m.test.incorrect_chars
        }),
{
}

/// A test whose words were all typed as they are counts as typed characters
/// the length of all its words plus one space per word, no raw extra, and
/// one typed word per word.
pub proof fn lemma_all_correct_counts(words: Seq<Seq<char>>, input: Seq<Seq<char>>, n: int)
    requires
        0 <= n <= words.len(),
        n <= input.len(),
        forall|i: int| 0 <= i < n ==> words[i] == input[i],
    ensures
        word_stats(words, input, n) == (total_len(words, n) + n, 0int, n),
    decreases n,
{
    if n > 0 {
        lemma_all_correct_counts(words, input, n - 1);
    }
}

/// The check before each frame finishes a test that is over and has no
/// statistics yet: the statistics are taken at `now` (elapsed time since the
/// start), the finished screen is shown and the results are to be saved.
/// Once statistics are set, or while the test is not over, nothing changes.
pub proof fn lemma_tick_finishes(m: TuipeModel, now: u128)
    requires
        now >= m.test.start_time,
    ensures
        ({
            let (r, act) = m.tick_step(now);
            &&& !m.stats.time_is_set && m.test_done(now) ==> {
                &&& r.state == State::TestFinished
                &&& act == Action::SaveResults
                &&& r.stats.time_is_set
                &&& r.stats.time == now - m.test.start_time
                &&& r.stats.correct_keystrokes == m.test.correct_chars
                &&& r.stats.incorrect_keystrokes == m.test.incorrect_chars
                &&& r.input == m.input && r.words == m.words && r.test == m.test
            }
            &&& m.stats.time_is_set || !m.test_done(now) ==> r == m && act == Action::Nothing
        }),
{
}

/// Moving through a list: `j` selects the next entry (from the last, the
/// first) and `k` the previous one (from the first, the last), on the main
/// menu, the options menu and the difficulty, test type and language
/// lists, each with its number of entries.
pub proof fn lemma_list_navigation(m: TuipeModel, now: u128)
    ensures
        ({
            let count: int = match m.state {
                State::MainMenu => 6,
                State::OptMenu => 4,
                State::DifficultySelector => 3,
                State::TestTypeSelector => 6,
                State::LanguageSelector => 5,
                _ => 0,
            };
            let sel = m.menu_selection as int;
            let down = m.key_step(Key::Char('j'), now).0;
            let up = m.key_step(Key::Char('k'), now).0;
            0 <= sel < count ==> {
                &&& down.menu_selection == (if sel + 1 < count {
                    sel + 1
                } else {
                    0
                })
                &&& up.menu_selection == (if sel > 0 {
                    sel - 1
                } else {
                    count - 1
                })
                &&& down.state == m.state && up.state == m.state
                &&& down.test == m.test && up.test == m.test
            }
        }),
{
    let sel = m.menu_selection;
    match m.state {
        State::MainMenu => if sel < 6 {
            lemma_menu_values(sel, 6);
        },
        State::OptMenu => if sel < 4 {
            lemma_menu_values(sel, 4);
        },
        State::DifficultySelector => if sel < 3 {
            lemma_menu_values(sel, 3);
        },
        State::TestTypeSelector => if sel < 6 {
            lemma_menu_values(sel, 6);
        },
        State::LanguageSelector => if sel < 5 {
            lemma_menu_values(sel, 5);
        },
        _ => {},
    }
}

/// Esc goes back: from the difficulty and language lists, the statistics,
/// the options menu and the screens after a test to the main menu, from the
/// test type list and the capitals screen to the options menu, and from a
/// running test to the main menu; the settings stay as they are.
pub proof fn lemma_esc_goes_back(m: TuipeModel, now: u128)
    ensures
        ({
            let r = m.key_step(Key::Esc, now).0;
            &&& r.test == m.test && r.language == m.language
            &&& match m.state {
                State::TestTypeSelector | State::CapitalizationSelector => r.state == State::OptMenu,
                State::MainMenu => r.state == State::MainMenu,
                _ => r.state == State::MainMenu,
            }
        }),
{
}

/// The statistics of a test whose words were all typed as they are (at
/// least one word): the typed characters are the length of all the words
/// plus the spaces between them, the raw characters are the same, every
/// word counts, and the time is the time since the start (for sizes that
/// fit the result's integer types).
pub proof fn lemma_final_stats_all_correct(m: TuipeModel, now: u128)
    requires
        now >= m.test.start_time,
        1 <= m.words.len() <= m.input.len(),
        m.words.len() <= usize::MAX,
        forall|i: int| 0 <= i < m.words.len() ==> m.words[i] == m.input[i],
        total_len(m.words, m.words.len() as int) + m.words.len() <= u128::MAX,
    ensures
        ({
            let f = m.final_stats(now);
            let n = m.words.len() as int;
            &&& f.typed_characters == total_len(m.words, n) + n - 1
            &&& f.raw_characters == f.typed_characters
            &&& f.typed_words == n
            &&& f.time == now - m.test.start_time
            &&& f.time_is_set
        }),
{
    let n = m.words.len() as int;
    lemma_all_correct_counts(m.words, m.input, n);
    lemma_total_len_nonneg(m.words, n);
}

proof fn lemma_total_len_nonneg(v: Seq<Seq<char>>, n: int)
    ensures
        total_len(v, n) >= 0,
    decreases n,
{
    if n > 0 {
        lemma_total_len_nonneg(v, n - 1);
    }
}

} // verus!
