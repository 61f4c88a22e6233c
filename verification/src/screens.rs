use vstd::prelude::*;
use crate::layout::{span, spans_view, Color, SpanModel, StyledSpan};
use crate::options::{Difficulty, Language, TestType};
use crate::session::{Action, Key, State, Tuipe, TuipeModel};

verus! {

/// A line of one span with the given text and colour.
pub open spec fn line(text: Seq<char>, color: Color) -> SpanModel {
    SpanModel { text: text, color: color }
}

/// An empty line.
pub open spec fn blank() -> SpanModel {
    line(Seq::empty(), Color::Reset)
}

/// The line of menu entry `i` named `name`: the selected entry is blue and
/// marked with `> `.
pub open spec fn entry(name: Seq<char>, i: int, selection: int) -> SpanModel {
    if i == selection {
        line("> "@ + name, Color::Blue)
    } else {
        line(name, Color::Reset)
    }
}

/// The lines of menu entries `names` with entry `selection` selected.
pub open spec fn entries(names: Seq<Seq<char>>, selection: int) -> Seq<SpanModel> {
    Seq::new(names.len(), |i: int| entry(names[i], i, selection))
}

/// The control hints of the main menu.
pub open spec fn menu_controls() -> Seq<SpanModel> {
    seq![
        blank(),
        blank(),
        line("Move: j/k"@, Color::DarkGray),
        line("Select: Enter"@, Color::DarkGray),
        line("Quit: q"@, Color::DarkGray),
    ]
}

/// The control hints of the option lists: those of the main menu and a way
/// back.
pub open spec fn select_menu_controls() -> Seq<SpanModel> {
    menu_controls().push(line("Back: Esc"@, Color::DarkGray))
}

/// The names of the main menu entries.
pub open spec fn main_menu_names() -> Seq<Seq<char>> {
    seq![
        "Start test"@,
        "Select test type"@,
        "Select language"@,
        "Select difficulty"@,
        "Select capitalization"@,
        "View stats history"@,
    ]
}

/// The names of the options menu entries.
pub open spec fn opt_menu_names() -> Seq<Seq<char>> {
    seq!["Test Type"@, "Difficulty"@, "Language"@, "Capital letters"@]
}

/// How a flag is written: `true` or `false`.
pub open spec fn bool_text(b: bool) -> Seq<char> {
    if b {
        "true"@
    } else {
        "false"@
    }
}

/// The lines of the main menu: the title, the current settings, the entries
/// and the controls, then the version.
pub open spec fn main_menu_screen(m: TuipeModel) -> Seq<SpanModel> {
    seq![
        line("Tuipe"@, Color::Magenta),
        blank(),
        line("Current settings:"@, Color::Cyan),
        line("Test type: "@ + m.test.ttype.name(), Color::LightCyan),
        line("Language: "@ + m.language.name(), Color::LightCyan),
        line("Difficulty: "@ + m.test.difficulty.name(), Color::LightCyan),
        line("Capital letters: "@ + bool_text(m.test.capitals), Color::LightCyan),
        blank(),
    ] + entries(main_menu_names(), m.menu_selection as int) + menu_controls() + seq![
        blank(),
        line("version: "@ + m.version, Color::DarkGray),
    ]
}

/// The lines of an option list titled `title` with entries `names`.
pub open spec fn selector_screen(title: Seq<char>, names: Seq<Seq<char>>, selection: int) -> Seq<SpanModel> {
    seq![line(title, Color::Green), blank()] + entries(names, selection) + select_menu_controls()
}

/// The names of all difficulties, in list order.
pub open spec fn difficulty_names() -> Seq<Seq<char>> {
    Seq::new(3, |i: int| Difficulty::spec_from_index(i).name())
}

/// The names of all test types, in list order.
pub open spec fn test_type_names() -> Seq<Seq<char>> {
    Seq::new(6, |i: int| TestType::spec_from_index(i).name())
}

/// The names of all languages, in list order.
pub open spec fn language_names() -> Seq<Seq<char>> {
    Seq::new(5, |i: int| Language::spec_from_index(i).name())
}

/// The lines of the options menu.
pub open spec fn opt_menu_screen(m: TuipeModel) -> Seq<SpanModel> {
    seq![line("Tuipe Options"@, Color::Magenta), blank()] + entries(
        opt_menu_names(),
        m.menu_selection as int,
    ) + select_menu_controls()
}

/// The lines of the capital letters screen.
pub open spec fn capitals_screen(m: TuipeModel) -> Seq<SpanModel> {
    seq![
        line("Current capitalization: "@ + bool_text(m.test.capitals), Color::Green),
        blank(),
        line("> Toggle capitals"@, Color::Blue),
        blank(),
        blank(),
        line("Select: Enter"@, Color::DarkGray),
        line("Quit: q"@, Color::DarkGray),
        line("Back: Esc"@, Color::DarkGray),
    ]
}

/// A new string holding the given text.
fn text(s: &str) -> (r: String)
    ensures
        r@ == s@,
{
    String::from_str(s)
}

/// A new string holding `a` followed by `b`.
fn joined(a: &str, b: &str) -> (r: String)
    ensures
        r@ == a@ + b@,
{
    let mut r = String::from_str(a);
    r.append(b);
    r
}

/// How a flag is written.
fn bool_str(b: bool) -> (r: &'static str)
    ensures
        r@ == bool_text(b),
{
    if b {
        "true"
    } else {
        "false"
    }
}

/// Appends a line of one span.
fn push_line(lines: &mut Vec<StyledSpan>, t: String, color: Color)
    ensures
        spans_view(final(lines)@) == spans_view(old(lines)@).push(line(t@, color)),
{
    let ghost before = spans_view(lines@);
    lines.push(span(t, color));
    assert(spans_view(lines@) =~= before.push(line(t@, color)));
}

/// Appends the lines of menu entries `names` with `selection` selected.
fn push_entries(lines: &mut Vec<StyledSpan>, names: &Vec<&'static str>, selection: usize)
    ensures
        spans_view(final(lines)@) == spans_view(old(lines)@) + entries(
            names@.map_values(|s: &'static str| s@),
            selection as int,
        ),
{
    let ghost start = spans_view(lines@);
    let ghost nv = names@.map_values(|s: &'static str| s@);
    let mut i: usize = 0;
    while i < names.len()
        invariant
            i <= names.len(),
            nv == names@.map_values(|s: &'static str| s@),
            spans_view(lines@) == start + entries(nv, selection as int).take(i as int),
        decreases names.len() - i,
    {
        let ghost before = spans_view(lines@);
        if i == selection {
            push_line(lines, joined("> ", names[i]), Color::Blue);
        } else {
            push_line(lines, text(names[i]), Color::Reset);
        }
        assert(entries(nv, selection as int).take(i + 1) =~= entries(nv, selection as int).take(
            i as int,
        ).push(entry(nv[i as int], i as int, selection as int)));
        i = i + 1;
    }
    assert(entries(nv, selection as int).take(names.len() as int) =~= entries(nv, selection as int));
}

/// Appends the control hints of the main menu.
fn add_menu_controls(lines: &mut Vec<StyledSpan>)
    ensures
        spans_view(final(lines)@) == spans_view(old(lines)@) + menu_controls(),
{
    let ghost start = spans_view(lines@);
    push_line(lines, String::new(), Color::Reset);
    push_line(lines, String::new(), Color::Reset);
    push_line(lines, text("Move: j/k"), Color::DarkGray);
    push_line(lines, text("Select: Enter"), Color::DarkGray);
    push_line(lines, text("Quit: q"), Color::DarkGray);
    assert(spans_view(lines@) =~= start + menu_controls());
}

/// Appends the control hints of the option lists.
fn add_select_menu_controls(lines: &mut Vec<StyledSpan>)
    ensures
        spans_view(final(lines)@) == spans_view(old(lines)@) + select_menu_controls(),
{
    let ghost start = spans_view(lines@);
    add_menu_controls(lines);
    push_line(lines, text("Back: Esc"), Color::DarkGray);
    assert(spans_view(lines@) =~= start + select_menu_controls());
}

/// The lines of an option list titled `title` with entries `names`.
fn selector_lines(title: &str, names: &Vec<&'static str>, selection: usize) -> (r: Vec<StyledSpan>)
    ensures
        spans_view(r@) == selector_screen(
            title@,
            names@.map_values(|s: &'static str| s@),
            selection as int,
        ),
{
    let mut lines: Vec<StyledSpan> = Vec::new();
    push_line(&mut lines, text(title), Color::Green);
    push_line(&mut lines, String::new(), Color::Reset);
    let ghost head = spans_view(lines@);
    push_entries(&mut lines, names, selection);
    let ghost mid = spans_view(lines@);
    add_select_menu_controls(&mut lines);
    assert(head =~= seq![line(title@, Color::Green), blank()]);
    assert(spans_view(lines@) =~= selector_screen(
        title@,
        names@.map_values(|s: &'static str| s@),
        selection as int,
    ));
    lines
}

impl Tuipe {
    /// The lines of the main menu.
    pub fn render_main_menu(&self) -> (r: Vec<StyledSpan>)
        ensures
            spans_view(r@) == main_menu_screen(self@),
    {
        let ghost m = self@;
        let test = self.test();
        let mut lines: Vec<StyledSpan> = Vec::new();
        push_line(&mut lines, text("Tuipe"), Color::Magenta);
        push_line(&mut lines, String::new(), Color::Reset);
        push_line(&mut lines, text("Current settings:"), Color::Cyan);
        push_line(&mut lines, joined("Test type: ", test.ttype.as_string()), Color::LightCyan);
        push_line(&mut lines, joined("Language: ", self.language().as_string()), Color::LightCyan);
        push_line(
            &mut lines,
            joined("Difficulty: ", test.difficulty.as_string()),
            Color::LightCyan,
        );
        push_line(&mut lines, joined("Capital letters: ", bool_str(test.capitals)), Color::LightCyan);
        push_line(&mut lines, String::new(), Color::Reset);
        let ghost head = spans_view(lines@);
        let names = vec![
            "Start test",
            "Select test type",
            "Select language",
            "Select difficulty",
            "Select capitalization",
            "View stats history",
        ];
        push_entries(&mut lines, &names, self.menu_selection());
        assert(names@.map_values(|s: &'static str| s@) =~= main_menu_names());
        add_menu_controls(&mut lines);
        push_line(&mut lines, String::new(), Color::Reset);
        push_line(&mut lines, joined("version: ", self.version().as_str()), Color::DarkGray);
        assert(spans_view(lines@) =~= main_menu_screen(m));
        lines
    }

    /// The lines of the options menu.
    pub fn render_opt_menu(&self) -> (r: Vec<StyledSpan>)
        ensures
            spans_view(r@) == opt_menu_screen(self@),
    {
        let mut lines: Vec<StyledSpan> = Vec::new();
        push_line(&mut lines, text("Tuipe Options"), Color::Magenta);
        push_line(&mut lines, String::new(), Color::Reset);
        let names = vec!["Test Type", "Difficulty", "Language", "Capital letters"];
        push_entries(&mut lines, &names, self.menu_selection());
        assert(names@.map_values(|s: &'static str| s@) =~= opt_menu_names());
        add_select_menu_controls(&mut lines);
        assert(spans_view(lines@) =~= opt_menu_screen(self@));
        lines
    }

    /// The lines of the difficulty list.
    pub fn render_difficulty_selector(&self) -> (r: Vec<StyledSpan>)
        ensures
            spans_view(r@) == selector_screen(
                "Available difficulties:"@,
                difficulty_names(),
                self@.menu_selection as int,
            ),
    {
        let names = Difficulty::as_vec();
        assert(names@.map_values(|s: &'static str| s@) =~= difficulty_names());
        selector_lines("Available difficulties:", &names, self.menu_selection())
    }

    /// The lines of the test type list.
    pub fn render_test_type_selector(&self) -> (r: Vec<StyledSpan>)
        ensures
            spans_view(r@) == selector_screen(
                "Available tests:"@,
                test_type_names(),
                self@.menu_selection as int,
            ),
    {
        let names = TestType::as_vec();
        assert(names@.map_values(|s: &'static str| s@) =~= test_type_names());
        selector_lines("Available tests:", &names, self.menu_selection())
    }

    /// The lines of the language list.
    pub fn render_language_selector(&self) -> (r: Vec<StyledSpan>)
        ensures
            spans_view(r@) == selector_screen(
                "Available languages:"@,
                language_names(),
                self@.menu_selection as int,
            ),
    {
        let names = Language::as_vec();
        assert(names@.map_values(|s: &'static str| s@) =~= language_names());
        selector_lines("Available languages:", &names, self.menu_selection())
    }

    /// The lines of the capital letters screen.
    pub fn render_opt_capitals(&self) -> (r: Vec<StyledSpan>)
        ensures
            spans_view(r@) == capitals_screen(self@),
    {
        let ghost m = self@;
        let mut lines: Vec<StyledSpan> = Vec::new();
        push_line(
            &mut lines,
            joined("Current capitalization: ", bool_str(self.test().capitals)),
            Color::Green,
        );
        push_line(&mut lines, String::new(), Color::Reset);
        push_line(&mut lines, text("> Toggle capitals"), Color::Blue);
        push_line(&mut lines, String::new(), Color::Reset);
        push_line(&mut lines, String::new(), Color::Reset);
        push_line(&mut lines, text("Select: Enter"), Color::DarkGray);
        push_line(&mut lines, text("Quit: q"), Color::DarkGray);
        push_line(&mut lines, text("Back: Esc"), Color::DarkGray);
        assert(spans_view(lines@) =~= capitals_screen(m));
        lines
    }
}

/// Enter on the options menu opens the screen named by the selected entry:
/// "Test Type" the test type list, "Difficulty" the difficulty list,
/// "Language" the language list and "Capital letters" the capitals screen,
/// with the first entry selected and the settings unchanged.
pub proof fn lemma_opt_menu_opens_named_screen(m: TuipeModel, now: u128)
    requires
        m.state == State::OptMenu,
        m.menu_selection < 4,
    ensures
        ({
            let (n, act) = m.key_step(Key::Enter, now);
            let name = opt_menu_names()[m.menu_selection as int];
            &&& act == Action::Nothing
            &&& n.menu_selection == 0
            &&& n.test == m.test && n.language == m.language
            &&& name == "Test Type"@ <==> n.state == State::TestTypeSelector
            &&& name == "Difficulty"@ <==> n.state == State::DifficultySelector
            &&& name == "Language"@ <==> n.state == State::LanguageSelector
            &&& name == "Capital letters"@ <==> n.state == State::CapitalizationSelector
        }),
{
    reveal_strlit("Test Type");
    reveal_strlit("Difficulty");
    reveal_strlit("Language");
    reveal_strlit("Capital letters");
    assert("Test Type"@[0] != "Difficulty"@[0]);
    assert("Test Type"@[0] != "Language"@[0]);
    assert("Test Type"@[0] != "Capital letters"@[0]);
    assert("Difficulty"@[0] != "Language"@[0]);
    assert("Difficulty"@[0] != "Capital letters"@[0]);
    assert("Language"@[0] != "Capital letters"@[0]);
}

/// Enter on the main menu acts on the selected entry by its name: "Start
/// test" asks for a new test, "Select test type", "Select language",
/// "Select difficulty" and "Select capitalization" open those screens, and
/// "View stats history" the statistics; the first entry is selected after.
pub proof fn lemma_main_menu_opens_named_screen(m: TuipeModel, now: u128)
    requires
        m.state == State::MainMenu,
        m.menu_selection < 6,
    ensures
        ({
            let (n, act) = m.key_step(Key::Enter, now);
            let name = main_menu_names()[m.menu_selection as int];
            &&& n.menu_selection == 0
            &&& n.test == m.test && n.language == m.language
            &&& name == "Start test"@ <==> act == Action::RestartTest
            &&& name == "Start test"@ ==> n.state == State::MainMenu
            &&& name == "Select test type"@ <==> n.state == State::TestTypeSelector
            &&& name == "Select language"@ <==> n.state == State::LanguageSelector
            &&& name == "Select difficulty"@ <==> n.state == State::DifficultySelector
            &&& name == "Select capitalization"@ <==> n.state == State::CapitalizationSelector
            &&& name == "View stats history"@ <==> n.state == State::StatsScreen
        }),
{
    reveal_strlit("Start test");
    reveal_strlit("Select test type");
    reveal_strlit("Select language");
    reveal_strlit("Select difficulty");
    reveal_strlit("Select capitalization");
    reveal_strlit("View stats history");
    let names = main_menu_names();
    assert forall|a: int, b: int| 0 <= a < 6 && 0 <= b < 6 && a != b implies names[a] != names[b] by {
        if a == 0 || b == 0 {
            let other = if a == 0 { b } else { a };
            assert(names[0][1] != names[other][1] || names[0][0] != names[other][0]);
        } else if a == 5 || b == 5 {
            assert(names[5][0] != names[if a == 5 { b } else { a }][0]);
        } else {
            assert(names[a][7] != names[b][7]);
        }
    }
    let i = m.menu_selection as int;
    assert(names[i] == main_menu_names()[i]);
}

/// Enter on an option list chooses the entry shown at the selection: the
/// difficulty, test type or language whose name is shown there (then back
/// to the main menu, or to the options menu for the test type); on the
/// capitals screen Enter switches capital letters on or off.
pub proof fn lemma_selectors_choose_named_entry(m: TuipeModel, now: u128)
    ensures
        ({
            let n = m.key_step(Key::Enter, now).0;
            let i = m.menu_selection as int;
            &&& m.state == State::DifficultySelector && i < 3 ==> n.test.difficulty.name()
                == difficulty_names()[i] && n.state == State::MainMenu && n.menu_selection == 0
            &&& m.state == State::TestTypeSelector && i < 6 ==> n.test.ttype.name()
                == test_type_names()[i] && n.state == State::OptMenu && n.menu_selection == 0
            &&& m.state == State::LanguageSelector && i < 5 ==> n.language.name()
                == language_names()[i] && n.state == State::MainMenu && n.menu_selection == 0
            &&& m.state == State::CapitalizationSelector ==> n.test.capitals == !m.test.capitals
                && n.state == m.state
        }),
{
}

} // verus!
