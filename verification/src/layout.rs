use vstd::prelude::*;
use vstd::utf8::{decode_utf8, encode_utf8, encode_utf8_decode_utf8, is_char_boundary};
use crate::session::{Tuipe, TuipeModel};
use crate::text::{byte_len, nth, nth_char, push_char, string_byte_len, to_string};

verus! {

/// The colours the screens use.
#[derive(Clone, Copy, Debug, PartialEq, Eq, Structural)]
pub enum Color {
    Reset,
    DarkGray,
    Red,
    Green,
    Blue,
    Cyan,
    LightCyan,
    Magenta,
}

/// A piece of text drawn in one colour.
pub struct StyledSpan {
    pub text: String,
    pub color: Color,
}

/// The abstract content of a `StyledSpan`.
pub struct SpanModel {
    pub text: Seq<char>,
    pub color: Color,
}

/// The abstract content of a list of spans.
pub open spec fn spans_view(v: Seq<StyledSpan>) -> Seq<SpanModel> {
    v.map_values(|s: StyledSpan| SpanModel { text: s.text@, color: s.color })
}

/// The abstract content of a list of lines.
pub open spec fn lines_view(v: Seq<Vec<StyledSpan>>) -> Seq<Seq<SpanModel>> {
    v.map_values(|l: Vec<StyledSpan>| spans_view(l@))
}

/// The number of terminal columns that a piece of text takes, as the
/// terminal library measures it.
pub uninterp spec fn span_width(text: Seq<char>) -> usize;

/// `ratatui::text::Span::width`: the display width of a piece of text.
#[verifier::external_body]
fn text_width(text: &str) -> (w: usize)
    ensures
        w == span_width(text@),
{
    ratatui::text::Span::raw(text).width()
}

/// The sum of the widths of `spans`.
pub open spec fn spans_width(spans: Seq<SpanModel>) -> int
    decreases spans.len(),
{
    if spans.len() == 0 {
        0
    } else {
        spans_width(spans.drop_last()) + span_width(spans.last().text)
    }
}

/// The sum of the widths of the first `t` spans, each taken as a `u16`.
pub open spec fn prefix_width_u16(spans: Seq<SpanModel>, t: int) -> int
    decreases t,
{
    if t <= 0 {
        0
    } else {
        prefix_width_u16(spans, t - 1) + (span_width(spans[t - 1].text) as u16)
    }
}

/// The colour of character `j` of word `k`: characters the typist has
/// reached are plain when typed right, red when typed wrong and dark gray
/// when not typed; characters not reached yet are dark gray.
pub open spec fn char_color(m: TuipeModel, k: int, j: int) -> Color {
    if m.word_index > k || m.character_index > j {
        match nth(m.input[k], j) {
            None => Color::DarkGray,
            Some(x) => if x == m.words[k][j] {
                Color::Reset
            } else {
                Color::Red
            },
        }
    } else {
        Color::DarkGray
    }
}

/// What was typed past the end of word `k`: the bytes of the typed text
/// after the length in bytes of the word.
pub open spec fn extra_text(m: TuipeModel, k: int) -> Seq<char> {
    let typed = encode_utf8(m.input[k]);
    decode_utf8(typed.subrange(byte_len(m.words[k]) as int, typed.len() as int))
}

/// The spans of word `k`: a word not reached yet is one dark gray span, a
/// word passed without a mistake is one plain span, and otherwise each
/// character gets its own span coloured by `char_color`, followed by the
/// extra typed text in red. `None` where the extra text would have to start
/// inside a character.
pub open spec fn word_spans(m: TuipeModel, k: int) -> Option<Seq<SpanModel>> {
    let word = m.words[k];
    if k > m.word_index {
        Some(seq![SpanModel { text: word, color: Color::DarkGray }])
    } else if k < m.word_index && m.input[k] == word {
        Some(seq![SpanModel { text: word, color: Color::Reset }])
    } else {
        let chars = Seq::new(
            word.len(),
            |j: int| SpanModel { text: seq![word[j]], color: char_color(m, k, j) },
        );
        let typed = m.input[k];
        if byte_len(typed) > byte_len(word) {
            if is_char_boundary(encode_utf8(typed), byte_len(word) as int) {
                Some(chars.push(SpanModel { text: extra_text(m, k), color: Color::Red }))
            } else {
                None
            }
        } else {
            Some(chars)
        }
    }
}

/// The colour of character `j` of word `k` in the plain colouring: a
/// reached character is plain when the typed character at its position is
/// the same and red otherwise (also when nothing was typed there); characters
/// not reached yet are dark gray.
pub open spec fn plain_char_color(m: TuipeModel, k: int, j: int) -> Color {
    if m.word_index > k || m.character_index >= j {
        if nth(m.input[k], j) == Some(m.words[k][j]) {
            Color::Reset
        } else {
            Color::Red
        }
    } else {
        Color::DarkGray
    }
}

/// The spans of word `k` in the plain colouring: a word not reached yet is
/// one dark gray span; otherwise each character gets its own span coloured
/// by `plain_char_color`, followed by the extra typed text in red. `None`
/// where the extra text would have to start inside a character.
pub open spec fn plain_word_spans(m: TuipeModel, k: int) -> Option<Seq<SpanModel>> {
    let word = m.words[k];
    if k > m.word_index {
        Some(seq![SpanModel { text: word, color: Color::DarkGray }])
    } else {
        let chars = Seq::new(
            word.len(),
            |j: int| SpanModel { text: seq![word[j]], color: plain_char_color(m, k, j) },
        );
        let typed = m.input[k];
        if byte_len(typed) > byte_len(word) {
            if is_char_boundary(encode_utf8(typed), byte_len(word) as int) {
                Some(chars.push(SpanModel { text: extra_text(m, k), color: Color::Red }))
            } else {
                None
            }
        } else {
            Some(chars)
        }
    }
}

/// The spans of word `k`, in the plain colouring when `plain` is set.
pub open spec fn spans_for(m: TuipeModel, k: int, plain: bool) -> Option<Seq<SpanModel>> {
    if plain {
        plain_word_spans(m, k)
    } else {
        word_spans(m, k)
    }
}

/// The state of the line breaking after some words.
pub struct LayoutState {
    pub lines: Seq<Seq<SpanModel>>,
    pub current: Seq<SpanModel>,
    pub current_width: u16,
    pub cursor_row: u16,
    pub cursor_col: u16,
    pub cursor_found: bool,
}

/// The single space drawn after each word.
pub open spec fn space_span() -> SpanModel {
    SpanModel { text: seq![' '], color: Color::Reset }
}

/// Places word `k` into the lines of at most `width` columns: a word that
/// does not fit with its space after it starts a new line, and the cursor is
/// placed in the word being typed. Without `plain`, only the line just
/// before the cursor's line is kept while the cursor has not been placed;
/// with `plain` every line is kept and the plain colouring is used. `None`
/// where a width does not fit its integer type.
pub open spec fn layout_step(m: TuipeModel, width: u16, st: LayoutState, k: int, plain: bool) -> Option<
    LayoutState,
> {
    match spans_for(m, k, plain) {
        None => None,
        Some(spans) => {
            let lw = spans_width(spans);
            let ww = (lw as usize) as u16;
            if lw > usize::MAX {
                None
            } else if st.current_width > 0 && st.current_width + ww + 1 > u16::MAX {
                None
            } else {
                let st1 = if st.current_width > 0 && st.current_width + ww + 1 > width {
                    LayoutState {
                        lines: if st.cursor_found || plain {
                            st.lines.push(st.current)
                        } else {
                            seq![st.current]
                        },
                        current: Seq::empty(),
                        current_width: 0,
                        ..st
                    }
                } else {
                    st
                };
                let at_cursor = !st1.cursor_found && k == m.word_index;
                let wlen = m.words[k].len();
                let ci = m.character_index;
                let tc = if ci < wlen {
                    ci as int
                } else {
                    wlen as int
                };
                let pw = prefix_width_u16(spans, tc);
                let col_in = if ci + 1 > wlen {
                    ww as int
                } else {
                    pw
                };
                if at_cursor && (pw > u16::MAX || ci == usize::MAX || st1.current_width + col_in
                    > u16::MAX) {
                    None
                } else {
                    let st2 = if at_cursor {
                        LayoutState {
                            cursor_row: st1.lines.len() as u16,
                            cursor_col: (st1.current_width + col_in) as u16,
                            cursor_found: true,
                            ..st1
                        }
                    } else {
                        st1
                    };
                    if st2.current_width + ww + 1 > u16::MAX {
                        None
                    } else {
                        Some(
                            LayoutState {
                                current: st2.current + spans + seq![space_span()],
                                current_width: (st2.current_width + ww + 1) as u16,
                                ..st2
                            },
                        )
                    }
                }
            }
        },
    }
}

/// The line breaking state after the first `k` words.
pub open spec fn layout_prefix(m: TuipeModel, width: u16, k: int, plain: bool) -> Option<LayoutState>
    decreases k,
{
    if k <= 0 {
        Some(
            LayoutState {
                lines: Seq::empty(),
                current: Seq::empty(),
                current_width: 0,
                cursor_row: 0,
                cursor_col: 0,
                cursor_found: false,
            },
        )
    } else {
        match layout_prefix(m, width, k - 1, plain) {
            None => None,
            Some(st) => layout_step(m, width, st, k - 1, plain),
        }
    }
}

/// The lines and the cursor position (row, column) after all words: the
/// last line is closed, and a cursor never placed goes to the end of it.
pub open spec fn full_layout(m: TuipeModel, width: u16, plain: bool) -> Option<
    (Seq<Seq<SpanModel>>, (u16, u16)),
> {
    match layout_prefix(m, width, m.words.len() as int, plain) {
        None => None,
        Some(st) => {
            let lines = st.lines.push(st.current);
            if st.cursor_found {
                Some((lines, (st.cursor_row, st.cursor_col)))
            } else if spans_width(st.current) > usize::MAX {
                None
            } else {
                Some((lines, ((lines.len() - 1) as u16, (spans_width(st.current) as usize) as u16)))
            }
        }
    }
}

/// The lines of the typing screen and the cursor position (row, column).
pub open spec fn test_layout(m: TuipeModel, width: u16) -> Option<(Seq<Seq<SpanModel>>, (u16, u16))> {
    full_layout(m, width, false)
}

/// The lines and cursor position of the plain typing screen, which keeps
/// every line and uses the plain colouring.
pub open spec fn plain_layout(m: TuipeModel, width: u16) -> Option<(Seq<Seq<SpanModel>>, (u16, u16))> {
    full_layout(m, width, true)
}

/// The first `k` words in the plain colouring on one line, each followed by
/// a space.
pub open spec fn plain_line_prefix(m: TuipeModel, k: int) -> Option<Seq<SpanModel>>
    decreases k,
{
    if k <= 0 {
        Some(Seq::empty())
    } else {
        match plain_line_prefix(m, k - 1) {
            None => None,
            Some(line) => match plain_word_spans(m, k - 1) {
                None => None,
                Some(spans) => Some(line + spans + seq![space_span()]),
            },
        }
    }
}

proof fn lemma_plain_line_none_stays(m: TuipeModel, k: int, n: int)
    requires
        0 <= k <= n,
        plain_line_prefix(m, k) is None,
    ensures
        plain_line_prefix(m, n) is None,
    decreases n - k,
{
    if k < n {
        assert(plain_line_prefix(m, k + 1) is None);
        lemma_plain_line_none_stays(m, k + 1, n);
    }
}

/// A span of the given text and colour.
pub(crate) fn span(text: String, color: Color) -> (r: StyledSpan)
    ensures
        r.text@ == text@,
        r.color == color,
{
    StyledSpan { text, color }
}

/// The sum of the widths of `spans`, `None` when it does not fit a `usize`.
fn line_width(spans: &Vec<StyledSpan>) -> (r: Option<usize>)
    ensures
        match r {
            None => spans_width(spans_view(spans@)) > usize::MAX,
            Some(w) => w == spans_width(spans_view(spans@)),
        },
{
    let mut total: usize = 0;
    let mut i: usize = 0;
    while i < spans.len()
        invariant
            i <= spans.len(),
            total == spans_width(spans_view(spans@).take(i as int)),
        decreases spans.len() - i,
    {
        assert(spans_view(spans@).take(i + 1).drop_last() =~= spans_view(spans@).take(i as int));
        let w = text_width(spans[i].text.as_str());
        match total.checked_add(w) {
            None => {
                proof {
                    lemma_spans_width_monotone(spans_view(spans@), i + 1);
                }
                return None;
            },
            Some(t) => total = t,
        }
        i = i + 1;
    }
    assert(spans_view(spans@).take(spans.len() as int) =~= spans_view(spans@));
    Some(total)
}

/// The width of a prefix of spans never exceeds the width of all of them.
proof fn lemma_spans_width_monotone(spans: Seq<SpanModel>, k: int)
    requires
        0 <= k <= spans.len(),
    ensures
        spans_width(spans.take(k)) <= spans_width(spans),
    decreases spans.len(),
{
    if k < spans.len() {
        assert(spans.drop_last().take(k) =~= spans.take(k));
        lemma_spans_width_monotone(spans.drop_last(), k);
    } else {
        assert(spans.take(k) =~= spans);
    }
}

impl Tuipe {
    /// The spans of word `k`, `None` where the extra typed text would have to
    /// start inside a character.
    fn spans_for(&self, k: usize, plain: bool) -> (r: Option<Vec<StyledSpan>>)
        requires
            self@.wf(),
            k < self@.words.len(),
        ensures
            match r {
                None => spans_for(self@, k as int, plain) is None,
                Some(v) => spans_for(self@, k as int, plain) == Some(spans_view(v@)),
            },
    {
        let ghost m = self@;
        let words = self.words();
        let input = self.input();
        let wi = self.word_index();
        let ci = self.character_index();
        assert(words@[k as int]@ == m.words[k as int]);
        let word = &words[k];
        let mut out: Vec<StyledSpan> = Vec::new();
        if k > wi {
            out.push(span(word.clone(), Color::DarkGray));
            assert(spans_view(out@) =~= seq![SpanModel { text: m.words[k as int], color: Color::DarkGray }]);
            return Some(out);
        }
        assert(input@[k as int]@ == m.input[k as int]);
        let typed = &input[k];
        if !plain && k < wi && *typed == *word {
            out.push(span(word.clone(), Color::Reset));
            assert(spans_view(out@) =~= seq![SpanModel { text: m.words[k as int], color: Color::Reset }]);
            return Some(out);
        }
        let wlen = word.as_str().unicode_len();
        let ghost chars = Seq::new(
            m.words[k as int].len(),
            |j: int|
                SpanModel {
                    text: seq![m.words[k as int][j]],
                    color: if plain {
                        plain_char_color(m, k as int, j)
                    } else {
                        char_color(m, k as int, j)
                    },
                },
        );
        let mut j: usize = 0;
        while j < wlen
            invariant
                m == self@,
                words@[k as int]@ == m.words[k as int],
                input@[k as int]@ == m.input[k as int],
                *word == words@[k as int],
                *typed == input@[k as int],
                wlen == m.words[k as int].len(),
                j <= wlen,
                wi == m.word_index,
                ci == m.character_index,
                spans_view(out@) =~= chars.take(j as int),
                chars.len() == wlen,
                forall|i: int|
                    0 <= i < wlen ==> #[trigger] chars[i] == (SpanModel {
                        text: seq![m.words[k as int][i]],
                        color: if plain {
                            plain_char_color(m, k as int, i)
                        } else {
                            char_color(m, k as int, i)
                        },
                    }),
            decreases wlen - j,
        {
            let c = word.as_str().get_char(j);
            let color = if plain {
                if wi > k || ci >= j {
                    match nth_char(typed, j) {
                        Some(x) => if x == c {
                            Color::Reset
                        } else {
                            Color::Red
                        },
                        None => Color::Red,
                    }
                } else {
                    Color::DarkGray
                }
            } else if wi > k || ci > j {
                match nth_char(typed, j) {
                    None => Color::DarkGray,
                    Some(x) => if x == c {
                        Color::Reset
                    } else {
                        Color::Red
                    },
                }
            } else {
                Color::DarkGray
            };
            let mut text = String::new();
            push_char(&mut text, c);
            let ghost before = spans_view(out@);
            out.push(span(text, color));
            assert(spans_view(out@) =~= before.push(SpanModel { text: seq![c], color: color }));
            assert(chars.take(j + 1) =~= chars.take(j as int).push(chars[j as int]));
            assert(color == (if plain {
                plain_char_color(m, k as int, j as int)
            } else {
                char_color(m, k as int, j as int)
            }));
            j = j + 1;
        }
        let tb = string_byte_len(typed);
        let wb = string_byte_len(word);
        if tb > wb {
            let ts = typed.as_str();
            if !ts.is_char_boundary(wb) {
                return None;
            }
            let (_, rest) = ts.split_at(wb);
            proof {
                encode_utf8_decode_utf8(rest@);
            }
            let ghost before = spans_view(out@);
            assert(before =~= chars);
            assert(rest@ == extra_text(m, k as int));
            out.push(span(to_string(rest), Color::Red));
            assert(spans_view(out@) =~= before.push(SpanModel { text: rest@, color: Color::Red }));
        } else {
            assert(spans_view(out@) =~= chars);
        }
        Some(out)
    }

    /// Places word `k` into the lines under construction.
    #[verifier::loop_isolation(false)]
    fn place_word(&self, width: u16, k: usize, st: Layout, plain: bool) -> (r: Option<Layout>)
        requires
            self@.wf(),
            k < self@.words.len(),
        ensures
            match r {
                None => layout_step(self@, width, st.model(), k as int, plain) is None,
                Some(s) => layout_step(self@, width, st.model(), k as int, plain) == Some(s.model()),
            },
    {
        let ghost m = self@;
        let ghost st0 = st.model();
        let spans = match self.spans_for(k, plain) {
            None => return None,
            Some(s) => s,
        };
        let ghost sv = spans_view(spans@);
        let lw = match line_width(&spans) {
            None => return None,
            Some(w) => w,
        };
        let ww = lw as u16;
        let needed: u32 = st.current_width as u32 + ww as u32 + 1;
        if st.current_width > 0 && needed > 65535 {
            return None;
        }
        let mut st = st;
        if st.current_width > 0 && needed > width as u32 {
            let new_line = st.current;
            st.current = Vec::new();
            if st.cursor_found || plain {
                let ghost before = lines_view(st.lines@);
                st.lines.push(new_line);
                assert(lines_view(st.lines@) =~= before.push(spans_view(new_line@)));
            } else {
                st.lines = Vec::new();
                st.lines.push(new_line);
                assert(lines_view(st.lines@) =~= seq![spans_view(new_line@)]);
            }
            st.current_width = 0;
            assert(spans_view(st.current@) =~= Seq::<SpanModel>::empty());
        }
        let ghost st1 = st.model();
        assert(st1 == (if st0.current_width > 0 && st0.current_width + ww + 1 > width {
            LayoutState {
                lines: if st0.cursor_found || plain {
                    st0.lines.push(st0.current)
                } else {
                    seq![st0.current]
                },
                current: Seq::empty(),
                current_width: 0,
                ..st0
            }
        } else {
            st0
        }));
        let wi = self.word_index();
        if !st.cursor_found && k == wi {
            let ci = self.character_index();
            let words = self.words();
            assert(words@[k as int]@ == m.words[k as int]);
            let word_len = words[k].as_str().unicode_len();
            assert(sv.len() >= word_len);
            let target_char = if ci < word_len {
                ci
            } else {
                word_len
            };
            let mut col_in_word: u16 = 0;
            let mut t: usize = 0;
            while t < target_char
                invariant
                    t <= target_char,
                    target_char <= spans@.len(),
                    sv == spans_view(spans@),
                    col_in_word == prefix_width_u16(sv, t as int),
                decreases target_char - t,
            {
                let w = text_width(spans[t].text.as_str()) as u16;
                match col_in_word.checked_add(w) {
                    None => {
                        proof {
                            lemma_prefix_width_monotone(sv, t + 1, target_char as int);
                        }
                        return None;
                    },
                    Some(c) => col_in_word = c,
                }
                t = t + 1;
            }
            if ci == usize::MAX {
                return None;
            }
            if ci + 1 > word_len {
                col_in_word = ww;
            }
            match st.current_width.checked_add(col_in_word) {
                None => return None,
                Some(c) => st.cursor_col = c,
            }
            st.cursor_row = st.lines.len() as u16;
            st.cursor_found = true;
        }
        let total: u32 = st.current_width as u32 + ww as u32 + 1;
        if total > 65535 {
            return None;
        }
        let ghost before = spans_view(st.current@);
        let mut spans = spans;
        st.current.append(&mut spans);
        let mut space = String::new();
        push_char(&mut space, ' ');
        st.current.push(span(space, Color::Reset));
        assert(spans_view(st.current@) =~= before + sv + seq![space_span()]);
        st.current_width = total as u16;
        Some(st)
    }

    /// The lines of the typing screen, at most `width` columns wide, and the
    /// cursor position (row, column); `None` where a width or position does
    /// not fit its integer type, or the typed text past the end of a word
    /// would have to start inside a character.
    pub fn create_test_lines(&self, width: u16) -> (r: Option<(Vec<Vec<StyledSpan>>, (u16, u16))>)
        requires
            self@.wf(),
        ensures
            match r {
                None => test_layout(self@, width) is None,
                Some(v) => test_layout(self@, width) == Some((lines_view(v.0@), v.1)),
            },
    {
        self.lay_out(width, false)
    }

    /// The plain typing screen at time `now`: when the input equals the
    /// words, the test is finished first, with its statistics taken at
    /// `now`. Then the lines, at most `width` columns wide, keeping every
    /// line and using the plain colouring, and the cursor position (row,
    /// column); `None` as for `create_test_lines`. The layout does not depend
    /// on the screen or the statistics, so it is stated of the state before
    /// the call.
    pub fn create_render_lines(&mut self, width: u16, now: u128) -> (r: Option<(Vec<Vec<StyledSpan>>, (u16, u16))>)
        requires
            old(self)@.wf(),
            old(self)@.words == old(self)@.input ==> now >= old(self)@.test.start_time,
        ensures
            final(self)@ == old(self)@.render_end_step(now),
            final(self)@.wf(),
            match r {
                None => plain_layout(old(self)@, width) is None,
                Some(v) => plain_layout(old(self)@, width) == Some((lines_view(v.0@), v.1)),
            },
    {
        let ghost before = self@;
        self.end_if_all_typed(now);
        proof {
            lemma_layout_ignores_screen(before, self@, width, true);
        }
        self.lay_out(width, true)
    }

    /// All words on one line at time `now`: when the input equals the words,
    /// the test is finished first, with its statistics taken at `now`. Then
    /// every word in the plain colouring, each followed by a space; `None`
    /// where the typed text past the end of a word would have to start
    /// inside a character.
    pub fn create_render_string(&mut self, now: u128) -> (r: Option<Vec<StyledSpan>>)
        requires
            old(self)@.wf(),
            old(self)@.words == old(self)@.input ==> now >= old(self)@.test.start_time,
        ensures
            final(self)@ == old(self)@.render_end_step(now),
            final(self)@.wf(),
            match r {
                None => plain_line_prefix(old(self)@, old(self)@.words.len() as int) is None,
                Some(v) => plain_line_prefix(old(self)@, old(self)@.words.len() as int) == Some(
                    spans_view(v@),
                ),
            },
    {
        let ghost before = self@;
        self.end_if_all_typed(now);
        proof {
            lemma_layout_ignores_screen(before, self@, 0, true);
        }
        self.render_string()
    }

    /// Every word on one line in the plain colouring, each followed by a
    /// space.
    fn render_string(&self) -> (r: Option<Vec<StyledSpan>>)
        requires
            self@.wf(),
        ensures
            match r {
                None => plain_line_prefix(self@, self@.words.len() as int) is None,
                Some(v) => plain_line_prefix(self@, self@.words.len() as int) == Some(spans_view(v@)),
            },
    {
        let ghost m = self@;
        let n = self.words().len();
        let mut out: Vec<StyledSpan> = Vec::new();
        let mut k: usize = 0;
        while k < n
            invariant
                m == self@,
                m.wf(),
                n == m.words.len(),
                k <= n,
                plain_line_prefix(m, k as int) == Some(spans_view(out@)),
            decreases n - k,
        {
            let spans = match self.spans_for(k, true) {
                None => {
                    proof {
                        assert(plain_line_prefix(m, k + 1) is None);
                        lemma_plain_line_none_stays(m, (k + 1) as int, n as int);
                    }
                    return None;
                },
                Some(sp) => sp,
            };
            let ghost before = spans_view(out@);
            let ghost sv = spans_view(spans@);
            let mut spans = spans;
            out.append(&mut spans);
            let mut space = String::new();
            push_char(&mut space, ' ');
            out.push(span(space, Color::Reset));
            assert(spans_view(out@) =~= before + sv + seq![space_span()]);
            k = k + 1;
        }
        Some(out)
    }

    /// The lines after all words, and the cursor position.
    fn lay_out(&self, width: u16, plain: bool) -> (r: Option<(Vec<Vec<StyledSpan>>, (u16, u16))>)
        requires
            self@.wf(),
        ensures
            match r {
                None => full_layout(self@, width, plain) is None,
                Some(v) => full_layout(self@, width, plain) == Some((lines_view(v.0@), v.1)),
            },
    {
        let ghost m = self@;
        let n = self.words().len();
        let mut st = Layout {
            lines: Vec::new(),
            current: Vec::new(),
            current_width: 0,
            cursor_row: 0,
            cursor_col: 0,
            cursor_found: false,
        };
        assert(st.model() == layout_prefix(m, width, 0, plain).unwrap()) by {
            assert(lines_view(st.lines@) =~= Seq::<Seq<SpanModel>>::empty());
            assert(spans_view(st.current@) =~= Seq::<SpanModel>::empty());
        }
        let mut k: usize = 0;
        while k < n
            invariant
                m == self@,
                m.wf(),
                n == m.words.len(),
                k <= n,
                layout_prefix(m, width, k as int, plain) == Some(st.model()),
            decreases n - k,
        {
            match self.place_word(width, k, st, plain) {
                None => {
                    proof {
                        assert(layout_prefix(m, width, k + 1, plain) is None);
                        lemma_layout_none_stays(m, width, (k + 1) as int, n as int, plain);
                    }
                    return None;
                },
                Some(next) => st = next,
            }
            k = k + 1;
        }
        let ghost fin = st.model();
        let last_width_opt = line_width(&st.current);
        let mut lines = st.lines;
        let ghost before = lines_view(lines@);
        lines.push(st.current);
        assert(lines_view(lines@) =~= before.push(fin.current));
        if st.cursor_found {
            Some((lines, (st.cursor_row, st.cursor_col)))
        } else {
            match last_width_opt {
                None => None,
                Some(w) => {
                    let last_row = (lines.len() - 1) as u16;
                    Some((lines, (last_row, w as u16)))
                },
            }
        }
    }
}

/// The spans of a word do not depend on the screen shown or the statistics.
proof fn lemma_spans_ignore_screen(m: TuipeModel, n: TuipeModel, k: int, plain: bool)
    requires
        n == (TuipeModel { stats: n.stats, state: n.state, ..m }),
    ensures
        spans_for(n, k, plain) == spans_for(m, k, plain),
{
    let word = m.words[k];
    assert(Seq::new(word.len(), |j: int| SpanModel { text: seq![word[j]], color: char_color(n, k, j) })
        =~= Seq::new(word.len(), |j: int| SpanModel { text: seq![word[j]], color: char_color(m, k, j) }));
    assert(Seq::new(
        word.len(),
        |j: int| SpanModel { text: seq![word[j]], color: plain_char_color(n, k, j) },
    ) =~= Seq::new(
        word.len(),
        |j: int| SpanModel { text: seq![word[j]], color: plain_char_color(m, k, j) },
    ));
}

proof fn lemma_step_ignores_screen(m: TuipeModel, n: TuipeModel, width: u16, st: LayoutState, k: int, plain: bool)
    requires
        n.words == m.words,
        n.word_index == m.word_index,
        n.character_index == m.character_index,
        spans_for(n, k, plain) == spans_for(m, k, plain),
    ensures
        layout_step(n, width, st, k, plain) == layout_step(m, width, st, k, plain),
{
}

proof fn lemma_layout_prefix_ignores_screen(m: TuipeModel, n: TuipeModel, width: u16, k: int, plain: bool)
    requires
        n == (TuipeModel { stats: n.stats, state: n.state, ..m }),
    ensures
        layout_prefix(n, width, k, plain) == layout_prefix(m, width, k, plain),
    decreases k,
{
    if k > 0 {
        lemma_layout_prefix_ignores_screen(m, n, width, k - 1, plain);
        lemma_spans_ignore_screen(m, n, k - 1, plain);
        match layout_prefix(m, width, k - 1, plain) {
            None => {},
            Some(st) => lemma_step_ignores_screen(m, n, width, st, k - 1, plain),
        }
    }
}

proof fn lemma_line_prefix_ignores_screen(m: TuipeModel, n: TuipeModel, k: int)
    requires
        n == (TuipeModel { stats: n.stats, state: n.state, ..m }),
    ensures
        plain_line_prefix(n, k) == plain_line_prefix(m, k),
    decreases k,
{
    if k > 0 {
        lemma_line_prefix_ignores_screen(m, n, k - 1);
        lemma_spans_ignore_screen(m, n, k - 1, true);
    }
}

/// The lines of the typing screen, plain or not, and the plain single line
/// do not depend on the screen shown or on the statistics.
pub proof fn lemma_layout_ignores_screen(m: TuipeModel, n: TuipeModel, width: u16, plain: bool)
    requires
        n == (TuipeModel { stats: n.stats, state: n.state, ..m }),
    ensures
        full_layout(n, width, plain) == full_layout(m, width, plain),
        plain_line_prefix(n, n.words.len() as int) == plain_line_prefix(m, m.words.len() as int),
{
    lemma_layout_prefix_ignores_screen(m, n, width, m.words.len() as int, plain);
    lemma_line_prefix_ignores_screen(m, n, m.words.len() as int);
}

/// Once a width overflows, the line breaking stays failed for every later
/// word.
proof fn lemma_layout_none_stays(m: TuipeModel, width: u16, k: int, n: int, plain: bool)
    requires
        0 <= k <= n,
        layout_prefix(m, width, k, plain) is None,
    ensures
        layout_prefix(m, width, n, plain) is None,
    decreases n - k,
{
    if k < n {
        assert(layout_prefix(m, width, k + 1, plain) is None);
        lemma_layout_none_stays(m, width, k + 1, n, plain);
    }
}

/// The lines under construction.
struct Layout {
    lines: Vec<Vec<StyledSpan>>,
    current: Vec<StyledSpan>,
    current_width: u16,
    cursor_row: u16,
    cursor_col: u16,
    cursor_found: bool,
}

impl Layout {
    spec fn model(&self) -> LayoutState {
        LayoutState {
            lines: lines_view(self.lines@),
            current: spans_view(self.current@),
            current_width: self.current_width,
            cursor_row: self.cursor_row,
            cursor_col: self.cursor_col,
            cursor_found: self.cursor_found,
        }
    }
}

/// Partial sums of the `u16` widths grow with the prefix.
proof fn lemma_prefix_width_monotone(spans: Seq<SpanModel>, a: int, b: int)
    requires
        0 <= a <= b,
    ensures
        prefix_width_u16(spans, a) <= prefix_width_u16(spans, b),
    decreases b,
{
    if a < b {
        lemma_prefix_width_monotone(spans, a, b - 1);
    }
}


/// Where the terminal cursor goes on the typing screen: the lines are
/// centred in an area of `text_width` columns whose text starts one column
/// right of `area_x`, so the cursor's line is shifted right by half the free
/// space. `None` where a width or position does not fit its integer type.
pub open spec fn test_cursor_position(
    lines: Seq<Seq<SpanModel>>,
    row: u16,
    col: u16,
    text_width: u16,
    area_x: u16,
    area_y: u16,
) -> Option<(u16, u16)> {
    let lw = if row < lines.len() {
        spans_width(lines[row as int])
    } else {
        0
    };
    let line_width = (lw as usize) as u16;
    let half = text_width / 2;
    let offset = if half >= line_width / 2 {
        half - line_width / 2
    } else {
        0
    };
    if lw > usize::MAX || area_x + 1 + offset + col > u16::MAX || area_y + row > u16::MAX {
        None
    } else {
        Some(((area_x + 1 + offset + col) as u16, (area_y + row) as u16))
    }
}

/// Where the terminal cursor goes on the typing screen.
pub fn test_cursor(
    lines: &Vec<Vec<StyledSpan>>,
    row: u16,
    col: u16,
    text_width: u16,
    area_x: u16,
    area_y: u16,
) -> (r: Option<(u16, u16)>)
    ensures
        r == test_cursor_position(lines_view(lines@), row, col, text_width, area_x, area_y),
{
    let lw: usize = if (row as usize) < lines.len() {
        match line_width(&lines[row as usize]) {
            None => return None,
            Some(w) => w,
        }
    } else {
        0
    };
    let line_w = lw as u16;
    let offset = (text_width / 2).saturating_sub(line_w / 2);
    let x: u32 = area_x as u32 + 1 + offset as u32 + col as u32;
    let y: u32 = area_y as u32 + row as u32;
    if x > 65535 || y > 65535 {
        None
    } else {
        Some((x as u16, y as u16))
    }
}


/// Once placed, the cursor's row is a line already closed or the line
/// being filled, as long as the row count fits a `u16`.
pub open spec fn cursor_in_lines(st: LayoutState) -> bool {
    st.cursor_found && st.lines.len() <= u16::MAX ==> st.cursor_row <= st.lines.len()
}

proof fn lemma_cursor_in_lines_prefix(m: TuipeModel, width: u16, k: int, plain: bool)
    requires
        0 <= k,
        layout_prefix(m, width, k, plain) is Some,
    ensures
        cursor_in_lines(layout_prefix(m, width, k, plain).unwrap()),
    decreases k,
{
    if k > 0 {
        lemma_cursor_in_lines_prefix(m, width, k - 1, plain);
    }
}

/// The cursor always lies on one of the lines returned, whenever their
/// number fits a `u16`.
pub proof fn lemma_cursor_on_a_line(m: TuipeModel, width: u16, plain: bool)
    requires
        full_layout(m, width, plain) is Some,
        full_layout(m, width, plain).unwrap().0.len() <= u16::MAX,
    ensures
        (full_layout(m, width, plain).unwrap().1.0 as int) < full_layout(m, width, plain).unwrap().0.len(),
{
    lemma_cursor_in_lines_prefix(m, width, m.words.len() as int, plain);
}

/// The text of a list of spans, one after the other.
pub open spec fn spans_text(spans: Seq<SpanModel>) -> Seq<char>
    decreases spans.len(),
{
    if spans.len() == 0 {
        Seq::empty()
    } else {
        spans_text(spans.drop_last()) + spans.last().text
    }
}

/// The text shown for word `k` on the plain line: the word, followed, once
/// the typist has reached it, by what was typed past its end.
pub open spec fn rendered_word_text(m: TuipeModel, k: int) -> Seq<char> {
    let word = m.words[k];
    if k <= m.word_index && byte_len(m.input[k]) > byte_len(word) {
        word + extra_text(m, k)
    } else {
        word
    }
}

/// The text of the first `k` words on the plain line, each followed by a
/// space.
pub open spec fn rendered_text(m: TuipeModel, k: int) -> Seq<char>
    decreases k,
{
    if k <= 0 {
        Seq::empty()
    } else {
        rendered_text(m, k - 1) + rendered_word_text(m, k - 1) + seq![' ']
    }
}

proof fn lemma_spans_text_concat(a: Seq<SpanModel>, b: Seq<SpanModel>)
    ensures
        spans_text(a + b) == spans_text(a) + spans_text(b),
    decreases b.len(),
{
    if b.len() == 0 {
        assert(a + b =~= a);
        assert(spans_text(a) + spans_text(b) =~= spans_text(a));
    } else {
        lemma_spans_text_concat(a, b.drop_last());
        assert((a + b).drop_last() =~= a + b.drop_last());
        assert(spans_text(a) + spans_text(b.drop_last()) + b.last().text =~= spans_text(a) + (
        spans_text(b.drop_last()) + b.last().text));
    }
}

/// One span per character of word `k`, in the plain colouring, spell the
/// first `n` characters of the word.
proof fn lemma_char_spans_text(m: TuipeModel, k: int, n: int)
    requires
        0 <= n <= m.words[k].len(),
    ensures
        spans_text(
            Seq::new(
                m.words[k].len(),
                |j: int| SpanModel { text: seq![m.words[k][j]], color: plain_char_color(m, k, j) },
            ).take(n),
        ) == m.words[k].take(n),
    decreases n,
{
    let word = m.words[k];
    let chars = Seq::new(
        word.len(),
        |j: int| SpanModel { text: seq![word[j]], color: plain_char_color(m, k, j) },
    );
    if n == 0 {
        assert(chars.take(0) =~= Seq::<SpanModel>::empty());
        assert(word.take(0) =~= Seq::<char>::empty());
    } else {
        lemma_char_spans_text(m, k, n - 1);
        assert(chars.take(n).drop_last() =~= chars.take(n - 1));
        assert(word.take(n - 1) + seq![word[n - 1]] =~= word.take(n));
    }
}

proof fn lemma_word_text(m: TuipeModel, k: int)
    requires
        plain_word_spans(m, k) is Some,
    ensures
        spans_text(plain_word_spans(m, k).unwrap()) == rendered_word_text(m, k),
{
    let word = m.words[k];
    let sp = plain_word_spans(m, k).unwrap();
    if k > m.word_index {
        assert(sp.drop_last() =~= Seq::<SpanModel>::empty());
        assert(spans_text(sp.drop_last()) == Seq::<char>::empty());
        assert(Seq::<char>::empty() + word =~= word);
        assert(spans_text(sp) == word);
    } else {
        let chars = Seq::new(
            word.len(),
            |j: int| SpanModel { text: seq![word[j]], color: plain_char_color(m, k, j) },
        );
        lemma_char_spans_text(m, k, word.len() as int);
        assert(chars.take(word.len() as int) =~= chars);
        assert(word.take(word.len() as int) =~= word);
        assert(spans_text(chars) == word);
        if byte_len(m.input[k]) > byte_len(word) {
            if is_char_boundary(encode_utf8(m.input[k]), byte_len(word) as int) {
                assert(sp == chars.push(SpanModel { text: extra_text(m, k), color: Color::Red }));
                assert(sp.drop_last() =~= chars);
                assert(spans_text(sp) == word + extra_text(m, k));
            }
        } else {
            assert(sp == chars);
        }
    }
}

/// The single plain line holds, for each word in order, the word, then what
/// was typed past its end (once the typist has reached it), then a space.
pub proof fn lemma_render_text(m: TuipeModel, k: int)
    requires
        0 <= k,
        plain_line_prefix(m, k) is Some,
    ensures
        spans_text(plain_line_prefix(m, k).unwrap()) == rendered_text(m, k),
    decreases k,
{
    if k > 0 {
        lemma_render_text(m, k - 1);
        let line = plain_line_prefix(m, k - 1).unwrap();
        let spans = plain_word_spans(m, k - 1).unwrap();
        lemma_word_text(m, k - 1);
        lemma_spans_text_concat(line, spans);
        lemma_spans_text_concat(line + spans, seq![space_span()]);
        let one = seq![space_span()];
        assert(one.drop_last() =~= Seq::<SpanModel>::empty());
        assert(spans_text(one.drop_last()) == Seq::<char>::empty());
        assert(spans_text(one) =~= seq![' ']);
    } else {
        assert(plain_line_prefix(m, k).unwrap() =~= Seq::<SpanModel>::empty());
    }
}

/// The spans of word `k` followed by its space.
pub open spec fn word_line(m: TuipeModel, k: int, plain: bool) -> Seq<SpanModel> {
    spans_for(m, k, plain).unwrap() + seq![space_span()]
}

/// The columns word `k` takes, as measured by the terminal library.
pub open spec fn word_width(m: TuipeModel, k: int, plain: bool) -> int {
    spans_width(spans_for(m, k, plain).unwrap())
}

/// The line holds a single word with its space.
pub open spec fn one_word_line(m: TuipeModel, plain: bool, line: Seq<SpanModel>) -> bool {
    exists|j: int|
        0 <= j < m.words.len() && spans_for(m, j, plain) is Some && line == #[trigger] word_line(
            m,
            j,
            plain,
        )
}

/// Line `next` starts with a word which, with its space, would not have
/// fitted after line `before` in `width` columns.
pub open spec fn cut_before(
    m: TuipeModel,
    plain: bool,
    width: u16,
    before: Seq<SpanModel>,
    next: Seq<SpanModel>,
) -> bool {
    exists|j: int|
        0 <= j < m.words.len() && spans_for(m, j, plain) is Some && next.len() >= word_line(
            m,
            j,
            plain,
        ).len() && next.take(word_line(m, j, plain).len() as int) == #[trigger] word_line(m, j, plain)
            && spans_width(before) + word_width(m, j, plain) + 1 > width
}

/// A space takes one column, and every word's width fits a `u16`.
pub open spec fn widths_measured(m: TuipeModel, plain: bool) -> bool {
    &&& span_width(seq![' ']) == 1
    &&& forall|j: int|
        0 <= j < m.words.len() && spans_for(m, j, plain) is Some ==> #[trigger] word_width(m, j, plain)
            <= u16::MAX
}

/// What the line breaking keeps true after each word.
pub open spec fn wrap_inv(m: TuipeModel, width: u16, plain: bool, st: LayoutState) -> bool {
    &&& st.current_width == spans_width(st.current)
    &&& st.current_width == 0 ==> st.current == Seq::<SpanModel>::empty()
    &&& spans_width(st.current) <= width || one_word_line(m, plain, st.current)
    &&& forall|i: int|
        0 <= i < st.lines.len() ==> spans_width(#[trigger] st.lines[i]) <= width || one_word_line(
            m,
            plain,
            st.lines[i],
        )
    &&& forall|i: int|
        0 <= i < st.lines.len() ==> cut_before(
            m,
            plain,
            width,
            #[trigger] st.lines[i],
            if i + 1 < st.lines.len() {
                st.lines[i + 1]
            } else {
                st.current
            },
        )
}

proof fn lemma_spans_width_concat(a: Seq<SpanModel>, b: Seq<SpanModel>)
    ensures
        spans_width(a + b) == spans_width(a) + spans_width(b),
    decreases b.len(),
{
    if b.len() == 0 {
        assert(a + b =~= a);
    } else {
        lemma_spans_width_concat(a, b.drop_last());
        assert((a + b).drop_last() =~= a + b.drop_last());
    }
}

proof fn lemma_spans_width_nonneg(a: Seq<SpanModel>)
    ensures
        spans_width(a) >= 0,
    decreases a.len(),
{
    if a.len() > 0 {
        lemma_spans_width_nonneg(a.drop_last());
    }
}

proof fn lemma_wrap_step(m: TuipeModel, width: u16, plain: bool, st: LayoutState, k: int)
    requires
        0 <= k < m.words.len(),
        widths_measured(m, plain),
        wrap_inv(m, width, plain, st),
        layout_step(m, width, st, k, plain) is Some,
    ensures
        wrap_inv(m, width, plain, layout_step(m, width, st, k, plain).unwrap()),
{
    let nx = layout_step(m, width, st, k, plain).unwrap();
    let spans = spans_for(m, k, plain).unwrap();
    let lw = spans_width(spans);
    assert(word_width(m, k, plain) == lw);
    lemma_spans_width_nonneg(spans);
    let ww = (lw as usize) as u16;
    assert(ww == lw);
    let wl = word_line(m, k, plain);
    let one = seq![space_span()];
    assert(one.drop_last() =~= Seq::<SpanModel>::empty());
    assert(spans_width(one.drop_last()) == 0);
    assert(one.last().text == seq![' ']);
    assert(spans_width(one) == 1);
    lemma_spans_width_concat(spans, one);
    assert(spans_width(wl) == lw + 1);
    assert(wl.take(wl.len() as int) =~= wl);
    if st.current_width > 0 && st.current_width + ww + 1 > width {
        // The line is closed and the word starts the next one.
        assert(nx.current =~= Seq::<SpanModel>::empty() + spans + one);
        assert(nx.current =~= wl);
        assert(one_word_line(m, plain, nx.current));
        assert(cut_before(m, plain, width, st.current, nx.current));
        let closed = if st.cursor_found || plain {
            st.lines.push(st.current)
        } else {
            seq![st.current]
        };
        assert(nx.lines == closed);
        assert forall|i: int| 0 <= i < nx.lines.len() implies spans_width(#[trigger] nx.lines[i])
            <= width || one_word_line(m, plain, nx.lines[i]) by {
            if st.cursor_found || plain {
                if i < st.lines.len() {
                    assert(nx.lines[i] == st.lines[i]);
                }
            }
        }
        assert forall|i: int| 0 <= i < nx.lines.len() implies cut_before(
            m,
            plain,
            width,
            #[trigger] nx.lines[i],
            if i + 1 < nx.lines.len() {
                nx.lines[i + 1]
            } else {
                nx.current
            },
        ) by {
            if st.cursor_found || plain {
                if i < st.lines.len() {
                    assert(nx.lines[i] == st.lines[i]);
                    if i + 1 < st.lines.len() {
                        assert(nx.lines[i + 1] == st.lines[i + 1]);
                    } else {
                        assert(nx.lines[i + 1] == st.current);
                    }
                }
            }
        }
    } else {
        // The word joins the line.
        let cur = nx.current;
        assert(cur =~= st.current + wl);
        lemma_spans_width_concat(st.current, wl);
        if st.current_width == 0 {
            assert(cur =~= wl);
            assert(one_word_line(m, plain, cur));
        }
        assert(nx.lines == st.lines);
        assert forall|i: int| 0 <= i < nx.lines.len() implies cut_before(
            m,
            plain,
            width,
            #[trigger] nx.lines[i],
            if i + 1 < nx.lines.len() {
                nx.lines[i + 1]
            } else {
                nx.current
            },
        ) by {
            if i + 1 == nx.lines.len() {
                assert(cut_before(m, plain, width, st.lines[i], st.current));
                let j = choose|j: int|
                    0 <= j < m.words.len() && spans_for(m, j, plain) is Some && st.current.len()
                        >= word_line(m, j, plain).len() && st.current.take(
                        word_line(m, j, plain).len() as int,
                    ) == #[trigger] word_line(m, j, plain) && spans_width(st.lines[i]) + word_width(
                        m,
                        j,
                        plain,
                    ) + 1 > width;
                assert(cur.take(word_line(m, j, plain).len() as int) =~= st.current.take(
                    word_line(m, j, plain).len() as int,
                ));
            }
        }
    }
}

proof fn lemma_wrap_prefix(m: TuipeModel, width: u16, plain: bool, k: int)
    requires
        0 <= k <= m.words.len(),
        widths_measured(m, plain),
        layout_prefix(m, width, k, plain) is Some,
    ensures
        wrap_inv(m, width, plain, layout_prefix(m, width, k, plain).unwrap()),
    decreases k,
{
    if k > 0 {
        lemma_wrap_prefix(m, width, plain, k - 1);
        lemma_wrap_step(m, width, plain, layout_prefix(m, width, k - 1, plain).unwrap(), k - 1);
    } else {
        assert(spans_width(Seq::<SpanModel>::empty()) == 0);
    }
}

/// Word wrapping: every line of the typing screen (plain or not) fits in
/// `width` columns unless it holds a single word, and each line ends only
/// where the word starting the next line would not have fitted after it
/// with its space. This holds where a space takes one column and every
/// word's width fits a `u16` (the widths are taken as `u16`).
pub proof fn lemma_lines_wrap(m: TuipeModel, width: u16, plain: bool)
    requires
        full_layout(m, width, plain) is Some,
    ensures
        widths_measured(m, plain) ==> {
            let lines = full_layout(m, width, plain).unwrap().0;
            &&& forall|i: int|
                0 <= i < lines.len() ==> spans_width(#[trigger] lines[i]) <= width || one_word_line(
                    m,
                    plain,
                    lines[i],
                )
            &&& forall|i: int|
                0 <= i < lines.len() - 1 ==> cut_before(m, plain, width, #[trigger] lines[i], lines[i + 1])
        },
{
    if widths_measured(m, plain) {
        let n = m.words.len() as int;
        lemma_wrap_prefix(m, width, plain, n);
        let st = layout_prefix(m, width, n, plain).unwrap();
        let lines = full_layout(m, width, plain).unwrap().0;
        assert(lines == st.lines.push(st.current));
        assert forall|i: int| 0 <= i < lines.len() implies spans_width(#[trigger] lines[i]) <= width
            || one_word_line(m, plain, lines[i]) by {
            if i < st.lines.len() {
                assert(lines[i] == st.lines[i]);
            }
        }
        assert forall|i: int| 0 <= i < lines.len() - 1 implies cut_before(
            m,
            plain,
            width,
            #[trigger] lines[i],
            lines[i + 1],
        ) by {
            assert(lines[i] == st.lines[i]);
            if i + 1 < st.lines.len() {
                assert(lines[i + 1] == st.lines[i + 1]);
            }
        }
    }
}

/// The colour a reached character gets by comparison with what was typed
/// at its position: plain when the same, red when different, dark gray when
/// nothing was typed there.
pub open spec fn compared_color(typed: Seq<char>, word: Seq<char>, j: int) -> Color {
    if j >= typed.len() {
        Color::DarkGray
    } else if typed[j] == word[j] {
        Color::Reset
    } else {
        Color::Red
    }
}

/// How the typing screen colours word `k`:
/// - a word not reached yet is one dark gray span;
/// - a word passed and typed right is one plain span;
/// - a word passed with a mistake has one span per character, each coloured
///   by comparison with what was typed at its position (red for a typo),
///   whatever the cursor in the current word;
/// - in the word being typed, the characters before the cursor are coloured
///   by comparison and the others are dark gray;
/// - in the last two cases, what was typed past the end of the word follows
///   in red.
pub proof fn lemma_word_colours(m: TuipeModel, k: int)
    requires
        0 <= k < m.words.len(),
        k <= m.word_index ==> k < m.input.len(),
        word_spans(m, k) is Some,
    ensures
        ({
            let sp = word_spans(m, k).unwrap();
            let word = m.words[k];
            &&& k > m.word_index ==> sp == seq![SpanModel { text: word, color: Color::DarkGray }]
            &&& k < m.word_index && m.input[k] == word ==> sp == seq![
                SpanModel { text: word, color: Color::Reset },
            ]
            &&& (k < m.word_index && m.input[k] != word) || k == m.word_index ==> {
                &&& sp.len() >= word.len()
                &&& forall|j: int|
                    0 <= j < word.len() ==> (#[trigger] sp[j]).text == seq![word[j]]
                        && sp[j].color == (if k < m.word_index || j < m.character_index {
                        compared_color(m.input[k], word, j)
                    } else {
                        Color::DarkGray
                    })
                &&& sp.len() > word.len() ==> sp.len() == word.len() + 1 && sp[word.len() as int]
                    == SpanModel { text: extra_text(m, k), color: Color::Red }
            }
        }),
{
}

/// The plain colouring of word `k`: a word not reached yet is one dark gray
/// span; otherwise each character reached (every character of a passed
/// word; up to and including the cursor in the current word) is plain when
/// the same character was typed at its position and red otherwise, also
/// when nothing was typed there, and the rest are dark gray.
pub proof fn lemma_plain_word_colours(m: TuipeModel, k: int)
    requires
        0 <= k < m.words.len(),
        k <= m.word_index ==> k < m.input.len(),
        plain_word_spans(m, k) is Some,
    ensures
        ({
            let sp = plain_word_spans(m, k).unwrap();
            let word = m.words[k];
            &&& k > m.word_index ==> sp == seq![SpanModel { text: word, color: Color::DarkGray }]
            &&& k <= m.word_index ==> {
                &&& sp.len() >= word.len()
                &&& forall|j: int|
                    0 <= j < word.len() ==> (#[trigger] sp[j]).text == seq![word[j]]
                        && sp[j].color == (if k < m.word_index || j <= m.character_index {
                        if j < m.input[k].len() && m.input[k][j] == word[j] {
                            Color::Reset
                        } else {
                            Color::Red
                        }
                    } else {
                        Color::DarkGray
                    })
            }
        }),
{
}

} // verus!
