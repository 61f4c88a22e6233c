use vstd::prelude::*;
use rand::seq::IndexedRandom;
use rand::RngExt;
use crate::options::{Language, TestType};
use crate::session::strings_view;
use crate::text::push_char;

verus! {

/// The words of a JSON array of strings, `None` when `text` is not one.
pub uninterp spec fn json_string_list(text: Seq<char>) -> Option<Seq<Seq<char>>>;

/// The lower-case form of `s`, as `str::to_lowercase` gives it.
pub uninterp spec fn lowercase(s: Seq<char>) -> Seq<char>;

/// `serde_json::from_str::<Vec<String>>`: reads a JSON array of strings.
#[verifier::external_body]
fn json_to_strings(text: &str) -> (r: Option<Vec<String>>)
    ensures
        match r {
            None => json_string_list(text@) is None,
            Some(v) => json_string_list(text@) == Some(strings_view(v@)),
        },
{
    serde_json::from_str::<Vec<String>>(text).ok()
}

/// `str::to_lowercase`: the lower-case form of a string.
#[verifier::external_body]
fn to_lowercase(s: &str) -> (r: String)
    ensures
        r@ == lowercase(s@),
{
    s.to_lowercase()
}

/// `IndexedRandom::choose` with the thread's random number generator: one
/// entry of `candidates` picked at random, `None` when there is none.
#[verifier::external_body]
fn choose_candidate(candidates: &Vec<usize>) -> (r: Option<usize>)
    ensures
        r is None <==> candidates@.len() == 0,
        r matches Some(x) ==> candidates@.contains(x),
{
    candidates.as_slice().choose(&mut rand::rng()).copied()
}

/// `RngExt::random_ratio(1, 4)` with the thread's random number generator:
/// `true` with probability one in four.
#[verifier::external_body]
fn one_in_four() -> (r: bool) {
    rand::rng().random_ratio(1, 4)
}

/// The upper-case form of an ASCII lower-case letter; any other character
/// is kept.
pub open spec fn spec_ascii_upper(c: char) -> char {
    if 'a' <= c <= 'z' {
        ((c as u32) - 32) as char
    } else {
        c
    }
}

/// The upper-case form of an ASCII lower-case letter; any other character
/// is kept.
pub fn ascii_upper(c: char) -> (r: char)
    ensures
        r == spec_ascii_upper(c),
{
    if 'a' <= c && c <= 'z' {
        let u = (c as u32) - 32;
        assert(65 <= u <= 90);
        char_from_ascii(u as u8)
    } else {
        c
    }
}

/// The character of an ASCII code.
fn char_from_ascii(b: u8) -> (r: char)
    requires
        b < 128,
    ensures
        r as u32 == b as u32,
{
    b as char
}

/// `out` is `base` with some of its ASCII letters made upper case.
pub open spec fn randomly_capitalized(out: Seq<char>, base: Seq<char>) -> bool {
    &&& out.len() == base.len()
    &&& forall|j: int| 0 <= j < base.len() ==> out[j] == base[j] || out[j] == spec_ascii_upper(base[j])
}

/// Word `k` of `out` is a word of the list: its lower-case form, with some
/// letters made upper case when `capitals` is set, and that lower-case form
/// differs from the word before it (from the empty word for the first).
pub open spec fn drawn_from(out: Seq<Seq<char>>, k: int, pool: Seq<Seq<char>>, capitals: bool) -> bool {
    exists|idx: int|
        0 <= idx < pool.len() && {
            let base = lowercase(#[trigger] pool[idx]);
            &&& (if capitals {
                randomly_capitalized(out[k], base)
            } else {
                out[k] == base
            })
            &&& base != (if k == 0 {
                Seq::<char>::empty()
            } else {
                out[k - 1]
            })
        }
}

/// The list holds two words whose lower-case forms differ.
pub open spec fn has_two_distinct(pool: Seq<Seq<char>>) -> bool {
    exists|i: int, j: int|
        0 <= i < pool.len() && 0 <= j < pool.len() && lowercase(#[trigger] pool[i])
            != lowercase(#[trigger] pool[j])
}

/// The path of the word file of `language` under the data directory.
pub open spec fn word_file(datadir: Seq<char>, language: Language) -> Seq<char> {
    datadir + match language {
        Language::English => "/languages/english.json"@,
        Language::English1k => "/languages/english_1k.json"@,
        Language::English5k => "/languages/english_5k.json"@,
        Language::English10k => "/languages/english_10k.json"@,
        Language::English25k => "/languages/english_25k.json"@,
    }
}

/// The path of the word file of `language` under the data directory.
pub fn word_file_path(datadir: &str, language: &Language) -> (r: String)
    ensures
        r@ == word_file(datadir@, *language),
{
    let mut path = String::from_str(datadir);
    match language {
        Language::English => path.append("/languages/english.json"),
        Language::English1k => path.append("/languages/english_1k.json"),
        Language::English5k => path.append("/languages/english_5k.json"),
        Language::English10k => path.append("/languages/english_10k.json"),
        Language::English25k => path.append("/languages/english_25k.json"),
    }
    path
}

/// Reads the word list of a word file, `None` when the text is not a JSON
/// array of strings.
pub fn parse_word_list(text: &str) -> (r: Option<Vec<String>>)
    ensures
        match r {
            None => json_string_list(text@) is None,
            Some(v) => json_string_list(text@) == Some(strings_view(v@)),
        },
{
    json_to_strings(text)
}

/// How many times a word is drawn from the whole list before the words
/// that may follow the previous one are listed and one of them is drawn.
const DRAW_TRIES: usize = 16;

/// The positions of the words of `lowered` other than `prev`.
fn positions_other_than(lowered: &Vec<String>, prev: &String) -> (r: Vec<usize>)
    ensures
        forall|x: usize|
            #[trigger] r@.contains(x) <==> x < lowered@.len() && lowered@[x as int]@ != prev@,
{
    let mut candidates: Vec<usize> = Vec::new();
    let mut j: usize = 0;
    while j < lowered.len()
        invariant
            j <= lowered.len(),
            forall|x: usize|
                #[trigger] candidates@.contains(x) ==> x < j && lowered@[x as int]@ != prev@,
            forall|x: usize|
                x < j && lowered@[x as int]@ != prev@ ==> #[trigger] candidates@.contains(x),
        decreases lowered.len() - j,
    {
        if lowered[j] != *prev {
            let ghost before = candidates@;
            candidates.push(j);
            proof {
                assert forall|x: usize| #[trigger] candidates@.contains(x) implies before.contains(x)
                    || x == j by {
                    vstd::seq_lib::lemma_seq_contains_after_push(before, j, x);
                }
                assert forall|x: usize| before.contains(x) || x == j implies #[trigger] candidates@.contains(
                    x,
                ) by {
                    vstd::seq_lib::lemma_seq_contains_after_push(before, j, x);
                }
            }
        }
        j = j + 1;
    }
    candidates
}

/// What a drawn position gives: the position itself when its word is not
/// `prev`, `None` when it is (the draw has to be made again).
pub fn accept_draw(lowered: &Vec<String>, prev: &String, drawn: usize) -> (r: Option<usize>)
    requires
        drawn < lowered@.len(),
    ensures
        r == (if lowered@[drawn as int]@ != prev@ {
            Some(drawn)
        } else {
            None
        }),
{
    if lowered[drawn] != *prev {
        Some(drawn)
    } else {
        None
    }
}

/// `base` with the letters at the positions where `upper` is set made upper
/// case (ASCII letters only; any other character is kept).
pub fn capitalize(base: &String, upper: &Vec<bool>) -> (r: String)
    requires
        upper@.len() == base@.len(),
    ensures
        r@ == Seq::new(
            base@.len(),
            |j: int|
                if upper@[j] {
                    spec_ascii_upper(base@[j])
                } else {
                    base@[j]
                },
        ),
{
    let len = base.as_str().unicode_len();
    let mut out = String::new();
    let mut t: usize = 0;
    while t < len
        invariant
            t <= len,
            len == base@.len(),
            upper@.len() == len,
            out@ == Seq::new(
                t as nat,
                |j: int|
                    if upper@[j] {
                        spec_ascii_upper(base@[j])
                    } else {
                        base@[j]
                    },
            ),
        decreases len - t,
    {
        let c = base.as_str().get_char(t);
        let ghost before = out@;
        if upper[t] {
            push_char(&mut out, ascii_upper(c));
        } else {
            push_char(&mut out, c);
        }
        assert(out@ =~= Seq::new(
            (t + 1) as nat,
            |j: int|
                if upper@[j] {
                    spec_ascii_upper(base@[j])
                } else {
                    base@[j]
                },
        ));
        t = t + 1;
    }
    out
}

/// A random position of a word of `lowered` other than `prev`: a position
/// drawn from all positions (`all` lists them), accepted by `accept_draw`,
/// drawn again while it hits `prev`, at most `DRAW_TRIES` times; after that
/// a position drawn from those that do not hit `prev`, likewise accepted by
/// `accept_draw`. Either way each such position is equally likely, which is
/// left unsaid here since it rests on the random draws; what is stated holds
/// of every outcome. `None` only when every word is `prev`.
fn draw_other_than(lowered: &Vec<String>, all: &Vec<usize>, prev: &String) -> (r: Option<usize>)
    requires
        all@.len() == lowered@.len(),
        forall|i: int| 0 <= i < all@.len() ==> all@[i] == i,
    ensures
        r matches Some(x) ==> x < lowered@.len() && lowered@[x as int]@ != prev@,
        r is None ==> forall|i: int| 0 <= i < lowered@.len() ==> #[trigger] lowered@[i]@ == prev@,
{
    let mut tries: usize = 0;
    while tries < DRAW_TRIES
        invariant
            all@.len() == lowered@.len(),
            forall|i: int| 0 <= i < all@.len() ==> all@[i] == i,
        decreases DRAW_TRIES - tries,
    {
        match choose_candidate(all) {
            None => break,
            Some(drawn) => {
                let ghost i = choose|i: int| 0 <= i < all@.len() && all@[i] == drawn;
                assert(drawn < lowered@.len());
                let accepted = accept_draw(lowered, prev, drawn);
                if accepted.is_some() {
                    return accepted;
                }
            },
        }
        tries = tries + 1;
    }
    let candidates = positions_other_than(lowered, prev);
    match choose_candidate(&candidates) {
        None => {
            proof {
                assert forall|i: int| 0 <= i < lowered@.len() implies #[trigger] lowered@[i]@
                    == prev@ by {
                    if lowered@[i]@ != prev@ {
                        assert(i < lowered.len());
                        assert(candidates@.contains(i as usize));
                    }
                }
            }
            None
        },
        Some(drawn) => accept_draw(lowered, prev, drawn),
    }
}

/// Draws the words of a test of type `test_type` from `pool`: each word is
/// a random word of the list in lower case, never the same as the word
/// before it, with each letter made upper case at random (one in four) when
/// `capitals` is set. The full count is drawn whenever the list holds two
/// words that differ in lower case; the drawing stops early only when no
/// word of the list can follow the last one.
pub fn get_words_as_vector(pool: &Vec<String>, test_type: &TestType, capitals: bool) -> (r: Vec<String>)
    ensures
        r@.len() <= test_type.spec_word_count(),
        has_two_distinct(strings_view(pool@)) ==> r@.len() == test_type.spec_word_count(),
        r@.len() < test_type.spec_word_count() ==> forall|idx: int|
            0 <= idx < pool@.len() ==> lowercase(#[trigger] strings_view(pool@)[idx]) == (if r@.len() == 0 {
                Seq::<char>::empty()
            } else {
                r@.last()@
            }),
        forall|k: int|
            0 <= k < r@.len() ==> drawn_from(strings_view(r@), k, strings_view(pool@), capitals),
{
    let ghost p = strings_view(pool@);
    let count = test_type.word_count();
    let mut lowered: Vec<String> = Vec::new();
    let mut all: Vec<usize> = Vec::new();
    let mut i: usize = 0;
    while i < pool.len()
        invariant
            p == strings_view(pool@),
            i <= pool.len(),
            lowered@.len() == i,
            all@.len() == i,
            forall|j: int| 0 <= j < i ==> #[trigger] lowered@[j]@ == lowercase(p[j]),
            forall|j: int| 0 <= j < i ==> all@[j] == j,
        decreases pool.len() - i,
    {
        lowered.push(to_lowercase(pool[i].as_str()));
        all.push(i);
        i = i + 1;
    }
    let mut words: Vec<String> = Vec::new();
    let mut prev_word = String::new();
    let mut n: usize = 0;
    while n < count
        invariant
            p == strings_view(pool@),
            lowered@.len() == pool@.len(),
            all@.len() == lowered@.len(),
            forall|j: int| 0 <= j < all@.len() ==> all@[j] == j,
            forall|j: int| 0 <= j < lowered@.len() ==> #[trigger] lowered@[j]@ == lowercase(p[j]),
            n <= count,
            words@.len() == n,
            prev_word@ == (if n == 0 {
                Seq::<char>::empty()
            } else {
                words@[n - 1]@
            }),
            forall|k: int| 0 <= k < n ==> drawn_from(strings_view(words@), k, p, capitals),
        ensures
            words@.len() <= count,
            has_two_distinct(p) ==> words@.len() == count,
            words@.len() < count ==> forall|idx: int|
                0 <= idx < p.len() ==> lowercase(#[trigger] p[idx]) == (if words@.len() == 0 {
                    Seq::<char>::empty()
                } else {
                    words@.last()@
                }),
            forall|k: int| 0 <= k < words@.len() ==> drawn_from(strings_view(words@), k, p, capitals),
        decreases count - n,
    {
        let chosen = match draw_other_than(&lowered, &all, &prev_word) {
            None => {
                proof {
                    assert forall|idx: int| 0 <= idx < p.len() implies lowercase(#[trigger] p[idx])
                        == prev_word@ by {
                        assert(lowered@[idx]@ == prev_word@);
                    }
                    if has_two_distinct(p) {
                        let (a, b) = choose|a: int, b: int|
                            0 <= a < p.len() && 0 <= b < p.len() && lowercase(#[trigger] p[a])
                                != lowercase(#[trigger] p[b]);
                        assert(lowered@[a]@ == prev_word@);
                        assert(lowered@[b]@ == prev_word@);
                    }
                }
                break;
            },
            Some(x) => x,
        };
        let base = &lowered[chosen];
        let mut new_word = String::new();
        if capitals {
            let len = base.as_str().unicode_len();
            let mut upper: Vec<bool> = Vec::new();
            let mut t: usize = 0;
            while t < len
                invariant
                    t <= len,
                    upper@.len() == t,
                decreases len - t,
            {
                upper.push(one_in_four());
                t = t + 1;
            }
            new_word = capitalize(base, &upper);
        } else {
            new_word = base.clone();
        }
        let ghost old_words = strings_view(words@);
        words.push(new_word.clone());
        proof {
            assert(strings_view(words@) =~= old_words.push(new_word@));
            assert forall|k: int| 0 <= k < n + 1 implies drawn_from(strings_view(words@), k, p, capitals) by {
                if k < n {
                    assert(drawn_from(old_words, k, p, capitals));
                    let idx = choose|idx: int| 0 <= idx < p.len() && {
                        let base = lowercase(#[trigger] p[idx]);
                        &&& (if capitals {
                            randomly_capitalized(old_words[k], base)
                        } else {
                            old_words[k] == base
                        })
                        &&& base != (if k == 0 {
                            Seq::<char>::empty()
                        } else {
                            old_words[k - 1]
                        })
                    };
                    assert(strings_view(words@)[k] == old_words[k]);
                    if k > 0 {
                        assert(strings_view(words@)[k - 1] == old_words[k - 1]);
                    }
                    let _ = p[idx];
                } else {
                    let _ = p[chosen as int];
                    assert(base@ == lowercase(p[chosen as int]));
                }
            }
        }
        prev_word = new_word;
        n = n + 1;
    }
    words
}

} // verus!
