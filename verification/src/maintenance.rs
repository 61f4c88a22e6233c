use vstd::prelude::*;
use chrono::SubsecRound;
use crate::session::strings_view;

verus! {

/// The columns the results table needs, with their SQL types, in order.
pub open spec fn required_columns() -> Seq<(Seq<char>, Seq<char>)> {
    seq![
        ("wpm"@, "REAl"@),
        ("raw_wpm"@, "REAL"@),
        ("accuracy"@, "REAL"@),
        ("test_type"@, "TEXT"@),
        ("language"@, "TEXT"@),
        ("capital_letters"@, "BOOLEAN"@),
        ("characters_typed"@, "INTEGER"@),
        ("time"@, "INTEGER"@),
    ]
}

/// The required columns among the first `k` that `existing` lacks, in order.
pub open spec fn missing_from(existing: Seq<Seq<char>>, k: int) -> Seq<(Seq<char>, Seq<char>)>
    decreases k,
{
    if k <= 0 {
        Seq::empty()
    } else {
        let prev = missing_from(existing, k - 1);
        let col = required_columns()[k - 1];
        if existing.contains(col.0) {
            prev
        } else {
            prev.push(col)
        }
    }
}

/// Each of the first `k` required columns whose name `existing` lacks is
/// among the missing ones.
proof fn lemma_missing_from_members(existing: Seq<Seq<char>>, k: int)
    requires
        0 <= k <= 8,
    ensures
        forall|i: int|
            0 <= i < k && !existing.contains(required_columns()[i].0) ==> missing_from(
                existing,
                k,
            ).contains(#[trigger] required_columns()[i]),
    decreases k,
{
    if k > 0 {
        lemma_missing_from_members(existing, k - 1);
        let prev = missing_from(existing, k - 1);
        let col = required_columns()[k - 1];
        if !existing.contains(col.0) {
            assert(prev.push(col)[prev.len() as int] == col);
            assert forall|i: int|
                0 <= i < k && !existing.contains(required_columns()[i].0) implies prev.push(
                col,
            ).contains(#[trigger] required_columns()[i]) by {
                if i < k - 1 {
                    let j = choose|j: int| 0 <= j < prev.len() && prev[j] == required_columns()[i];
                    assert(prev.push(col)[j] == prev[j]);
                }
            }
        }
    }
}

/// A table that has every required column lacks none of the first `k`.
proof fn lemma_missing_from_none(existing: Seq<Seq<char>>, k: int)
    requires
        0 <= k <= 8,
        forall|i: int| 0 <= i < k ==> existing.contains(#[trigger] required_columns()[i].0),
    ensures
        missing_from(existing, k) == Seq::<(Seq<char>, Seq<char>)>::empty(),
    decreases k,
{
    if k > 0 {
        assert(existing.contains(required_columns()[k - 1].0));
        lemma_missing_from_none(existing, k - 1);
    }
}

/// A table that already has every required column needs no repair, and a
/// table repaired by adding the missing columns needs no second repair.
pub proof fn lemma_repair_is_complete(existing: Seq<Seq<char>>)
    ensures
        (forall|i: int| 0 <= i < 8 ==> existing.contains(#[trigger] required_columns()[i].0))
            ==> missing_from(existing, 8) == Seq::<(Seq<char>, Seq<char>)>::empty(),
        missing_from(
            existing + missing_from(existing, 8).map_values(|c: (Seq<char>, Seq<char>)| c.0),
            8,
        ) == Seq::<(Seq<char>, Seq<char>)>::empty(),
{
    if forall|i: int| 0 <= i < 8 ==> existing.contains(#[trigger] required_columns()[i].0) {
        lemma_missing_from_none(existing, 8);
    }
    let added = missing_from(existing, 8);
    let names = added.map_values(|c: (Seq<char>, Seq<char>)| c.0);
    let repaired = existing + names;
    lemma_missing_from_members(existing, 8);
    assert forall|i: int| 0 <= i < 8 implies repaired.contains(
        #[trigger] required_columns()[i].0,
    ) by {
        let name = required_columns()[i].0;
        if existing.contains(name) {
            let j = choose|j: int| 0 <= j < existing.len() && existing[j] == name;
            assert(repaired[j] == name);
        } else {
            assert(added.contains(required_columns()[i]));
            let j = choose|j: int| 0 <= j < added.len() && added[j] == required_columns()[i];
            assert(names[j] == name);
            assert(repaired[existing.len() + j] == name);
        }
    }
    lemma_missing_from_none(repaired, 8);
}

/// The required columns that a table with columns `existing` lacks, in
/// order, each with its SQL type.
pub fn missing_columns(existing: &Vec<String>) -> (r: Vec<(&'static str, &'static str)>)
    ensures
        r@.map_values(|c: (&'static str, &'static str)| (c.0@, c.1@)) == missing_from(
            strings_view(existing@),
            8,
        ),
{
    let ghost ex = strings_view(existing@);
    let required: Vec<(&'static str, &'static str)> = vec![
        ("wpm", "REAl"),
        ("raw_wpm", "REAL"),
        ("accuracy", "REAL"),
        ("test_type", "TEXT"),
        ("language", "TEXT"),
        ("capital_letters", "BOOLEAN"),
        ("characters_typed", "INTEGER"),
        ("time", "INTEGER"),
    ];
    assert(required@.map_values(|c: (&'static str, &'static str)| (c.0@, c.1@)) =~= required_columns());
    let mut out: Vec<(&'static str, &'static str)> = Vec::new();
    let mut k: usize = 0;
    while k < required.len()
        invariant
            ex == strings_view(existing@),
            required@.len() == 8,
            required@.map_values(|c: (&'static str, &'static str)| (c.0@, c.1@)) == required_columns(),
            k <= 8,
            out@.map_values(|c: (&'static str, &'static str)| (c.0@, c.1@)) == missing_from(ex, k as int),
        decreases 8 - k,
    {
        let (name, data_type) = required[k];
        assert(required_columns()[k as int] == (name@, data_type@));
        let present = has_column(existing, name);
        if !present {
            let ghost before = out@.map_values(|c: (&'static str, &'static str)| (c.0@, c.1@));
            out.push((name, data_type));
            assert(out@.map_values(|c: (&'static str, &'static str)| (c.0@, c.1@)) =~= before.push(
                (name@, data_type@),
            ));
        }
        k = k + 1;
    }
    out
}

/// Whether `existing` holds a column named `name`.
fn has_column(existing: &Vec<String>, name: &str) -> (r: bool)
    ensures
        r == strings_view(existing@).contains(name@),
{
    let mut i: usize = 0;
    while i < existing.len()
        invariant
            i <= existing.len(),
            forall|j: int| 0 <= j < i ==> existing@[j]@ != name@,
        decreases existing.len() - i,
    {
        if crate::text::str_eq(existing[i].as_str(), name) {
            assert(strings_view(existing@)[i as int] == name@);
            return true;
        }
        i = i + 1;
    }
    assert forall|j: int| 0 <= j < strings_view(existing@).len() implies strings_view(existing@)[j]
        != name@ by {
        assert(strings_view(existing@)[j] == existing@[j]@);
    }
    false
}

/// The statement that adds column `name` of type `data_type` to the results
/// table.
pub fn alter_column_statement(name: &str, data_type: &str) -> (r: String)
    ensures
        r@ == "ALTER TABLE results ADD COLUMN "@ + name@ + " "@ + data_type@,
{
    let mut s = String::from_str("ALTER TABLE results ADD COLUMN ");
    s.append(name);
    s.append(" ");
    s.append(data_type);
    s
}

/// How a character of a timestamp appears in a log file name: `:` becomes
/// `-` and `T` becomes `_`.
pub open spec fn log_char(c: char) -> char {
    if c == ':' {
        '-'
    } else if c == 'T' {
        '_'
    } else {
        c
    }
}

/// The position of the first `+` in `s`, or its length when there is none.
pub open spec fn plus_index(s: Seq<char>) -> int {
    if exists|i: int| 0 <= i < s.len() && s[i] == '+' {
        choose|i: int| 0 <= i < s.len() && s[i] == '+' && forall|j: int| 0 <= j < i ==> s[j] != '+'
    } else {
        s.len() as int
    }
}

/// The log file name for an RFC 3339 timestamp: the timestamp up to its
/// time zone offset (the first `+`), with `:` written `-` and `T` written
/// `_`, and `.log` after it.
pub open spec fn log_name(timestamp: Seq<char>) -> Seq<char> {
    timestamp.take(plus_index(timestamp)).map_values(|c: char| log_char(c)) + ".log"@
}

/// The log file name for an RFC 3339 timestamp.
pub fn log_file_name(timestamp: &str) -> (r: String)
    ensures
        r@ == log_name(timestamp@),
{
    let ghost ts = timestamp@;
    let n = timestamp.unicode_len();
    let mut out = String::new();
    let mut i: usize = 0;
    let mut found = false;
    while i < n && !found
        invariant
            ts == timestamp@,
            n == ts.len(),
            i <= n,
            forall|j: int| 0 <= j < i ==> ts[j] != '+',
            !found ==> out@ == ts.take(i as int).map_values(|c: char| log_char(c)),
            found ==> i < n && ts[i as int] == '+' && out@ == ts.take(i as int).map_values(
                |c: char| log_char(c),
            ),
        decreases n - i + (if found {
            0int
        } else {
            1int
        }),
    {
        let c = timestamp.get_char(i);
        if c == '+' {
            found = true;
        } else {
            let mapped = if c == ':' {
                '-'
            } else if c == 'T' {
                '_'
            } else {
                c
            };
            let ghost before = out@;
            crate::text::push_char(&mut out, mapped);
            assert(ts.take(i + 1).map_values(|c: char| log_char(c)) =~= ts.take(i as int).map_values(
                |c: char| log_char(c),
            ).push(log_char(c)));
            i = i + 1;
        }
    }
    proof {
        if found {
            assert(exists|k: int| 0 <= k < ts.len() && ts[k] == '+');
            let p = plus_index(ts);
            assert(ts[p] == '+' && forall|j: int| 0 <= j < p ==> ts[j] != '+');
            assert(p == i) by {
                if p < i {
                    assert(ts[p] != '+');
                }
                if p > i {
                    assert(ts[i as int] != '+');
                }
            }
        } else {
            assert(i == n);
            assert(!exists|k: int| 0 <= k < ts.len() && ts[k] == '+');
            assert(ts.take(n as int) =~= ts);
        }
    }
    out.append(".log");
    out
}

/// An ASCII decimal digit.
pub open spec fn is_digit(c: char) -> bool {
    '0' <= c && c <= '9'
}

/// Two ASCII decimal digits at positions `i` and `i + 1` of `s`.
pub open spec fn two_digits_at(s: Seq<char>, i: int) -> bool {
    is_digit(s[i]) && is_digit(s[i + 1])
}

/// The year of an RFC 3339 timestamp: four digits, or (past the year 9999)
/// a `+` and at least four digits.
pub open spec fn rfc3339_year(y: Seq<char>) -> bool {
    ||| y.len() == 4 && forall|i: int| 0 <= i < 4 ==> is_digit(#[trigger] y[i])
    ||| y.len() >= 5 && y[0] == '+' && forall|i: int| 1 <= i < y.len() ==> is_digit(#[trigger] y[i])
}

/// What follows the year in an RFC 3339 timestamp in whole seconds with a
/// numeric offset: `-MM-DDTHH:MM:SS` and `+HH:MM` or `-HH:MM`.
pub open spec fn rfc3339_rest(t: Seq<char>) -> bool {
    &&& t.len() == 21
    &&& t[0] == '-' && two_digits_at(t, 1)
    &&& t[3] == '-' && two_digits_at(t, 4)
    &&& t[6] == 'T' && two_digits_at(t, 7)
    &&& t[9] == ':' && two_digits_at(t, 10)
    &&& t[12] == ':' && two_digits_at(t, 13)
    &&& (t[15] == '+' || t[15] == '-') && two_digits_at(t, 16)
    &&& t[18] == ':' && two_digits_at(t, 19)
}

/// An RFC 3339 timestamp in whole seconds with a numeric offset, such as
/// `1996-12-19T16:39:57-08:00`.
pub open spec fn is_rfc3339_seconds(s: Seq<char>) -> bool {
    s.len() >= 25 && rfc3339_year(s.take(s.len() - 21)) && rfc3339_rest(s.skip(s.len() - 21))
}

/// `chrono::Local::now().trunc_subsecs(0).to_rfc3339()`: the local time in
/// whole seconds as an RFC 3339 timestamp. Claimed: its shape. The year is
/// four digits, or `+` and more digits past 9999 (`Utc::now` refuses a clock
/// before 1970, so no year is negative); month, day, hour, minute and second
/// are two digits each; there is no fraction, since the nanoseconds were
/// truncated to zero (a leap second is written as second 60); the offset is
/// `+HH:MM` or `-HH:MM`, never `Z`. Which time it is depends on the clock
/// and the time zone and is left unsaid. The call panics when the system
/// clock is before 1970 or the time zone data cannot be read.
#[verifier::external_body]
fn local_timestamp() -> (r: String)
    ensures
        is_rfc3339_seconds(r@),
{
    chrono::Local::now().trunc_subsecs(0).to_rfc3339()
}

/// The name of the log file for a session started now: the log name of the
/// current local timestamp.
pub fn get_log_file_name() -> (r: String)
    ensures
        exists|timestamp: Seq<char>| is_rfc3339_seconds(timestamp) && r@ == log_name(timestamp),
{
    let ts = local_timestamp();
    log_file_name(ts.as_str())
}

} // verus!
