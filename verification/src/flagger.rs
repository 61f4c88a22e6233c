use vstd::prelude::*;
use crate::session::strings_view;
use crate::text::{push_char, str_eq};

verus! {

/// The flags a program accepts.
///
/// `flags` are plain on/off flags, `value_flags` always take the argument
/// after them as their value (`--depth 1`), and `opt_flags` take the next
/// argument as their value unless it is missing or is itself a flag (starts
/// with `-`), in which case they act as plain flags. When all three lists are
/// empty every flag is accepted as a plain flag.
pub struct Flagset {
    pub flags: Vec<&'static str>,
    pub value_flags: Vec<&'static str>,
    pub opt_flags: Vec<&'static str>,
}

/// The parsed arguments: plain flags (and optional flags that got no value),
/// flags with their values, and the other arguments, in the order given.
/// Arguments taken as a flag's value are not among the other arguments.
pub struct Arguments {
    pub flags: Vec<String>,
    pub valued_flags: Vec<(String, String)>,
    pub normal_str: Vec<String>,
}

/// Why the arguments were refused.
#[derive(Clone, Copy, Debug, PartialEq, Eq, Structural)]
pub enum FlagError {
    /// A flag is not among the accepted ones, or a flag that needs a value
    /// is the last argument.
    InvalidFlags,
}

/// The abstract content of a `Flagset`.
pub struct FlagsetModel {
    pub flags: Seq<Seq<char>>,
    pub value_flags: Seq<Seq<char>>,
    pub opt_flags: Seq<Seq<char>>,
}

/// The character sequences of a list of string slices.
pub open spec fn strs_view(v: Seq<&'static str>) -> Seq<Seq<char>> {
    v.map_values(|s: &'static str| s@)
}

impl Flagset {
    /// The abstract content of this flag set.
    pub open spec fn model(&self) -> FlagsetModel {
        FlagsetModel {
            flags: strs_view(self.flags@),
            value_flags: strs_view(self.value_flags@),
            opt_flags: strs_view(self.opt_flags@),
        }
    }
}

impl FlagsetModel {
    /// No flag is listed, so every flag is accepted.
    pub open spec fn accepts_all(self) -> bool {
        self.flags.len() == 0 && self.value_flags.len() == 0 && self.opt_flags.len() == 0
    }
}

/// The arguments parsed so far, and whether an invalid flag was met.
pub struct ParseModel {
    pub flags: Seq<Seq<char>>,
    pub valued_flags: Seq<(Seq<char>, Seq<char>)>,
    pub normal_str: Seq<Seq<char>>,
    pub invalid: bool,
}

/// Nothing parsed yet.
pub open spec fn empty_parse() -> ParseModel {
    ParseModel {
        flags: Seq::empty(),
        valued_flags: Seq::empty(),
        normal_str: Seq::empty(),
        invalid: false,
    }
}

/// The argument starts with `-`.
pub open spec fn starts_with_dash(s: Seq<char>) -> bool {
    s.len() > 0 && s[0] == '-'
}

/// The argument starts with `--`.
pub open spec fn starts_with_double_dash(s: Seq<char>) -> bool {
    s.len() >= 2 && s[0] == '-' && s[1] == '-'
}

/// `flag`, met at argument `num`, takes the next argument as its value.
pub open spec fn takes_value(set: FlagsetModel, args: Seq<Seq<char>>, flag: Seq<char>, num: int) -> bool {
    ||| set.value_flags.contains(flag)
    ||| set.opt_flags.contains(flag) && num + 1 < args.len() && !starts_with_dash(args[num + 1])
}

/// Handles one flag met at argument `num`: records it with the next argument
/// as its value, or as a plain flag, or marks the arguments invalid. Also
/// gives the index of the last argument used.
pub open spec fn handle_flag(
    set: FlagsetModel,
    args: Seq<Seq<char>>,
    flag: Seq<char>,
    num: int,
    st: ParseModel,
) -> (ParseModel, int) {
    if takes_value(set, args, flag, num) {
        if num + 1 < args.len() {
            (ParseModel { valued_flags: st.valued_flags.push((flag, args[num + 1])), ..st }, num + 1)
        } else {
            (ParseModel { invalid: true, ..st }, num)
        }
    } else if set.flags.contains(flag) || set.opt_flags.contains(flag) || set.accepts_all() {
        (ParseModel { flags: st.flags.push(flag), ..st }, num)
    } else {
        (ParseModel { invalid: true, ..st }, num)
    }
}

/// Handles the first `j` characters of a group of short flags (`-abc`),
/// each as a flag of its own.
pub open spec fn handle_short(
    set: FlagsetModel,
    args: Seq<Seq<char>>,
    chars: Seq<char>,
    j: int,
    num: int,
    st: ParseModel,
) -> (ParseModel, int)
    decreases j,
{
    if j <= 0 {
        (st, num)
    } else {
        let prev = handle_short(set, args, chars, j - 1, num, st);
        handle_flag(set, args, seq![chars[j - 1]], prev.1, prev.0)
    }
}

/// Handles argument `count`: a long flag (`--name`), a group of short flags
/// (`-abc`), or another argument.
pub open spec fn parse_step(set: FlagsetModel, args: Seq<Seq<char>>, count: int, st: ParseModel) -> (
    ParseModel,
    int,
) {
    let arg = args[count];
    if starts_with_double_dash(arg) {
        handle_flag(set, args, arg.skip(2), count, st)
    } else if starts_with_dash(arg) {
        handle_short(set, args, arg.skip(1), arg.len() - 1, count, st)
    } else {
        (ParseModel { normal_str: st.normal_str.push(arg), ..st }, count)
    }
}

/// Parses the arguments from index `count` on.
pub open spec fn parse_from(set: FlagsetModel, args: Seq<Seq<char>>, count: int, st: ParseModel) -> ParseModel
    decreases args.len() - count,
{
    if count < 0 || count >= args.len() {
        st
    } else {
        let next = parse_step(set, args, count, st);
        if next.1 < count || next.1 >= args.len() {
            next.0
        } else {
            parse_from(set, args, next.1 + 1, next.0)
        }
    }
}

/// The outcome of parsing all the arguments.
pub open spec fn parse_all(set: FlagsetModel, args: Seq<Seq<char>>) -> ParseModel {
    parse_from(set, args, 0, empty_parse())
}

/// The abstract content of parsed arguments.
pub open spec fn arguments_model(a: Arguments) -> ParseModel {
    ParseModel {
        flags: strings_view(a.flags@),
        valued_flags: a.valued_flags@.map_values(|p: (String, String)| (p.0@, p.1@)),
        normal_str: strings_view(a.normal_str@),
        invalid: false,
    }
}

/// Whether `v` lists `f`.
fn listed(v: &Vec<&'static str>, f: &str) -> (r: bool)
    ensures
        r == strs_view(v@).contains(f@),
{
    let mut i: usize = 0;
    while i < v.len()
        invariant
            i <= v.len(),
            forall|j: int| 0 <= j < i ==> v@[j]@ != f@,
        decreases v.len() - i,
    {
        if str_eq(v[i], f) {
            assert(strs_view(v@)[i as int] == f@);
            return true;
        }
        i = i + 1;
    }
    assert forall|j: int| 0 <= j < strs_view(v@).len() implies strs_view(v@)[j] != f@ by {
        assert(strs_view(v@)[j] == v@[j]@);
    }
    false
}

/// The parse state while the arguments are read.
struct ParseState {
    flags: Vec<String>,
    valued_flags: Vec<(String, String)>,
    normal_str: Vec<String>,
    invalid: bool,
}

impl ParseState {
    spec fn model(&self) -> ParseModel {
        ParseModel {
            flags: strings_view(self.flags@),
            valued_flags: self.valued_flags@.map_values(|p: (String, String)| (p.0@, p.1@)),
            normal_str: strings_view(self.normal_str@),
            invalid: self.invalid,
        }
    }
}

/// Handles one flag met at argument `num`; gives the index of the last
/// argument used.
fn handle_one(input: &Flagset, args: &Vec<String>, flag: String, num: usize, st: &mut ParseState) -> (r: usize)
    requires
        num < args.len(),
    ensures
        (final(st).model(), r as int) == handle_flag(
            input.model(),
            strings_view(args@),
            flag@,
            num as int,
            old(st).model(),
        ),
        r < args.len(),
{
    let ghost a = strings_view(args@);
    let in_values = listed(&input.value_flags, flag.as_str());
    let in_opts = listed(&input.opt_flags, flag.as_str());
    let next_is_value = num + 1 < args.len() && !starts_dash(&args[num + 1]);
    if num + 1 < args.len() {
        assert(a[num + 1] == args@[num + 1]@);
    }
    if in_values || (in_opts && next_is_value) {
        if num + 1 < args.len() {
            let ghost before = st.valued_flags@;
            st.valued_flags.push((flag, args[num + 1].clone()));
            assert(st.valued_flags@.map_values(|p: (String, String)| (p.0@, p.1@)) =~= before.map_values(
                |p: (String, String)| (p.0@, p.1@),
            ).push((flag@, a[num + 1])));
            num + 1
        } else {
            st.invalid = true;
            num
        }
    } else {
        let in_flags = listed(&input.flags, flag.as_str());
        let accept_all = input.flags.len() == 0 && input.value_flags.len() == 0
            && input.opt_flags.len() == 0;
        if in_flags || in_opts || accept_all {
            let ghost before = strings_view(st.flags@);
            let ghost fv = flag@;
            st.flags.push(flag);
            assert(strings_view(st.flags@) =~= before.push(fv));
        } else {
            st.invalid = true;
        }
        num
    }
}

/// Whether the string starts with `-`.
fn starts_dash(s: &String) -> (r: bool)
    ensures
        r == starts_with_dash(s@),
{
    s.as_str().unicode_len() > 0 && s.as_str().get_char(0) == '-'
}

/// Parses the program arguments (without the program name) against the
/// accepted flags: `--name` is one flag, `-abc` is the flags `a`, `b` and
/// `c`, and anything else is a plain argument. A flag that takes a value
/// takes the argument after it. Fails when a flag is not accepted or a flag
/// that needs a value is the last argument.
pub fn parse_args(input: Flagset, args: Vec<String>) -> (r: Result<Arguments, FlagError>)
    ensures
        match r {
            Ok(a) => !parse_all(input.model(), strings_view(args@)).invalid && arguments_model(a)
                == parse_all(input.model(), strings_view(args@)),
            Err(_) => parse_all(input.model(), strings_view(args@)).invalid,
        },
{
    let ghost set = input.model();
    let ghost a = strings_view(args@);
    let mut st = ParseState {
        flags: Vec::new(),
        valued_flags: Vec::new(),
        normal_str: Vec::new(),
        invalid: false,
    };
    assert(st.model() =~= empty_parse()) by {
        assert(strings_view(st.flags@) =~= Seq::<Seq<char>>::empty());
        assert(strings_view(st.normal_str@) =~= Seq::<Seq<char>>::empty());
        assert(st.valued_flags@.map_values(|p: (String, String)| (p.0@, p.1@)) =~= Seq::<
            (Seq<char>, Seq<char>),
        >::empty());
    }
    let mut count: usize = 0;
    while count < args.len()
        invariant
            set == input.model(),
            a == strings_view(args@),
            count <= args.len(),
            parse_from(set, a, count as int, st.model()) == parse_all(set, a),
        decreases args.len() - count,
    {
        let ghost st0 = st.model();
        let arg = &args[count];
        assert(a[count as int] == arg@);
        let len = arg.as_str().unicode_len();
        let mut next = count;
        if len >= 2 && arg.as_str().get_char(0) == '-' && arg.as_str().get_char(1) == '-' {
            let flag = to_owned_range(arg, 2, len);
            assert(flag@ =~= arg@.skip(2));
            next = handle_one(&input, &args, flag, count, &mut st);
        } else if len > 0 && arg.as_str().get_char(0) == '-' {
            let ghost chars = arg@.skip(1);
            let mut j: usize = 1;
            while j < len
                invariant
                    set == input.model(),
                    a == strings_view(args@),
                    count < args.len(),
                    next < args.len(),
                    1 <= j <= len,
                    len == arg@.len(),
                    arg@ == a[count as int],
                    chars == arg@.skip(1),
                    (st.model(), next as int) == handle_short(set, a, chars, j - 1, count as int, st0),
                decreases len - j,
            {
                let c = arg.as_str().get_char(j);
                let mut flag = String::new();
                push_char(&mut flag, c);
                assert(chars[j - 1] == c);
                assert(flag@ =~= seq![chars[j - 1]]);
                next = handle_one(&input, &args, flag, next, &mut st);
                j = j + 1;
            }
        } else {
            let ghost before = strings_view(st.normal_str@);
            st.normal_str.push(arg.clone());
            assert(strings_view(st.normal_str@) =~= before.push(a[count as int]));
        }
        proof {
            lemma_parse_step_advances(set, a, count as int, st0);
        }
        assert(parse_step(set, a, count as int, st0) == (st.model(), next as int));
        count = next + 1;
    }
    if st.invalid {
        Err(FlagError::InvalidFlags)
    } else {
        Ok(Arguments { flags: st.flags, valued_flags: st.valued_flags, normal_str: st.normal_str })
    }
}

/// The characters `from..to` of `s` as a new string.
fn to_owned_range(s: &String, from: usize, to: usize) -> (r: String)
    requires
        from <= to <= s@.len(),
    ensures
        r@ == s@.subrange(from as int, to as int),
{
    s.as_str().substring_char(from, to).to_owned()
}

/// Handling a flag never goes back, and uses at most the next argument.
proof fn lemma_handle_flag_advances(set: FlagsetModel, args: Seq<Seq<char>>, flag: Seq<char>, num: int, st: ParseModel)
    requires
        0 <= num < args.len(),
    ensures
        num <= handle_flag(set, args, flag, num, st).1 < args.len(),
{
}

/// Handling a group of short flags never goes back, and stays inside the
/// arguments.
proof fn lemma_handle_short_advances(
    set: FlagsetModel,
    args: Seq<Seq<char>>,
    chars: Seq<char>,
    j: int,
    num: int,
    st: ParseModel,
)
    requires
        0 <= num < args.len(),
    ensures
        num <= handle_short(set, args, chars, j, num, st).1 < args.len(),
    decreases j,
{
    if j > 0 {
        lemma_handle_short_advances(set, args, chars, j - 1, num, st);
        let prev = handle_short(set, args, chars, j - 1, num, st);
        lemma_handle_flag_advances(set, args, seq![chars[j - 1]], prev.1, prev.0);
    }
}

/// Handling an argument never goes back, and stays inside the arguments.
proof fn lemma_parse_step_advances(set: FlagsetModel, args: Seq<Seq<char>>, count: int, st: ParseModel)
    requires
        0 <= count < args.len(),
    ensures
        count <= parse_step(set, args, count, st).1 < args.len(),
{
    let arg = args[count];
    if starts_with_double_dash(arg) {
        lemma_handle_flag_advances(set, args, arg.skip(2), count, st);
    } else if starts_with_dash(arg) {
        lemma_handle_short_advances(set, args, arg.skip(1), arg.len() - 1, count, st);
    }
}


// ---------------------------------------------------------------------------
// Laws
// ---------------------------------------------------------------------------

/// Every flag recorded so far is accepted, and with an empty flag set
/// nothing has been marked invalid.
pub open spec fn sound(set: FlagsetModel, st: ParseModel) -> bool {
    &&& forall|i: int|
        0 <= i < st.flags.len() ==> set.flags.contains(#[trigger] st.flags[i])
            || set.opt_flags.contains(st.flags[i]) || set.accepts_all()
    &&& forall|i: int|
        0 <= i < st.valued_flags.len() ==> set.value_flags.contains((#[trigger] st.valued_flags[i]).0)
            || set.opt_flags.contains(st.valued_flags[i].0)
    &&& set.accepts_all() ==> !st.invalid
}

proof fn lemma_sound_handle_flag(set: FlagsetModel, args: Seq<Seq<char>>, flag: Seq<char>, num: int, st: ParseModel)
    requires
        sound(set, st),
    ensures
        sound(set, handle_flag(set, args, flag, num, st).0),
{
    let r = handle_flag(set, args, flag, num, st).0;
    if takes_value(set, args, flag, num) && num + 1 < args.len() {
        assert forall|i: int| 0 <= i < r.valued_flags.len() implies set.value_flags.contains(
            (#[trigger] r.valued_flags[i]).0,
        ) || set.opt_flags.contains(r.valued_flags[i].0) by {
            if i < st.valued_flags.len() {
                assert(r.valued_flags[i] == st.valued_flags[i]);
            }
        }
    }
    if !takes_value(set, args, flag, num) {
        if set.accepts_all() {
            assert(!set.value_flags.contains(flag));
            assert(!set.opt_flags.contains(flag));
        }
        assert forall|i: int| 0 <= i < r.flags.len() implies set.flags.contains(#[trigger] r.flags[i])
            || set.opt_flags.contains(r.flags[i]) || set.accepts_all() by {
            if i < st.flags.len() {
                assert(r.flags[i] == st.flags[i]);
            }
        }
    }
}

proof fn lemma_sound_handle_short(
    set: FlagsetModel,
    args: Seq<Seq<char>>,
    chars: Seq<char>,
    j: int,
    num: int,
    st: ParseModel,
)
    requires
        sound(set, st),
    ensures
        sound(set, handle_short(set, args, chars, j, num, st).0),
    decreases j,
{
    if j > 0 {
        lemma_sound_handle_short(set, args, chars, j - 1, num, st);
        let prev = handle_short(set, args, chars, j - 1, num, st);
        lemma_sound_handle_flag(set, args, seq![chars[j - 1]], prev.1, prev.0);
    }
}

proof fn lemma_sound_parse_from(set: FlagsetModel, args: Seq<Seq<char>>, count: int, st: ParseModel)
    requires
        sound(set, st),
    ensures
        sound(set, parse_from(set, args, count, st)),
    decreases args.len() - count,
{
    if 0 <= count < args.len() {
        let arg = args[count];
        if starts_with_double_dash(arg) {
            lemma_sound_handle_flag(set, args, arg.skip(2), count, st);
        } else if starts_with_dash(arg) {
            lemma_sound_handle_short(set, args, arg.skip(1), arg.len() - 1, count, st);
        } else {
            let r = parse_step(set, args, count, st).0;
            assert(r.flags == st.flags && r.valued_flags == st.valued_flags);
        }
        let next = parse_step(set, args, count, st);
        if !(next.1 < count || next.1 >= args.len()) {
            lemma_sound_parse_from(set, args, next.1 + 1, next.0);
        }
    }
}

/// Only accepted flags come out of parsing: each plain flag is listed as a
/// flag or an optional flag (or the flag set is empty, which accepts every
/// flag), each flag with a value is listed as a value flag or an optional
/// flag, and with an empty flag set parsing never fails.
pub proof fn lemma_parse_only_accepted(set: FlagsetModel, args: Seq<Seq<char>>)
    ensures
        sound(set, parse_all(set, args)),
        set.accepts_all() ==> !parse_all(set, args).invalid,
        set.accepts_all() ==> parse_all(set, args).valued_flags.len() == 0,
{
    lemma_sound_parse_from(set, args, 0, empty_parse());
    let r = parse_all(set, args);
    if set.accepts_all() && r.valued_flags.len() > 0 {
        assert(set.value_flags.contains(r.valued_flags[0].0) || set.opt_flags.contains(
            r.valued_flags[0].0,
        ));
    }
}

/// `f` is written in the arguments: as a long flag `--f`, or as one letter
/// of a group of short flags.
pub open spec fn flag_in_args(args: Seq<Seq<char>>, f: Seq<char>) -> bool {
    exists|k: int, j: int|
        0 <= k < args.len() && ((starts_with_double_dash(#[trigger] args[k]) && args[k].skip(2) == f)
            || (starts_with_dash(args[k]) && !starts_with_double_dash(args[k]) && 1 <= j
            < args[k].len() && f == seq![#[trigger] args[k][j]]))
}

/// Everything recorded so far comes from the arguments: each flag (plain or
/// with a value) is written in them, and each value and each plain argument
/// is one of them.
pub open spec fn from_args(args: Seq<Seq<char>>, st: ParseModel) -> bool {
    &&& forall|i: int| 0 <= i < st.flags.len() ==> flag_in_args(args, #[trigger] st.flags[i])
    &&& forall|i: int|
        0 <= i < st.valued_flags.len() ==> flag_in_args(args, (#[trigger] st.valued_flags[i]).0)
            && args.contains(st.valued_flags[i].1)
    &&& forall|i: int| 0 <= i < st.normal_str.len() ==> args.contains(#[trigger] st.normal_str[i])
}

proof fn lemma_from_args_handle_flag(args: Seq<Seq<char>>, set: FlagsetModel, flag: Seq<char>, num: int, st: ParseModel)
    requires
        from_args(args, st),
        flag_in_args(args, flag),
        0 <= num < args.len(),
    ensures
        from_args(args, handle_flag(set, args, flag, num, st).0),
{
    let r = handle_flag(set, args, flag, num, st).0;
    if takes_value(set, args, flag, num) && num + 1 < args.len() {
        assert(args[num + 1] == args[num + 1]);
        assert forall|i: int| 0 <= i < r.valued_flags.len() implies flag_in_args(
            args,
            (#[trigger] r.valued_flags[i]).0,
        ) && args.contains(r.valued_flags[i].1) by {
            if i < st.valued_flags.len() {
                assert(r.valued_flags[i] == st.valued_flags[i]);
            } else {
                assert(r.valued_flags[i] == (flag, args[num + 1]));
            }
        }
    }
    assert forall|i: int| 0 <= i < r.flags.len() implies flag_in_args(args, #[trigger] r.flags[i]) by {
        if i < st.flags.len() {
            assert(r.flags[i] == st.flags[i]);
        }
    }
}

proof fn lemma_from_args_handle_short(
    set: FlagsetModel,
    args: Seq<Seq<char>>,
    count: int,
    j: int,
    num: int,
    st: ParseModel,
)
    requires
        from_args(args, st),
        0 <= count < args.len(),
        starts_with_dash(args[count]),
        !starts_with_double_dash(args[count]),
        0 <= j <= args[count].len() - 1,
        0 <= num < args.len(),
    ensures
        from_args(args, handle_short(set, args, args[count].skip(1), j, num, st).0),
    decreases j,
{
    if j > 0 {
        let chars = args[count].skip(1);
        lemma_from_args_handle_short(set, args, count, j - 1, num, st);
        lemma_handle_short_advances(set, args, chars, j - 1, num, st);
        let prev = handle_short(set, args, chars, j - 1, num, st);
        assert(chars[j - 1] == args[count][j]);
        assert(flag_in_args(args, seq![chars[j - 1]])) by {
            let _ = args[count][j];
        }
        lemma_from_args_handle_flag(args, set, seq![chars[j - 1]], prev.1, prev.0);
    }
}

proof fn lemma_from_args_parse_from(set: FlagsetModel, args: Seq<Seq<char>>, count: int, st: ParseModel)
    requires
        from_args(args, st),
    ensures
        from_args(args, parse_from(set, args, count, st)),
    decreases args.len() - count,
{
    if 0 <= count < args.len() {
        let arg = args[count];
        if starts_with_double_dash(arg) {
            assert(flag_in_args(args, arg.skip(2))) by {
                let _ = args[count];
            }
            lemma_from_args_handle_flag(args, set, arg.skip(2), count, st);
        } else if starts_with_dash(arg) {
            lemma_from_args_handle_short(set, args, count, arg.len() - 1, count, st);
        } else {
            let r = parse_step(set, args, count, st).0;
            assert forall|i: int| 0 <= i < r.normal_str.len() implies args.contains(
                #[trigger] r.normal_str[i],
            ) by {
                if i < st.normal_str.len() {
                    assert(r.normal_str[i] == st.normal_str[i]);
                } else {
                    assert(r.normal_str[i] == args[count]);
                }
            }
        }
        let next = parse_step(set, args, count, st);
        if !(next.1 < count || next.1 >= args.len()) {
            lemma_from_args_parse_from(set, args, next.1 + 1, next.0);
        }
    }
}

/// Only what is in the arguments comes out of parsing: every flag is written
/// in them (as `--flag`, or as a letter of a group `-abc`), and every value
/// and plain argument is one of them.
pub proof fn lemma_parse_only_from_args(set: FlagsetModel, args: Seq<Seq<char>>)
    ensures
        from_args(args, parse_all(set, args)),
{
    lemma_from_args_parse_from(set, args, 0, empty_parse());
}

proof fn lemma_plain_args_from(set: FlagsetModel, args: Seq<Seq<char>>, count: int, st: ParseModel)
    requires
        0 <= count <= args.len(),
        forall|i: int| 0 <= i < args.len() ==> !starts_with_dash(#[trigger] args[i]),
    ensures
        parse_from(set, args, count, st) == (ParseModel {
            normal_str: st.normal_str + args.subrange(count, args.len() as int),
            ..st
        }),
    decreases args.len() - count,
{
    if count < args.len() {
        let arg = args[count];
        assert(!starts_with_dash(arg));
        let next = parse_step(set, args, count, st);
        lemma_plain_args_from(set, args, count + 1, next.0);
        assert(st.normal_str.push(arg) + args.subrange(count + 1, args.len() as int) =~= st.normal_str
            + args.subrange(count, args.len() as int));
    } else {
        assert(st.normal_str + args.subrange(count, args.len() as int) =~= st.normal_str);
    }
}

/// Arguments none of which starts with `-` all come out as plain arguments,
/// in order, with no flags and no failure.
pub proof fn lemma_parse_plain_args(set: FlagsetModel, args: Seq<Seq<char>>)
    requires
        forall|i: int| 0 <= i < args.len() ==> !starts_with_dash(#[trigger] args[i]),
    ensures
        parse_all(set, args) == (ParseModel {
            flags: Seq::empty(),
            valued_flags: Seq::empty(),
            normal_str: args,
            invalid: false,
        }),
{
    lemma_plain_args_from(set, args, 0, empty_parse());
    assert(Seq::<Seq<char>>::empty() + args.subrange(0, args.len() as int) =~= args);
}

/// A group of short flags written as one argument per flag: `-a`, `-b`, ...
pub open spec fn split_group(chars: Seq<char>) -> Seq<Seq<char>> {
    Seq::new(chars.len(), |j: int| seq!['-', chars[j]])
}

/// `args` with argument `count` replaced by one argument per letter of
/// `chars`.
pub open spec fn with_group_split(args: Seq<Seq<char>>, count: int, chars: Seq<char>) -> Seq<Seq<char>> {
    args.take(count) + split_group(chars) + args.skip(count + 1)
}

/// Every letter is a plain flag letter: not `-`, and neither a value flag
/// nor an optional flag.
pub open spec fn plain_letters(set: FlagsetModel, chars: Seq<char>) -> bool {
    forall|j: int|
        0 <= j < chars.len() ==> #[trigger] chars[j] != '-' && !set.value_flags.contains(seq![chars[j]])
            && !set.opt_flags.contains(seq![chars[j]])
}

/// The state in which parsing, from argument `c` in state `st`, starts
/// argument `target`; `None` when it never starts it (it took it as a
/// flag's value, or stopped before).
pub open spec fn state_at(set: FlagsetModel, args: Seq<Seq<char>>, c: int, st: ParseModel, target: int) -> Option<ParseModel>
    decreases args.len() - c,
{
    if c == target {
        Some(st)
    } else if c < 0 || c >= args.len() || c > target {
        None
    } else {
        let next = parse_step(set, args, c, st);
        if next.1 < c || next.1 >= args.len() {
            None
        } else {
            state_at(set, args, next.1 + 1, next.0, target)
        }
    }
}

/// Parsing starts argument `count` (it is not taken as a flag's value).
pub open spec fn parse_reaches(set: FlagsetModel, args: Seq<Seq<char>>, count: int) -> bool {
    state_at(set, args, 0, empty_parse(), count) is Some
}

/// The first `j` letters of a group of plain flags, handled one by one.
pub open spec fn plain_group(set: FlagsetModel, chars: Seq<char>, j: int, st: ParseModel) -> ParseModel
    decreases j,
{
    if j <= 0 {
        st
    } else {
        let prev = plain_group(set, chars, j - 1, st);
        let flag = seq![chars[j - 1]];
        if set.flags.contains(flag) || set.opt_flags.contains(flag) || set.accepts_all() {
            ParseModel { flags: prev.flags.push(flag), ..prev }
        } else {
            ParseModel { invalid: true, ..prev }
        }
    }
}

proof fn lemma_handle_short_plain(
    set: FlagsetModel,
    args: Seq<Seq<char>>,
    chars: Seq<char>,
    j: int,
    num: int,
    st: ParseModel,
)
    requires
        0 <= j <= chars.len(),
        plain_letters(set, chars),
    ensures
        handle_short(set, args, chars, j, num, st) == (plain_group(set, chars, j, st), num),
    decreases j,
{
    if j > 0 {
        lemma_handle_short_plain(set, args, chars, j - 1, num, st);
        let c = chars[j - 1];
        assert(c != '-' && !set.value_flags.contains(seq![c]) && !set.opt_flags.contains(seq![c]));
    }
}

proof fn lemma_handle_flag_shift(set: FlagsetModel, a: Seq<Seq<char>>, f: Seq<char>, num: int, st: ParseModel, d: int)
    requires
        0 <= d <= num < a.len(),
    ensures
        handle_flag(set, a, f, num, st).0 == handle_flag(set, a.skip(d), f, num - d, st).0,
        handle_flag(set, a, f, num, st).1 == handle_flag(set, a.skip(d), f, num - d, st).1 + d,
{
    if num + 1 < a.len() {
        assert(a.skip(d)[num - d + 1] == a[num + 1]);
    }
}

proof fn lemma_handle_short_shift(
    set: FlagsetModel,
    a: Seq<Seq<char>>,
    chars: Seq<char>,
    j: int,
    num: int,
    st: ParseModel,
    d: int,
)
    requires
        0 <= d <= num < a.len(),
    ensures
        handle_short(set, a, chars, j, num, st).0 == handle_short(set, a.skip(d), chars, j, num - d, st).0,
        handle_short(set, a, chars, j, num, st).1 == handle_short(set, a.skip(d), chars, j, num - d, st).1
            + d,
    decreases j,
{
    if j > 0 {
        lemma_handle_short_shift(set, a, chars, j - 1, num, st, d);
        lemma_handle_short_advances(set, a, chars, j - 1, num, st);
        let prev = handle_short(set, a, chars, j - 1, num, st);
        lemma_handle_flag_shift(set, a, seq![chars[j - 1]], prev.1, prev.0, d);
    }
}

proof fn lemma_parse_step_shift(set: FlagsetModel, a: Seq<Seq<char>>, c: int, st: ParseModel, d: int)
    requires
        0 <= d <= c < a.len(),
    ensures
        parse_step(set, a, c, st).0 == parse_step(set, a.skip(d), c - d, st).0,
        parse_step(set, a, c, st).1 == parse_step(set, a.skip(d), c - d, st).1 + d,
{
    let arg = a[c];
    assert(a.skip(d)[c - d] == arg);
    if starts_with_double_dash(arg) {
        lemma_handle_flag_shift(set, a, arg.skip(2), c, st, d);
    } else if starts_with_dash(arg) {
        lemma_handle_short_shift(set, a, arg.skip(1), arg.len() - 1, c, st, d);
    }
}

/// Parsing from argument `c` on depends only on the arguments from `c` on.
proof fn lemma_parse_from_shift(set: FlagsetModel, a: Seq<Seq<char>>, c: int, st: ParseModel, d: int)
    requires
        0 <= d <= c,
        d <= a.len(),
    ensures
        parse_from(set, a, c, st) == parse_from(set, a.skip(d), c - d, st),
    decreases a.len() - c,
{
    assert(a.skip(d).len() == a.len() - d);
    if c < a.len() {
        lemma_parse_step_shift(set, a, c, st, d);
        lemma_parse_step_advances(set, a, c, st);
        let next = parse_step(set, a, c, st);
        if !(next.1 < c || next.1 >= a.len()) {
            lemma_parse_from_shift(set, a, next.1 + 1, next.0, d);
        }
    }
}

proof fn lemma_handle_flag_agree(
    set: FlagsetModel,
    a: Seq<Seq<char>>,
    b: Seq<Seq<char>>,
    f: Seq<char>,
    num: int,
    st: ParseModel,
    count: int,
)
    requires
        forall|i: int| 0 <= i < count ==> a[i] == b[i],
        count < a.len(),
        count < b.len(),
        starts_with_dash(a[count]) == starts_with_dash(b[count]),
        0 <= num < count,
        handle_flag(set, a, f, num, st).1 < count,
    ensures
        handle_flag(set, b, f, num, st) == handle_flag(set, a, f, num, st),
{
    if num + 1 < count {
        assert(a[num + 1] == b[num + 1]);
    }
}

proof fn lemma_handle_short_agree(
    set: FlagsetModel,
    a: Seq<Seq<char>>,
    b: Seq<Seq<char>>,
    chars: Seq<char>,
    j: int,
    num: int,
    st: ParseModel,
    count: int,
)
    requires
        forall|i: int| 0 <= i < count ==> a[i] == b[i],
        count < a.len(),
        count < b.len(),
        starts_with_dash(a[count]) == starts_with_dash(b[count]),
        0 <= num < count,
        handle_short(set, a, chars, j, num, st).1 < count,
    ensures
        handle_short(set, b, chars, j, num, st) == handle_short(set, a, chars, j, num, st),
    decreases j,
{
    if j > 0 {
        lemma_handle_short_advances(set, a, chars, j - 1, num, st);
        let prev = handle_short(set, a, chars, j - 1, num, st);
        lemma_handle_flag_advances(set, a, seq![chars[j - 1]], prev.1, prev.0);
        lemma_handle_short_agree(set, a, b, chars, j - 1, num, st, count);
        lemma_handle_flag_agree(set, a, b, seq![chars[j - 1]], prev.1, prev.0, count);
    }
}

/// Two argument lists that agree before argument `count` are parsed alike
/// up to the start of `count`.
proof fn lemma_state_at_agree(
    set: FlagsetModel,
    a: Seq<Seq<char>>,
    b: Seq<Seq<char>>,
    c: int,
    st: ParseModel,
    count: int,
)
    requires
        forall|i: int| 0 <= i < count ==> a[i] == b[i],
        count < a.len(),
        count < b.len(),
        starts_with_dash(a[count]) == starts_with_dash(b[count]),
        0 <= c,
        state_at(set, a, c, st, count) is Some,
    ensures
        state_at(set, b, c, st, count) == state_at(set, a, c, st, count),
    decreases a.len() - c,
{
    if c != count {
        let next = parse_step(set, a, c, st);
        lemma_state_at_before(set, a, next.1 + 1, next.0, count);
        assert(a[c] == b[c]);
        let arg = a[c];
        if starts_with_double_dash(arg) {
            lemma_handle_flag_agree(set, a, b, arg.skip(2), c, st, count);
        } else if starts_with_dash(arg) {
            lemma_handle_short_agree(set, a, b, arg.skip(1), arg.len() - 1, c, st, count);
        }
        assert(parse_step(set, b, c, st) == next);
        lemma_state_at_agree(set, a, b, next.1 + 1, next.0, count);
    }
}

/// Parsing can start `target` only from an argument up to it.
proof fn lemma_state_at_before(set: FlagsetModel, a: Seq<Seq<char>>, c: int, st: ParseModel, target: int)
    requires
        state_at(set, a, c, st, target) is Some,
    ensures
        c <= target,
{
}

/// Parsing from `c` goes on from the state in which it starts `target`.
proof fn lemma_state_at_parse(set: FlagsetModel, a: Seq<Seq<char>>, c: int, st: ParseModel, target: int)
    requires
        state_at(set, a, c, st, target) is Some,
    ensures
        parse_from(set, a, c, st) == parse_from(set, a, target, state_at(set, a, c, st, target).unwrap()),
    decreases a.len() - c,
{
    if c != target {
        let next = parse_step(set, a, c, st);
        lemma_state_at_parse(set, a, next.1 + 1, next.0, target);
    }
}

/// The split letters of a group, parsed from letter `j` on, end in the state
/// the whole group ends in.
proof fn lemma_split_letters(
    set: FlagsetModel,
    args: Seq<Seq<char>>,
    count: int,
    chars: Seq<char>,
    j: int,
    st: ParseModel,
)
    requires
        0 <= count < args.len(),
        0 <= j <= chars.len(),
        plain_letters(set, chars),
    ensures
        ({
            let b = with_group_split(args, count, chars);
            parse_from(set, b, count + j, plain_group(set, chars, j, st)) == parse_from(
                set,
                b,
                count + chars.len(),
                plain_group(set, chars, chars.len() as int, st),
            )
        }),
    decreases chars.len() - j,
{
    if j < chars.len() {
        let b = with_group_split(args, count, chars);
        let arg = b[count + j];
        assert(arg == seq!['-', chars[j]]);
        assert(chars[j] != '-');
        let one = arg.skip(1);
        assert(one =~= seq![chars[j]]);
        assert(plain_letters(set, one)) by {
            assert forall|q: int| 0 <= q < one.len() implies #[trigger] one[q] != '-'
                && !set.value_flags.contains(seq![one[q]]) && !set.opt_flags.contains(seq![one[q]]) by {
                assert(one[q] == chars[j]);
            }
        }
        let g = plain_group(set, chars, j, st);
        lemma_handle_short_plain(set, b, one, 1, count + j, g);
        assert(plain_group(set, one, 0, g) == g);
        assert(one[0] == chars[j]);
        assert(plain_group(set, one, 1, g) == plain_group(set, chars, j + 1, st));
        lemma_split_letters(set, args, count, chars, j + 1, st);
    }
}

/// A group of short plain flags (`-abc`) parses the same as the flags
/// written one per argument (`-a -b -c`), wherever parsing starts the group
/// as an argument (it is not taken as the value of a flag before it). The
/// letters are neither `-` nor value or optional flags.
pub proof fn lemma_short_group_splits(set: FlagsetModel, args: Seq<Seq<char>>, count: int, chars: Seq<char>)
    requires
        0 <= count < args.len(),
        args[count] == seq!['-'] + chars,
        chars.len() >= 1,
        plain_letters(set, chars),
        parse_reaches(set, args, count),
    ensures
        parse_all(set, with_group_split(args, count, chars)) == parse_all(set, args),
{
    let b = with_group_split(args, count, chars);
    let l = chars.len() as int;
    assert(b.len() == args.len() + l - 1);
    assert forall|i: int| 0 <= i < count implies args[i] == b[i] by {
        assert(b[i] == args.take(count)[i]);
    }
    assert(b[count] == seq!['-', chars[0]]);
    assert(chars[0] != '-');
    let s = state_at(set, args, 0, empty_parse(), count).unwrap();
    lemma_state_at_agree(set, args, b, 0, empty_parse(), count);
    lemma_state_at_parse(set, args, 0, empty_parse(), count);
    lemma_state_at_parse(set, b, 0, empty_parse(), count);
    // The group in one argument.
    let arg = args[count];
    assert(arg.skip(1) =~= chars);
    assert(!starts_with_double_dash(arg));
    lemma_handle_short_plain(set, args, chars, l, count, s);
    let g = plain_group(set, chars, l, s);
    assert(parse_from(set, args, count, s) == parse_from(set, args, count + 1, g));
    // The group one letter per argument.
    lemma_split_letters(set, args, count, chars, 0, s);
    assert(plain_group(set, chars, 0, s) == s);
    // What follows the group.
    lemma_parse_from_shift(set, args, count + 1, g, count + 1);
    lemma_parse_from_shift(set, b, count + l, g, count + l);
    assert(args.skip(count + 1) =~= b.skip(count + l));
}

} // verus!
