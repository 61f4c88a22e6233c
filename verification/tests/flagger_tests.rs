use tuipe::flagger::{parse_args, FlagError, Flagset};

fn args(list: &[&str]) -> Vec<String> {
    list.iter().map(|s| s.to_string()).collect()
}

fn set() -> Flagset {
    Flagset { flags: vec!["v", "verbose"], value_flags: vec!["depth", "d"], opt_flags: vec!["color", "c"] }
}

#[test]
fn long_short_and_plain_arguments() {
    let a = parse_args(set(), args(&["file", "--verbose", "-v", "--depth", "3", "rest"])).unwrap();
    assert_eq!(a.flags, args(&["verbose", "v"]));
    assert_eq!(a.valued_flags, vec![("depth".to_string(), "3".to_string())]);
    assert_eq!(a.normal_str, args(&["file", "rest"]));
}

#[test]
fn optional_flag_values() {
    let a = parse_args(set(), args(&["--color", "red", "--color", "--verbose", "-c"])).unwrap();
    assert_eq!(a.valued_flags, vec![("color".to_string(), "red".to_string())]);
    assert_eq!(a.flags, args(&["color", "verbose", "c"]));
    assert!(a.normal_str.is_empty());
}

#[test]
fn grouped_short_flags_take_values_in_turn() {
    let a = parse_args(set(), args(&["-vd", "7", "x"])).unwrap();
    assert_eq!(a.flags, args(&["v"]));
    assert_eq!(a.valued_flags, vec![("d".to_string(), "7".to_string())]);
    assert_eq!(a.normal_str, args(&["x"]));
}

#[test]
fn invalid_flags_are_refused() {
    assert_eq!(parse_args(set(), args(&["--nope"])).err(), Some(FlagError::InvalidFlags));
    assert_eq!(parse_args(set(), args(&["-vx"])).err(), Some(FlagError::InvalidFlags));
    assert_eq!(parse_args(set(), args(&["--depth"])).err(), Some(FlagError::InvalidFlags));
}

#[test]
fn empty_flagset_accepts_everything() {
    let empty = Flagset { flags: vec![], value_flags: vec![], opt_flags: vec![] };
    let a = parse_args(empty, args(&["--fix-database", "-ab", "x", "-"])).unwrap();
    assert_eq!(a.flags, args(&["fix-database", "a", "b"]));
    assert_eq!(a.normal_str, args(&["x"]));
}

#[test]
fn no_arguments() {
    let a = parse_args(set(), Vec::new()).unwrap();
    assert!(a.flags.is_empty() && a.valued_flags.is_empty() && a.normal_str.is_empty());
}

#[test]
fn plain_arguments_stay_in_order() {
    let a = parse_args(set(), args(&["b", "a", "c d"])).unwrap();
    assert_eq!(a.normal_str, args(&["b", "a", "c d"]));
    assert!(a.flags.is_empty() && a.valued_flags.is_empty());
}

#[test]
fn optional_flag_at_end_is_plain() {
    let a = parse_args(set(), args(&["x", "-c"])).unwrap();
    assert_eq!(a.flags, args(&["c"]));
    assert_eq!(a.normal_str, args(&["x"]));
}

#[test]
fn short_group_parses_as_separate_flags() {
    let grouped = parse_args(set(), args(&["x", "-vv", "--depth", "2", "-vc"])).unwrap();
    let split = parse_args(set(), args(&["x", "-v", "-v", "--depth", "2", "-vc"])).unwrap();
    assert_eq!(grouped.flags, split.flags);
    assert_eq!(grouped.valued_flags, split.valued_flags);
    assert_eq!(grouped.normal_str, split.normal_str);
    assert_eq!(grouped.flags, args(&["v", "v", "v", "c"]));
    let accept_all = || Flagset { flags: vec![], value_flags: vec![], opt_flags: vec![] };
    let a = parse_args(accept_all(), args(&["-abc"])).unwrap();
    let b = parse_args(accept_all(), args(&["-a", "-b", "-c"])).unwrap();
    assert_eq!(a.flags, b.flags);
    assert!(parse_args(set(), args(&["-vq"])).is_err());
    assert!(parse_args(set(), args(&["-v", "-q"])).is_err());
}
