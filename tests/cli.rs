use carp::commands::{is_white_char, parse_args, trim};
use carp::utils::{Join, One};

fn args(words: &[&str]) -> Vec<String> {
    words.iter().map(|w| w.to_string()).collect()
}

#[test]
fn parse_args_splits_flags_and_arguments() {
    let c = parse_args(&args(&["check", "serde", "-s", "toml"])).unwrap();
    assert_eq!(c.name, "check");
    assert!(c.flags.strict);
    assert!(c.flags.entry.is_none());
    assert_eq!(c.args, args(&["serde", "toml"]));
    assert_eq!(c.raw_args, "serde toml");
}

#[test]
fn parse_args_long_flags_and_entry() {
    let c = parse_args(&args(&["add", "rand", "--entry", "x", "y", "--strict"])).unwrap();
    assert!(c.flags.strict);
    assert_eq!(c.flags.entry.as_deref(), Some("y"));
    assert_eq!(c.args, args(&["rand"]));
    let c = parse_args(&args(&["add", "-e"])).unwrap();
    assert_eq!(c.flags.entry.as_deref(), Some(""));
    assert_eq!(c.raw_args, "");
}

#[test]
fn parse_args_unknown_flag() {
    let e = parse_args(&args(&["list", "a", "--frobnicate"])).err().unwrap();
    assert_eq!(e.flag, "-frobnicate");
    let e = parse_args(&args(&["list", "-"])).err().unwrap();
    assert_eq!(e.flag, "");
}

#[test]
fn parse_args_name_only() {
    let c = parse_args(&args(&["list"])).unwrap();
    assert_eq!(c.name, "list");
    assert!(!c.flags.strict);
    assert!(c.args.is_empty());
    assert_eq!(c.raw_args, "");
}

#[test]
fn join_puts_joiner_between() {
    assert_eq!(Join::join(&args(&["a", "b", "c"]), ","), "a,b,c");
    assert_eq!(Join::join(&args(&["only"]), ", "), "only");
    assert_eq!(Join::join(&Vec::<String>::new(), ","), "");
}

#[test]
fn one_takes_first_accepted() {
    let v = vec![1u32, 4, 6, 9];
    assert_eq!(One::one(v.clone(), |x: &u32| *x % 2 == 0), Some(4));
    assert_eq!(One::one(v, |x: &u32| *x > 100), None);
}

#[test]
fn trim_removes_unicode_whitespace_at_ends() {
    assert_eq!(trim("  a b \t\n"), "a b");
    assert_eq!(trim("\u{3000}x\u{2028}"), "x");
    assert_eq!(trim("   "), "");
    assert_eq!(trim(""), "");
    assert_eq!(trim("x\u{200B}"), "x\u{200B}");
    assert!(is_white_char('\u{85}'));
    assert!(!is_white_char('a'));
}

#[test]
fn parse_args_raw_args_trimmed() {
    let c = parse_args(&args(&["add", " lead", "tail "])).unwrap();
    assert_eq!(c.raw_args, "lead tail");
}
