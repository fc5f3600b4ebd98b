use sibling::minisib::{mini_text, parse_i32, RawOpts};
use sibling::{Dirs, Nextable};
use sibling::{Error, NexterType};

fn raw(args: &[&str]) -> RawOpts {
    RawOpts { args: args.iter().map(|a| a.to_string()).collect() }
}

#[test]
fn test_args_1() {
    let opts = raw(&["previous", "-2", "dirs.txt"]).parse().unwrap();
    assert_eq!(opts.step, -2);
    assert_eq!(opts.nexter_type, NexterType::Previous);
    assert_eq!(opts.file, Some("dirs.txt".into()));
}

#[test]
fn test_args_2() {
    let opts = raw(&["previous", "dirs.txt"]).parse().unwrap();
    assert_eq!(opts.step, 1);
    assert_eq!(opts.nexter_type, NexterType::Previous);
    assert_eq!(opts.file, Some("dirs.txt".into()));
}

#[test]
fn test_args_3() {
    let opts = raw(&["keep"]).parse().unwrap();
    assert_eq!(opts.step, 1);
    assert_eq!(opts.nexter_type, NexterType::Keep);
    assert!(opts.file.is_none());
}

#[test]
fn test_args_other_orders_and_errors() {
    let opts = raw(&["next", "dirs.txt", "+3"]).parse().unwrap();
    assert_eq!(opts.step, 3);
    assert_eq!(opts.file, Some("dirs.txt".into()));
    let opts = raw(&["Next", "-4"]).parse().unwrap();
    assert_eq!(opts.step, -4);
    assert!(opts.file.is_none());
    let fatal = |args: &[&str]| match raw(args).parse() {
        Err(Error::Fatal(m)) => m,
        other => panic!("unexpected {other:?}"),
    };
    assert_eq!(fatal(&[]), "NEXTER_TYPE is required");
    assert_eq!(fatal(&["next", "1", "2", "3"]), "Too many arguments");
    assert_eq!(fatal(&["next", "a", "b"]), "Invalid step argument");
    match raw(&["upward"]).parse() {
        Err(Error::UnknownNexterType(s)) => assert_eq!(s, "upward"),
        other => panic!("unexpected {other:?}"),
    }
}

#[test]
fn test_parse_i32() {
    for s in ["0", "7", "-7", "+7", "2147483647", "-2147483648", "0012", "-0"] {
        assert_eq!(parse_i32(s), s.parse::<i32>().ok(), "{s}");
    }
    for s in ["", "-", "+", "2147483648", "-2147483649", "1x", " 1", "99999999999999999999", "--1"] {
        assert_eq!(parse_i32(s), None, "{s}");
        assert_eq!(s.parse::<i32>().ok(), None, "{s}");
    }
}

#[test]
fn test_mini_text() {
    let entries: Vec<String> = ["p/a", "p/b", "p/c"].iter().map(|s| s.to_string()).collect();
    let dirs = Dirs::new_with_wd("p".into(), entries.clone(), "p/b".into()).unwrap();
    let shown = entries.clone();
    let found = dirs.next(NexterType::Next);
    assert_eq!(mini_text(&dirs, &found, &shown, "p"), "p/c\n3\n3\ntrue");
    let found = dirs.next_with(NexterType::Next, 0);
    assert_eq!(mini_text(&dirs, &found, &shown, "p"), "p/b\n3\n2\nfalse");
    let found = dirs.next_with(NexterType::Previous, 1);
    assert_eq!(mini_text(&dirs, &found, &shown, "p"), "p/a\n3\n1\ntrue");
    let found = dirs.next_with(NexterType::Next, 5);
    assert_eq!(mini_text(&dirs, &found, &shown, "../p"), "../p\n3\n-1\ntrue");
}
