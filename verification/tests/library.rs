use std::path::Path;

use sibling::factory::{BaseProbe, Config, DirsFactory};
use sibling::{Dirs, Error, Nextable, NexterType};

/// The child directories of `testdata/basic`, `a` to `z`, as the listing gives
/// them: in no particular order.
fn basic_children() -> Vec<String> {
    (b'a'..=b'z')
        .rev()
        .map(|c| format!("testdata/basic/{}", c as char))
        .collect()
}

fn listed(dir: &str, children: Vec<String>) -> BaseProbe {
    BaseProbe::Listed {
        dir: dir.to_string(),
        children,
        errors: vec![],
    }
}

/// The siblings in `testdata/basic` with the current directory `current`.
fn basic_with(current: &str) -> Dirs {
    let config = Config::new_with_wd("testdata/basic", false, current);
    DirsFactory::create_with(&config, listed("testdata/basic", basic_children()))
        .expect("Failed to create Dirs")
}

fn ends_with(path: &str, suffix: &str) -> bool {
    Path::new(path).ends_with(suffix)
}

#[test]
fn test_error_display_not_dir() {
    let err = Error::NotDir("/path/to/file".to_string());
    assert_eq!(err.message(), "/path/to/file: Not a directory".to_string());
}

#[test]
fn test_error_display_not_file() {
    let err = Error::NotFile("/path/to/file".to_string());
    assert_eq!(err.message(), "/path/to/file: Not a file".to_string());
}

#[test]
fn test_error_display_no_parent() {
    let err = Error::NoParent("/path/to/file".to_string());
    assert_eq!(err.message(), "/path/to/file: No parent directory".to_string());
}

#[test]
fn test_error_display_fatal() {
    let err = Error::Fatal("Some fatal error".into());
    assert_eq!(err.message(), "Fatal error: Some fatal error".to_string());
}

#[test]
fn test_error_display_unknown_nexter_type() {
    let err = Error::UnknownNexterType("unknown".into());
    assert_eq!(err.message(), "Unknown nexter type: unknown".to_string());
}

#[test]
fn test_error_display_io_not_found_and_array() {
    assert_eq!(Error::Io("denied".into()).message(), "I/O error: denied");
    assert_eq!(Error::NotFound("x".into()).message(), "x: Not found");
    let array = Error::Array(vec![
        Error::Io("a".into()),
        Error::NotDir("b".into()),
        Error::Array(vec![Error::Fatal("c".into())]),
    ]);
    assert_eq!(
        array.message(),
        "I/O error: a, b: Not a directory, Fatal error: c"
    );
    assert_eq!(Error::Array(vec![]).message(), "");
}

/// No directory is found from the empty [`Dirs`], with any [`NexterType`].
#[test]
fn test_empty_dirs() {
    let dirs = Dirs::new("testdata".to_string(), vec![]);
    assert!(dirs.is_empty());
    assert_eq!(dirs.len(), 0);
    assert!(dirs.current().is_none());

    for nexter in [
        NexterType::First,
        NexterType::Last,
        NexterType::Previous,
        NexterType::Next,
        NexterType::Random,
        NexterType::Keep,
    ] {
        assert!(
            dirs.next(nexter.clone()).is_none(),
            "{nexter:?}: should find no directory"
        );
    }
}

/// The current directory is unknown, hence, it is the position before the
/// first one; three steps from it point the third directory. With the current
/// directory `d`, it is the fourth of the 26 directories.
#[test]
fn lib_test_dirs_new() {
    let dirs = DirsFactory::create("testdata/basic", listed("testdata/basic", basic_children()))
        .expect("Failed to create Dirs");
    assert!(dirs.current().is_none());
    let dir = dirs
        .next_with(NexterType::Next, 3)
        .expect("Failed to get next directory");
    assert_eq!(Path::new(dir.path()).file_name().unwrap(), "c");
    assert_eq!(dirs.len(), 26);
    assert_eq!(dir.index(), 2);

    assert!(dirs.next(NexterType::Previous).is_none());
    assert!(dirs.next(NexterType::Keep).is_none());
    assert_eq!(
        dirs.next(NexterType::Next).map(|d| d.index()),
        Some(0),
        "the next of the unknown position is the first directory"
    );
}

/// The siblings of `testdata/d`: the 26 directories, with `d` the fourth.
#[test]
fn test_dirs_new() {
    let config = Config::new_with_wd("../testdata", false, "../testdata/d");
    let children = (b'a'..=b'z').map(|c| format!("../testdata/{}", c as char)).collect();
    let dirs = DirsFactory::create_with(&config, listed("../testdata", children));
    assert!(dirs.is_ok());
    let dirs = dirs.unwrap();
    assert_eq!(dirs.directories().len(), 26);
    assert_eq!(dirs.current_index(), Some(3));
}

/// The siblings of the working directory: the children of its parent, with
/// itself among them.
#[test]
fn test_dir_dot() {
    let parent_children = vec![
        "/work/sibling".to_string(),
        "/work/other".to_string(),
        "/work/another".to_string(),
    ];
    let config = Config::new_with_wd("/work", false, "/work/sibling");
    let dirs = DirsFactory::create_with(&config, listed("/work", parent_children))
        .expect("Failed to create Dirs");
    assert_eq!(
        dirs.current()
            .map(|d| Path::new(d.path()).file_name().map(|s| s.to_str().unwrap().to_string())),
        Some(Some("sibling".into()))
    );
}

/// The children of the working directory, without the current one.
#[test]
fn lib_test_dir_dot() {
    let children = vec![
        "/work/sibling/src".to_string(),
        "/work/sibling/.bin".to_string(),
        "/work/sibling/cli".to_string(),
    ];
    let dirs = DirsFactory::create(".", listed("/work/sibling", children)).expect("Failed to create Dirs");
    assert!(dirs.current().is_none());
    assert_eq!(
        dirs.next(NexterType::Next)
            .map(|d| Path::new(d.path()).file_name().unwrap().to_string_lossy().to_string()),
        Some(String::from(".bin"))
    );
}

#[test]
fn dirs_test_dirs_new() {
    let dirs = basic_with("testdata/basic/d");
    assert_eq!(dirs.len(), 26);
    assert_eq!(dirs.current().map(|d| d.index()), Some(3));
}

#[test]
fn dirs_test_dir_dot() {
    let config = Config::new_with_wd("/home/user", false, "/home/user/sibling");
    let dirs = DirsFactory::create_with(
        &config,
        listed(
            "/home/user",
            vec!["/home/user/sibling".to_string(), "/home/user/docs".to_string()],
        ),
    )
    .unwrap();
    let current = dirs.current().unwrap();
    assert_eq!(
        Path::new(current.path()).file_name().map(|s| s.to_str()),
        Some("sibling".into())
    );
}

#[test]
fn lib_test_dirs() {
    let dirs = basic_with("d");
    assert_eq!(dirs.parent(), "testdata/basic");
    assert_eq!(dirs.current().unwrap().index(), 3);
    assert!(!dirs.is_empty());
    assert_eq!(dirs.len(), 26);
}

#[test]
fn lib_test_nexter_first() {
    let dirs = basic_with("c");
    match &dirs.next(NexterType::First) {
        Some(p) => assert!(ends_with(p.path(), "testdata/basic/a")),
        None => panic!("unexpected None"),
    }
}

#[test]
fn lib_test_nexter_keep() {
    let dirs = basic_with("c");
    match dirs.next(NexterType::Keep) {
        Some(p) => assert!(ends_with(p.path(), "testdata/basic/c")),
        None => panic!("unexpected None"),
    }
}

#[test]
fn lib_test_nexter_last() {
    let dirs = basic_with("k");
    match dirs.next(NexterType::Last) {
        Some(p) => assert!(ends_with(p.path(), "testdata/basic/z")),
        None => panic!("unexpected None"),
    }
}

#[test]
fn lib_test_nexter_next() {
    let dirs = basic_with("c");
    match dirs.next(NexterType::Next) {
        Some(p) => assert!(ends_with(p.path(), "testdata/basic/d")),
        None => panic!("unexpected None"),
    }
    match dirs.next_with(NexterType::Next, 2) {
        Some(p) => assert!(ends_with(p.path(), "testdata/basic/e"), "{:?}", p.path()),
        None => panic!("unexpected None"),
    }
    match dirs.next_with(NexterType::Next, 23) {
        Some(p) => assert!(ends_with(p.path(), "testdata/basic/z"), "{:?}", p.path()),
        None => panic!("unexpected None"),
    }
    match dirs.next_with(NexterType::Next, 24) {
        None => {}
        Some(p) => panic!("unexpected {:?}", p.path()),
    }
}

#[test]
fn lib_test_nexter_prev() {
    let dirs = basic_with("k");
    match dirs.next(NexterType::Previous) {
        Some(p) => assert!(ends_with(p.path(), "testdata/basic/j")),
        None => panic!("unexpected None"),
    }
    match dirs.next_with(NexterType::Previous, 1) {
        Some(p) => assert!(ends_with(p.path(), "testdata/basic/j")),
        None => panic!("unexpected None"),
    }
    match dirs.next_with(NexterType::Previous, 4) {
        Some(p) => assert!(ends_with(p.path(), "testdata/basic/g")),
        None => panic!("unexpected None"),
    }
    match dirs.next_with(NexterType::Previous, 10) {
        Some(p) => assert!(ends_with(p.path(), "testdata/basic/a")),
        None => panic!("unexpected None"),
    }
    if let Some(p) = dirs.next_with(NexterType::Previous, 11) {
        panic!("unexpected {:?}", p.path())
    }
}

/// The negative step traverses in the opposite direction of the nexter type,
/// and the step 0 points the current directory itself.
#[test]
fn test_nexter_with_negative_step() {
    let dirs = basic_with("k");
    match dirs.next_with(NexterType::Next, -3) {
        Some(p) => assert!(ends_with(p.path(), "testdata/basic/h")),
        None => panic!("unexpected None"),
    }
    match dirs.next_with(NexterType::Previous, -3) {
        Some(p) => assert!(ends_with(p.path(), "testdata/basic/n")),
        None => panic!("unexpected None"),
    }
    match dirs.next_with(NexterType::Next, 0) {
        Some(p) => assert!(ends_with(p.path(), "testdata/basic/k")),
        None => panic!("unexpected None"),
    }
    assert!(dirs.next_with(NexterType::Next, -11).is_none());
}

/// The traversing continues from the found directory, and the [`Dirs`] built
/// from a found directory starts from it.
#[test]
fn test_continuous_traversing() {
    let dirs = basic_with("c");
    let next = dirs.next(NexterType::Next).unwrap();
    assert_eq!(next.path(), "testdata/basic/d");
    let next2 = next.next(NexterType::Next).unwrap();
    assert_eq!(next2.path(), "testdata/basic/e");
    assert_eq!(
        next.next_with(NexterType::Next, 5).map(|d| d.index()),
        dirs.next_with(NexterType::Next, 6).map(|d| d.index())
    );
    let back = dirs.next_with(NexterType::Previous, 2).unwrap();
    assert_eq!(back.path(), "testdata/basic/a");
    assert_eq!(
        back.next_with(NexterType::Previous, 1).map(|d| d.index()),
        dirs.next_with(NexterType::Previous, 3).map(|d| d.index())
    );
    assert_eq!(next.current_index(), Some(3));
    assert_eq!(next.dirs().len(), 26);
    let rebuilt = next.dirs();
    assert_eq!(rebuilt.current_index(), Some(3));
    assert_eq!(rebuilt.parent(), "testdata/basic");
    assert_eq!(
        rebuilt.next(NexterType::Previous).map(|d| d.path().to_string()),
        Some("testdata/basic/c".to_string())
    );
    let cloned = rebuilt.clone();
    assert_eq!(cloned.current_index(), Some(3));
    assert_eq!(cloned.directories(), rebuilt.directories());
}

/// `Random` finds a directory of the list, whatever the step; the step is
/// ignored by `First`, `Last`, and `Keep`, too.
#[test]
fn test_random_and_ignored_steps() {
    let dirs = basic_with("k");
    for step in [-5, 0, 1, 100] {
        let found = dirs.next_with(NexterType::Random, step).unwrap();
        assert!(found.index() < 26);
        assert_eq!(dirs.next_with(NexterType::First, step).unwrap().index(), 0);
        assert_eq!(dirs.next_with(NexterType::Last, step).unwrap().index(), 25);
        assert_eq!(dirs.next_with(NexterType::Keep, step).unwrap().index(), 10);
    }
    let one = Dirs::new("p".to_string(), vec!["p/only".to_string()]);
    assert_eq!(one.next(NexterType::Random).unwrap().path(), "p/only");
}

/// `next` with -1 is the same as `previous` with 1, and 0 is `keep`.
#[test]
fn test_opposite_directions_agree() {
    let dirs = basic_with("m");
    for step in -15..15 {
        assert_eq!(
            dirs.next_with(NexterType::Next, -step).map(|d| d.index()),
            dirs.next_with(NexterType::Previous, step).map(|d| d.index()),
            "step {step}"
        );
    }
    assert_eq!(
        dirs.next_with(NexterType::Next, 0).map(|d| d.index()),
        dirs.next(NexterType::Keep).map(|d| d.index())
    );
}

/// The names of the kinds are read in any case.
#[test]
fn test_parse_nexter_type() {
    assert_eq!(NexterType::parse("next").unwrap(), NexterType::Next);
    assert_eq!(NexterType::parse("PREVIOUS").unwrap(), NexterType::Previous);
    assert_eq!(NexterType::parse("First").unwrap(), NexterType::First);
    assert_eq!("last".parse::<NexterType>().unwrap(), NexterType::Last);
    assert_eq!("Random".parse::<NexterType>().unwrap(), NexterType::Random);
    assert_eq!("keep".parse::<NexterType>().unwrap(), NexterType::Keep);
    match NexterType::parse("sideways") {
        Err(Error::UnknownNexterType(s)) => assert_eq!(s, "sideways"),
        other => panic!("unexpected {other:?}"),
    }
}

/// Any step can be taken; only a list longer than `i32::MAX` cannot be
/// traversed by a step.
#[test]
fn test_step_fits() {
    assert!(NexterType::Next.fits(26, Some(3), 1));
    assert!(NexterType::Previous.fits(26, None, 5));
    assert!(NexterType::Previous.fits(26, Some(3), i32::MIN));
    assert!(NexterType::Next.fits(26, Some(3), i32::MAX));
    assert!(NexterType::Next.fits(26, None, i32::MIN));
    assert!(NexterType::Keep.fits(26, Some(3), i32::MIN));
    assert!(!NexterType::Next.fits(i32::MAX as usize + 1, None, 1));
    assert!(NexterType::First.fits(i32::MAX as usize + 1, None, 1));
}

/// A target beyond the range of `i32` is out of the list, and finds nothing.
#[test]
fn test_extreme_steps() {
    let dirs = basic_with("d");
    assert!(dirs.next_with(NexterType::Next, i32::MAX).is_none());
    assert!(dirs.next_with(NexterType::Next, i32::MIN).is_none());
    assert!(dirs.next_with(NexterType::Previous, i32::MIN).is_none());
    assert!(dirs.next_with(NexterType::Previous, i32::MAX).is_none());
    let unknown = Dirs::new("p".to_string(), vec!["p/a".to_string()]);
    assert!(unknown.next_with(NexterType::Next, i32::MIN).is_none());
    assert!(unknown.next_with(NexterType::Previous, i32::MIN).is_none());
    assert_eq!(unknown.next_with(NexterType::Previous, -1).map(|d| d.index()), Some(0));
    let d = dirs.next(NexterType::Last).unwrap();
    assert!(d.next_with(NexterType::Next, i32::MAX).is_none());
    assert_eq!(d.next_with(NexterType::Previous, 25).map(|x| x.index()), Some(0));
}
