use sibling::command::{
    generate_init_script, is_parent_obvious, perform_impl, route, BaseOpts, EmbeddedScript,
    LogLevel, NexterOpts, Outcome, Route, Status,
};
use sibling::factory::{BaseProbe, Config, DirsFactory, EntryProbe, NotOnDirs};
use sibling::printer::{Format, PrintingOpts};
use sibling::{Dirs, Error, NexterType, Result};

fn basic_children() -> Vec<String> {
    (b'a'..=b'z')
        .map(|c| format!("testdata/basic/{}", c as char))
        .collect()
}

fn base_opts(input: &str, base_path: Option<&str>, all: bool) -> BaseOpts {
    BaseOpts {
        all,
        base_path: base_path.map(|s| s.to_string()),
        not_on_dirs: NotOnDirs::Error,
        input: input.to_string(),
    }
}

fn printing(format: Format) -> PrintingOpts {
    PrintingOpts {
        format,
        absolute: false,
        progress: false,
    }
}

fn outcome_of(dirs: &Dirs, nexter: NexterType, step: i32, format: Format) -> Outcome {
    let shown = dirs.directories().clone();
    perform_impl(dirs, &NexterOpts { step, nexter }, &printing(format), &shown)
}

/// The command on a directory of `testdata/basic`: the siblings are the
/// children of its parent, or of the base path.
fn perform_on_dir(input: &str, base_path: Option<&str>, nexter: NexterType, step: i32, format: Format) -> Result<Outcome> {
    assert_eq!(route(input, true, false)?, Route::Siblings);
    let config = base_opts(input, base_path, false).config(input, true)?;
    assert_eq!(config.base_dir, "testdata/basic");
    let probe = BaseProbe::Listed {
        dir: config.base_dir.clone(),
        children: basic_children(),
        errors: vec![],
    };
    let dirs = DirsFactory::create_with(&config, probe)?;
    Ok(outcome_of(&dirs, nexter, step, format))
}

/// The command on a list of directories, given as its lines; `existing`
/// tells which candidates exist.
fn perform_on_list(
    input: &str,
    lines: &[&str],
    all: bool,
    existing: &[&str],
    nexter: NexterType,
    format: Format,
) -> Result<Outcome> {
    assert_eq!(route(input, false, true)?, Route::List);
    let config = base_opts(input, None, all).config(input, false)?;
    let lines: Vec<String> = lines.iter().map(|l| l.to_string()).collect();
    let plan = DirsFactory::plan_list(&lines, &config);
    let probes: Vec<EntryProbe> = plan
        .candidates
        .iter()
        .map(|c| EntryProbe {
            exists: existing.contains(&c.as_str()),
            canonical: None,
        })
        .collect();
    let dirs = DirsFactory::create_from_plan(plan, &probes, &None, &config)?;
    Ok(outcome_of(&dirs, nexter, 1, format))
}

const NO_EXIST_LIST: [&str; 3] = ["# none of them exists", "no_such_dir_b", "no_such_dir_c"];

const DIRLIST: [&str; 5] = [
    "# the list of testdata/basic",
    "parent: testdata/basic",
    "current: testdata/basic/a",
    "b",
    "c",
];

/// The working directory `.` finds its siblings; whether one is found depends
/// on where it is, hence, the result is only printed.
#[test]
fn test_nexter_example() {
    let opts = base_opts(".", None, false);
    assert_eq!(route(&opts.input, false, false).unwrap(), Route::Siblings);
    let config = opts.config("/work/sibling", true).expect("the working directory has a parent");
    let probe = BaseProbe::Listed {
        dir: config.base_dir.clone(),
        children: vec!["/work/sibling".to_string(), "/work/other".to_string()],
        errors: vec![],
    };
    let r = vec![DirsFactory::create_with(&config, probe)
        .map(|dirs| outcome_of(&dirs, NexterType::Next, 1, Format::Default))];
    assert_eq!(r.len(), 1);
    match r.first().unwrap() {
        Err(e) => println!("{}", e.message()),
        Ok(result) => println!("{}", result.text),
    }
}

/// The `DIR` argument is the target directory itself, and its siblings are
/// the child directories of its parent directory.
#[test]
fn main_test_nexter_example() {
    let r = perform_on_dir("testdata/basic/c", None, NexterType::Next, 1, Format::Default).unwrap();
    assert_eq!(r.text, "testdata/basic/d");
    assert_eq!(r.status, Status::Success);
}

#[test]
fn test_previous() {
    let r = perform_on_dir("testdata/basic/c", None, NexterType::Previous, 2, Format::Default).unwrap();
    assert_eq!(r.text, "testdata/basic/a");
    assert_eq!(r.status, Status::Success);
}

/// The `--base-path` option overrides the parent directory of the `DIR` argument.
#[test]
fn test_base_path() {
    let r = perform_on_dir("testdata/basic/c", Some("testdata/basic"), NexterType::Next, 1, Format::Default).unwrap();
    assert_eq!(r.text, "testdata/basic/d");
    assert_eq!(r.status, Status::Success);
}

/// The `default` format prints nothing when no more sibling directory was found.
#[test]
fn test_no_more_siblings() {
    let r = perform_on_dir("testdata/basic/z", None, NexterType::Next, 1, Format::Default).unwrap();
    assert_eq!(r.text, "");
    assert_eq!(r.status, Status::NoMoreSibling);
}

/// The other formats print the result even if no more sibling directory was found.
#[test]
fn test_no_more_siblings_in_csv() {
    let r = perform_on_dir("testdata/basic/z", None, NexterType::Next, 1, Format::Csv).unwrap();
    assert_eq!(r.text, r#""testdata/basic/z","",26,-1,26"#);
    assert_eq!(r.status, Status::NoMoreSibling);
}

/// Every directory in the list file is skipped since none of them exists.
/// The resultant list is empty, and it must not panic with any format and type.
#[test]
fn test_empty_list() {
    for nexter in ["first", "last", "previous", "next", "random", "keep"] {
        let kind = NexterType::parse(nexter).unwrap();
        let r = perform_on_list("testdata/no_exist_list.txt", &NO_EXIST_LIST, false, &[], kind, Format::Default).unwrap();
        assert_eq!(r.text, "", "--type {nexter}");
        assert_eq!(r.status, Status::NoMoreSibling, "--type {nexter}");
    }
}

#[test]
fn test_empty_list_in_json() {
    let r = perform_on_list("testdata/no_exist_list.txt", &NO_EXIST_LIST, false, &[], NexterType::Next, Format::Json).unwrap();
    assert_eq!(
        r.text,
        r#"{"current":{"path":"","index":-1},"next":{"path":"","index":-1},"total":0}"#
    );
    assert_eq!(r.status, Status::NoMoreSibling);
}

#[test]
fn test_empty_list_in_csv() {
    let r = perform_on_list("testdata/no_exist_list.txt", &NO_EXIST_LIST, false, &[], NexterType::Next, Format::Csv).unwrap();
    assert_eq!(r.text, r#""","",-1,-1,0"#);
    assert_eq!(r.status, Status::NoMoreSibling);
}

/// The `--all` option makes the non-existent directories the targets.
#[test]
fn test_no_exist_list_with_all() {
    let r = perform_on_list("testdata/no_exist_list.txt", &NO_EXIST_LIST, true, &[], NexterType::Next, Format::Default).unwrap();
    assert_eq!(r.text, "testdata/no_such_dir_b");
    assert_eq!(r.status, Status::Success);
}

#[test]
fn test_not_found() {
    let r = route("testdata/basic/not_exist_dir", false, false);
    assert!(r.is_err());
    match r {
        Err(Error::Fatal(m)) => assert_eq!(m, "testdata/basic/not_exist_dir: No such file or directory"),
        other => panic!("unexpected {other:?}"),
    }
}

/// The root directory has no parent directory, hence, it has no siblings.
#[test]
fn test_no_parent() {
    assert!(!is_parent_obvious("/"));
    let r = base_opts("/", None, false).config("/", true);
    assert!(matches!(r, Err(Error::NoParent(_))));
}

/// The list of the older form: the entry before the current one is the
/// previous directory.
#[test]
fn test_from_file() {
    let lines = ["parent: testdata/basic", "a", "current: testdata/basic/b", "c"];
    let existing = ["testdata/basic/a", "testdata/basic/b", "testdata/basic/c"];
    let r = perform_on_list("testdata/basic/dirlist.txt", &lines, false, &existing, NexterType::Previous, Format::Default);
    match r {
        Err(e) => println!("{}", e.message()),
        Ok(result) => assert_eq!(result.text, "testdata/basic/a"),
    }
}

#[test]
fn main_test_from_file() {
    let existing = ["testdata/basic/a", "testdata/basic/b", "testdata/basic/c"];
    let r = perform_on_list("testdata/basic/dirlist.txt", &DIRLIST, false, &existing, NexterType::Next, Format::Default).unwrap();
    assert_eq!(r.text, "testdata/basic/b");
    assert_eq!(r.status, Status::Success);
}

/// The list and the json formats, the progress, and the escaping of the paths.
#[test]
fn test_formats() {
    let dirs = Dirs::new_with_wd(
        "base".to_string(),
        vec!["base/a".to_string(), "base/b\"q".to_string(), "base/c\\d".to_string()],
        "base/a".to_string(),
    )
    .unwrap();
    let r = outcome_of(&dirs, NexterType::Next, 1, Format::List);
    assert_eq!(r.text, "   1 * base/a\n   2 > base/b\"q\n   3   base/c\\d");
    let r = outcome_of(&dirs, NexterType::Next, 1, Format::Json);
    assert_eq!(
        r.text,
        r#"{"current":{"path":"base/a","index":1},"next":{"path":"base/b\"q","index":2},"total":3}"#
    );
    let r = outcome_of(&dirs, NexterType::Last, 1, Format::Csv);
    assert_eq!(r.text, r#""base/a","base/c\d",1,3,3"#);
    let r = outcome_of(&dirs, NexterType::Next, 1, Format::Csv);
    assert_eq!(r.text, r#""base/a","base/b""q",1,2,3"#);
    let shown = dirs.directories().clone();
    let opts = PrintingOpts { format: Format::Default, absolute: false, progress: true };
    let r = perform_impl(&dirs, &NexterOpts { step: 2, nexter: NexterType::Next }, &opts, &shown);
    assert_eq!(r.text, "base/c\\d (3/3)");
    assert_eq!(r.status, Status::Success);
    let r = outcome_of(&dirs, NexterType::Previous, 1, Format::List);
    assert_eq!(r.status, Status::NoMoreSibling);
    assert_eq!(r.text, "   1 * base/a\n   2   base/b\"q\n   3   base/c\\d");
    let control = Dirs::new_with_wd("b".to_string(), vec!["b/x\ty".to_string()], "b/x\ty".to_string()).unwrap();
    let r = outcome_of(&control, NexterType::Keep, 1, Format::Json);
    assert_eq!(r.text, r#"{"current":{"path":"b/x\u0009y","index":1},"next":{"path":"b/x\u0009y","index":1},"total":1}"#);
}

/// The list format numbers the entries in four columns, and more when needed.
#[test]
fn test_list_numbers() {
    let entries: Vec<String> = (0..12000).map(|i| format!("d{i}")).collect();
    let dirs = Dirs::new("p".to_string(), entries);
    let r = outcome_of(&dirs, NexterType::Last, 1, Format::List);
    assert!(r.text.starts_with("   1   d0\n   2   d1\n"));
    assert!(r.text.ends_with("\n11999   d11998\n12000 > d11999"));
}

fn scripts() -> Vec<EmbeddedScript> {
    let text = |shell: &str| {
        Some(format!(
            "# {shell}\ncdnext() {{}}\ncdprev() {{}}\ncdfirst() {{}}\ncdlast() {{}}\ncdrand() {{}}\n"
        ))
    };
    vec![
        EmbeddedScript { name: "init.bash".into(), text: text("bash") },
        EmbeddedScript { name: "init.fish".into(), text: text("fish") },
        EmbeddedScript { name: "init.ps1".into(), text: text("powershell") },
        EmbeddedScript { name: "init.elv".into(), text: text("elvish") },
    ]
}

/// Every supported shell gets the script which defines the utility commands.
#[test]
fn test_generate_init_script() {
    let scripts = scripts();
    for shell in ["bash", "zsh", "Bash", "fish", "powershell", "pwsh", "elvish", "elv"] {
        let script = generate_init_script(shell, &scripts)
            .unwrap_or_else(|e| panic!("{shell}: failed to generate the script: {}", e.message()));
        for command in ["cdnext", "cdprev", "cdfirst", "cdlast", "cdrand"] {
            assert!(script.contains(command), "{shell}: {command} is not defined");
        }
    }
}

/// The bash script is shared with zsh, while the others are their own.
#[test]
fn test_generate_init_script_of_each_shell() {
    let scripts = scripts();
    let bash = generate_init_script("bash", &scripts).unwrap();
    assert_eq!(generate_init_script("zsh", &scripts).unwrap(), bash);
    assert_eq!(
        generate_init_script("powershell", &scripts).unwrap(),
        generate_init_script("pwsh", &scripts).unwrap()
    );
    assert_eq!(
        generate_init_script("elvish", &scripts).unwrap(),
        generate_init_script("elv", &scripts).unwrap()
    );
    for shell in ["fish", "powershell", "elvish"] {
        assert_ne!(generate_init_script(shell, &scripts).unwrap(), bash, "{shell}");
    }
}

#[test]
fn test_generate_init_script_with_unsupported_shell() {
    let e = generate_init_script("csh", &scripts()).expect_err("csh should be unsupported");
    assert!(e.message().contains("csh: Unsupported shell"));
}

/// A script that is missing or not valid UTF-8 is an error.
#[test]
fn test_generate_init_script_broken() {
    let scripts = vec![EmbeddedScript { name: "init.fish".into(), text: None }];
    match generate_init_script("fish", &scripts) {
        Err(Error::Fatal(m)) => assert_eq!(m, "init.fish: Invalid script"),
        other => panic!("unexpected {other:?}"),
    }
    match generate_init_script("bash", &scripts) {
        Err(Error::NotFound(p)) => assert_eq!(p, "init.bash"),
        other => panic!("unexpected {other:?}"),
    }
}

#[test]
fn test_route_and_parent() {
    assert_eq!(route(".", false, false).unwrap(), Route::Siblings);
    assert_eq!(route("-", false, false).unwrap(), Route::List);
    assert!(is_parent_obvious("testdata/basic/c"));
    assert!(!is_parent_obvious("c"));
    assert!(!is_parent_obvious("."));
    assert!(!is_parent_obvious("../c"));
    assert!(!is_parent_obvious("./c"));
    assert!(is_parent_obvious("a/./c"), "the components skip an inner `.`");
    let config = base_opts("x", None, true).config("testdata/list.txt", false).unwrap();
    assert_eq!(config.base_dir, "testdata");
    assert!(config.all_target);
    assert!(config.current.is_none());
    let mut opts = base_opts("x", None, false);
    opts.not_on_dirs = NotOnDirs::BeforeFirst;
    let config = opts.config("a/b", true).unwrap();
    assert_eq!(config.current.as_deref(), Some("a/b"));
    assert_eq!(config.not_on_dirs, NotOnDirs::BeforeFirst);
}

#[test]
fn test_status_and_log_level() {
    assert_eq!(Status::Success.code(), 0);
    assert_eq!(Status::NoMoreSibling.code(), 1);
    assert_eq!(Status::Error.code(), 3);
    assert_eq!(LogLevel::Error.filter(), "error");
    assert_eq!(LogLevel::Warn.filter(), "warn");
    assert_eq!(LogLevel::Info.filter(), "info");
    assert_eq!(LogLevel::Debug.filter(), "debug");
    assert_eq!(LogLevel::Trace.filter(), "trace");
    let _ = Config::new(".", false);
}
